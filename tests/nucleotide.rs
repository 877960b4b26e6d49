use rustbiome::nucleotide::{unwrap_nucleotide_name_get, unwrap_nucleotide_value_get, Nucleotide};
use rustbiome::BiomeError;

#[test]
fn lib_verify_nucleotide_map() {
    match unwrap_nucleotide_name_get(0x00) {
        Ok(name) => assert_eq!("U", name),
        Err(_) => assert!(false),
    };
    match unwrap_nucleotide_name_get(0x01) {
        Ok(name) => assert_eq!("C", name),
        Err(_) => assert!(false),
    };
    match unwrap_nucleotide_name_get(0x02) {
        Ok(name) => assert_eq!("A", name),
        Err(_) => assert!(false),
    };
    match unwrap_nucleotide_name_get(0x03) {
        Ok(name) => assert_eq!("G", name),
        Err(_) => assert!(false),
    };
}

#[test]
fn lib_it_works() {
    assert_eq!(2 + 2, 4);
}

#[test]
fn nucleotide_verify_nucleotide_map() {
    match unwrap_nucleotide_name_get(0x00) {
        Ok(name) => assert_eq!("U", name),
        Err(_) => assert!(false),
    };
    match unwrap_nucleotide_name_get(0x01) {
        Ok(name) => assert_eq!("C", name),
        Err(_) => assert!(false),
    };
    match unwrap_nucleotide_name_get(0x02) {
        Ok(name) => assert_eq!("A", name),
        Err(_) => assert!(false),
    };
    match unwrap_nucleotide_name_get(0x03) {
        Ok(name) => assert_eq!("G", name),
        Err(_) => assert!(false),
    };
}

#[test]
fn verify_nucleotide_equality() {
    let u = Nucleotide::from_char('U').unwrap();
    let u_clone = u.clone();
    let a = Nucleotide::from_char('A').unwrap();
    let other_a = Nucleotide::from_char('A').unwrap();
    let g = Nucleotide::from_char('G').unwrap();

    assert_eq!(u, u_clone);
    assert_eq!(a, other_a);
    assert_ne!(a, g);
}

#[test]
fn equality_ignores_high_bits() {
    let a = Nucleotide::from_char('A').unwrap();
    let a_high = Nucleotide { value: 0b1111_0010 };
    let g_high = Nucleotide { value: 0b1000_0011 };
    assert_eq!(a, a_high);
    assert_ne!(a, g_high);
    assert_ne!(a_high, g_high);
}

#[test]
fn codes_round_trip_through_names() {
    for c in ['U', 'C', 'A', 'G'] {
        let code = unwrap_nucleotide_value_get(c).unwrap();
        let name = unwrap_nucleotide_name_get(code).unwrap();
        assert_eq!(name.chars().collect::<Vec<char>>(), vec![c]);
    }
    assert_eq!(unwrap_nucleotide_value_get('U'), Ok(0));
    assert_eq!(unwrap_nucleotide_value_get('C'), Ok(1));
    assert_eq!(unwrap_nucleotide_value_get('A'), Ok(2));
    assert_eq!(unwrap_nucleotide_value_get('G'), Ok(3));
}

#[test]
fn unknown_symbols_are_rejected() {
    assert_eq!(unwrap_nucleotide_value_get('X'), Err(BiomeError::UnknownSymbol));
    assert_eq!(unwrap_nucleotide_value_get('u'), Err(BiomeError::UnknownSymbol));
    assert_eq!(unwrap_nucleotide_value_get('T'), Err(BiomeError::UnknownSymbol));
    assert_eq!(unwrap_nucleotide_name_get(4), Err(BiomeError::UnknownSymbol));
    assert_eq!(unwrap_nucleotide_name_get(255), Err(BiomeError::UnknownSymbol));
    assert_eq!(Nucleotide::from_char('X'), Err(BiomeError::UnknownSymbol));
}

#[test]
fn nucleotide_names() {
    assert_eq!(Nucleotide { value: 2 }.name(), Ok("A"));
    assert_eq!(Nucleotide { value: 6 }.name(), Err(BiomeError::UnknownSymbol));
}
