use rustbiome::buffer::SIMDBuffer;
use rustbiome::codon::{Codon, CodonBuffer};
use rustbiome::genetic_code::{GeneticCode, StandardCode};
use rustbiome::nucleotide::Nucleotide;
use rustbiome::BiomeError;

fn text_of(buffer: &CodonBuffer<StandardCode>) -> String {
    buffer.to_text().unwrap().iter().collect()
}

fn codon_strings(codons: &[Codon]) -> Vec<String> {
    codons.iter().map(|c| c.names().iter().collect()).collect()
}

#[test]
fn verify_codon() {
    let a = Nucleotide::from_char('A').unwrap();
    let u = Nucleotide::from_char('U').unwrap();
    let g = Nucleotide::from_char('G').unwrap();

    let codon = Codon::from_nucleotides(&a, &u, &g);
    let retrieved_nucleotides = codon.to_nucleotides();

    assert_eq!(a, retrieved_nucleotides[0]);
    assert_eq!(u, retrieved_nucleotides[1]);
    assert_eq!(g, retrieved_nucleotides[2]);
}

#[test]
fn codon_it_works() {
    assert_eq!(2 + 2, 4);
}

#[test]
fn test_codon_buffer_simple() {
    let input_buffer = ['A', 'U', 'G', 'G', 'A', 'C'];
    let codon_buffer: CodonBuffer<StandardCode> = CodonBuffer::from_chars(&input_buffer[..]).unwrap();

    assert_eq!("[AUG, GAC]", text_of(&codon_buffer));
}

#[test]
fn two_codons_in_order() {
    let input = ['A', 'U', 'G', 'G', 'A', 'C'];
    let buffer: CodonBuffer<StandardCode> = CodonBuffer::from_chars(&input[..]).unwrap();
    let codons = buffer.to_codons().unwrap();
    assert_eq!(codons.len(), 2);
    assert_eq!(codon_strings(&codons), vec!["AUG".to_string(), "GAC".to_string()]);
}

#[test]
fn packing_layout() {
    // A=2, U=0, G=3, G=3 -> 2 | 0<<2 | 3<<4 | 3<<6 = 0xF2; A=2, C=1 -> 2 | 1<<2 = 6
    let input = ['A', 'U', 'G', 'G', 'A', 'C'];
    let packed = SIMDBuffer { buffer: vec![0xF2, 0x06] };
    let buffer: CodonBuffer<StandardCode> = CodonBuffer::new(packed, 6);
    let from_chars: CodonBuffer<StandardCode> = CodonBuffer::from_chars(&input[..]).unwrap();
    assert_eq!(text_of(&buffer), "[AUG, GAC]");
    assert_eq!(text_of(&from_chars), text_of(&buffer));
}

#[test]
fn chars_round_trip_through_codons() {
    let input: Vec<char> = "GCAUUAGGCCAUGACUGA".chars().collect();
    let buffer: CodonBuffer<StandardCode> = CodonBuffer::from_chars(&input[..]).unwrap();
    let codons = buffer.to_codons().unwrap();
    let back: String = codon_strings(&codons).concat();
    assert_eq!(back, "GCAUUAGGCCAUGACUGA");
}

#[test]
fn to_codons_rejects_count_not_multiple_of_three() {
    let buffer: CodonBuffer<StandardCode> = CodonBuffer::new(SIMDBuffer { buffer: vec![0xF2, 0x06] }, 4);
    assert_eq!(buffer.to_codons().err(), Some(BiomeError::InvalidSymbolCount));
    assert_eq!(buffer.to_text().err(), Some(BiomeError::InvalidSymbolCount));
}

#[test]
fn to_codons_rejects_count_beyond_buffer() {
    let buffer: CodonBuffer<StandardCode> = CodonBuffer::new(SIMDBuffer { buffer: vec![0xF2] }, 6);
    assert_eq!(buffer.to_codons().err(), Some(BiomeError::InvalidSymbolCount));
}

#[test]
fn empty_input_gives_no_codons() {
    let input: [char; 0] = [];
    let buffer: CodonBuffer<StandardCode> = CodonBuffer::from_chars(&input[..]).unwrap();
    assert!(buffer.to_codons().unwrap().is_empty());
    assert_eq!(text_of(&buffer), "[]");
}

#[test]
fn from_chars_rejects_bad_length() {
    let input = ['A', 'U', 'G', 'G'];
    let r: Result<CodonBuffer<StandardCode>, BiomeError> = CodonBuffer::from_chars(&input[..]);
    assert_eq!(r.err(), Some(BiomeError::InvalidSymbolCount));
    // the length is checked before the symbols
    let input = ['X', 'U'];
    let r: Result<CodonBuffer<StandardCode>, BiomeError> = CodonBuffer::from_chars(&input[..]);
    assert_eq!(r.err(), Some(BiomeError::InvalidSymbolCount));
}

#[test]
fn from_chars_rejects_unknown_symbol() {
    let input = ['A', 'U', 'G', 'G', 'A', 'X'];
    let r: Result<CodonBuffer<StandardCode>, BiomeError> = CodonBuffer::from_chars(&input[..]);
    assert_eq!(r.err(), Some(BiomeError::UnknownSymbol));
    let input = ['X', 'U', 'G'];
    let r: Result<CodonBuffer<StandardCode>, BiomeError> = CodonBuffer::from_chars(&input[..]);
    assert_eq!(r.err(), Some(BiomeError::UnknownSymbol));
}

#[test]
fn codon_from_codes_masks_high_bits() {
    let c = Codon::from(0b1110, 0b0101, 3);
    assert_eq!(c.names(), ['A', 'C', 'G']);
    let n = c.to_nucleotides();
    assert_eq!(n[0].value, 2);
    assert_eq!(n[1].value, 1);
    assert_eq!(n[2].value, 3);
}

#[test]
fn codon_from_array() {
    let arr = [
        Nucleotide::from_char('G').unwrap(),
        Nucleotide::from_char('C').unwrap(),
        Nucleotide::from_char('U').unwrap(),
    ];
    assert_eq!(Codon::from_nucleotide_array(&arr).names(), ['G', 'C', 'U']);
}

#[test]
fn standard_code_translates_nothing() {
    let codons = vec![Codon::from(2, 0, 3)];
    assert!(StandardCode::translate(&codons).is_empty());
    let _table = StandardCode::new();
}
