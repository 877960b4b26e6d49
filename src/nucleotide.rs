//! The symbol codec: the four nucleotide names and their two-bit codes.
use vstd::prelude::*;

use crate::BiomeError;

verus! {

/// Whether `c` is the name of one of the four symbols.
pub open spec fn is_symbol_name(c: char) -> bool {
    c == 'U' || c == 'C' || c == 'A' || c == 'G'
}

/// The two-bit code of a symbol name (`U`, `C`, `A`, `G` are 0 to 3).
pub open spec fn symbol_code(c: char) -> u8 {
    if c == 'U' {
        0
    } else if c == 'C' {
        1
    } else if c == 'A' {
        2
    } else {
        3
    }
}

/// The name of a two-bit code; meaningful for codes below 4.
pub open spec fn symbol_name(code: u8) -> char {
    if code == 0 {
        'U'
    } else if code == 1 {
        'C'
    } else if code == 2 {
        'A'
    } else {
        'G'
    }
}

/// Encoding a symbol name and decoding the code gives the name back.
pub proof fn lemma_name_code_round_trip(c: char)
    requires
        is_symbol_name(c),
    ensures
        symbol_code(c) < 4,
        symbol_name(symbol_code(c)) == c,
{
}

/// Looks up the two-bit code of a symbol name.
pub fn unwrap_nucleotide_value_get(key: char) -> (r: Result<u8, BiomeError>)
    ensures
        is_symbol_name(key) ==> r == Ok::<u8, BiomeError>(symbol_code(key)),
        !is_symbol_name(key) ==> r == Err::<u8, BiomeError>(BiomeError::UnknownSymbol),
{
    match key {
        'U' => Ok(0),
        'C' => Ok(1),
        'A' => Ok(2),
        'G' => Ok(3),
        _ => Err(BiomeError::UnknownSymbol),
    }
}

/// Looks up the one-letter name of a two-bit code.
pub fn unwrap_nucleotide_name_get(key: u8) -> (r: Result<&'static str, BiomeError>)
    ensures
        key < 4 ==> r.is_ok() && r->Ok_0@ == seq![symbol_name(key)],
        key >= 4 ==> r == Err::<&'static str, BiomeError>(BiomeError::UnknownSymbol),
{
    proof {
        reveal_strlit("U");
        reveal_strlit("C");
        reveal_strlit("A");
        reveal_strlit("G");
    }
    match key {
        0 => Ok("U"),
        1 => Ok("C"),
        2 => Ok("A"),
        3 => Ok("G"),
        _ => Err(BiomeError::UnknownSymbol),
    }
}

/// A symbol held in a byte. Only the two low bits are meaningful: equality
/// ignores the others.
#[derive(Clone, Copy, Debug)]
pub struct Nucleotide {
    pub value: u8,
}

/// Two bytes agree on their two low bits exactly when their exclusive or has
/// none of those bits set.
proof fn lemma_low_bits_xor(a: u8, b: u8)
    ensures
        ((a ^ b) & 3 == 0) == (a & 3 == b & 3),
{
    assert(((a ^ b) & 3 == 0) == (a & 3 == b & 3)) by (bit_vector);
}

impl PartialEq for Nucleotide {
    fn eq(&self, other: &Self) -> (r: bool) {
        proof {
            lemma_low_bits_xor(self.value, other.value);
        }
        ((self.value ^ other.value) & 0x3) == 0
    }
}

impl vstd::std_specs::cmp::PartialEqSpecImpl for Nucleotide {
    open spec fn obeys_eq_spec() -> bool {
        true
    }

    open spec fn eq_spec(&self, other: &Nucleotide) -> bool {
        self.value & 3 == other.value & 3
    }
}

impl Eq for Nucleotide {

}

impl Nucleotide {
    /// The symbol with the given name, or `UnknownSymbol`.
    pub fn from_char(name: char) -> (r: Result<Nucleotide, BiomeError>)
        ensures
            is_symbol_name(name) ==> r.is_ok() && r->Ok_0.value == symbol_code(name),
            !is_symbol_name(name) ==> r == Err::<Nucleotide, BiomeError>(
                BiomeError::UnknownSymbol,
            ),
    {
        match unwrap_nucleotide_value_get(name) {
            Ok(value) => Ok(Nucleotide { value }),
            Err(e) => Err(e),
        }
    }

    /// The one-letter name of this symbol, or `UnknownSymbol` where stray
    /// high bits make the byte no code.
    pub fn name(&self) -> (r: Result<&'static str, BiomeError>)
        ensures
            self.value < 4 ==> r.is_ok() && r->Ok_0@ == seq![symbol_name(self.value)],
            self.value >= 4 ==> r == Err::<&'static str, BiomeError>(BiomeError::UnknownSymbol),
    {
        unwrap_nucleotide_name_get(self.value)
    }
}

} // verus!
