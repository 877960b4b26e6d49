//! Packing of a four-symbol nucleotide alphabet into two bits per symbol,
//! lane-wise addition of packed buffers, and extraction of codons.
use vstd::prelude::*;

pub mod buffer;
pub mod codon;
pub mod genetic_code;
pub mod nucleotide;

verus! {

/// The failures of the codec and of buffer construction.
#[derive(Clone, Copy, Debug, PartialEq, Eq, Structural)]
pub enum BiomeError {
    /// A character or a numeric code is not one of the four symbols.
    UnknownSymbol,
    /// A symbol count is not a whole number of codons, or exceeds what the
    /// buffer holds.
    InvalidSymbolCount,
}

} // verus!
