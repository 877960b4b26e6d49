//! The point where a translation table plugs in to turn codons into
//! proteins.
use vstd::prelude::*;

use crate::codon::Codon;

verus! {

/// One translated unit: its name, its one-letter code, and whether it may
/// start or end a translated run.
pub struct Protein {
    pub name: String,
    pub code: char,
    pub initiator: bool,
    pub terminator: bool,
}

/// A translation table from codons to proteins.
pub trait GeneticCode: Sized {
    fn new() -> Self;

    fn translate(codons: &[Codon]) -> Vec<Protein>;
}

/// The built-in table, which translates nothing.
pub struct StandardCode {}

impl GeneticCode for StandardCode {
    fn new() -> StandardCode {
        StandardCode {  }
    }

    fn translate(codons: &[Codon]) -> (r: Vec<Protein>)
        ensures
            r@.len() == 0,
    {
        Vec::new()
    }
}

} // verus!
