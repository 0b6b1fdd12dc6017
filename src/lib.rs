//! Converts alien numerals and trade units to Credits.
//!
//! The library classifies statements about an alien numeral system and alien
//! trade goods, folds them into two lookup tables and answers questions about
//! quantities and prices.
use vstd::prelude::*;

pub mod engine;
pub mod mapping;
pub mod roman;
pub mod strings;
pub mod textprocessing;
pub mod unicode;

pub use engine::{
    answer_how_many_credits, answer_how_much, classify, run_statements, Reply, StatementKind,
};
pub use mapping::{NumeralMapping, Rate, TokenMap, UnitMapping};
pub use roman::{ParseRomanNumeralError, Roman};

verus! {

/// Where the input comes from: a file path, or `-` for standard input.
#[derive(Debug)]
pub struct Config {
    path: String,
}

impl View for Config {
    type V = Seq<char>;

    closed spec fn view(&self) -> Seq<char> {
        self.path@
    }
}

impl Config {
    /// A configuration that reads `path`.
    pub fn new(path: String) -> (r: Config)
        ensures
            r@ == path@,
    {
        Config { path }
    }

    /// The path given.
    pub fn path(&self) -> (r: &String)
        ensures
            r@ == self@,
    {
        &self.path
    }

    /// Whether the input is standard input, that is the path is `-`.
    pub fn reads_stdin(&self) -> (r: bool)
        ensures
            r == (self@ == "-"@),
    {
        let p = strings::chars_of(self.path.as_str());
        strings::same_chars(&p, &strings::chars_of("-"))
    }
}

} // verus!
