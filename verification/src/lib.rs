pub mod engine;
pub mod grouping;
pub mod info_types;
pub mod laws;
pub mod regex_matcher;
pub mod registry;
pub mod text;

use crate::engine::{compile_pattern, compiled, compiles};
use regex::Regex;
use vstd::prelude::*;

verus! {

/// The info type of Australian passport numbers, on its own.
pub struct AusPassport {
    name: String,
    expr: String,
}

impl AusPassport {
    /// The name of this info type.
    pub closed spec fn label(&self) -> Seq<char> {
        self.name@
    }

    /// The pattern of this info type.
    pub closed spec fn pattern(&self) -> Seq<char> {
        self.expr@
    }

    /// The name of this info type.
    pub fn name(&self) -> (s: &str)
        ensures
            s@ == self.label(),
    {
        self.name.as_str()
    }

    /// The pattern of this info type.
    pub fn expr(&self) -> (s: &str)
        ensures
            s@ == self.pattern(),
    {
        self.expr.as_str()
    }

    /// Compiles the pattern, which must be one that compiles.
    pub fn compile(&self) -> (re: Regex)
        requires
            compiles(self.pattern()),
        ensures
            compiled(self.pattern()) == Some(re),
    {
        match compile_pattern(self.expr.as_str()) {
            Ok(re) => re,
            Err(_) => vstd::pervasive::unreached(),
        }
    }

    /// Compiles the pattern if it compiles.
    pub fn try_compile(&self) -> (r: Option<Regex>)
        ensures
            r == compiled(self.pattern()),
    {
        match compile_pattern(self.expr.as_str()) {
            Ok(_) => Some(self.compile()),
            Err(_) => None,
        }
    }
}

impl Default for AusPassport {
    fn default() -> (p: Self)
        ensures
            p.label() == "AusPassport"@,
            p.pattern() == "[A-Z][0-9]{7}"@,
    {
        AusPassport { name: "AusPassport".to_owned(), expr: "[A-Z][0-9]{7}".to_owned() }
    }
}

} // verus!
