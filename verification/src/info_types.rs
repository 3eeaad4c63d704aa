use crate::engine::{accepts, compile_pattern, compiled, is_match};
use crate::text::{decimal, decimal_digits};
use fake::{Fake, Faker};
use vstd::prelude::*;
use vstd::string::StringExecFns;

verus! {

/// How an info type produces a synthetic value.
#[derive(Debug, Clone)]
pub enum Generator {
    /// Draw a random text and keep it only if the info type's pattern finds
    /// itself in it; give the empty text otherwise.
    Conforming,
    /// Draw a random text and give it as it is.
    FreeText,
    /// Always give the empty text.
    Blank,
    /// Always give this text.
    Fixed(String),
}

/// One detectable category of sensitive data.
#[derive(Debug, Clone)]
pub struct InfoType {
    pub expr: String,
    pub name: String,
    pub word_boundary: bool,
    pub generator: Generator,
}

/// The pattern compiles, and the expression it compiles to is found
/// somewhere in `text`.
pub open spec fn conforms(pattern: Seq<char>, text: Seq<char>) -> bool {
    compiled(pattern) is Some && accepts(compiled(pattern).unwrap(), text)
}

/// What an info type may give as a synthetic value: a blank generator the
/// empty text, a fixed one its text, a conforming one the empty text or a
/// text that conforms to the pattern; a free one any text.
pub open spec fn may_generate(info_type: InfoType, s: Seq<char>) -> bool {
    match info_type.generator {
        Generator::Blank => s == Seq::<char>::empty(),
        Generator::Fixed(v) => s == v@,
        Generator::Conforming => s == Seq::<char>::empty() || conforms(info_type.expr@, s),
        Generator::FreeText => true,
    }
}

/// The pattern of a run of exactly `length` decimal digits.
pub open spec fn digit_run(length: nat) -> Seq<char> {
    seq!['\\', 'd', '{'] + decimal_digits(length) + seq!['}']
}

/// Draws a random `String` from the `fake` crate's `Faker`. Nothing is
/// promised of what comes back.
#[verifier::external_body]
fn random_text() -> (s: String) {
    Faker.fake::<String>()
}

/// What a conforming generator gives for a candidate text, once it is known
/// whether the pattern accepted the candidate.
pub fn keep_conforming(candidate: String, accepted: bool) -> (s: String)
    ensures
        accepted ==> s@ == candidate@,
        !accepted ==> s@ == Seq::<char>::empty(),
{
    if accepted {
        candidate
    } else {
        String::new()
    }
}

impl InfoType {
    pub fn aus_drivers_licence() -> (it: Self)
        ensures
            it.name@ == "AusDriversLicence"@,
            it.expr@ == "[A-Z0-9][0-9]{5,7}"@,
            !it.word_boundary,
            it.generator is Conforming,
    {
        InfoType {
            expr: "[A-Z0-9][0-9]{5,7}".to_owned(),
            name: "AusDriversLicence".to_owned(),
            word_boundary: false,
            generator: Generator::Conforming,
        }
    }

    pub fn aus_passport() -> (it: Self)
        ensures
            it.name@ == "AusPassport"@,
            it.expr@ == "[A-Z][0-9]{7}"@,
            !it.word_boundary,
            it.generator is Conforming,
    {
        InfoType {
            expr: "[A-Z][0-9]{7}".to_owned(),
            name: "AusPassport".to_owned(),
            word_boundary: false,
            generator: Generator::Conforming,
        }
    }

    pub fn aus_license_plate() -> (it: Self)
        ensures
            it.name@ == "AusLicencePlate"@,
            it.expr@ == "(([a-zA-Z0-9]{3})([\\s,-.]?)([a-zA-Z0-9]{3}))"@,
            !it.word_boundary,
            it.generator is Conforming,
    {
        InfoType {
            expr: "(([a-zA-Z0-9]{3})([\\s,-.]?)([a-zA-Z0-9]{3}))".to_owned(),
            name: "AusLicencePlate".to_owned(),
            word_boundary: false,
            generator: Generator::Conforming,
        }
    }

    pub fn aus_tax_file_number() -> (it: Self)
        ensures
            it.name@ == "AusTaxFileNumber"@,
            it.expr@ == "[0-9]{3}( ?)[0-9]{3}[0-9]{2,3}"@,
            !it.word_boundary,
            it.generator is Conforming,
    {
        InfoType {
            expr: "[0-9]{3}( ?)[0-9]{3}[0-9]{2,3}".to_owned(),
            name: "AusTaxFileNumber".to_owned(),
            word_boundary: false,
            generator: Generator::Conforming,
        }
    }

    pub fn email() -> (it: Self)
        ensures
            it.name@ == "Email"@,
            it.expr@ == "([a-z0-9!#$%&'*+/=?^_{|}~-]+(?:\\.[a-z0-9!#$%&'*+/=?^_{|}~-]+)*|\"(?:[\\x01-\\x08\\x0b\\x0c\\x0e-\\x1f\\x21\\x23-\\x5b\\x5d-\\x7f]|\\[\\x01-\\x09\\x0b\\x0c\\x0e-\\x7f])*\")@(?:(?:[a-z0-9](?:[a-z0-9-]*[a-z0-9])?\\.)+[a-z0-9](?:[a-z0-9-]*[a-z0-9])?|\\[(?:(?:25[0-5]|2[0-4][0-9]|[01]?[0-9][0-9]?)\\.){3}(?:25[0-5]|2[0-4][0-9]|[01]?[0-9][0-9]?|[a-z0-9-]*[a-z0-9]:(?:[\\x01-\\x08\\x0b\\x0c\\x0e-\\x1f\\x21-\\x5a\\x53-\\x7f]|\\[\\x01-\\x09\\x0b\\x0c\\x0e-\\x7f])+))\\]"@,
            !it.word_boundary,
            it.generator is FreeText,
    {
        InfoType {
            expr: "([a-z0-9!#$%&'*+/=?^_{|}~-]+(?:\\.[a-z0-9!#$%&'*+/=?^_{|}~-]+)*|\"(?:[\\x01-\\x08\\x0b\\x0c\\x0e-\\x1f\\x21\\x23-\\x5b\\x5d-\\x7f]|\\[\\x01-\\x09\\x0b\\x0c\\x0e-\\x7f])*\")@(?:(?:[a-z0-9](?:[a-z0-9-]*[a-z0-9])?\\.)+[a-z0-9](?:[a-z0-9-]*[a-z0-9])?|\\[(?:(?:25[0-5]|2[0-4][0-9]|[01]?[0-9][0-9]?)\\.){3}(?:25[0-5]|2[0-4][0-9]|[01]?[0-9][0-9]?|[a-z0-9-]*[a-z0-9]:(?:[\\x01-\\x08\\x0b\\x0c\\x0e-\\x1f\\x21-\\x5a\\x53-\\x7f]|\\[\\x01-\\x09\\x0b\\x0c\\x0e-\\x7f])+))\\]".to_owned(),
            name: "Email".to_owned(),
            word_boundary: false,
            generator: Generator::FreeText,
        }
    }

    pub fn aus_post_code() -> (it: Self)
        ensures
            it.name@ == "AusPostCode"@,
            it.expr@ == "(0[289][0-9]{2}\\)|([1345689][0-9]{3})|(2[0-9][0-9]{2})|(290[0-9])|(291[0-9])|(7[0-4][0-9]{2})|(7[8-9][0-9]{2}))"@,
            !it.word_boundary,
            it.generator is Conforming,
    {
        InfoType {
            expr: "(0[289][0-9]{2}\\)|([1345689][0-9]{3})|(2[0-9][0-9]{2})|(290[0-9])|(291[0-9])|(7[0-4][0-9]{2})|(7[8-9][0-9]{2}))".to_owned(),
            name: "AusPostCode".to_owned(),
            word_boundary: false,
            generator: Generator::Conforming,
        }
    }

    pub fn long_digit(min_length: usize) -> (it: Self)
        ensures
            it.name@ == "LongDigit"@,
            it.expr@ == digit_run(min_length as nat),
            !it.word_boundary,
            it.generator is Blank,
    {
        proof {
            reveal_strlit("\\d{");
            reveal_strlit("}");
        }
        let mut expr = "\\d{".to_owned();
        expr.append(decimal(min_length).as_str());
        expr.append("}");
        assert(expr@ =~= digit_run(min_length as nat));
        InfoType {
            expr,
            name: "LongDigit".to_owned(),
            word_boundary: false,
            generator: Generator::Blank,
        }
    }

    /// Whether the pattern of this info type compiles and is found somewhere
    /// in `candidate`.
    pub fn is_conforming(&self, candidate: &str) -> (b: bool)
        ensures
            b == conforms(self.expr@, candidate@),
    {
        match compile_pattern(self.expr.as_str()) {
            Ok(re) => is_match(&re, candidate),
            Err(_) => false,
        }
    }

    /// Produces a synthetic value for this info type. It never fails: where
    /// no value can be had, the empty text comes back.
    pub fn generate(&self) -> (s: String)
        ensures
            may_generate(*self, s@),
    {
        match &self.generator {
            Generator::Blank => String::new(),
            Generator::Fixed(v) => v.clone(),
            Generator::FreeText => random_text(),
            Generator::Conforming => {
                let candidate = random_text();
                let accepted = self.is_conforming(candidate.as_str());
                keep_conforming(candidate, accepted)
            },
        }
    }
}

} // verus!
