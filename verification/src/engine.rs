use regex::Regex;
use vstd::prelude::*;
use vstd::string::StringSliceAdditionalSpecFns;
use vstd::utf8::is_char_boundary;

verus! {

/// A compiled regular expression of the `regex` crate. Nothing inside it is
/// visible to the verifier.
#[verifier::external_type_specification]
#[verifier::external_body]
pub struct ExRegex(Regex);

/// The error that `Regex::new` hands back for a pattern it rejects.
#[verifier::external_type_specification]
#[verifier::external_body]
pub struct ExRegexError(regex::Error);

/// One occurrence of an expression in a text: the byte span of the whole
/// occurrence, and for each group name asked for, in the order asked, the byte
/// span that the group of that name took, if it took part at all.
#[derive(Debug, Clone)]
pub struct Occurrence {
    pub start: usize,
    pub end: usize,
    pub groups: Vec<Option<(usize, usize)>>,
}

/// The mathematical value of an [`Occurrence`].
pub struct Hit {
    pub start: usize,
    pub end: usize,
    pub groups: Seq<Option<(usize, usize)>>,
}

impl View for Occurrence {
    type V = Hit;

    open spec fn view(&self) -> Hit {
        Hit { start: self.start, end: self.end, groups: self.groups@ }
    }
}

/// The values of a list of occurrences, in order.
pub open spec fn hits_of(found: Seq<Occurrence>) -> Seq<Hit> {
    Seq::new(found.len(), |i: int| found[i]@)
}

/// The character sequences of a list of strings, in order.
pub open spec fn texts_of(names: Seq<String>) -> Seq<Seq<char>> {
    Seq::new(names.len(), |i: int| names[i]@)
}

/// The expression that `Regex::new` builds from a pattern: `None` for a
/// pattern that it rejects.
pub uninterp spec fn compiled(pattern: Seq<char>) -> Option<Regex>;

/// Whether a pattern compiles.
pub open spec fn compiles(pattern: Seq<char>) -> bool {
    compiled(pattern) is Some
}

/// Whether `Regex::is_match` finds the expression anywhere in a text.
pub uninterp spec fn accepts(re: Regex, text: Seq<char>) -> bool;

/// What one left-to-right pass of `Regex::captures_iter` over a text finds:
/// every occurrence in the order found, each with the spans of the groups
/// named in `names`.
pub uninterp spec fn captures_in(re: Regex, names: Seq<Seq<char>>, text: Seq<char>) -> Seq<Hit>;

/// What the `regex` crate documents of every list of occurrences it reports
/// for a text whose UTF-8 encoding is `bytes`: each span is well ordered and
/// falls on character boundaries, each occurrence answers for every name asked
/// for, and an occurrence begins after the one before it began and no
/// earlier than that one ended.
pub open spec fn well_placed(hits: Seq<Hit>, bytes: Seq<u8>, asked: nat) -> bool {
    &&& forall|i: int|
        0 <= i < hits.len() ==> {
            &&& (#[trigger] hits[i]).start <= hits[i].end <= bytes.len()
            &&& is_char_boundary(bytes, hits[i].start as int)
            &&& is_char_boundary(bytes, hits[i].end as int)
            &&& hits[i].groups.len() == asked
        }
    &&& forall|i: int, j: int|
        0 <= i < j < hits.len() ==> {
            &&& (#[trigger] hits[i]).end <= (#[trigger] hits[j]).start
            &&& hits[i].start < hits[j].start
        }
}

/// Calls `Regex::new`. It succeeds exactly on the patterns for which
/// [`compiled`] names an expression, and then gives that expression.
#[verifier::external_body]
pub(crate) fn compile_pattern(pattern: &str) -> (r: Result<Regex, regex::Error>)
    ensures
        r is Ok <==> compiled(pattern@) is Some,
        r matches Ok(re) ==> compiled(pattern@) == Some(re),
{
    Regex::new(pattern)
}

/// Calls `Regex::is_match`. The answer is the one that [`accepts`] names for
/// this expression and text.
#[verifier::external_body]
pub(crate) fn is_match(re: &Regex, text: &str) -> (b: bool)
    ensures
        b == accepts(*re, text@),
{
    re.is_match(text)
}

/// Walks `Regex::captures_iter` over the text once and copies out, for each
/// `Captures` it yields, the span of the whole occurrence (`Captures::get_match`)
/// and the span of each named group (`Captures::name`). The list is the one
/// that [`captures_in`] names, and it is placed as [`well_placed`] says.
#[verifier::external_body]
pub(crate) fn capture_all(re: &Regex, names: &Vec<String>, text: &str) -> (found: Vec<Occurrence>)
    ensures
        hits_of(found@) == captures_in(*re, texts_of(names@), text@),
        well_placed(hits_of(found@), text.spec_bytes(), names@.len()),
{
    let mut found = Vec::new();
    for caps in re.captures_iter(text) {
        let whole = caps.get_match();
        let groups = names.iter().map(|n| caps.name(n).map(|m| (m.start(), m.end()))).collect();
        found.push(Occurrence { start: whole.start(), end: whole.end(), groups });
    }
    found
}

} // verus!
