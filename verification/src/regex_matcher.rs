use crate::engine::{
    capture_all, captures_in, compile_pattern, compiled, compiles, hits_of, texts_of, well_placed,
    Hit,
};
use crate::grouping::{
    distinct_pieces, findings, first_name, group_occurrences, name_of_first, place_of, places,
    positions_of, unique_pieces,
};
use crate::info_types::InfoType;
use crate::laws::{
    covers_its_text, faithful_to, lemma_findings_account, lemma_positions_ascend,
    lemma_positions_hold_the_text, stands_before,
};
use regex::Regex;
use vstd::prelude::*;
use vstd::string::StringExecFns;
use vstd::string::StringSliceAdditionalSpecFns;

verus! {

/// A half-open span of byte offsets into a text.
#[derive(Clone, Copy, Debug, PartialEq, Eq, Structural)]
pub struct Position {
    pub start: usize,
    pub end: usize,
}

/// One classified occurrence: a matched text, every place where that exact
/// text was found, and the info type that claimed it.
#[derive(Debug)]
pub struct Match<'a> {
    pub text: String,
    pub positions: Vec<Position>,
    pub info_type: &'a InfoType,
}

/// The mathematical value of a [`Match`].
pub struct Finding {
    pub text: Seq<char>,
    pub positions: Seq<Position>,
    pub info_type: InfoType,
}

impl<'a> View for Match<'a> {
    type V = Finding;

    open spec fn view(&self) -> Finding {
        Finding { text: self.text@, positions: self.positions@, info_type: *self.info_type }
    }
}

/// The values of a list of matches, in order.
pub open spec fn findings_of<'a>(out: Seq<Match<'a>>) -> Seq<Finding> {
    Seq::new(out.len(), |i: int| out[i]@)
}

/// The matcher could not be built: the combined pattern does not compile.
#[derive(Debug)]
pub struct CompilationError {
    /// The combined pattern that was refused.
    pub pattern: String,
}

/// One combined expression over an ordered list of info types, with one named
/// group per info type.
pub struct RegexMatcher {
    expr: Regex,
    source: String,
    info_types: Vec<InfoType>,
    info_type_names: Vec<String>,
}

/// The alternative that one info type contributes to the combined pattern:
/// its pattern inside a group that carries its name, after a word-boundary
/// assertion if it asks for one, and after a `|` unless it is the first.
pub open spec fn sub_expression(info_type: InfoType, i: int) -> Seq<char> {
    (if i > 0 {
        seq!['|']
    } else {
        Seq::<char>::empty()
    }) + seq!['(', '?', '<'] + info_type.name@ + seq!['>'] + (if info_type.word_boundary {
        seq!['\\', 'b']
    } else {
        Seq::<char>::empty()
    }) + info_type.expr@ + seq![')']
}

/// The combined pattern of a list of info types: their alternatives in
/// declaration order.
pub open spec fn combined_pattern(list: Seq<InfoType>) -> Seq<char>
    decreases list.len(),
{
    if list.len() == 0 {
        Seq::<char>::empty()
    } else {
        combined_pattern(list.drop_last()) + sub_expression(list.last(), list.len() - 1)
    }
}

/// The names of a list of info types, in declaration order.
pub open spec fn names_of(list: Seq<InfoType>) -> Seq<Seq<char>> {
    Seq::new(list.len(), |i: int| list[i].name@)
}

impl RegexMatcher {
    #[verifier::type_invariant]
    spec fn well_formed(self) -> bool {
        &&& texts_of(self.info_type_names@) == names_of(self.info_types@)
        &&& self.source@ == combined_pattern(self.info_types@)
        &&& compiled(self.source@) == Some(self.expr)
    }

    /// The info types this matcher was built from, in declaration order.
    pub closed spec fn catalogue(&self) -> Seq<InfoType> {
        self.info_types@
    }

    /// The group names of the combined expression, in declaration order.
    pub closed spec fn group_names(&self) -> Seq<Seq<char>> {
        texts_of(self.info_type_names@)
    }

    /// The compiled combined expression.
    pub closed spec fn compiled(&self) -> Regex {
        self.expr
    }

    /// This matcher is the one that is built from `list`: it holds the list,
    /// one group name per info type, and the expression that the combined
    /// pattern of the list compiles to.
    pub open spec fn built_from(&self, list: Seq<InfoType>) -> bool {
        &&& self.catalogue() == list
        &&& self.group_names() == names_of(list)
        &&& compiled(combined_pattern(list)) == Some(self.compiled())
    }

    /// The occurrences that one pass of the combined expression finds in a
    /// text, each with the spans of the groups of the info types.
    pub open spec fn hits(&self, text: Seq<char>) -> Seq<Hit> {
        captures_in(self.compiled(), self.group_names(), text)
    }

    /// The matches that a scan of a text gives.
    pub open spec fn scan(&self, text: Seq<char>) -> Seq<Finding> {
        findings(text, self.hits(text), self.catalogue())
    }

    pub fn create_sub_expression(info_type: &InfoType, i: usize) -> (s: String)
        ensures
            s@ == sub_expression(*info_type, i as int),
    {
        proof {
            reveal_strlit("|");
            reveal_strlit("(?<");
            reveal_strlit(">");
            reveal_strlit("\\b");
            reveal_strlit(")");
        }
        let mut builder = String::new();
        if i > 0 {
            builder.append("|");
        }
        builder.append("(?<");
        builder.append(info_type.name.as_str());
        builder.append(">");
        if info_type.word_boundary {
            builder.append("\\b");
        }
        builder.append(info_type.expr.as_str());
        builder.append(")");
        assert(builder@ =~= sub_expression(*info_type, i as int));
        builder
    }

    /// Finds every occurrence of an expression in a text, in one pass from
    /// left to right, and gives the span of each.
    pub fn get_positions_for_expr(expr: &Regex, text: &str) -> (positions: Vec<Position>)
        ensures
            positions@ == places(captures_in(*expr, Seq::<Seq<char>>::empty(), text@)),
            forall|i: int|
                0 <= i < positions@.len() ==> (#[trigger] positions@[i]).start <= positions@[i].end
                    <= text.spec_bytes().len(),
            forall|i: int, j: int|
                0 <= i < j < positions@.len() ==> (#[trigger] positions@[i]).end
                    <= (#[trigger] positions@[j]).start,
    {
        let no_names: Vec<String> = Vec::new();
        assert(texts_of(no_names@) =~= Seq::<Seq<char>>::empty());
        let found = capture_all(expr, &no_names, text);
        let positions = positions_of(&found);
        proof {
            let hits = hits_of(found@);
            assert forall|i: int| 0 <= i < positions@.len() implies (#[trigger] positions@[i]).start
                <= positions@[i].end <= text.spec_bytes().len() by {
                assert(positions@[i] == place_of(hits[i]));
            }
            assert forall|i: int, j: int| 0 <= i < j < positions@.len() implies (
            #[trigger] positions@[i]).end <= (#[trigger] positions@[j]).start by {
                assert(positions@[i] == place_of(hits[i]));
                assert(positions@[j] == place_of(hits[j]));
            }
        }
        positions
    }

    /// The texts that the combined expression finds in `text`, each once, in
    /// the order in which they first occur.
    pub fn get_unique_matches(&self, text: &str) -> (pieces: Vec<String>)
        ensures
            texts_of(pieces@) == distinct_pieces(text@, self.hits(text@)),
    {
        let found = capture_all(&self.expr, &self.info_type_names, text);
        unique_pieces(text, &found, self.info_type_names.len())
    }

    /// Classifies the first occurrence of the combined expression in `text`:
    /// `true` and the name of the first info type, in declaration order,
    /// whose group took part in it; `false` and the empty text where there is
    /// no occurrence.
    pub fn get_group_name(&self, text: &str) -> (r: (bool, String))
        ensures
            match first_name(self.group_names(), self.hits(text@)) {
                Some(name) => r.0 && r.1@ == name,
                None => !r.0 && r.1@ == Seq::<char>::empty(),
            },
    {
        let found = capture_all(&self.expr, &self.info_type_names, text);
        proof {
            if found@.len() > 0 {
                assert(hits_of(found@)[0] == found@[0]@);
            }
        }
        name_of_first(&self.info_type_names, &found)
    }

    /// Scans `text` once with the combined expression and gives one match
    /// for each distinct text found, with every place where it occurs and
    /// the info type of its first occurrence. The matches stand in the order
    /// in which their texts first occur.
    pub fn match_fn<'a>(&'a self, text: &str) -> (out: Vec<Match<'a>>)
        ensures
            findings_of(out@) == self.scan(text@),
            well_placed(self.hits(text@), text.spec_bytes(), self.catalogue().len()),
            forall|a: int, b: int| 0 <= a < b < out@.len() ==> out@[a].text@ != out@[b].text@,
            forall|k: int| 0 <= k < out@.len() ==> (#[trigger] out@[k]).positions@.len() > 0,
            forall|k: int, a: int|
                0 <= k < out@.len() && 0 <= a < out@[k].positions@.len() ==> #[trigger] covers_its_text(
                    text@,
                    out@[k]@,
                    a,
                ),
            forall|k: int, a: int, b: int|
                0 <= k < out@.len() && 0 <= a < b < out@[k].positions@.len()
                    ==> #[trigger] stands_before(out@[k]@, a, b),
    {
        proof {
            use_type_invariant(self);
            assert(self.info_type_names@.len() == texts_of(self.info_type_names@).len());
            assert(self.info_types@.len() == names_of(self.info_types@).len());
        }
        let found = capture_all(&self.expr, &self.info_type_names, text);
        let out = group_occurrences(&self.info_types, text, &found);
        proof {
            let hits = self.hits(text@);
            let list = self.catalogue();
            let fs = findings(text@, hits, list);
            lemma_findings_account(text@, hits, list);
            lemma_positions_hold_the_text(text@, hits, list, list.len());
            lemma_positions_ascend(text@, hits, list, list.len());
            assert forall|k: int| 0 <= k < out@.len() implies out@[k]@ == fs[k] by {
                assert(findings_of(out@)[k] == out@[k]@);
            }
            assert forall|a: int, b: int| 0 <= a < b < out@.len() implies out@[a].text@
                != out@[b].text@ by {
                assert(fs[a].text != fs[b].text);
            }
            assert forall|k: int| 0 <= k < out@.len() implies (#[trigger] out@[k]).positions@.len()
                > 0 by {
                assert(faithful_to(text@, hits, list, fs[k]));
            }
            assert forall|k: int, a: int|
                0 <= k < out@.len() && 0 <= a < out@[k].positions@.len() implies #[trigger] covers_its_text(
                text@,
                out@[k]@,
                a,
            ) by {
                assert(out@[k]@ == fs[k]);
                assert(covers_its_text(text@, fs[k], a));
            }
            assert forall|k: int, a: int, b: int|
                0 <= k < out@.len() && 0 <= a < b < out@[k].positions@.len() implies #[trigger] stands_before(
                out@[k]@,
                a,
                b,
            ) by {
                assert(out@[k]@ == fs[k]);
                assert(stands_before(fs[k], a, b));
            }
        }
        out
    }

    /// The info types this matcher was built from, in declaration order.
    pub fn info_types(&self) -> (list: &Vec<InfoType>)
        ensures
            list@ == self.catalogue(),
            self.built_from(list@),
    {
        proof {
            use_type_invariant(self);
        }
        &self.info_types
    }

    /// The group names of the combined expression: one per info type, in
    /// declaration order.
    pub fn info_type_names(&self) -> (names: &Vec<String>)
        ensures
            texts_of(names@) == self.group_names(),
            self.group_names() == names_of(self.catalogue()),
            names@.len() == self.catalogue().len(),
    {
        proof {
            use_type_invariant(self);
        }
        &self.info_type_names
    }

    /// The text of the combined pattern.
    pub fn pattern(&self) -> (s: &str)
        ensures
            s@ == combined_pattern(self.catalogue()),
            compiled(s@) == Some(self.compiled()),
    {
        proof {
            use_type_invariant(self);
        }
        self.source.as_str()
    }
}

/// Builds the text of the combined pattern and the list of group names.
pub fn combine(info_types: &Vec<InfoType>) -> (r: (String, Vec<String>))
    ensures
        r.0@ == combined_pattern(info_types@),
        texts_of(r.1@) == names_of(info_types@),
{
    let mut builder = String::new();
    let mut names: Vec<String> = Vec::new();
    let mut i: usize = 0;
    while i < info_types.len()
        invariant
            i <= info_types.len(),
            builder@ == combined_pattern(info_types@.take(i as int)),
            names@.len() == i,
            texts_of(names@) == names_of(info_types@.take(i as int)),
        decreases info_types.len() - i,
    {
        let sub_expr = RegexMatcher::create_sub_expression(&info_types[i], i);
        builder.append(sub_expr.as_str());
        let ghost earlier = names@;
        names.push(info_types[i].name.clone());
        proof {
            let before = info_types@.take(i as int);
            let after = info_types@.take(i as int + 1);
            assert(after.drop_last() =~= before);
            assert(after.last() == info_types@[i as int]);
            assert forall|j: int| 0 <= j < names@.len() implies texts_of(names@)[j] == names_of(
                after,
            )[j] by {
                if j < i {
                    assert(texts_of(earlier)[j] == names_of(before)[j]);
                }
            }
            assert(texts_of(names@) =~= names_of(after));
        }
        i += 1;
    }
    assert(info_types@.take(i as int) =~= info_types@);
    (builder, names)
}

/// Builds the matcher for an ordered list of info types. The order is the
/// order of precedence among them. It fails exactly when the combined
/// pattern does not compile.
pub fn new(info_types: Vec<InfoType>) -> (r: Result<RegexMatcher, CompilationError>)
    ensures
        r is Ok <==> compiles(combined_pattern(info_types@)),
        r matches Ok(m) ==> m.built_from(info_types@) && m.group_names().len()
            == info_types@.len(),
        r matches Err(e) ==> e.pattern@ == combined_pattern(info_types@),
{
    let (builder, names) = combine(&info_types);
    match compile_pattern(builder.as_str()) {
        Ok(expr) => Ok(RegexMatcher { expr, source: builder, info_types, info_type_names: names }),
        Err(_) => Err(CompilationError { pattern: builder }),
    }
}

} // verus!
