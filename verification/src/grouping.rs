use crate::engine::{hits_of, texts_of, well_placed, Hit, Occurrence};
use crate::info_types::InfoType;
use crate::regex_matcher::{findings_of, Finding, Match, Position};
use crate::text::{slice_of, substring};
use vstd::prelude::*;
use vstd::string::StringSliceAdditionalSpecFns;

verus! {

/// The index of the first group that took part in an occurrence, if any did.
pub open spec fn kind_of(groups: Seq<Option<(usize, usize)>>) -> Option<int>
    decreases groups.len(),
{
    if groups.len() == 0 {
        None
    } else {
        match kind_of(groups.drop_last()) {
            Some(k) => Some(k),
            None => if groups.last() is Some {
                Some(groups.len() - 1)
            } else {
                None
            },
        }
    }
}

/// The text that an occurrence covers.
pub open spec fn piece_of(text: Seq<char>, hit: Hit) -> Seq<char> {
    slice_of(text, hit.start as int, hit.end as int)
}

/// The span of an occurrence.
pub open spec fn place_of(hit: Hit) -> Position {
    Position { start: hit.start, end: hit.end }
}

/// The index of the finding that holds a given text, if one does.
pub open spec fn index_of_text(found: Seq<Finding>, piece: Seq<char>) -> Option<int>
    decreases found.len(),
{
    if found.len() == 0 {
        None
    } else {
        match index_of_text(found.drop_last(), piece) {
            Some(k) => Some(k),
            None => if found.last().text == piece {
                Some(found.len() - 1)
            } else {
                None
            },
        }
    }
}

/// Adds one classified occurrence to the findings so far: a text seen before
/// gains a position and keeps its info type; a new text opens a finding.
pub open spec fn record(found: Seq<Finding>, piece: Seq<char>, at: Position, kind: InfoType) -> Seq<
    Finding,
> {
    match index_of_text(found, piece) {
        Some(k) => found.update(
            k,
            Finding {
                text: found[k].text,
                positions: found[k].positions.push(at),
                info_type: found[k].info_type,
            },
        ),
        None => found.push(Finding { text: piece, positions: seq![at], info_type: kind }),
    }
}

/// The findings of one scan: the occurrences in which some group took part,
/// taken in the order found and merged by their text. Each finding is
/// classified by the first group of the first occurrence of its text.
pub open spec fn findings(text: Seq<char>, hits: Seq<Hit>, list: Seq<InfoType>) -> Seq<Finding>
    decreases hits.len(),
{
    if hits.len() == 0 {
        Seq::<Finding>::empty()
    } else {
        let before = findings(text, hits.drop_last(), list);
        match kind_of(hits.last().groups) {
            Some(k) => record(before, piece_of(text, hits.last()), place_of(hits.last()), list[k]),
            None => before,
        }
    }
}

/// The spans of a list of occurrences, in order.
pub open spec fn places(hits: Seq<Hit>) -> Seq<Position> {
    Seq::new(hits.len(), |i: int| place_of(hits[i]))
}

/// The texts that a list of occurrences covers, each once, in the order in
/// which they first occur.
pub open spec fn distinct_pieces(text: Seq<char>, hits: Seq<Hit>) -> Seq<Seq<char>>
    decreases hits.len(),
{
    if hits.len() == 0 {
        Seq::<Seq<char>>::empty()
    } else {
        let before = distinct_pieces(text, hits.drop_last());
        if before.contains(piece_of(text, hits.last())) {
            before
        } else {
            before.push(piece_of(text, hits.last()))
        }
    }
}

/// The name under which the first occurrence of a scan is classified, if
/// there is an occurrence and a group took part in it.
pub open spec fn first_name(names: Seq<Seq<char>>, hits: Seq<Hit>) -> Option<Seq<char>> {
    if hits.len() == 0 {
        None
    } else {
        match kind_of(hits[0].groups) {
            Some(k) => Some(names[k]),
            None => None,
        }
    }
}

/// `kind_of` gives the least index of a group that took part.
pub proof fn lemma_kind_of(groups: Seq<Option<(usize, usize)>>)
    ensures
        match kind_of(groups) {
            Some(k) => 0 <= k < groups.len() && groups[k] is Some && forall|j: int|
                0 <= j < k ==> groups[j] is None,
            None => forall|j: int| 0 <= j < groups.len() ==> groups[j] is None,
        },
    decreases groups.len(),
{
    if groups.len() > 0 {
        let front = groups.drop_last();
        lemma_kind_of(front);
        match kind_of(front) {
            Some(k) => {
                assert forall|j: int| 0 <= j < k implies groups[j] is None by {
                    assert(front[j] is None);
                }
            },
            None => {
                assert forall|j: int| 0 <= j < groups.len() - 1 implies groups[j] is None by {
                    assert(front[j] is None);
                }
            },
        }
    }
}

/// `index_of_text` gives the least index of a finding with that text.
pub proof fn lemma_index_of_text(found: Seq<Finding>, piece: Seq<char>)
    ensures
        match index_of_text(found, piece) {
            Some(k) => 0 <= k < found.len() && found[k].text == piece && forall|j: int|
                0 <= j < k ==> found[j].text != piece,
            None => forall|j: int| 0 <= j < found.len() ==> found[j].text != piece,
        },
    decreases found.len(),
{
    if found.len() > 0 {
        let front = found.drop_last();
        lemma_index_of_text(front, piece);
        match index_of_text(front, piece) {
            Some(k) => {
                assert forall|j: int| 0 <= j < k implies found[j].text != piece by {
                    assert(front[j].text != piece);
                }
            },
            None => {
                assert forall|j: int| 0 <= j < found.len() - 1 implies found[j].text
                    != piece by {
                    assert(front[j].text != piece);
                }
            },
        }
    }
}

/// Finds the first group that took part in an occurrence.
pub fn first_participant(groups: &Vec<Option<(usize, usize)>>) -> (r: Option<usize>)
    ensures
        match r {
            Some(k) => {
                &&& kind_of(groups@) == Some(k as int)
                &&& k < groups@.len()
                &&& groups@[k as int] is Some
                &&& forall|j: int| 0 <= j < k ==> groups@[j] is None
            },
            None => {
                &&& kind_of(groups@) is None
                &&& forall|j: int| 0 <= j < groups@.len() ==> groups@[j] is None
            },
        },
{
    let mut i: usize = 0;
    while i < groups.len()
        invariant
            i <= groups.len(),
            forall|j: int| 0 <= j < i ==> groups@[j] is None,
        decreases groups.len() - i,
    {
        if groups[i].is_some() {
            proof {
                lemma_kind_of(groups@);
            }
            return Some(i);
        }
        i += 1;
    }
    proof {
        lemma_kind_of(groups@);
    }
    None
}

/// Finds the match that holds a given text.
pub fn find_by_text<'a>(out: &Vec<Match<'a>>, piece: &String) -> (r: Option<usize>)
    ensures
        match r {
            Some(k) => {
                &&& index_of_text(findings_of(out@), piece@) == Some(k as int)
                &&& k < out@.len()
                &&& out@[k as int].text@ == piece@
                &&& forall|j: int| 0 <= j < k ==> out@[j].text@ != piece@
            },
            None => {
                &&& index_of_text(findings_of(out@), piece@) is None
                &&& forall|j: int| 0 <= j < out@.len() ==> out@[j].text@ != piece@
            },
        },
{
    let mut i: usize = 0;
    while i < out.len()
        invariant
            i <= out.len(),
            forall|j: int| 0 <= j < i ==> findings_of(out@)[j].text != piece@,
        decreases out.len() - i,
    {
        if out[i].text == *piece {
            proof {
                assert(findings_of(out@)[i as int].text == piece@);
                lemma_index_of_text(findings_of(out@), piece@);
                assert forall|j: int| 0 <= j < i implies out@[j].text@ != piece@ by {
                    assert(findings_of(out@)[j].text != piece@);
                }
            }
            return Some(i);
        }
        assert(findings_of(out@)[i as int].text != piece@);
        i += 1;
    }
    proof {
        lemma_index_of_text(findings_of(out@), piece@);
        assert forall|j: int| 0 <= j < out@.len() implies out@[j].text@ != piece@ by {
            assert(findings_of(out@)[j].text != piece@);
        }
    }
    None
}

/// Copies out the span of each occurrence.
pub fn positions_of(found: &Vec<Occurrence>) -> (out: Vec<Position>)
    ensures
        out@ == places(hits_of(found@)),
{
    let mut out: Vec<Position> = Vec::new();
    let mut i: usize = 0;
    while i < found.len()
        invariant
            i <= found.len(),
            out@ == places(hits_of(found@).take(i as int)),
        decreases found.len() - i,
    {
        out.push(Position { start: found[i].start, end: found[i].end });
        assert(out@ =~= places(hits_of(found@).take(i as int + 1)));
        i += 1;
    }
    assert(hits_of(found@).take(i as int) =~= hits_of(found@));
    out
}

/// Whether a list of texts holds a given text.
pub fn holds_text(pieces: &Vec<String>, piece: &String) -> (b: bool)
    ensures
        b == texts_of(pieces@).contains(piece@),
{
    let mut i: usize = 0;
    while i < pieces.len()
        invariant
            i <= pieces.len(),
            forall|j: int| 0 <= j < i ==> texts_of(pieces@)[j] != piece@,
        decreases pieces.len() - i,
    {
        if pieces[i] == *piece {
            assert(texts_of(pieces@)[i as int] == piece@);
            return true;
        }
        assert(texts_of(pieces@)[i as int] != piece@);
        i += 1;
    }
    false
}

/// Collects the texts that the occurrences of one scan cover, each once,
/// in the order in which they first occur.
pub fn unique_pieces(text: &str, found: &Vec<Occurrence>, asked: usize) -> (out: Vec<String>)
    requires
        well_placed(hits_of(found@), text.spec_bytes(), asked as nat),
    ensures
        texts_of(out@) == distinct_pieces(text@, hits_of(found@)),
{
    let mut out: Vec<String> = Vec::new();
    let mut i: usize = 0;
    assert(texts_of(out@) =~= distinct_pieces(text@, hits_of(found@).take(0)));
    while i < found.len()
        invariant
            i <= found.len(),
            well_placed(hits_of(found@), text.spec_bytes(), asked as nat),
            texts_of(out@) == distinct_pieces(text@, hits_of(found@).take(i as int)),
        decreases found.len() - i,
    {
        let ghost hit = hits_of(found@)[i as int];
        let ghost before = texts_of(out@);
        proof {
            let upto = hits_of(found@).take(i as int + 1);
            assert(upto.drop_last() =~= hits_of(found@).take(i as int));
            assert(upto.last() == hit);
            assert(hit == found@[i as int]@);
        }
        let piece = substring(text, found[i].start, found[i].end);
        if !holds_text(&out, &piece) {
            out.push(piece);
            assert(texts_of(out@) =~= before.push(piece_of(text@, hit)));
        }
        i += 1;
    }
    assert(hits_of(found@).take(i as int) =~= hits_of(found@));
    out
}

/// Names the info type of the first occurrence of a scan: `true` and the
/// name of the first group that took part in it, or `false` and the empty
/// text where the scan found nothing or no group took part.
pub fn name_of_first(names: &Vec<String>, found: &Vec<Occurrence>) -> (r: (bool, String))
    requires
        found@.len() > 0 ==> found@[0].groups@.len() == names@.len(),
    ensures
        match first_name(texts_of(names@), hits_of(found@)) {
            Some(name) => r.0 && r.1@ == name,
            None => !r.0 && r.1@ == Seq::<char>::empty(),
        },
{
    if found.len() == 0 {
        return (false, String::new());
    }
    proof {
        lemma_kind_of(found@[0].groups@);
        assert(hits_of(found@)[0] == found@[0]@);
    }
    match first_participant(&found[0].groups) {
        Some(k) => (true, names[k].clone()),
        None => (false, String::new()),
    }
}

/// Merges the occurrences of one scan into classified matches. Occurrences
/// in which no group took part are passed over.
pub fn group_occurrences<'a>(
    info_types: &'a Vec<InfoType>,
    text: &str,
    found: &Vec<Occurrence>,
) -> (out: Vec<Match<'a>>)
    requires
        well_placed(hits_of(found@), text.spec_bytes(), info_types@.len() as nat),
    ensures
        findings_of(out@) == findings(text@, hits_of(found@), info_types@),
{
    let mut out: Vec<Match<'a>> = Vec::new();
    let mut i: usize = 0;
    assert(hits_of(found@).take(0) =~= Seq::<Hit>::empty());
    assert(findings_of(out@) =~= Seq::<Finding>::empty());
    while i < found.len()
        invariant
            i <= found.len(),
            well_placed(hits_of(found@), text.spec_bytes(), info_types@.len() as nat),
            findings_of(out@) == findings(text@, hits_of(found@).take(i as int), info_types@),
        decreases found.len() - i,
    {
        let occurrence = &found[i];
        let ghost hit = hits_of(found@)[i as int];
        let ghost before = findings_of(out@);
        proof {
            let upto = hits_of(found@).take(i as int + 1);
            assert(upto.drop_last() =~= hits_of(found@).take(i as int));
            assert(upto.last() == hit);
            assert(hit == occurrence@);
            lemma_kind_of(hit.groups);
        }
        match first_participant(&occurrence.groups) {
            Some(k) => {
                let piece = substring(text, occurrence.start, occurrence.end);
                let at = Position { start: occurrence.start, end: occurrence.end };
                assert(at == place_of(hit));
                assert(piece@ == piece_of(text@, hit));
                match find_by_text(&out, &piece) {
                    Some(j) => {
                        proof {
                            lemma_index_of_text(before, piece@);
                        }
                        out[j].positions.push(at);
                        assert(findings_of(out@) =~= record(
                            before,
                            piece@,
                            at,
                            info_types@[k as int],
                        ));
                    },
                    None => {
                        let mut positions: Vec<Position> = Vec::new();
                        positions.push(at);
                        assert(positions@ =~= seq![at]);
                        out.push(Match { text: piece, positions, info_type: &info_types[k] });
                        assert(findings_of(out@) =~= record(
                            before,
                            piece@,
                            at,
                            info_types@[k as int],
                        ));
                    },
                }
            },
            None => {},
        }
        i += 1;
    }
    assert(hits_of(found@).take(i as int) =~= hits_of(found@));
    out
}

} // verus!
