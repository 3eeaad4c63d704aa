use crate::engine::{well_placed, Hit};
use crate::grouping::{
    findings, index_of_text, kind_of, lemma_index_of_text, lemma_kind_of, piece_of, place_of,
};
use crate::info_types::InfoType;
use crate::regex_matcher::{Finding, Position, RegexMatcher};
use crate::text::{lemma_boundary_of_prefix, slice_of};
use vstd::prelude::*;
use vstd::utf8::*;

verus! {

/// An occurrence is classified and covers exactly `piece`.
pub open spec fn claims(text: Seq<char>, hit: Hit, piece: Seq<char>) -> bool {
    kind_of(hit.groups) is Some && piece_of(text, hit) == piece
}

/// The spans of the classified occurrences that cover exactly `piece`, in
/// the order found.
pub open spec fn occurrences_of(text: Seq<char>, hits: Seq<Hit>, piece: Seq<char>) -> Seq<Position>
    decreases hits.len(),
{
    if hits.len() == 0 {
        Seq::<Position>::empty()
    } else {
        let before = occurrences_of(text, hits.drop_last(), piece);
        if claims(text, hits.last(), piece) {
            before.push(place_of(hits.last()))
        } else {
            before
        }
    }
}

/// The index of the first classified occurrence that covers exactly `piece`.
pub open spec fn first_claim(text: Seq<char>, hits: Seq<Hit>, piece: Seq<char>) -> Option<int>
    decreases hits.len(),
{
    if hits.len() == 0 {
        None
    } else {
        match first_claim(text, hits.drop_last(), piece) {
            Some(i) => Some(i),
            None => if claims(text, hits.last(), piece) {
                Some(hits.len() - 1)
            } else {
                None
            },
        }
    }
}

/// A finding says of its text what the occurrences say: it lists the spans
/// of all of them, there is at least one, and its info type is the one that
/// the first group of the first of them stands for.
pub open spec fn faithful_to(text: Seq<char>, hits: Seq<Hit>, list: Seq<InfoType>, f: Finding) -> bool {
    &&& f.positions == occurrences_of(text, hits, f.text)
    &&& f.positions.len() > 0
    &&& first_claim(text, hits, f.text) is Some
    &&& kind_of(hits[first_claim(text, hits, f.text).unwrap()].groups) is Some
    &&& f.info_type == list[kind_of(
        hits[first_claim(text, hits, f.text).unwrap()].groups,
    ).unwrap()]
}

/// A list of findings accounts for a list of occurrences: no text has two
/// findings, each finding is faithful, and every text that a classified
/// occurrence covers has a finding.
pub open spec fn accounts_for(
    text: Seq<char>,
    hits: Seq<Hit>,
    list: Seq<InfoType>,
    fs: Seq<Finding>,
) -> bool {
    &&& forall|a: int, b: int|
        0 <= a < b < fs.len() ==> (#[trigger] fs[a]).text != (#[trigger] fs[b]).text
    &&& forall|k: int| 0 <= k < fs.len() ==> faithful_to(text, hits, list, #[trigger] fs[k])
    &&& forall|piece: Seq<char>|
        (#[trigger] occurrences_of(text, hits, piece)).len() > 0 ==> index_of_text(fs, piece)
            is Some
}

/// `first_claim` gives the least index of an occurrence that claims the
/// text, and there is one exactly when the text has occurrences.
pub proof fn lemma_first_claim(text: Seq<char>, hits: Seq<Hit>, piece: Seq<char>)
    ensures
        first_claim(text, hits, piece) is Some <==> occurrences_of(text, hits, piece).len() > 0,
        match first_claim(text, hits, piece) {
            Some(i) => 0 <= i < hits.len() && claims(text, hits[i], piece) && forall|j: int|
                0 <= j < i ==> !claims(text, hits[j], piece),
            None => forall|j: int| 0 <= j < hits.len() ==> !claims(text, hits[j], piece),
        },
    decreases hits.len(),
{
    if hits.len() > 0 {
        let front = hits.drop_last();
        lemma_first_claim(text, front, piece);
        match first_claim(text, front, piece) {
            Some(i) => {
                assert(hits[i] == front[i]);
                assert forall|j: int| 0 <= j < i implies !claims(text, hits[j], piece) by {
                    assert(hits[j] == front[j]);
                }
            },
            None => {
                assert forall|j: int| 0 <= j < hits.len() - 1 implies !claims(
                    text,
                    hits[j],
                    piece,
                ) by {
                    assert(hits[j] == front[j]);
                }
            },
        }
    }
}

/// Every span listed for a text is the span of an occurrence that claims
/// it, and the spans stand in the order of the occurrences: the result
/// gives, for each listed span, the index of its occurrence.
pub proof fn lemma_occurrences_come_from_hits(
    text: Seq<char>,
    hits: Seq<Hit>,
    piece: Seq<char>,
) -> (origin: Seq<int>)
    ensures
        origin.len() == occurrences_of(text, hits, piece).len(),
        forall|a: int|
            0 <= a < origin.len() ==> {
                &&& 0 <= (#[trigger] origin[a]) < hits.len()
                &&& claims(text, hits[origin[a]], piece)
                &&& occurrences_of(text, hits, piece)[a] == place_of(hits[origin[a]])
            },
        forall|a: int, b: int|
            0 <= a < b < origin.len() ==> (#[trigger] origin[a]) < (#[trigger] origin[b]),
    decreases hits.len(),
{
    if hits.len() == 0 {
        Seq::<int>::empty()
    } else {
        let front = hits.drop_last();
        let was = lemma_occurrences_come_from_hits(text, front, piece);
        assert forall|a: int| 0 <= a < was.len() implies hits[#[trigger] was[a]] == front[was[a]] by {}
        if claims(text, hits.last(), piece) {
            was.push(hits.len() - 1)
        } else {
            was
        }
    }
}

/// Whether a list of findings holds a text depends on its texts alone.
proof fn lemma_same_texts_same_index(was: Seq<Finding>, now: Seq<Finding>, piece: Seq<char>)
    requires
        was.len() <= now.len(),
        forall|j: int| 0 <= j < was.len() ==> was[j].text == now[j].text,
        index_of_text(was, piece) is Some,
    ensures
        index_of_text(now, piece) is Some,
{
    lemma_index_of_text(was, piece);
    lemma_index_of_text(now, piece);
    let k = index_of_text(was, piece).unwrap();
    assert(now[k].text == piece);
}

/// The findings of a scan account for its occurrences.
pub proof fn lemma_findings_account(text: Seq<char>, hits: Seq<Hit>, list: Seq<InfoType>)
    ensures
        accounts_for(text, hits, list, findings(text, hits, list)),
    decreases hits.len(),
{
    let fs = findings(text, hits, list);
    if hits.len() > 0 {
        let front = hits.drop_last();
        let h = hits.last();
        let before = findings(text, front, list);
        lemma_findings_account(text, front, list);
        assert forall|piece: Seq<char>|
            first_claim(text, front, piece) is Some implies first_claim(text, hits, piece)
            == first_claim(text, front, piece) && hits[first_claim(text, front, piece).unwrap()]
            == front[first_claim(text, front, piece).unwrap()] by {
            lemma_first_claim(text, front, piece);
        }
        match kind_of(h.groups) {
            None => {
                assert forall|piece: Seq<char>| #[trigger]
                    occurrences_of(text, hits, piece).len() > 0 implies index_of_text(fs, piece)
                    is Some by {
                    assert(occurrences_of(text, front, piece).len() > 0);
                }
                assert forall|k: int| 0 <= k < fs.len() implies faithful_to(
                    text,
                    hits,
                    list,
                    #[trigger] fs[k],
                ) by {
                    assert(faithful_to(text, front, list, before[k]));
                }
            },
            Some(g) => {
                let piece = piece_of(text, h);
                let at = place_of(h);
                lemma_index_of_text(before, piece);
                lemma_first_claim(text, front, piece);
                lemma_first_claim(text, hits, piece);
                match index_of_text(before, piece) {
                    Some(m) => {
                        assert forall|j: int| 0 <= j < before.len() implies before[j].text
                            == fs[j].text by {}
                        assert forall|a: int, b: int| 0 <= a < b < fs.len() implies (
                        #[trigger] fs[a]).text != (#[trigger] fs[b]).text by {
                            assert(before[a].text != before[b].text);
                        }
                        assert forall|k: int| 0 <= k < fs.len() implies faithful_to(
                            text,
                            hits,
                            list,
                            #[trigger] fs[k],
                        ) by {
                            assert(faithful_to(text, front, list, before[k]));
                            if k != m {
                                if k < m {
                                    assert(before[k].text != before[m].text);
                                } else {
                                    assert(before[m].text != before[k].text);
                                }
                            }
                        }
                        assert forall|p: Seq<char>| #[trigger]
                            occurrences_of(text, hits, p).len() > 0 implies index_of_text(fs, p)
                            is Some by {
                            if p == piece {
                                lemma_same_texts_same_index(before, fs, p);
                            } else {
                                assert(occurrences_of(text, front, p).len() > 0);
                                lemma_same_texts_same_index(before, fs, p);
                            }
                        }
                    },
                    None => {
                        assert(occurrences_of(text, front, piece).len() == 0);
                        assert(occurrences_of(text, hits, piece) =~= seq![at]);
                        assert forall|a: int, b: int| 0 <= a < b < fs.len() implies (
                        #[trigger] fs[a]).text != (#[trigger] fs[b]).text by {
                            if b < before.len() {
                                assert(before[a].text != before[b].text);
                            }
                        }
                        assert forall|k: int| 0 <= k < fs.len() implies faithful_to(
                            text,
                            hits,
                            list,
                            #[trigger] fs[k],
                        ) by {
                            if k < before.len() {
                                assert(faithful_to(text, front, list, before[k]));
                                assert(before[k].text != piece);
                            }
                        }
                        assert forall|p: Seq<char>| #[trigger]
                            occurrences_of(text, hits, p).len() > 0 implies index_of_text(fs, p)
                            is Some by {
                            if p == piece {
                                lemma_index_of_text(fs, p);
                                assert(fs[fs.len() - 1].text == p);
                            } else {
                                assert(occurrences_of(text, front, p).len() > 0);
                                lemma_same_texts_same_index(before, fs, p);
                            }
                        }
                    },
                }
            },
        }
    }
}

/// A span between two distinct boundaries covers at least one character.
pub proof fn lemma_slice_not_empty(text: Seq<char>, start: int, end: int)
    requires
        start < end,
        is_char_boundary(encode_utf8(text), start),
        is_char_boundary(encode_utf8(text), end),
    ensures
        slice_of(text, start, end).len() > 0,
{
    let bytes = encode_utf8(text);
    encode_utf8_valid_utf8(text);
    lemma_boundary_of_prefix(bytes, start, end);
    crate::text::lemma_boundary_in_range(bytes, end);
    crate::text::lemma_boundary_in_range(bytes, start);
    let prefix = bytes.subrange(0, end);
    valid_utf8_split(prefix, start);
    assert(prefix.subrange(start, prefix.len() as int) =~= bytes.subrange(start, end));
}

/// The position at index `a` of a finding lies inside the text, runs
/// forward, and covers exactly the text of the finding.
pub open spec fn covers_its_text(text: Seq<char>, f: Finding, a: int) -> bool {
    &&& f.positions[a].start <= f.positions[a].end <= encode_utf8(text).len()
    &&& slice_of(text, f.positions[a].start as int, f.positions[a].end as int) == f.text
}

/// The position at index `a` of a finding ends before the one at index `b`
/// begins, and begins before it.
pub open spec fn stands_before(f: Finding, a: int, b: int) -> bool {
    &&& f.positions[a].end <= f.positions[b].start
    &&& f.positions[a].start < f.positions[b].start
}

/// Every position of every match of a scan lies inside the text, runs
/// forward, and covers exactly the text of its match.
pub proof fn lemma_positions_hold_the_text(
    text: Seq<char>,
    hits: Seq<Hit>,
    list: Seq<InfoType>,
    asked: nat,
)
    requires
        well_placed(hits, encode_utf8(text), asked),
    ensures
        forall|k: int, a: int|
            0 <= k < findings(text, hits, list).len() && 0 <= a < findings(
                text,
                hits,
                list,
            )[k].positions.len() ==> #[trigger] covers_its_text(
                text,
                findings(text, hits, list)[k],
                a,
            ),
{
    let fs = findings(text, hits, list);
    lemma_findings_account(text, hits, list);
    assert forall|k: int, a: int|
        0 <= k < fs.len() && 0 <= a < fs[k].positions.len() implies #[trigger] covers_its_text(
        text,
        fs[k],
        a,
    ) by {
        assert(faithful_to(text, hits, list, fs[k]));
        let origin = lemma_occurrences_come_from_hits(text, hits, fs[k].text);
        let i = origin[a];
        assert(fs[k].positions[a] == place_of(hits[i]));
        assert(claims(text, hits[i], fs[k].text));
    }
}

/// Where no classified occurrence is empty, no match has an empty text.
pub proof fn lemma_texts_not_empty(text: Seq<char>, hits: Seq<Hit>, list: Seq<InfoType>, asked: nat)
    requires
        well_placed(hits, encode_utf8(text), asked),
        forall|i: int|
            0 <= i < hits.len() && kind_of((#[trigger] hits[i]).groups) is Some ==> hits[i].start
                < hits[i].end,
    ensures
        forall|k: int|
            0 <= k < findings(text, hits, list).len() ==> (#[trigger] findings(
                text,
                hits,
                list,
            )[k]).text.len() > 0,
{
    let fs = findings(text, hits, list);
    lemma_findings_account(text, hits, list);
    assert forall|k: int| 0 <= k < fs.len() implies (#[trigger] fs[k]).text.len() > 0 by {
        assert(faithful_to(text, hits, list, fs[k]));
        lemma_first_claim(text, hits, fs[k].text);
        let i = first_claim(text, hits, fs[k].text).unwrap();
        assert(claims(text, hits[i], fs[k].text));
        lemma_slice_not_empty(text, hits[i].start as int, hits[i].end as int);
    }
}

/// A text that classified occurrences cover has exactly one match, and that
/// match lists the span of each of those occurrences once, in the order
/// found. A text that none covers has no match.
pub proof fn lemma_one_match_per_text(
    text: Seq<char>,
    hits: Seq<Hit>,
    list: Seq<InfoType>,
    piece: Seq<char>,
)
    ensures
        occurrences_of(text, hits, piece).len() > 0 ==> {
            &&& index_of_text(findings(text, hits, list), piece) is Some
            &&& 0 <= index_of_text(findings(text, hits, list), piece).unwrap() < findings(
                text,
                hits,
                list,
            ).len()
            &&& findings(text, hits, list)[index_of_text(
                findings(text, hits, list),
                piece,
            ).unwrap()].positions == occurrences_of(text, hits, piece)
            &&& forall|j: int|
                0 <= j < findings(text, hits, list).len() ==> ((#[trigger] findings(
                    text,
                    hits,
                    list,
                )[j]).text == piece <==> j == index_of_text(
                    findings(text, hits, list),
                    piece,
                ).unwrap())
        },
        occurrences_of(text, hits, piece).len() == 0 ==> forall|j: int|
            0 <= j < findings(text, hits, list).len() ==> (#[trigger] findings(
                text,
                hits,
                list,
            )[j]).text != piece,
{
    let fs = findings(text, hits, list);
    lemma_findings_account(text, hits, list);
    lemma_index_of_text(fs, piece);
    if occurrences_of(text, hits, piece).len() > 0 {
        let k = index_of_text(fs, piece).unwrap();
        assert(faithful_to(text, hits, list, fs[k]));
        assert forall|j: int| 0 <= j < fs.len() implies ((#[trigger] fs[j]).text == piece <==> j
            == k) by {
            if j < k {
                assert(fs[j].text != fs[k].text);
            } else if k < j {
                assert(fs[k].text != fs[j].text);
            }
        }
    } else {
        assert forall|j: int| 0 <= j < fs.len() implies (#[trigger] fs[j]).text != piece by {
            assert(faithful_to(text, hits, list, fs[j]));
        }
    }
}

/// The positions of a match stand in the order found and do not overlap, so
/// no two of them are the same.
pub proof fn lemma_positions_ascend(text: Seq<char>, hits: Seq<Hit>, list: Seq<InfoType>, asked: nat)
    requires
        well_placed(hits, encode_utf8(text), asked),
    ensures
        forall|k: int, a: int, b: int|
            0 <= k < findings(text, hits, list).len() && 0 <= a < b < findings(
                text,
                hits,
                list,
            )[k].positions.len() ==> #[trigger] stands_before(
                findings(text, hits, list)[k],
                a,
                b,
            ),
{
    let fs = findings(text, hits, list);
    lemma_findings_account(text, hits, list);
    assert forall|k: int, a: int, b: int|
        0 <= k < fs.len() && 0 <= a < b < fs[k].positions.len() implies #[trigger] stands_before(
        fs[k],
        a,
        b,
    ) by {
        assert(faithful_to(text, hits, list, fs[k]));
        let origin = lemma_occurrences_come_from_hits(text, hits, fs[k].text);
        assert(origin[a] < origin[b]);
        assert(fs[k].positions[a] == place_of(hits[origin[a]]));
        assert(fs[k].positions[b] == place_of(hits[origin[b]]));
    }
}

/// A match is classified by the first occurrence of its text in scan order,
/// and within that occurrence by the info type declared earliest among those
/// whose group took part.
pub proof fn lemma_first_claim_decides(text: Seq<char>, hits: Seq<Hit>, list: Seq<InfoType>, k: int)
    requires
        0 <= k < findings(text, hits, list).len(),
    ensures
        first_claim(text, hits, findings(text, hits, list)[k].text) is Some,
        ({
            let f = findings(text, hits, list)[k];
            let i = first_claim(text, hits, f.text).unwrap();
            &&& 0 <= i < hits.len()
            &&& piece_of(text, hits[i]) == f.text
            &&& forall|j: int| 0 <= j < i ==> !claims(text, hits[j], f.text)
            &&& kind_of(hits[i].groups) is Some
            &&& ({
                let g = kind_of(hits[i].groups).unwrap();
                &&& 0 <= g < hits[i].groups.len()
                &&& hits[i].groups[g] is Some
                &&& forall|e: int| 0 <= e < g ==> hits[i].groups[e] is None
                &&& f.info_type == list[g]
            })
        }),
{
    let fs = findings(text, hits, list);
    lemma_findings_account(text, hits, list);
    assert(faithful_to(text, hits, list, fs[k]));
    lemma_first_claim(text, hits, fs[k].text);
    let i = first_claim(text, hits, fs[k].text).unwrap();
    lemma_kind_of(hits[i].groups);
}

/// Two matchers built from the same list of info types give the same
/// matches for every text.
pub proof fn lemma_same_list_same_scan(
    one: RegexMatcher,
    other: RegexMatcher,
    list: Seq<InfoType>,
    text: Seq<char>,
)
    requires
        one.built_from(list),
        other.built_from(list),
    ensures
        one.scan(text) == other.scan(text),
{
}

/// Scanning a text again with the same matcher gives the same matches in
/// the same order.
pub proof fn lemma_scan_repeatable(
    matcher: RegexMatcher,
    text: Seq<char>,
    once: Seq<Finding>,
    again: Seq<Finding>,
)
    requires
        once == matcher.scan(text),
        again == matcher.scan(text),
    ensures
        once == again,
{
}

} // verus!
