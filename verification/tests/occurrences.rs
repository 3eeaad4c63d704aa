use infotype_matcher::engine::Occurrence;
use infotype_matcher::grouping::{
    find_by_text, first_participant, group_occurrences, holds_text, name_of_first, positions_of,
    unique_pieces,
};
use infotype_matcher::info_types::{Generator, InfoType};
use infotype_matcher::regex_matcher::Position;

fn info(name: &str) -> InfoType {
    InfoType {
        expr: ".".to_string(),
        name: name.to_string(),
        word_boundary: false,
        generator: Generator::Blank,
    }
}

fn occurrence(start: usize, end: usize, groups: Vec<Option<(usize, usize)>>) -> Occurrence {
    Occurrence { start, end, groups }
}

#[test]
fn first_participant_is_the_least_index() {
    assert_eq!(first_participant(&vec![]), None);
    assert_eq!(first_participant(&vec![None, None]), None);
    assert_eq!(first_participant(&vec![Some((0, 1))]), Some(0));
    assert_eq!(first_participant(&vec![None, Some((0, 1)), Some((0, 1))]), Some(1));
    assert_eq!(first_participant(&vec![None, None, Some((2, 3))]), Some(2));
}

#[test]
fn grouping_merges_by_text_and_keeps_the_first_classification() {
    let list = vec![info("First"), info("Second")];
    let text = "ab cd ab ef";
    let found = vec![
        occurrence(0, 2, vec![None, Some((0, 2))]),
        occurrence(3, 5, vec![Some((3, 5)), Some((3, 5))]),
        occurrence(6, 8, vec![Some((6, 8)), None]),
        occurrence(9, 11, vec![None, None]),
    ];
    let matches = group_occurrences(&list, text, &found);
    assert_eq!(matches.len(), 2);
    assert_eq!(matches[0].text, "ab");
    assert_eq!(matches[0].info_type.name, "Second");
    assert_eq!(
        matches[0].positions,
        vec![Position { start: 0, end: 2 }, Position { start: 6, end: 8 }]
    );
    assert_eq!(matches[1].text, "cd");
    assert_eq!(matches[1].info_type.name, "First");
    assert_eq!(matches[1].positions, vec![Position { start: 3, end: 5 }]);
    assert_eq!(find_by_text(&matches, &"cd".to_string()), Some(1));
    assert_eq!(find_by_text(&matches, &"ef".to_string()), None);
}

#[test]
fn grouping_of_nothing_is_nothing() {
    let list = vec![info("First")];
    assert!(group_occurrences(&list, "abc", &vec![]).is_empty());
    let unclaimed = vec![occurrence(0, 1, vec![None])];
    assert!(group_occurrences(&list, "abc", &unclaimed).is_empty());
}

#[test]
fn positions_are_copied_in_order() {
    let found = vec![occurrence(1, 2, vec![]), occurrence(4, 9, vec![])];
    assert_eq!(
        positions_of(&found),
        vec![Position { start: 1, end: 2 }, Position { start: 4, end: 9 }]
    );
    assert!(positions_of(&vec![]).is_empty());
}

#[test]
fn unique_pieces_keep_the_first_of_each() {
    let found = vec![
        occurrence(0, 1, vec![]),
        occurrence(2, 3, vec![]),
        occurrence(4, 5, vec![]),
        occurrence(6, 7, vec![]),
    ];
    assert_eq!(unique_pieces("a b a c", &found, 0), vec!["a", "b", "c"]);
    assert!(holds_text(&vec!["a".to_string(), "b".to_string()], &"b".to_string()));
    assert!(!holds_text(&vec!["a".to_string(), "b".to_string()], &"c".to_string()));
}

#[test]
fn name_of_first_looks_at_the_first_occurrence_only() {
    let names = vec!["One".to_string(), "Two".to_string()];
    let found = vec![
        occurrence(0, 1, vec![None, Some((0, 1))]),
        occurrence(2, 3, vec![Some((2, 3)), None]),
    ];
    assert_eq!(name_of_first(&names, &found), (true, "Two".to_string()));
    assert_eq!(name_of_first(&names, &vec![]), (false, String::new()));
    let unclaimed = vec![occurrence(0, 1, vec![None, None])];
    assert_eq!(name_of_first(&names, &unclaimed), (false, String::new()));
}
