use infotype_matcher::info_types::{Generator, InfoType};
use infotype_matcher::regex_matcher::{new, Position, RegexMatcher};
use infotype_matcher::AusPassport;

fn info(name: &str, expr: &str) -> InfoType {
    InfoType {
        expr: expr.to_string(),
        name: name.to_string(),
        word_boundary: false,
        generator: Generator::Blank,
    }
}

fn matcher_of(list: Vec<InfoType>) -> RegexMatcher {
    new(list).expect("the combined pattern compiles")
}

#[test]
fn test_aus_passport() {
    let passport = AusPassport::default();
    let compiled = passport.compile();
    let matched = compiled.is_match("A4365475");
    assert_eq!(matched, true);
}

#[test]
fn test_regex_matcher() {
    let info_type = InfoType {
        expr: "[A-Z0-9][0-9]{5,7}".to_string(),
        name: "TestInfoType".to_string(),
        word_boundary: false,
        generator: Generator::Fixed("1234".to_string()),
    };
    let expected = info_type.clone();
    let info_types = vec![info_type];
    let matcher = matcher_of(info_types);

    let text = "T123456".to_string();
    let matches = matcher.match_fn(&text);
    assert_eq!(matches.len(), 1);

    let first_match = &matches[0];
    assert_eq!(first_match.text, text);

    let first_position = &first_match.positions[0];
    assert_eq!(first_position.start, 0);
    assert_eq!(first_position.end, text.len());

    assert_eq!(first_match.info_type.name, expected.name);
    assert_eq!(first_match.info_type.expr, expected.expr);
}

#[test]
fn aus_passport_default_holds_its_name_and_pattern() {
    let passport = AusPassport::default();
    assert_eq!(passport.name(), "AusPassport");
    assert_eq!(passport.expr(), "[A-Z][0-9]{7}");
    let compiled = passport.try_compile().expect("the pattern compiles");
    assert_eq!(compiled.as_str(), "[A-Z][0-9]{7}");
    assert!(!compiled.is_match("4365475A"));
}

#[test]
fn single_passport_in_a_sentence() {
    let matcher = matcher_of(vec![info("AusPassport", "[A-Z][0-9]{7}")]);
    let matches = matcher.match_fn("ref A1234567 end");
    assert_eq!(matches.len(), 1);
    assert_eq!(matches[0].text, "A1234567");
    assert_eq!(matches[0].positions, vec![Position { start: 4, end: 12 }]);
    assert_eq!(matches[0].info_type.name, "AusPassport");
}

#[test]
fn two_info_types_each_claim_their_own() {
    let matcher = matcher_of(vec![
        info("AusPassport", "[A-Z][0-9]{7}"),
        info("LongDigit", "\\d{8}"),
    ]);
    let text = "A1234567 and 12345678";
    let matches = matcher.match_fn(text);
    assert_eq!(matches.len(), 2);
    assert_eq!(matches[0].text, "A1234567");
    assert_eq!(matches[0].info_type.name, "AusPassport");
    assert_eq!(matches[0].positions, vec![Position { start: 0, end: 8 }]);
    assert_eq!(matches[1].text, "12345678");
    assert_eq!(matches[1].info_type.name, "LongDigit");
    assert_eq!(matches[1].positions, vec![Position { start: 13, end: 21 }]);
    for m in &matches {
        assert!(!m.text.is_empty());
        assert!(!m.positions.is_empty());
        for p in &m.positions {
            assert!(p.start <= p.end && p.end <= text.len());
            assert_eq!(&text[p.start..p.end], m.text);
        }
    }
}

#[test]
fn matchers_of_one_list_scan_alike() {
    let list = || vec![info("AusPassport", "[A-Z][0-9]{7}"), info("LongDigit", "\\d{8}")];
    let one = matcher_of(list());
    let other = matcher_of(list());
    assert_eq!(one.pattern(), other.pattern());
    let text = "12345678 A1234567 12345678";
    let a = one.match_fn(text);
    let b = other.match_fn(text);
    assert_eq!(a.len(), 2);
    assert_eq!(a.len(), b.len());
    for (x, y) in a.iter().zip(b.iter()) {
        assert_eq!(x.text, y.text);
        assert_eq!(x.positions, y.positions);
        assert_eq!(x.info_type.name, y.info_type.name);
    }
}

#[test]
fn repeated_text_is_one_match_with_two_positions() {
    let matcher = matcher_of(vec![info("AusPassport", "[A-Z][0-9]{7}")]);
    let matches = matcher.match_fn("A1234567 twice A1234567");
    assert_eq!(matches.len(), 1);
    assert_eq!(matches[0].text, "A1234567");
    assert_eq!(
        matches[0].positions,
        vec![Position { start: 0, end: 8 }, Position { start: 15, end: 23 }]
    );
}

#[test]
fn no_occurrence_gives_no_match() {
    let matcher = matcher_of(vec![info("AusPassport", "[A-Z][0-9]{7}")]);
    let matches = matcher.match_fn("hello world");
    assert!(matches.is_empty());
    assert!(matcher.match_fn("").is_empty());
}

#[test]
fn earlier_declared_info_type_wins() {
    let first = matcher_of(vec![info("Word", "[a-z]+"), info("Vowels", "[aeiou]+")]);
    let matches = first.match_fn("aeiou");
    assert_eq!(matches.len(), 1);
    assert_eq!(matches[0].info_type.name, "Word");

    let second = matcher_of(vec![info("Vowels", "[aeiou]+"), info("Word", "[a-z]+")]);
    let matches = second.match_fn("aeiou");
    assert_eq!(matches.len(), 1);
    assert_eq!(matches[0].text, "aeiou");
    assert_eq!(matches[0].info_type.name, "Vowels");
}

#[test]
fn first_classification_of_a_text_wins() {
    // "ab" is claimed by Pair where it stands alone and by Tail after an "x".
    let matcher = matcher_of(vec![info("Tail", "(?:x)?ab$"), info("Pair", "ab")]);
    let matches = matcher.match_fn("ab ab");
    assert_eq!(matches.len(), 1);
    assert_eq!(matches[0].text, "ab");
    assert_eq!(matches[0].info_type.name, "Pair");
    assert_eq!(
        matches[0].positions,
        vec![Position { start: 0, end: 2 }, Position { start: 3, end: 5 }]
    );
}

#[test]
fn scanning_twice_gives_the_same_matches() {
    let matcher = matcher_of(vec![
        info("AusPassport", "[A-Z][0-9]{7}"),
        info("LongDigit", "\\d{8}"),
    ]);
    let text = "12345678 A1234567 12345678 B7654321 A1234567";
    let once = matcher.match_fn(text);
    let again = matcher.match_fn(text);
    assert_eq!(once.len(), 3);
    assert_eq!(once.len(), again.len());
    for (a, b) in once.iter().zip(again.iter()) {
        assert_eq!(a.text, b.text);
        assert_eq!(a.positions, b.positions);
        assert_eq!(a.info_type.name, b.info_type.name);
    }
    assert_eq!(once[0].text, "12345678");
    assert_eq!(once[1].text, "A1234567");
    assert_eq!(once[2].text, "B7654321");
}

#[test]
fn matched_text_with_metacharacters_is_found_again_literally() {
    let matcher = matcher_of(vec![info("Bracketed", "\\[[a-z.*+]+\\]")]);
    let text = "see [a.*] and [a.*] but not [ab]x";
    let matches = matcher.match_fn(text);
    assert_eq!(matches.len(), 2);
    assert_eq!(matches[0].text, "[a.*]");
    assert_eq!(
        matches[0].positions,
        vec![Position { start: 4, end: 9 }, Position { start: 14, end: 19 }]
    );
    assert_eq!(matches[1].text, "[ab]");
    assert_eq!(matches[1].positions, vec![Position { start: 28, end: 32 }]);
}

#[test]
fn offsets_count_bytes_in_text_beyond_ascii() {
    let matcher = matcher_of(vec![info("Greek", "\\p{Greek}+"), info("Digits", "[0-9]+")]);
    let text = "Greek: αβγδ 42 αβγδ";
    let matches = matcher.match_fn(text);
    assert_eq!(matches.len(), 2);
    assert_eq!(matches[0].text, "αβγδ");
    assert_eq!(
        matches[0].positions,
        vec![Position { start: 7, end: 15 }, Position { start: 19, end: 27 }]
    );
    assert_eq!(matches[0].info_type.name, "Greek");
    assert_eq!(matches[1].text, "42");
    assert_eq!(matches[1].positions, vec![Position { start: 16, end: 18 }]);
}

#[test]
fn word_boundary_anchors_the_start() {
    let mut plain = info("Num", "[0-9]{3}");
    plain.word_boundary = false;
    let mut anchored = info("Num", "[0-9]{3}");
    anchored.word_boundary = true;
    let text = "a123 456";
    let loose = matcher_of(vec![plain]).match_fn(text).len();
    assert_eq!(loose, 2);
    let strict = matcher_of(vec![anchored]);
    let matches = strict.match_fn(text);
    assert_eq!(matches.len(), 1);
    assert_eq!(matches[0].text, "456");
    assert_eq!(matches[0].positions, vec![Position { start: 5, end: 8 }]);
}

#[test]
fn empty_occurrences_are_merged_like_any_other_text() {
    let matcher = matcher_of(vec![info("Maybe", "a*")]);
    let matches = matcher.match_fn("b");
    assert_eq!(matches.len(), 1);
    assert_eq!(matches[0].text, "");
    assert_eq!(
        matches[0].positions,
        vec![Position { start: 0, end: 0 }, Position { start: 1, end: 1 }]
    );
}

#[test]
fn sub_expression_wraps_the_pattern_in_a_named_group() {
    let mut it = info("AusPassport", "[A-Z][0-9]{7}");
    assert_eq!(RegexMatcher::create_sub_expression(&it, 0), "(?<AusPassport>[A-Z][0-9]{7})");
    assert_eq!(RegexMatcher::create_sub_expression(&it, 1), "|(?<AusPassport>[A-Z][0-9]{7})");
    it.word_boundary = true;
    assert_eq!(RegexMatcher::create_sub_expression(&it, 0), "(?<AusPassport>\\b[A-Z][0-9]{7})");
    assert_eq!(RegexMatcher::create_sub_expression(&it, 7), "|(?<AusPassport>\\b[A-Z][0-9]{7})");
}

#[test]
fn matcher_holds_one_group_name_per_info_type() {
    let matcher = matcher_of(vec![
        info("AusPassport", "[A-Z][0-9]{7}"),
        info("LongDigit", "\\d{8}"),
        info("Word", "(in(ner))"),
    ]);
    assert_eq!(matcher.info_type_names().len(), 3);
    assert_eq!(matcher.info_types().len(), 3);
    assert_eq!(
        matcher.info_type_names(),
        &vec!["AusPassport".to_string(), "LongDigit".to_string(), "Word".to_string()]
    );
    assert_eq!(
        matcher.pattern(),
        "(?<AusPassport>[A-Z][0-9]{7})|(?<LongDigit>\\d{8})|(?<Word>(in(ner)))"
    );
    let empty = matcher_of(Vec::new());
    assert_eq!(empty.info_type_names().len(), 0);
    assert_eq!(empty.pattern(), "");
}

#[test]
fn duplicate_names_fail_compilation() {
    let r = new(vec![info("Dup", "a"), info("Dup", "b")]);
    let e = r.err().expect("two groups of one name do not compile");
    assert_eq!(e.pattern, "(?<Dup>a)|(?<Dup>b)");
}

#[test]
fn broken_pattern_fails_compilation() {
    let r = new(vec![info("Open", "(a")]);
    let e = r.err().expect("an unclosed group does not compile");
    assert_eq!(e.pattern, "(?<Open>(a)");
}

#[test]
fn a_pattern_that_compiles_alone_may_fail_when_merged() {
    assert!(regex::Regex::new("(?x) a # note").is_ok());
    let r = new(vec![info("Verbose", "(?x) a # note")]);
    assert!(r.is_err());
    let r = new(vec![info("two words", "a")]);
    assert!(r.is_err());
}

#[test]
fn positions_for_an_expression() {
    let expr = regex::Regex::new("[0-9]+").unwrap();
    let positions = RegexMatcher::get_positions_for_expr(&expr, "a 12 bc 345 6");
    assert_eq!(
        positions,
        vec![
            Position { start: 2, end: 4 },
            Position { start: 8, end: 11 },
            Position { start: 12, end: 13 }
        ]
    );
    assert!(RegexMatcher::get_positions_for_expr(&expr, "none").is_empty());
}

#[test]
fn unique_matches_come_in_order_of_first_occurrence() {
    let matcher = matcher_of(vec![info("Num", "[0-9]+"), info("Up", "[A-Z]+")]);
    let pieces = matcher.get_unique_matches("12 AB 12 7 AB C 7");
    assert_eq!(pieces, vec!["12", "AB", "7", "C"]);
    assert!(matcher.get_unique_matches("...").is_empty());
}

#[test]
fn group_name_of_the_first_occurrence() {
    let matcher = matcher_of(vec![info("Num", "[0-9]+"), info("Up", "[A-Z]+")]);
    assert_eq!(matcher.get_group_name("AB 12"), (true, "Up".to_string()));
    assert_eq!(matcher.get_group_name("12 AB"), (true, "Num".to_string()));
    assert_eq!(matcher.get_group_name("12"), (true, "Num".to_string()));
    assert_eq!(matcher.get_group_name("..."), (false, String::new()));
}

#[test]
fn catalogue_matcher_classifies_a_passport_number() {
    let matcher = matcher_of(vec![InfoType::aus_passport(), InfoType::long_digit(8)]);
    let matches = matcher.match_fn("A1234567 and 12345678");
    assert_eq!(matches.len(), 2);
    assert_eq!(matches[0].info_type.name, "AusPassport");
    assert_eq!(matches[1].info_type.name, "LongDigit");
}
