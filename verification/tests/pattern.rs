use cauldron::pattern::{find_pattern, find_tokens, parse_pattern, PatternSearchError};

#[test]
fn parses_hex_pairs_in_either_case() {
    assert_eq!(
        parse_pattern("48 8b 0D fF").unwrap(),
        vec![(0x48, false), (0x8b, false), (0x0d, false), (0xff, false)]
    );
}

#[test]
fn parses_single_and_double_question_mark_as_one_wildcard() {
    assert_eq!(parse_pattern("?").unwrap(), vec![(0x00, true)]);
    assert_eq!(parse_pattern("??").unwrap(), vec![(0x00, true)]);
    assert_eq!(
        parse_pattern("48 ? ?? 8B").unwrap(),
        vec![(0x48, false), (0, true), (0, true), (0x8b, false)]
    );
    assert_eq!(parse_pattern("? ?").unwrap(), vec![(0, true), (0, true)]);
    assert_eq!(parse_pattern("???").unwrap(), vec![(0, true), (0, true)]);
}

#[test]
fn spaces_are_optional_between_pairs() {
    assert_eq!(parse_pattern("E8??").unwrap(), vec![(0xe8, false), (0, true)]);
    assert_eq!(parse_pattern("  E8   90 ").unwrap(), vec![(0xe8, false), (0x90, false)]);
    assert_eq!(parse_pattern("").unwrap(), vec![]);
}

#[test]
fn malformed_text_is_a_parse_error() {
    assert_eq!(parse_pattern("4").unwrap_err(), PatternSearchError::Parse);
    assert_eq!(parse_pattern("4 8").unwrap_err(), PatternSearchError::Parse);
    assert_eq!(parse_pattern("GG").unwrap_err(), PatternSearchError::Parse);
    assert_eq!(parse_pattern("48 8").unwrap_err(), PatternSearchError::Parse);
    assert_eq!(parse_pattern("+f").unwrap_err(), PatternSearchError::Parse);
    assert_eq!(parse_pattern("48 \u{e9}").unwrap_err(), PatternSearchError::Parse);
}

#[test]
fn finds_first_occurrence_of_wildcard_free_pattern() {
    let memory = [0x10u8, 0x20, 0x30, 0x20, 0x30, 0x40, 0x00];
    assert_eq!(find_pattern(&memory, 5, "20 30"), Ok(1));
    assert_eq!(find_pattern(&memory, 5, "20 30 40"), Ok(3));
    assert_eq!(find_pattern(&memory, 5, "10"), Ok(0));
}

#[test]
fn lone_wildcard_matches_at_offset_zero() {
    let memory = [0xaau8, 0xbb];
    assert_eq!(find_pattern(&memory, 0, "??"), Ok(0));
    assert_eq!(find_pattern(&memory, 1, "??"), Ok(0));
    assert_eq!(find_pattern(&[0x01u8, 0x02, 0x03, 0x04], 3, "??"), Ok(0));
}

#[test]
fn wildcards_match_any_byte() {
    let memory = [0xe8u8, 0x01, 0x02, 0xc3, 0xe8, 0x05, 0x06, 0x90, 0x00];
    assert_eq!(find_pattern(&memory, 7, "E8 ? ? 90"), Ok(4));
    assert_eq!(find_pattern(&memory, 7, "e8 ?? ?? c3"), Ok(0));
}

#[test]
fn missing_pattern_is_not_found() {
    let memory = [0x10u8, 0x20, 0x30, 0x00];
    assert_eq!(find_pattern(&memory, 2, "40"), Err(PatternSearchError::NotFound));
    assert_eq!(find_pattern(&memory, 1, "10 20 30"), Err(PatternSearchError::NotFound));
}

#[test]
fn window_is_one_byte_longer_than_the_size() {
    let memory = [0x10u8, 0x20, 0x30, 0x40];
    assert_eq!(find_pattern(&memory, 2, "30"), Ok(2));
    assert_eq!(find_pattern(&memory, 1, "30"), Err(PatternSearchError::NotFound));
    assert_eq!(find_pattern(&memory, 2, "40"), Err(PatternSearchError::NotFound));
}

#[test]
fn malformed_mask_is_reported_by_the_search() {
    let memory = [0x10u8, 0x20];
    assert_eq!(find_pattern(&memory, 1, "1"), Err(PatternSearchError::Parse));
    assert_eq!(find_pattern(&memory, 1, "zz"), Err(PatternSearchError::Parse));
}

#[test]
fn token_search_reports_nothing_for_a_pattern_longer_than_the_window() {
    let memory = [0x10u8, 0x20];
    assert_eq!(find_tokens(&memory, 2, &vec![(0x10, false), (0, true), (0, true)]), None);
    assert_eq!(find_tokens(&memory, 2, &vec![(0x10, false), (0, true)]), Some(0));
    assert_eq!(find_tokens(&memory, 1, &vec![(0x20, false)]), None);
}
