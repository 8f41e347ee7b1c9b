use stamp::decimal::{i64_to_string, parse_i32};
use stamp::matcher::{
    dota_match_log_message, fetch_player_ids, find_matches, match_line, player_ids_from_tags,
    tag_id, ExtractError, MatchResult,
};

fn tags(items: &[&str]) -> Vec<String> {
    items.iter().map(|s| s.to_string()).collect()
}

#[test]
fn marker_makes_a_trigger_line() {
    assert!(dota_match_log_message("Lobby started"));
    assert!(dota_match_log_message("12:00 - new Lobby 4711 created"));
    assert!(dota_match_log_message("Lobby"));
}

#[test]
fn the_marker_counts_wherever_it_stands() {
    assert!(dota_match_log_message("xLobbyx"));
    assert!(dota_match_log_message("LLobby"));
    assert!(dota_match_log_message("\u{e9}\u{20ac}Lobby\u{1f600}"));
    assert!(!dota_match_log_message("Lo\u{e9}bby"));
    assert!(!dota_match_log_message("LOBBY"));
    assert!(!dota_match_log_message("Lobb"));
}

#[test]
fn lines_without_marker_are_no_trigger() {
    assert!(!dota_match_log_message("random noise"));
    assert!(!dota_match_log_message(""));
    assert!(!dota_match_log_message("lobby in lower case"));
    assert!(!dota_match_log_message("Lobb y"));
}

#[test]
fn repeated_tags_count_once_in_first_seen_order() {
    let line = "Lobby [U:1:370898177] joined [U:1:370898177] again [U:1:12345678]";
    assert_eq!(fetch_player_ids(line), vec![370898177, 12345678]);
}

#[test]
fn first_seen_order_is_kept_when_a_later_tag_repeats() {
    let line = "[U:1:22222222] [U:1:11111111] [U:1:22222222] [U:1:33333333] [U:1:11111111]";
    assert_eq!(fetch_player_ids(line), vec![22222222, 11111111, 33333333]);
}

#[test]
fn tags_are_told_apart_by_text_not_by_number() {
    let line = "[U:1:012345678] [U:1:12345678]";
    assert_eq!(fetch_player_ids(line), vec![12345678, 12345678]);
}

#[test]
fn seven_digits_are_no_tag() {
    assert_eq!(fetch_player_ids("Lobby [U:1:1234567]"), Vec::<i32>::new());
}

#[test]
fn eight_digits_are_a_tag() {
    assert_eq!(fetch_player_ids("Lobby [U:1:12345678]"), vec![12345678]);
}

#[test]
fn nine_digits_are_a_tag() {
    assert_eq!(fetch_player_ids("Lobby [U:1:123456789]"), vec![123456789]);
    assert_eq!(fetch_player_ids("[U:1:999999999]"), vec![999999999]);
}

#[test]
fn ten_digits_are_no_tag() {
    assert_eq!(fetch_player_ids("Lobby [U:1:1234567890]"), Vec::<i32>::new());
}

#[test]
fn other_framings_are_no_tag() {
    assert_eq!(fetch_player_ids("U:1:12345678"), Vec::<i32>::new());
    assert_eq!(fetch_player_ids("[U:2:12345678]"), Vec::<i32>::new());
    assert_eq!(fetch_player_ids("[U:1:12345678"), Vec::<i32>::new());
    assert_eq!(fetch_player_ids("[U:1:1234 5678]"), Vec::<i32>::new());
    assert_eq!(fetch_player_ids(""), Vec::<i32>::new());
}

#[test]
fn digits_outside_ascii_make_no_tag() {
    let arabic = "Lobby [U:1:\u{661}\u{662}\u{663}\u{664}\u{665}\u{666}\u{667}\u{668}]";
    assert_eq!(fetch_player_ids(arabic), Vec::<i32>::new());
    assert_eq!(match_line(arabic), MatchResult::Event(vec![]));
    let fullwidth = "[U:1:\u{ff11}\u{ff12}\u{ff13}\u{ff14}\u{ff15}\u{ff16}\u{ff17}\u{ff18}\u{ff19}]";
    assert_eq!(fetch_player_ids(fullwidth), Vec::<i32>::new());
    let mixed = "[U:1:1234567\u{668}] [U:1:12345678]";
    assert_eq!(fetch_player_ids(mixed), vec![12345678]);
}

#[test]
fn every_tag_of_a_line_gives_its_number() {
    assert_eq!(fetch_player_ids("[U:1:00000000]"), vec![0]);
    assert_eq!(fetch_player_ids("[U:1:000000001][U:1:999999999]"), vec![1, 999999999]);
    assert_eq!(fetch_player_ids("[[U:1:12345678]]"), vec![12345678]);
    assert_eq!(fetch_player_ids("[U:1:[U:1:87654321]"), vec![87654321]);
}

#[test]
fn tags_without_marker_are_no_event() {
    let line = "started [U:1:416098293] joined [U:1:926498844] joined";
    assert_eq!(match_line(line), MatchResult::NoEvent);
}

#[test]
fn marker_without_tags_is_an_event_without_players() {
    assert_eq!(match_line("Lobby created"), MatchResult::Event(vec![]));
}

#[test]
fn marker_with_tags_is_an_event_with_players() {
    let line = "Lobby started [U:1:416098293] joined [U:1:926498844] joined";
    assert_eq!(match_line(line), MatchResult::Event(vec![416098293, 926498844]));
}

#[test]
fn matches_come_out_as_text_in_order() {
    assert_eq!(find_matches("a+", "caaandy aa"), Ok(tags(&["aaa", "aa"])));
    assert_eq!(find_matches("x", "abc"), Ok(tags(&[])));
    assert_eq!(
        find_matches("\\[U:1:[0-9]{8,9}\\]", "a[U:1:12345678]b[U:1:123456789]"),
        Ok(tags(&["[U:1:12345678]", "[U:1:123456789]"]))
    );
}

#[test]
fn a_pattern_that_does_not_compile_is_rejected() {
    assert_eq!(find_matches("(", "abc"), Err(ExtractError::PatternRejected));
    assert_eq!(find_matches("a{2,1}", "aa"), Err(ExtractError::PatternRejected));
}

#[test]
fn tags_turn_into_identifiers() {
    assert_eq!(
        player_ids_from_tags(&tags(&["[U:1:12345678]", "[U:1:87654321]"])),
        Ok(vec![12345678, 87654321])
    );
    assert_eq!(player_ids_from_tags(&tags(&[])), Ok(vec![]));
}

#[test]
fn repeated_tags_are_dropped_before_they_are_read() {
    assert_eq!(
        player_ids_from_tags(&tags(&["[U:1:5]", "[U:1:6]", "[U:1:5]", "[U:1:5]", "[U:1:7]"])),
        Ok(vec![5, 6, 7])
    );
}

#[test]
fn one_bad_tag_fails_the_whole_extraction() {
    assert_eq!(
        player_ids_from_tags(&tags(&["[U:1:12345678]", "[U:1:99999999999]"])),
        Err(ExtractError::MalformedIdentifier)
    );
    assert_eq!(
        player_ids_from_tags(&tags(&["short"])),
        Err(ExtractError::MalformedIdentifier)
    );
    assert_eq!(player_ids_from_tags(&tags(&[""])), Err(ExtractError::MalformedIdentifier));
}

#[test]
fn framing_is_cut_by_position() {
    assert_eq!(tag_id("[U:1:12345678]"), Some(12345678));
    assert_eq!(tag_id("abcde42z"), Some(42));
    assert_eq!(tag_id("[U:1:-5]"), Some(-5));
    assert_eq!(tag_id("[U:1:+7]"), Some(7));
    assert_eq!(tag_id("[U:1:]"), None);
    assert_eq!(tag_id("[U:1"), None);
    assert_eq!(tag_id(""), None);
    assert_eq!(tag_id("[U:1:2147483647]"), Some(2147483647));
    assert_eq!(tag_id("[U:1:2147483648]"), None);
    assert_eq!(tag_id("\u{e9}U:1:12345678]"), None);
}

#[test]
fn decimal_text_is_read_as_i32() {
    assert_eq!(parse_i32(b"0"), Some(0));
    assert_eq!(parse_i32(b"007"), Some(7));
    assert_eq!(parse_i32(b"416098293"), Some(416098293));
    assert_eq!(parse_i32(b"+12"), Some(12));
    assert_eq!(parse_i32(b"-12"), Some(-12));
    assert_eq!(parse_i32(b"2147483647"), Some(i32::MAX));
    assert_eq!(parse_i32(b"-2147483648"), Some(i32::MIN));
}

#[test]
fn what_is_no_i32_is_not_read() {
    assert_eq!(parse_i32(b""), None);
    assert_eq!(parse_i32(b"+"), None);
    assert_eq!(parse_i32(b"-"), None);
    assert_eq!(parse_i32(b"12a"), None);
    assert_eq!(parse_i32(b" 12"), None);
    assert_eq!(parse_i32(b"1_000"), None);
    assert_eq!(parse_i32(b"--1"), None);
    assert_eq!(parse_i32(b"2147483648"), None);
    assert_eq!(parse_i32(b"-2147483649"), None);
    assert_eq!(parse_i32(b"99999999999999999999999999"), None);
}

#[test]
fn reading_agrees_with_the_standard_library() {
    for text in ["0", "-0", "+0", "12345678", "999999999", "4294967296", "-", "", "1e3", "١٢٣"] {
        assert_eq!(parse_i32(text.as_bytes()), text.parse::<i32>().ok());
    }
}

#[test]
fn numbers_are_written_in_base_ten() {
    assert_eq!(i64_to_string(0), "0");
    assert_eq!(i64_to_string(7), "7");
    assert_eq!(i64_to_string(10), "10");
    assert_eq!(i64_to_string(-1), "-1");
    assert_eq!(i64_to_string(1234567890), "1234567890");
    assert_eq!(i64_to_string(i64::MAX), "9223372036854775807");
    assert_eq!(i64_to_string(i64::MIN), "-9223372036854775808");
}

#[test]
fn what_is_written_is_read_back() {
    for x in [0, 1, -1, 9, 10, 99, 100, 12345678, 999999999, i32::MAX, i32::MIN, -2147483647] {
        assert_eq!(parse_i32(i64_to_string(x as i64).as_bytes()), Some(x));
    }
    assert_eq!(parse_i32(i64_to_string(i32::MAX as i64 + 1).as_bytes()), None);
    assert_eq!(parse_i32(i64_to_string(i32::MIN as i64 - 1).as_bytes()), None);
}
