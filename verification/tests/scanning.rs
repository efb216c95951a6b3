use lsdiscovery::cmdline_detector::UUID_PATTERN;
use lsdiscovery::log_ports::{
    find_latest_antigravity_log, last_port, parse_ports_from_log, port_from_announcements,
    LogCandidate, HTTPS_PORT_PATTERN, HTTP_PORT_PATTERN,
};
use lsdiscovery::memory_scan::{
    find_all_positions, get_patterns, pair_le_units, search_after_marker, search_bytes_for_token,
    token_in_window, SCAN_AHEAD,
};
use lsdiscovery::text::{
    contains_ignore_case, format_decimal, lower_byte, matches_at, parse_port, same_text,
    string_of_chars,
};

const TOKEN: &str = "123e4567-e89b-12d3-a456-426614174000";
const OTHER: &str = "9f8e7d6c-5b4a-4c3d-8e2f-1a0b9c8d7e6f";

fn candidate(path: &str, name: &str, modified: u64) -> LogCandidate {
    LogCandidate { path: path.to_string(), file_name: name.to_string(), modified }
}

fn wide(text: &str) -> Vec<u8> {
    let mut out = Vec::new();
    for unit in text.encode_utf16() {
        out.extend_from_slice(&unit.to_le_bytes());
    }
    out
}

#[test]
fn last_https_announcement_wins() {
    let log = "I1 Language server listening on random port at 41001 for HTTPS\n\
               I2 noise\n\
               I3 Language server listening on random port at 41777 for HTTPS\n";
    let (https, http, extension) = parse_ports_from_log(log);
    assert_eq!(https, Some(41777));
    assert_eq!(http, None);
    assert_eq!(extension, None);
    let two = "random port at 41001 for HTTPS\nrandom port at 41777 for HTTPS\n";
    assert_eq!(parse_ports_from_log(two), (Some(41777), None, None));
}

#[test]
fn last_announcement_wins_whatever_the_numbers() {
    let falling = "random port at 60000 for HTTPS\nrandom port at 7 for HTTPS\n\
                   extension server client at port 9\nextension server client at port 3\n\
                   random port at 500 for HTTP\nrandom port at 400 for HTTP\n";
    assert_eq!(parse_ports_from_log(falling), (Some(7), Some(400), Some(3)));
}

#[test]
fn http_announcement_is_no_https_announcement() {
    assert_eq!(last_port("random port at 80 for HTTP", HTTP_PORT_PATTERN), Some(80));
    assert_eq!(last_port("random port at 80 for HTTP.", HTTP_PORT_PATTERN), Some(80));
    assert_eq!(last_port("random port at 80 for HTTPS", HTTP_PORT_PATTERN), None);
    assert_eq!(last_port("random port at 80 for HTTP\nrandom port at 81 for HTTPS", HTTP_PORT_PATTERN), Some(80));
}

#[test]
fn each_port_kind_is_read_on_its_own() {
    let log = "random port at 5001 for HTTPS\n\
               random port at 5002 for HTTP\n\
               Created extension server client at port 5003\n";
    assert_eq!(parse_ports_from_log(log), (Some(5001), Some(5002), Some(5003)));
    assert_eq!(parse_ports_from_log("nothing to see"), (None, None, None));
    assert_eq!(parse_ports_from_log(""), (None, None, None));
}

#[test]
fn announced_port_that_does_not_fit_is_absent() {
    let log = "random port at 5001 for HTTPS\nrandom port at 70000 for HTTPS\n";
    assert_eq!(parse_ports_from_log(log).0, None);
    assert_eq!(last_port(log, HTTPS_PORT_PATTERN), None);
    assert_eq!(last_port(log, "(unclosed"), None);
}

#[test]
fn port_from_announcements_on_given_captures() {
    assert_eq!(port_from_announcements(&Vec::new()), None);
    assert_eq!(port_from_announcements(&vec![Some("443".to_string())]), Some(443));
    assert_eq!(
        port_from_announcements(&vec![Some("443".to_string()), Some("80".to_string())]),
        Some(80)
    );
    assert_eq!(port_from_announcements(&vec![Some("443".to_string()), None]), None);
    assert_eq!(
        port_from_announcements(&vec![Some("443".to_string()), Some("65536".to_string())]),
        None
    );
}

#[test]
fn newest_log_is_picked_and_ties_go_to_the_first() {
    let files = vec![
        candidate("/a/Antigravity.log", "Antigravity.log", 10),
        candidate("/b/other.log", "other.log", 99),
        candidate("/c/Antigravity.log", "Antigravity.log", 30),
        candidate("/d/Antigravity.log", "Antigravity.log", 30),
        candidate("/e/antigravity.log", "antigravity.log", 50),
    ];
    assert_eq!(find_latest_antigravity_log(&files), Some("/c/Antigravity.log".to_string()));
    assert_eq!(find_latest_antigravity_log(&Vec::new()), None);
    let others = vec![candidate("/b/other.log", "other.log", 99)];
    assert_eq!(find_latest_antigravity_log(&others), None);
}

#[test]
fn positions_do_not_overlap() {
    assert_eq!(find_all_positions(b"aaaaa", b"aa"), vec![0, 2]);
    assert_eq!(find_all_positions(b"abcabcab", b"abc"), vec![0, 3]);
    assert_eq!(find_all_positions(b"abc", b""), Vec::<usize>::new());
    assert_eq!(find_all_positions(b"ab", b"abc"), Vec::<usize>::new());
    assert_eq!(find_all_positions(b"xyz", b"xyz"), vec![0]);
    assert_eq!(find_all_positions(b"", b"a"), Vec::<usize>::new());
}

#[test]
fn marker_comes_in_two_encodings() {
    let (narrow, wide_marker) = get_patterns();
    assert_eq!(narrow, b"x-codeium-csrf-token".to_vec());
    assert_eq!(wide_marker, wide("x-codeium-csrf-token"));
    assert_eq!(wide_marker.len(), 40);
}

#[test]
fn code_units_are_paired_low_byte_first() {
    assert_eq!(pair_le_units(&[0x34, 0x12, 0xff, 0xff, 0x01]), vec![0x1234, 0xffff]);
    assert_eq!(pair_le_units(&[]), Vec::<u16>::new());
    assert_eq!(pair_le_units(&[7]), Vec::<u16>::new());
}

#[test]
fn token_is_found_after_the_marker_as_utf8() {
    let data = format!("junk\0x-codeium-csrf-token\0\0{}\0more", TOKEN).into_bytes();
    assert_eq!(search_bytes_for_token(&data, UUID_PATTERN, &get_patterns()), Some(TOKEN.to_string()));
}

#[test]
fn token_is_found_after_the_marker_as_utf16() {
    let mut data = vec![0xffu8, 0xfe, 0x00];
    data.extend(wide("x-codeium-csrf-token"));
    data.extend(wide(": "));
    data.extend(wide(TOKEN));
    data.extend(wide(" tail"));
    assert_eq!(search_bytes_for_token(&data, UUID_PATTERN, &get_patterns()), Some(TOKEN.to_string()));
}

#[test]
fn token_before_the_marker_or_too_far_behind_is_not_found() {
    let before = format!("{} x-codeium-csrf-token", TOKEN).into_bytes();
    assert_eq!(search_bytes_for_token(&before, UUID_PATTERN, &get_patterns()), None);
    let far = format!("x-codeium-csrf-token{}{}", " ".repeat(SCAN_AHEAD - 35), TOKEN).into_bytes();
    assert_eq!(search_bytes_for_token(&far, UUID_PATTERN, &get_patterns()), None);
    let near = format!("x-codeium-csrf-token{}{}", " ".repeat(SCAN_AHEAD - 36), TOKEN).into_bytes();
    assert_eq!(search_bytes_for_token(&near, UUID_PATTERN, &get_patterns()), Some(TOKEN.to_string()));
    assert_eq!(search_bytes_for_token(b"", UUID_PATTERN, &get_patterns()), None);
}

#[test]
fn first_marker_with_a_token_wins() {
    let data = format!(
        "x-codeium-csrf-token: none here {} x-codeium-csrf-token: {} x-codeium-csrf-token: {}",
        "-".repeat(SCAN_AHEAD),
        OTHER,
        TOKEN
    )
    .into_bytes();
    let (narrow, _) = get_patterns();
    assert_eq!(search_after_marker(&data, UUID_PATTERN, &narrow), Some(OTHER.to_string()));
}

#[test]
fn window_is_read_as_utf8_then_as_utf16() {
    assert_eq!(token_in_window(TOKEN.as_bytes(), UUID_PATTERN), Some(TOKEN.to_string()));
    assert_eq!(token_in_window(&wide(TOKEN), UUID_PATTERN), Some(TOKEN.to_string()));
    assert_eq!(token_in_window(b"nothing", UUID_PATTERN), None);
    assert_eq!(token_in_window(TOKEN.as_bytes(), "(unclosed"), None);
}

#[test]
fn text_helpers() {
    assert_eq!(lower_byte(b'A'), b'a');
    assert_eq!(lower_byte(b'z'), b'z');
    assert_eq!(lower_byte(b'['), b'[');
    assert!(contains_ignore_case(b"xxCsRfyy", b"csrf"));
    assert!(!contains_ignore_case(b"sRfyy", b"csrf"));
    assert!(contains_ignore_case(b"", b""));
    assert!(!contains_ignore_case(b"ab", b"abc"));
    assert!(matches_at(b"hello", b"ll", 2));
    assert!(!matches_at(b"hello", b"ll", 1));
    assert!(!matches_at(b"hello", b"lo", 4));
    assert!(!matches_at(b"hello", b"lo", usize::MAX));
    assert!(same_text("日志", "日志"));
    assert!(!same_text("a", "b"));
    assert_eq!(string_of_chars(&vec!['a', '端', 'b']), "a端b");
}

#[test]
fn decimal_numbers() {
    assert_eq!(format_decimal(0), "0");
    assert_eq!(format_decimal(7), "7");
    assert_eq!(format_decimal(1203), "1203");
    assert_eq!(format_decimal(u64::MAX), "18446744073709551615");
    assert_eq!(parse_port("0"), Some(0));
    assert_eq!(parse_port("65535"), Some(65535));
    assert_eq!(parse_port("65536"), None);
    assert_eq!(parse_port("99999999999999999999"), None);
    assert_eq!(parse_port("+443"), Some(443));
    assert_eq!(parse_port("+"), None);
    assert_eq!(parse_port(""), None);
    assert_eq!(parse_port("-1"), None);
    assert_eq!(parse_port("12a"), None);
    assert_eq!(parse_port(" 12"), None);
}
