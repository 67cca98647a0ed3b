use redirect_capture::scan::{
    find_first_word, find_second_word, is_whitespace, matches_at, scan, span_is,
    span_starts_with, stops_at, Stop,
};

fn chars(text: &str) -> Vec<char> {
    text.chars().collect()
}

#[test]
fn whitespace_agrees_with_std_on_every_char() {
    let mut code: u32 = 0;
    while code <= 0x10FFFF {
        if let Some(c) = char::from_u32(code) {
            assert_eq!(is_whitespace(c), c.is_whitespace(), "U+{:04X}", code);
        }
        code += 1;
    }
}

#[test]
fn whitespace_edges() {
    assert!(is_whitespace(' '));
    assert!(is_whitespace('\t'));
    assert!(is_whitespace('\n'));
    assert!(is_whitespace('\r'));
    assert!(is_whitespace('\u{0B}'));
    assert!(is_whitespace('\u{85}'));
    assert!(is_whitespace('\u{A0}'));
    assert!(is_whitespace('\u{2000}'));
    assert!(is_whitespace('\u{200A}'));
    assert!(is_whitespace('\u{3000}'));
    assert!(!is_whitespace('\u{200B}'));
    assert!(!is_whitespace('\u{08}'));
    assert!(!is_whitespace('\u{0E}'));
    assert!(!is_whitespace('\0'));
    assert!(!is_whitespace('a'));
    assert!(!is_whitespace('\u{FFFD}'));
}

#[test]
fn stops_at_each_kind() {
    assert!(stops_at(Stop::LineFeed, '\n'));
    assert!(!stops_at(Stop::LineFeed, '\r'));
    assert!(!stops_at(Stop::LineFeed, ' '));
    assert!(stops_at(Stop::Space, '\r'));
    assert!(!stops_at(Stop::Space, 'x'));
    assert!(stops_at(Stop::Word, 'x'));
    assert!(!stops_at(Stop::Word, ' '));
}

#[test]
fn scan_finds_the_first_stop() {
    let s = chars("ab cd\nef");
    assert_eq!(scan(&s, 0, Stop::LineFeed), 5);
    assert_eq!(scan(&s, 5, Stop::LineFeed), 5);
    assert_eq!(scan(&s, 6, Stop::LineFeed), 8);
    assert_eq!(scan(&s, 0, Stop::Space), 2);
    assert_eq!(scan(&s, 2, Stop::Word), 3);
    assert_eq!(scan(&s, 3, Stop::Space), 5);
    assert_eq!(scan(&s, 0, Stop::Word), 0);
    assert_eq!(scan(&s, 8, Stop::Word), 8);
}

#[test]
fn scan_of_nothing() {
    let s: Vec<char> = Vec::new();
    assert_eq!(scan(&s, 0, Stop::LineFeed), 0);
    assert_eq!(scan(&s, 0, Stop::Space), 0);
    assert_eq!(scan(&s, 0, Stop::Word), 0);
}

#[test]
fn second_word_of_a_request_line() {
    let s = chars("GET /callback?code=ABC HTTP/1.1");
    assert_eq!(find_second_word(&s), Some((4, 22)));
}

#[test]
fn second_word_after_leading_and_repeated_space() {
    let s = chars("  \tGET \u{3000} /x\r");
    assert_eq!(find_second_word(&s), Some((9, 11)));
}

#[test]
fn second_word_reaching_the_end() {
    let s = chars("a b");
    assert_eq!(find_second_word(&s), Some((2, 3)));
}

#[test]
fn second_word_missing() {
    assert_eq!(find_second_word(&chars("")), None);
    assert_eq!(find_second_word(&chars("   ")), None);
    assert_eq!(find_second_word(&chars("GET")), None);
    assert_eq!(find_second_word(&chars("  GET  \r")), None);
}

#[test]
fn second_word_agrees_with_split_whitespace() {
    let samples = [
        "GET /callback?code=ABC&state=XYZ HTTP/1.1",
        "one",
        "",
        " a\u{A0}b\u{2003}c ",
        "\tx\ty",
        "x  ",
        "p\u{85}q",
    ];
    for text in samples {
        let s = chars(text);
        let expected: Option<String> = text.split_whitespace().nth(1).map(String::from);
        let found: Option<String> =
            find_second_word(&s).map(|(a, b)| s[a..b].iter().collect::<String>());
        assert_eq!(found, expected, "{:?}", text);
    }
}

#[test]
fn matches_at_a_position() {
    let hay = chars("xxGET /callback");
    let needle = chars("GET /callback");
    assert!(matches_at(&hay, &needle, 2));
    assert!(!matches_at(&hay, &needle, 1));
    assert!(!matches_at(&hay, &needle, 0));
    assert!(matches_at(&hay, &chars(""), 15));
}

#[test]
fn first_word_of_a_request_line() {
    assert_eq!(find_first_word(&chars("GET /callback?code=ABC HTTP/1.1")), Some((0, 3)));
    assert_eq!(find_first_word(&chars("  \tGET \u{3000} /x\r")), Some((3, 6)));
    assert_eq!(find_first_word(&chars("GET")), Some((0, 3)));
}

#[test]
fn first_word_missing() {
    assert_eq!(find_first_word(&chars("")), None);
    assert_eq!(find_first_word(&chars(" \r\t\u{A0}")), None);
}

#[test]
fn first_word_agrees_with_split_whitespace() {
    let samples = ["GET / HTTP/1.1", "", "  ", " a\u{A0}b", "\tx\ty", "x  ", "\u{85}p\u{85}q"];
    for text in samples {
        let s = chars(text);
        let expected: Option<String> = text.split_whitespace().next().map(String::from);
        let found: Option<String> =
            find_first_word(&s).map(|(a, b)| s[a..b].iter().collect::<String>());
        assert_eq!(found, expected, "{:?}", text);
    }
}

#[test]
fn span_is_the_whole_word_or_nothing() {
    let s = chars("GET /callback");
    assert!(span_is(&s, 0, 3, &chars("GET")));
    assert!(!span_is(&s, 0, 3, &chars("GE")));
    assert!(!span_is(&s, 0, 3, &chars("GETX")));
    assert!(!span_is(&s, 0, 3, &chars("GEX")));
    assert!(!span_is(&s, 0, 2, &chars("GET")));
    assert!(span_is(&s, 4, 13, &chars("/callback")));
    assert!(span_is(&s, 5, 5, &chars("")));
}

#[test]
fn span_starts_with_a_prefix() {
    let s = chars("GET /callback?x=1 HTTP/1.1");
    let stem = chars("/callback");
    assert!(span_starts_with(&s, 4, 17, &stem));
    assert!(span_starts_with(&s, 4, 13, &stem));
    assert!(!span_starts_with(&s, 4, 12, &stem));
    assert!(!span_starts_with(&s, 5, 17, &stem));
    assert!(!span_starts_with(&s, 0, 3, &stem));
    assert!(span_starts_with(&s, 0, 3, &chars("")));
    assert!(span_starts_with(&s, 3, 3, &chars("")));
}
