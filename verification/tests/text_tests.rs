use workbench::text::{
    highlight_subsequence, is_subsequence, is_valid_port, pad_left, remove_ansi_escape_codes,
};

#[test]
fn utils_test_is_subsequence() {
    assert_eq!(is_subsequence("azb1c66", "abc"), true);
}

#[test]
fn utils_test_highlight_subsequence() {
    println!("{}", highlight_subsequence("azb1c66", "abc"))
}

#[test]
fn text_test_is_subsequence() {
    assert_eq!(is_subsequence("azb1c66", "abc"), true);
}

#[test]
fn text_test_highlight_subsequence() {
    println!("{}", highlight_subsequence("azb1c66", "abc"))
}

#[test]
fn test_is_valid_port() {
    assert_eq!(is_valid_port("5500"), true);
    assert_eq!(is_valid_port("chrome"), false);
}

#[test]
fn test_pad_left() {
    assert_eq!("0001", pad_left("1", 4, '0'));
    assert_eq!("***1", pad_left("1", 4, '*'));
}

#[test]
fn test_parse() {
    let str = "001";
    let result: i32 = str.parse().unwrap();
    println!("{:#?}", result);
    assert_eq!(result, 1);
}

#[test]
fn test_remove_ansi_escape_codes() {
    let ansi_str = highlight_subsequence("azb1c66", "abc");
    println!("{}", remove_ansi_escape_codes(&ansi_str));
    assert_eq!(remove_ansi_escape_codes(&ansi_str), "azb1c66");
}

#[test]
fn subsequence_edges() {
    assert!(is_subsequence("", "abc"));
    assert!(is_subsequence("abc", ""));
    assert!(is_subsequence("abc", "abc"));
    assert!(!is_subsequence("acb", "abc"));
    assert!(!is_subsequence("ab", "abc"));
}

#[test]
fn highlight_wraps_matched_characters() {
    let highlighted = highlight_subsequence("ab", "a");
    assert_eq!(highlighted, "\x1b[4m\x1b[31ma\x1b[0m\x1b[0mb");
    assert_eq!(highlight_subsequence("xyz", ""), "xyz");
}

#[test]
fn valid_port_edges() {
    assert!(is_valid_port("0"));
    assert!(is_valid_port("65535"));
    assert!(!is_valid_port("65536"));
    assert!(is_valid_port("+80"));
    assert!(!is_valid_port(""));
    assert!(!is_valid_port("+"));
    assert!(!is_valid_port("-1"));
    assert!(!is_valid_port("99999999999999999999"));
    assert_eq!(is_valid_port("007"), "007".parse::<u32>().map(|p| p <= 65535).unwrap_or(false));
}

#[test]
fn pad_left_edges() {
    assert_eq!(pad_left("hello", 3, '0'), "hello");
    assert_eq!(pad_left("", 2, 'x'), "xx");
}

#[test]
fn pad_left_counts_bytes() {
    // A two-byte character fills two of the four slots, so only two pads
    // are added.
    assert_eq!(pad_left("\u{e9}", 4, '0'), "00\u{e9}");
    assert_eq!(pad_left("\u{e9}\u{e9}", 4, '0'), "\u{e9}\u{e9}");
}

#[test]
fn remove_ansi_keeps_unmatched_escapes() {
    assert_eq!(remove_ansi_escape_codes("a\x1b[31mb"), "ab");
    assert_eq!(remove_ansi_escape_codes("a\x1b[12;34mb"), "ab");
    assert_eq!(remove_ansi_escape_codes("a\x1b[31b"), "a\x1b[31b");
    assert_eq!(remove_ansi_escape_codes("plain"), "plain");
}
