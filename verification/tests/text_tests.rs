use fast_lane::text::{contains_str, decimal_string, ends_with, find_char, parse_u16, str_eq, trim};

#[test]
fn decimal_strings() {
    assert_eq!(decimal_string(0), "0");
    assert_eq!(decimal_string(7), "7");
    assert_eq!(decimal_string(1080), "1080");
    assert_eq!(decimal_string(u64::MAX), u64::MAX.to_string());
}

#[test]
fn port_parsing_matches_std() {
    for s in ["0", "1", "443", "+443", "65535", "65536", "", "+", "-1", "1a", " 1", "00080", "99999999999999999999", "+-1", "٣"] {
        assert_eq!(parse_u16(s), s.parse::<u16>().ok(), "{:?}", s);
    }
}

#[test]
fn comparisons() {
    assert!(str_eq("abc", "abc"));
    assert!(!str_eq("abc", "abd"));
    assert!(!str_eq("abc", "ab"));
    assert!(ends_with("api.github.com", "github.com"));
    assert!(ends_with("x", ""));
    assert!(!ends_with("hub.com", "github.com"));
    assert!(contains_str("Thunderbolt Ethernet", "Ethernet"));
    assert!(contains_str("a", ""));
    assert!(!contains_str("Wi-F", "Wi-Fi"));
    assert_eq!(find_char("github.com:443", ':'), Some(10));
    assert_eq!(find_char("github.com", ':'), None);
}

#[test]
fn trimming_matches_std() {
    for s in ["", "  a b  ", "\t\r\n x\u{a0}", "\u{2003}mid\u{3000}", "none", "   "] {
        assert_eq!(trim(s), s.trim(), "{:?}", s);
    }
}
