use anup::score::{parse_score_str, parse_u32_str, score_to_string};

#[test]
fn score_round_trip_all_values() {
    for v in 0..=100u8 {
        let s = score_to_string(v);
        assert_eq!(parse_score_str(s.as_str()), Some(v));
    }
}

#[test]
fn score_to_string_exact() {
    assert_eq!(score_to_string(0).as_str(), "0");
    assert_eq!(score_to_string(7).as_str(), "7");
    assert_eq!(score_to_string(42).as_str(), "42");
    assert_eq!(score_to_string(100).as_str(), "100");
}

#[test]
fn parse_score_rejects_out_of_range() {
    assert_eq!(parse_score_str("101"), None);
    assert_eq!(parse_score_str("255"), None);
    assert_eq!(parse_score_str("1000"), None);
}

#[test]
fn parse_score_rejects_non_numeric() {
    assert_eq!(parse_score_str(""), None);
    assert_eq!(parse_score_str("abc"), None);
    assert_eq!(parse_score_str("5a"), None);
    assert_eq!(parse_score_str("-3"), None);
    assert_eq!(parse_score_str(" 50"), None);
}

#[test]
fn parse_score_accepts_leading_plus() {
    assert_eq!(parse_score_str("+50"), Some(50));
    assert_eq!(parse_score_str("+0"), Some(0));
    assert_eq!(parse_score_str("+"), None);
    assert_eq!(parse_score_str("++5"), None);
    assert_eq!(parse_score_str("+101"), None);
    assert_eq!(parse_u32_str("+42"), Some(42));
    assert_eq!(parse_u32_str("+"), None);
}

#[test]
fn parse_score_accepts_leading_zeros() {
    assert_eq!(parse_score_str("007"), Some(7));
    assert_eq!(parse_score_str("000"), Some(0));
    assert_eq!(parse_score_str("0100"), Some(100));
}

#[test]
fn parse_u32_basics() {
    assert_eq!(parse_u32_str("0"), Some(0));
    assert_eq!(parse_u32_str("4294967295"), Some(u32::MAX));
    assert_eq!(parse_u32_str("4294967296"), None);
    assert_eq!(parse_u32_str("12x"), None);
    assert_eq!(parse_u32_str(""), None);
}
