use memer::channel_id::{deserialize, parse_decimal, serialize, ChannelIdError};
use memer::error::Describe;

#[test]
fn serialize_writes_decimal_digits() {
    assert_eq!(serialize(0), "0");
    assert_eq!(serialize(7), "7");
    assert_eq!(serialize(10), "10");
    assert_eq!(serialize(288760241363877888), "288760241363877888");
    assert_eq!(serialize(u64::MAX), "18446744073709551615");
}

#[test]
fn serialize_agrees_with_the_standard_library() {
    for id in [1u64, 9, 99, 100, 101, 1_000_000_007, u64::MAX - 1] {
        assert_eq!(serialize(id), id.to_string());
    }
}

#[test]
fn parse_reads_plain_digits() {
    assert_eq!(parse_decimal("0"), Some(0));
    assert_eq!(parse_decimal("42"), Some(42));
    assert_eq!(parse_decimal("007"), Some(7));
    assert_eq!(parse_decimal("18446744073709551615"), Some(u64::MAX));
}

#[test]
fn parse_accepts_one_leading_plus() {
    assert_eq!(parse_decimal("+5"), Some(5));
    assert_eq!(parse_decimal("++5"), None);
    assert_eq!(parse_decimal("+"), None);
    assert_eq!(parse_decimal("5+"), None);
}

#[test]
fn parse_refuses_what_is_no_number() {
    assert_eq!(parse_decimal(""), None);
    assert_eq!(parse_decimal("-1"), None);
    assert_eq!(parse_decimal(" 1"), None);
    assert_eq!(parse_decimal("1 "), None);
    assert_eq!(parse_decimal("1_000"), None);
    assert_eq!(parse_decimal("12a"), None);
    assert_eq!(parse_decimal("١٢"), None);
    assert_eq!(parse_decimal("1é"), None);
}

#[test]
fn parse_refuses_what_does_not_fit() {
    assert_eq!(parse_decimal("18446744073709551616"), None);
    assert_eq!(parse_decimal("99999999999999999999"), None);
    assert_eq!(parse_decimal("184467440737095516150"), None);
}

#[test]
fn parse_agrees_with_the_standard_library() {
    for text in ["", "+", "+0", "-0", "0", "00", "1", "+18446744073709551615", "18446744073709551616", "x", "4 2"] {
        assert_eq!(parse_decimal(text), text.parse::<u64>().ok(), "{}", text);
    }
}

#[test]
fn reading_back_gives_what_was_written() {
    for id in [0u64, 1, 10, 123456789, u64::MAX] {
        assert_eq!(deserialize(&serialize(id)), Ok(id));
    }
}

#[test]
fn deserialize_names_the_refused_text() {
    let refused = deserialize("abc");
    assert_eq!(refused, Err(ChannelIdError { text: "abc".to_string() }));
    assert_eq!(
        refused.unwrap_err().describe(),
        "channel ID cannot be parsed as a u64: abc"
    );
}
