use funns_bot::rule_engine::Mv;
use funns_bot::uci::{move_from_uci, parse_ms};

#[test]
fn parses_a_plain_move() {
    assert_eq!(move_from_uci(b"e2e4"), Some(Mv { from: 12, to: 28, promo: 0 }));
    assert_eq!(move_from_uci(b"a1h8"), Some(Mv { from: 0, to: 63, promo: 0 }));
}

#[test]
fn parses_each_promotion_letter() {
    assert_eq!(move_from_uci(b"e7e8n"), Some(Mv { from: 52, to: 60, promo: 1 }));
    assert_eq!(move_from_uci(b"e7e8b"), Some(Mv { from: 52, to: 60, promo: 2 }));
    assert_eq!(move_from_uci(b"e7e8r"), Some(Mv { from: 52, to: 60, promo: 3 }));
    assert_eq!(move_from_uci(b"e7e8q"), Some(Mv { from: 52, to: 60, promo: 4 }));
}

#[test]
fn rejects_malformed_moves() {
    assert_eq!(move_from_uci(b""), None);
    assert_eq!(move_from_uci(b"e2e"), None);
    assert_eq!(move_from_uci(b"e2e4e5"), None);
    assert_eq!(move_from_uci(b"i2e4"), None);
    assert_eq!(move_from_uci(b"e9e4"), None);
    assert_eq!(move_from_uci(b"e7e8k"), None);
}

#[test]
fn parses_millisecond_counts() {
    assert_eq!(parse_ms(b"0"), Some(0));
    assert_eq!(parse_ms(b"1000"), Some(1000));
    assert_eq!(parse_ms(b"0013"), Some(13));
    assert_eq!(parse_ms(b"9999999999999"), Some(9_999_999_999_999));
}

#[test]
fn rejects_bad_millisecond_counts() {
    assert_eq!(parse_ms(b""), None);
    assert_eq!(parse_ms(b"12a"), None);
    assert_eq!(parse_ms(b"-5"), None);
    assert_eq!(parse_ms(b"10000000000000"), None);
}
