use funns_bot::lichess::{accept_challenge, NdJsonBuffer};

#[test]
fn frames_records_across_chunks() {
    let mut buf = NdJsonBuffer::new();
    buf.push_chunk(b"{\"a\"");
    assert!(buf.next_record().is_none());
    buf.push_chunk(b":1}\n{\"b\":2}\n");
    assert_eq!(buf.next_record().unwrap(), b"{\"a\":1}".to_vec());
    assert_eq!(buf.next_record().unwrap(), b"{\"b\":2}".to_vec());
    assert!(buf.next_record().is_none());
}

#[test]
fn skips_keep_alive_newlines() {
    let mut buf = NdJsonBuffer::new();
    buf.push_chunk(b"\n\n\n");
    assert!(buf.next_record().is_none());
    buf.push_chunk(b"\n{\"x\":0}\n\n");
    assert_eq!(buf.next_record().unwrap(), b"{\"x\":0}".to_vec());
    assert!(buf.next_record().is_none());
}

#[test]
fn an_unterminated_record_waits_for_its_newline() {
    let mut buf = NdJsonBuffer::new();
    buf.push_chunk(b"{\"half\":");
    assert!(buf.next_record().is_none());
    buf.push_chunk(b"true}");
    assert!(buf.next_record().is_none());
    buf.push_chunk(b"\n");
    assert_eq!(buf.next_record().unwrap(), b"{\"half\":true}".to_vec());
}

#[test]
fn accepts_friendly_and_casual_standard_games() {
    // The excepted user is taken whatever the game looks like.
    assert!(accept_challenge(b"funnsam", b"chess960", b"classical", true));
    // A casual standard blitz game is taken.
    assert!(accept_challenge(b"somebody", b"standard", b"blitz", false));
}

#[test]
fn declines_rated_slow_or_variant_games() {
    assert!(!accept_challenge(b"somebody", b"standard", b"blitz", true));
    assert!(!accept_challenge(b"somebody", b"standard", b"correspondence", false));
    assert!(!accept_challenge(b"somebody", b"standard", b"classical", false));
    assert!(!accept_challenge(b"somebody", b"chess960", b"blitz", false));
}
