use instruckt::clock::{current_timestamp, timestamp_text};
use instruckt::error::Error;
use instruckt::text::is_blank;

#[test]
fn timestamp_text_writes_rfc3339_in_utc() {
    assert_eq!(timestamp_text(1431648000, 0).unwrap(), "2015-05-15T00:00:00+00:00");
    assert_eq!(timestamp_text(0, 0).unwrap(), "1970-01-01T00:00:00+00:00");
    assert_eq!(timestamp_text(1431648000, 500_000_000).unwrap(), "2015-05-15T00:00:00.500+00:00");
    assert_eq!(timestamp_text(1431648000, 1_500).unwrap(), "2015-05-15T00:00:00.000001500+00:00");
    assert_eq!(timestamp_text(253402300799, 0).unwrap(), "9999-12-31T23:59:59+00:00");
    assert_eq!(timestamp_text(253402300800, 0).unwrap(), "+10000-01-01T00:00:00+00:00");
}

#[test]
fn timestamp_text_refuses_what_cannot_be_written() {
    match timestamp_text(u64::MAX, 0) {
        Err(Error::Other(m)) => assert_eq!(m, "The system clock does not read a time that can be written"),
        other => panic!("unexpected {other:?}"),
    }
    assert!(matches!(timestamp_text(i64::MAX as u64, 0), Err(Error::Other(_))));
    assert!(matches!(timestamp_text(0, 2_000_000_000), Err(Error::Other(_))));
}

#[test]
fn current_timestamp_is_rfc3339_now() {
    let t = current_timestamp().unwrap();
    assert!(t.ends_with("+00:00"), "{t}");
    let parsed = chrono::DateTime::parse_from_rfc3339(&t).unwrap();
    let age = chrono::Utc::now().signed_duration_since(parsed);
    assert!(age.num_seconds() >= 0 && age.num_seconds() < 60);
}

#[test]
fn blank_is_white_space_only() {
    assert!(is_blank(""));
    assert!(is_blank(" \t\r\n"));
    assert!(is_blank("\u{3000}\u{a0}"));
    assert!(!is_blank(" [] "));
    assert!(!is_blank("\u{200b}"));
    for c in (0u32..=0x10FFFF).filter_map(char::from_u32) {
        let s = c.to_string();
        assert_eq!(is_blank(&s), s.trim().is_empty(), "{c:?}");
    }
}
