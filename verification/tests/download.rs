use ghd::download::{cap_payload, declared_length, Payload, MAX_PAYLOAD};

#[test]
fn the_cap_is_ten_million_bytes() {
    assert_eq!(MAX_PAYLOAD, 10_000_000);
}

#[test]
fn a_new_payload_is_empty() {
    let payload = Payload::new();
    assert_eq!(payload.len(), 0);
    assert!(!payload.is_full());
    assert_eq!(payload.into_bytes(), Vec::<u8>::new());
}

#[test]
fn a_short_body_is_kept_whole() {
    assert_eq!(cap_payload(b"hello"), b"hello".to_vec());
    assert_eq!(cap_payload(b""), Vec::<u8>::new());
}

#[test]
fn a_body_of_one_byte_too_many_loses_that_byte() {
    let mut body = vec![7u8; 10_000_001];
    body[9_999_999] = 1;
    body[10_000_000] = 2;
    let kept = cap_payload(&body);
    assert_eq!(kept.len(), 10_000_000);
    assert_eq!(kept[9_999_999], 1);
    assert_eq!(kept[0], 7);
    assert_eq!(&kept[..], &body[..10_000_000]);
}

#[test]
fn a_body_of_exactly_the_cap_is_kept_whole() {
    let body = vec![3u8; 10_000_000];
    let kept = cap_payload(&body);
    assert_eq!(kept.len(), 10_000_000);
    assert_eq!(kept, body);
}

#[test]
fn chunks_are_kept_in_the_order_of_arrival() {
    let payload = Payload::new().accept(b"abc").accept(b"").accept(b"de");
    assert_eq!(payload.len(), 5);
    assert_eq!(payload.into_bytes(), b"abcde".to_vec());
}

#[test]
fn chunks_beyond_the_cap_are_dropped() {
    let first = vec![1u8; 6_000_000];
    let second = vec![2u8; 6_000_000];
    let payload = Payload::new().accept(&first);
    assert!(!payload.is_full());
    let payload = payload.accept(&second);
    assert!(payload.is_full());
    assert_eq!(payload.len(), 10_000_000);
    let payload = payload.accept(b"more");
    assert_eq!(payload.len(), 10_000_000);
    let bytes = payload.into_bytes();
    assert_eq!(bytes[5_999_999], 1);
    assert_eq!(bytes[6_000_000], 2);
    assert_eq!(bytes[9_999_999], 2);
}

#[test]
fn in_chunks_or_at_once_the_same_bytes_are_kept() {
    let mut body = Vec::new();
    for i in 0..10_000_100u32 {
        body.push((i % 251) as u8);
    }
    let at_once = cap_payload(&body);
    let mut payload = Payload::new();
    for chunk in body.chunks(8192) {
        payload = payload.accept(chunk);
    }
    assert_eq!(payload.into_bytes(), at_once);
}

#[test]
fn room_set_aside_holds_no_bytes() {
    assert_eq!(Payload::with_capacity(1024).len(), 0);
    assert_eq!(Payload::with_capacity(usize::MAX).len(), 0);
    assert_eq!(Payload::with_capacity(0).accept(b"abc").into_bytes(), b"abc".to_vec());
}

#[test]
fn declared_length_reads_decimal_digits() {
    assert_eq!(declared_length(Some("0")), 0);
    assert_eq!(declared_length(Some("7")), 7);
    assert_eq!(declared_length(Some("1024")), 1024);
    assert_eq!(declared_length(Some("10000001")), 10_000_001);
    assert_eq!(declared_length(Some("007")), 7);
}

#[test]
fn declared_length_is_nothing_without_a_number() {
    assert_eq!(declared_length(None), 0);
    assert_eq!(declared_length(Some("")), 0);
    assert_eq!(declared_length(Some("12a")), 0);
    assert_eq!(declared_length(Some("a12")), 0);
    assert_eq!(declared_length(Some(" 12")), 0);
    assert_eq!(declared_length(Some("+12")), 0);
    assert_eq!(declared_length(Some("-1")), 0);
    assert_eq!(declared_length(Some("1.5")), 0);
}

#[test]
fn declared_length_stops_at_the_greatest_length() {
    assert_eq!(declared_length(Some("18446744073709551615")), usize::MAX.min(18446744073709551615));
    assert_eq!(declared_length(Some("99999999999999999999999999")), usize::MAX);
    assert_eq!(declared_length(Some("99999999999999999999999999x")), 0);
}
