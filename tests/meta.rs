use minicdn::{decimal_text, etag, last_modified, Base64Bytes, ByteBuf};

#[test]
fn etag_is_truncated_sha256() {
    assert_eq!(etag(b"hello"), "2cf24dba5fb0a30e26e83b2ac5b9e29e");
    assert_eq!(etag(b"hello").len(), 32);
}

#[test]
fn etag_deterministic_and_distinct() {
    let a = etag(b"some bytes");
    let b = etag(b"some bytes");
    assert_eq!(a, b);
    assert_ne!(etag(b"some bytes"), etag(b"some bytez"));
    assert_ne!(etag(b""), etag(b"\0"));
}

#[test]
fn decimal_text_values() {
    assert_eq!(decimal_text(0), "0");
    assert_eq!(decimal_text(7), "7");
    assert_eq!(decimal_text(10), "10");
    assert_eq!(decimal_text(1_700_000_000), "1700000000");
    assert_eq!(decimal_text(u64::MAX), "18446744073709551615");
}

#[test]
fn last_modified_falls_back_to_now() {
    assert_eq!(last_modified(Some(123), 456), "123");
    assert_eq!(last_modified(None, 456), "456");
}

#[test]
fn byte_payloads() {
    let b = Base64Bytes::from_static(b"abc");
    assert_eq!(b.as_slice(), b"abc");
    assert_eq!(b.len(), 3);
    let c: Base64Bytes = vec![1u8, 2].into();
    assert_eq!(c.clone().into_vec(), vec![1u8, 2]);
    assert_eq!(Base64Bytes::from_vec(vec![1u8, 2]), c);
    let d: ByteBuf = vec![9u8].into();
    assert_eq!(d.as_slice(), &[9u8]);
    assert_eq!(d.into_vec(), vec![9u8]);
}
