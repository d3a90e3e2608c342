use ssh_packet::arch::{Bool, Bytes, MpInt, NameList, StringAscii, StringUtf8};
use ssh_packet::Error;

#[test]
fn bytes_decode_reads_length_prefixed_payload() {
    let input = [0u8, 0, 0, 3, b'a', b'b', b'c'];
    let (bytes, end) = Bytes::decode(&input, 0).unwrap();
    assert_eq!(bytes.as_slice(), b"abc");
    assert_eq!(end, 7);
}

#[test]
fn bytes_encode_prefixes_length() {
    let mut out = Vec::new();
    Bytes::new(b"abc".to_vec()).encode(&mut out);
    assert_eq!(out, vec![0, 0, 0, 3, b'a', b'b', b'c']);
}

#[test]
fn bytes_round_trip() {
    for payload in [Vec::new(), vec![0u8], vec![1, 2, 3, 255], vec![7u8; 300]] {
        let mut out = Vec::new();
        Bytes::new(payload.clone()).encode(&mut out);
        let (decoded, end) = Bytes::decode(&out, 0).unwrap();
        assert_eq!(decoded.into_vec(), payload);
        assert_eq!(end, out.len());
    }
}

#[test]
fn bytes_decode_truncated() {
    assert!(matches!(Bytes::decode(&[0, 0, 0], 0), Err(Error::TruncatedInput)));
    assert!(matches!(Bytes::decode(&[0, 0, 0, 4, 1, 2, 3], 0), Err(Error::TruncatedInput)));
    assert!(matches!(Bytes::decode(&[], 0), Err(Error::TruncatedInput)));
}

#[test]
fn bytes_decode_at_offset() {
    let input = [9u8, 9, 0, 0, 0, 1, 42, 5];
    let (bytes, end) = Bytes::decode(&input, 2).unwrap();
    assert_eq!(bytes.as_slice(), &[42]);
    assert_eq!(end, 7);
}

#[test]
fn mpint_high_bit_gets_zero_prefix() {
    let mut out = Vec::new();
    MpInt::new(vec![0x80]).encode(&mut out);
    assert_eq!(out, vec![0, 0, 0, 2, 0x00, 0x80]);
}

#[test]
fn mpint_low_value_is_kept() {
    let mut out = Vec::new();
    MpInt::new(vec![0x7F]).encode(&mut out);
    assert_eq!(out, vec![0, 0, 0, 1, 0x7F]);
}

#[test]
fn mpint_strips_redundant_zeros() {
    assert_eq!(MpInt::new(vec![0, 0, 0x12, 0x34]).as_slice(), &[0x12, 0x34]);
    assert_eq!(MpInt::new(vec![0, 0, 0x80, 1]).as_slice(), &[0, 0x80, 1]);
    assert_eq!(MpInt::new(vec![0, 0, 0]).as_slice(), &[] as &[u8]);
    assert_eq!(MpInt::new(vec![]).as_slice(), &[] as &[u8]);
}

#[test]
fn mpint_canonicalisation_is_idempotent() {
    for value in [vec![0x80], vec![0, 0, 0xff, 3], vec![0x7f, 0], vec![0, 0x01]] {
        let once = MpInt::new(value);
        let twice = MpInt::new(once.as_slice().to_vec());
        assert_eq!(once.as_slice(), twice.as_slice());
    }
}

#[test]
fn mpint_decode_keeps_bytes() {
    let (value, end) = MpInt::decode(&[0, 0, 0, 2, 0, 0x10], 0).unwrap();
    assert_eq!(value.as_slice(), &[0, 0x10]);
    assert_eq!(end, 6);
}

#[test]
fn bool_encoding() {
    let mut out = Vec::new();
    Bool(true).encode(&mut out);
    Bool(false).encode(&mut out);
    assert_eq!(out, vec![1, 0]);
    assert_eq!(Bool::decode(&[7], 0).unwrap().0, Bool(true));
    assert_eq!(Bool::decode(&[0], 0).unwrap().0, Bool(false));
    assert!(matches!(Bool::decode(&[], 0), Err(Error::TruncatedInput)));
    assert_eq!(Bool(true).not(), Bool(false));
}

#[test]
fn utf8_decode_validates() {
    let (s, end) = StringUtf8::decode(&[0, 0, 0, 3, 0xe2, 0x88, 0x9e], 0).unwrap();
    assert_eq!(s.as_str(), "∞");
    assert_eq!(end, 7);
    assert!(matches!(StringUtf8::decode(&[0, 0, 0, 1, 0xff], 0), Err(Error::Utf8Validation(0))));
}

#[test]
fn utf8_encode() {
    let mut out = Vec::new();
    StringUtf8::new("∞".to_string()).encode(&mut out);
    assert_eq!(out, vec![0, 0, 0, 3, 0xe2, 0x88, 0x9e]);
    assert_eq!(StringUtf8::borrowed("abc").into_string(), "abc");
}

#[test]
fn ascii_decode_checks_utf8_then_ascii() {
    let (s, _) = StringAscii::decode(&[0, 0, 0, 2, b'o', b'k'], 0).unwrap();
    assert_eq!(s.as_str(), "ok");
    assert!(matches!(StringAscii::decode(&[0, 0, 0, 3, 0xe2, 0x88, 0x9e], 0), Err(Error::AsciiValidation(0))));
    assert!(matches!(StringAscii::decode(&[0, 0, 0, 1, 0x80], 0), Err(Error::Utf8Validation(0))));
    assert!(matches!(StringAscii::decode(&[0, 0, 0, 9], 0), Err(Error::TruncatedInput)));
}

#[test]
fn ascii_construction() {
    assert_eq!(StringAscii::new("a∞b").as_str(), "ab");
    assert!(StringAscii::owned("plain".to_string()).is_ok());
    assert!(StringAscii::owned("∞".to_string()).is_err());
    assert!(StringAscii::borrowed("é").is_err());
    assert_eq!(StringAscii::borrowed("x").unwrap().into_string(), "x");
}

#[test]
fn namelist_encodes_joined_names() {
    let list = NameList::new(&["zlib", "none"]);
    let mut out = Vec::new();
    list.encode(&mut out);
    let mut expected = vec![0, 0, 0, 9];
    expected.extend_from_slice(b"zlib,none");
    assert_eq!(out, expected);
}

#[test]
fn namelist_preferred_in() {
    let ours = NameList::new(&["zlib", "none"]);
    let theirs = NameList::new(&["none"]);
    assert_eq!(ours.preferred_in(&theirs).unwrap().as_str(), "none");
    assert_eq!(theirs.preferred_in(&ours).unwrap().as_str(), "none");
    assert_eq!(ours.preferred_in(&ours).unwrap().as_str(), "zlib");
    let other = NameList::new(&["lz4"]);
    assert!(ours.preferred_in(&other).is_none());
    assert!(ours.preferred(&other).is_none());
}

#[test]
fn namelist_preference_follows_own_order() {
    let ours = NameList::new(&["aes256-ctr", "aes128-ctr", "chacha20"]);
    let theirs = NameList::new(&["chacha20", "aes128-ctr"]);
    assert_eq!(ours.preferred_in(&theirs).unwrap().as_str(), "aes128-ctr");
    assert_eq!(theirs.preferred_in(&ours).unwrap().as_str(), "chacha20");
}

#[test]
fn namelist_skips_empty_names() {
    let list = NameList::new(&["", "a", "", "b"]);
    let mut out = Vec::new();
    list.encode(&mut out);
    assert_eq!(out, vec![0, 0, 0, 3, b'a', b',', b'b']);
    let (decoded, _) = NameList::decode(&[0, 0, 0, 6, b',', b'a', b',', b',', b'b', b','], 0).unwrap();
    let names: Vec<String> = decoded.names().into_iter().map(|n| n.into_string()).collect();
    assert_eq!(names, vec!["a".to_string(), "b".to_string()]);
}

#[test]
fn namelist_empty() {
    let empty = NameList::new(&[]);
    assert!(empty.names().is_empty());
    assert!(empty.preferred_in(&NameList::new(&["a"])).is_none());
}

#[test]
fn mpint_reencodes_canonically() {
    let (value, _) = MpInt::decode(&[0, 0, 0, 1, 0x80], 0).unwrap();
    let mut out = Vec::new();
    value.encode(&mut out);
    assert_eq!(out, vec![0, 0, 0, 2, 0x00, 0x80]);
    let (value, _) = MpInt::decode(&[0, 0, 0, 3, 0, 0, 0x10], 0).unwrap();
    let mut out = Vec::new();
    value.encode(&mut out);
    assert_eq!(out, vec![0, 0, 0, 1, 0x10]);
}

#[test]
fn validation_errors_locate_the_string() {
    let input = [0, 0, 0, 1, b'a', 0, 0, 0, 1, 0xff];
    assert!(matches!(StringUtf8::decode(&input, 5), Err(Error::Utf8Validation(5))));
    let input = [0, 0, 0, 0, 0, 0, 0, 2, 0xc3, 0xa9];
    assert!(matches!(StringAscii::decode(&input, 4), Err(Error::AsciiValidation(4))));
    assert!(matches!(NameList::decode(&input, 4), Err(Error::AsciiValidation(4))));
}

#[test]
fn defaults_are_empty_and_usable() {
    let list = NameList::default();
    assert!(list.names().is_empty());
    assert_eq!(StringAscii::default().as_borrow().as_str(), "");
}
