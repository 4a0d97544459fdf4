use soapy_spec_acc::sigproc_io::{DecodeError, Header, HeaderItem, KvPair, SpStr};

fn text(s: &SpStr) -> String {
    String::from_utf8(s.content.clone()).unwrap()
}

fn name_of(item: &HeaderItem) -> String {
    match item {
        HeaderItem::HeaderStart => "HEADER_START".to_string(),
        HeaderItem::HeaderEnd => "HEADER_END".to_string(),
        HeaderItem::StringItem(p) => text(&p.key),
        HeaderItem::IntItem(p) => text(&p.key),
        HeaderItem::DoubleItem(p) => text(&p.key),
    }
}

fn canonical() -> Header {
    Header::new(
        1420.5f64.to_bits(),
        8,
        (-0.75f64).to_bits(),
        51544.0f64.to_bits(),
        1e-3f64.to_bits(),
    )
}

#[test]
fn spstr_new_holds_bytes_and_length() {
    let s = SpStr::new("nchans");
    assert_eq!(s.len, 6);
    assert_eq!(s.content, b"nchans".to_vec());
    assert!(s.is("nchans"));
    assert!(!s.is("nchan"));
    assert!(!s.is("nchanz"));
}

#[test]
fn kvpair_new_keeps_name_and_value() {
    let p = KvPair::new("nbits", 32u32);
    assert_eq!(text(&p.key), "nbits");
    assert_eq!(p.value, 32);
}

#[test]
fn canonical_header_items_in_order() {
    let h = canonical();
    let names: Vec<String> = h.items.iter().map(name_of).collect();
    assert_eq!(
        names,
        vec![
            "source_name",
            "machine_id",
            "telescope_id",
            "data_type",
            "fch1",
            "foff",
            "nchans",
            "barycentric",
            "nbits",
            "tstart",
            "tsamp",
            "src_raj",
            "src_dej",
            "nifs"
        ]
    );
    assert_eq!(h.nchans(), 8);
    assert_eq!(h.nbits(), 32);
    assert_eq!(h.nifs(), 1);
    assert_eq!(f64::from_bits(h.tsamp()), 1e-3);
    match &h.items[12] {
        HeaderItem::DoubleItem(p) => assert_eq!(f64::from_bits(p.value), 900000.0),
        _ => panic!("src_dej is no double item"),
    }
    match &h.items[0] {
        HeaderItem::StringItem(p) => assert_eq!(text(&p.value), "fake"),
        _ => panic!("source_name is no string item"),
    }
}

#[test]
fn header_encoding_is_bit_exact() {
    let mut h = Header::default();
    h.push_item(HeaderItem::IntItem(KvPair::new("nchans", 8)));
    h.push_item(HeaderItem::DoubleItem(KvPair::new("tsamp", 1.0f64.to_bits())));
    h.push_item(HeaderItem::StringItem(KvPair::new("source_name", SpStr::new("ab"))));
    let mut expected: Vec<u8> = Vec::new();
    expected.extend_from_slice(&12u32.to_le_bytes());
    expected.extend_from_slice(b"HEADER_START");
    expected.extend_from_slice(&6u32.to_le_bytes());
    expected.extend_from_slice(b"nchans");
    expected.extend_from_slice(&8u32.to_le_bytes());
    expected.extend_from_slice(&5u32.to_le_bytes());
    expected.extend_from_slice(b"tsamp");
    expected.extend_from_slice(&1.0f64.to_le_bytes());
    expected.extend_from_slice(&11u32.to_le_bytes());
    expected.extend_from_slice(b"source_name");
    expected.extend_from_slice(&2u32.to_le_bytes());
    expected.extend_from_slice(b"ab");
    expected.extend_from_slice(&10u32.to_le_bytes());
    expected.extend_from_slice(b"HEADER_END");
    assert_eq!(h.encode(), expected);
}

#[test]
fn header_round_trip() {
    let h = canonical();
    let bytes = h.encode();
    let (back, used) = Header::decode(&bytes).unwrap();
    assert_eq!(used, bytes.len());
    assert_eq!(back.nchans(), 8);
    assert_eq!(back.items.len(), h.items.len());
    let before: Vec<String> = h.items.iter().map(name_of).collect();
    let after: Vec<String> = back.items.iter().map(name_of).collect();
    assert_eq!(before, after);
    assert_eq!(back.encode(), bytes);
}

#[test]
fn header_decode_leaves_payload() {
    let h = canonical();
    let mut bytes = h.encode();
    let n = bytes.len();
    bytes.extend_from_slice(&[1, 2, 3, 4, 5]);
    let (back, used) = Header::decode(&bytes).unwrap();
    assert_eq!(used, n);
    assert_eq!(back.nchans(), 8);
}

#[test]
fn header_decode_unknown_field_fails() {
    let mut bytes: Vec<u8> = Vec::new();
    bytes.extend_from_slice(&12u32.to_le_bytes());
    bytes.extend_from_slice(b"HEADER_START");
    bytes.extend_from_slice(&5u32.to_le_bytes());
    bytes.extend_from_slice(b"bogus");
    bytes.extend_from_slice(&7u32.to_le_bytes());
    bytes.extend_from_slice(&10u32.to_le_bytes());
    bytes.extend_from_slice(b"HEADER_END");
    assert_eq!(Header::decode(&bytes).err(), Some(DecodeError::UnknownField));
}

#[test]
fn header_decode_missing_start_fails() {
    let mut bytes: Vec<u8> = Vec::new();
    bytes.extend_from_slice(&6u32.to_le_bytes());
    bytes.extend_from_slice(b"nchans");
    bytes.extend_from_slice(&8u32.to_le_bytes());
    assert_eq!(Header::decode(&bytes).err(), Some(DecodeError::MissingStart));
}

#[test]
fn header_decode_truncated_fails() {
    let h = canonical();
    let bytes = h.encode();
    for cut in 0..bytes.len() {
        assert_eq!(
            Header::decode(&bytes[..cut]).err(),
            Some(DecodeError::UnexpectedEof),
            "cut at {}",
            cut
        );
    }
}

#[test]
fn header_nifs_defaults_to_one() {
    let mut h = Header::default();
    assert_eq!(h.nifs(), 1);
    h.push_item(HeaderItem::IntItem(KvPair::new("nifs", 2)));
    h.push_item(HeaderItem::IntItem(KvPair::new("nifs", 3)));
    assert_eq!(h.nifs(), 2);
}

#[test]
fn header_set_tsamp_replaces_first() {
    let mut h = canonical();
    h.push_item(HeaderItem::DoubleItem(KvPair::new("tsamp", 7.0f64.to_bits())));
    h.set_tsamp(2.5f64.to_bits());
    assert_eq!(f64::from_bits(h.tsamp()), 2.5);
    match &h.items[14] {
        HeaderItem::DoubleItem(p) => assert_eq!(f64::from_bits(p.value), 7.0),
        _ => panic!("the appended item is no double item"),
    }
    assert_eq!(h.nchans(), 8);
    assert_eq!(h.items.len(), 15);
}

#[test]
fn header_check_tells_what_reads_back() {
    let mut h = canonical();
    assert!(h.check());
    assert!(Header::default().check());
    h.push_item(HeaderItem::HeaderStart);
    assert!(h.check());
    let (back, _) = Header::decode(&h.encode()).unwrap();
    assert_eq!(back.items.len(), 15);
    assert!(matches!(back.items[14], HeaderItem::HeaderStart));

    let mut wrong_kind = Header::default();
    wrong_kind.push_item(HeaderItem::IntItem(KvPair::new("tsamp", 1)));
    assert!(!wrong_kind.check());

    let mut unknown = Header::default();
    unknown.push_item(HeaderItem::IntItem(KvPair::new("bogus", 1)));
    assert!(!unknown.check());
    assert_eq!(Header::decode(&unknown.encode()).err(), Some(DecodeError::UnknownField));

    let mut early_end = Header::default();
    early_end.push_item(HeaderItem::HeaderEnd);
    assert!(!early_end.check());

    let mut bad_length = Header::default();
    let mut key = SpStr::new("nchans");
    key.len = 5;
    assert!(!key.check());
    bad_length.push_item(HeaderItem::IntItem(KvPair { key, value: 8 }));
    assert!(!bad_length.check());
}

#[test]
fn spstr_duplicate_is_equal() {
    let s = SpStr::new("source_name");
    let d = s.duplicate();
    assert_eq!(d.len, 11);
    assert_eq!(d.content, s.content);
    assert!(d.check());
}
