use rafka::record::Record;

#[test]
fn decode_encode_e2e() {
    let mut record = Record::new(b"hello", b"world");
    record.add_offset(1);

    let bytes = record.encode();
    let decoded = Record::decode(&bytes).unwrap();
    assert_eq!(record, decoded);
}

#[test]
fn encode_layout_is_little_endian_with_lengths() {
    let record = Record { offset: Some(0x0102), timestamp: 7, key: b"ab".to_vec(), value: b"xyz".to_vec() };
    let bytes = record.encode();
    assert_eq!(bytes.len(), 24 + 2 + 3);
    assert_eq!(&bytes[0..8], &[0x02, 0x01, 0, 0, 0, 0, 0, 0]);
    assert_eq!(&bytes[8..16], &[7, 0, 0, 0, 0, 0, 0, 0]);
    assert_eq!(&bytes[16..20], &[2, 0, 0, 0]);
    assert_eq!(&bytes[20..22], b"ab");
    assert_eq!(&bytes[22..26], &[3, 0, 0, 0]);
    assert_eq!(&bytes[26..29], b"xyz");
}

#[test]
fn new_record_has_no_offset() {
    let record = Record::new(b"k", b"v");
    assert_eq!(record.offset, None);
    assert_eq!(record.key, b"k".to_vec());
    assert_eq!(record.value, b"v".to_vec());
}

#[test]
fn write_to_appends_and_counts() {
    let record = Record { offset: Some(5), timestamp: 9, key: vec![1], value: vec![] };
    let mut out = vec![0xAA];
    let n = record.write_to(&mut out).unwrap();
    assert_eq!(n, 25);
    assert_eq!(out.len(), 26);
    assert_eq!(out[0], 0xAA);
    assert_eq!(out[1], 5);
}

#[test]
fn decode_reads_empty_key_and_value() {
    let record = Record { offset: Some(u64::MAX), timestamp: 0, key: vec![], value: vec![] };
    let decoded = Record::decode(&record.encode()).unwrap();
    assert_eq!(decoded, record);
}
