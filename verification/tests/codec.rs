use msbt::endian::ByteOrder;
use msbt::error::Error;
use msbt::msbt::MSBTString;
use msbt::structs::{Header, ATR1, LBL1, TXT2};

fn le() -> ByteOrder {
    ByteOrder::LittleEndian
}

fn be() -> ByteOrder {
    ByteOrder::BigEndian
}

fn rec(index: u32, label: &str, bytes: &[u8]) -> MSBTString {
    MSBTString { index, label: label.to_owned(), string: bytes.to_vec() }
}

#[test]
fn header_roundtrip_little_endian() {
    let bytes = Header::write_binary(3, 0x30, le());
    assert_eq!(bytes.len(), 32);
    assert_eq!(&bytes[0..8], b"MsgStdBn");
    assert_eq!(&bytes[8..10], &[0xFF, 0xFE]);
    let (header, pos) = Header::read_from(&bytes, 0).unwrap();
    assert!(!header.endianness);
    assert_eq!(header.section_amount, 3);
    assert_eq!(header.filesize, 0x30 + 0x20);
    assert_eq!(pos, 32);
}

#[test]
fn header_roundtrip_big_endian() {
    let bytes = Header::write_binary(3, 0x30, be());
    assert_eq!(&bytes[8..10], &[0xFE, 0xFF]);
    let (header, _) = Header::read_from(&bytes, 0).unwrap();
    assert!(header.endianness);
    assert_eq!(header.section_amount, 3);
}

#[test]
fn bad_signature_is_not_this_format() {
    // A buffer whose first 8 bytes are not the signature is rejected
    // without reading further.
    let bytes = vec![0x58u8; 64];
    assert_eq!(msbt::msbt::from_binary(&bytes).unwrap_err(), Error::NotThisFormat);
    let short = vec![0x4Du8, 0x73];
    assert_eq!(msbt::msbt::from_binary(&short).unwrap_err(), Error::NotThisFormat);
}

#[test]
fn truncated_after_signature_is_malformed() {
    let mut bytes = b"MsgStdBn".to_vec();
    bytes.extend_from_slice(&[0xFF, 0xFE, 0, 0]);
    assert_eq!(msbt::msbt::from_binary(&bytes).unwrap_err(), Error::MalformedSection);
}

#[test]
fn attribute_section_roundtrip() {
    let records = vec![rec(0, "A", &[0x61, 0x00, 0x00, 0x00])];
    let bytes = ATR1::write_binary(&records, le());
    assert_eq!(bytes.len(), 32);
    assert_eq!(&bytes[0..4], b"ATR1");
    let (atr1, pos) = ATR1::read_from(&bytes, 0, le()).unwrap();
    assert_eq!(atr1.string_amount, 1);
    assert_eq!(atr1.section_size, 8);
    assert_eq!(pos, 32);
}

#[test]
fn absent_attribute_section_is_tolerated() {
    let bytes = b"TXT2abcdefgh".to_vec();
    let (atr1, pos) = ATR1::read_from(&bytes, 0, le()).unwrap();
    assert_eq!(atr1.section_size, 0);
    assert_eq!(atr1.string_amount, 0);
    assert_eq!(pos, 0);
}

#[test]
fn hash_bucketing_formula() {
    // hash("A") = 0x41 = 65; 65 mod 101 = 65.
    assert_eq!(LBL1::calculate_hash("A"), 65);
    // hash("AB") = 65 * 0x492 + 66 = 76116; 76116 mod 101 = 63.
    assert_eq!(LBL1::calculate_hash("AB"), 63);
    assert_eq!(LBL1::calculate_hash(""), 0);
    // Always a bucket number.
    assert!(LBL1::calculate_hash("Some_Label_123") < 101);
}

#[test]
fn container_roundtrip_little_endian() {
    let records = vec![
        rec(0, "Alpha", &[0x61, 0x00, 0x00, 0x00]),
        rec(1, "Beta", &[0x62, 0x00, 0x00, 0x00]),
        rec(2, "Gamma", &[0x63, 0x00, 0x00, 0x00]),
    ];
    let bytes = msbt::msbt::to_binary(records.clone(), le()).unwrap();
    let decoded = msbt::msbt::from_binary(&bytes).unwrap();
    assert_eq!(decoded.endianness, le());
    assert!(decoded.has_attributes);
    let mut strings = msbt::msbt::get_strings(decoded).unwrap();
    strings.sort_by(|a, b| a.index.cmp(&b.index));
    assert_eq!(strings, records);
}

#[test]
fn container_roundtrip_big_endian() {
    let records = vec![
        rec(0, "One", &[0x00, 0x31, 0x00, 0x00]),
        rec(1, "Two", &[0x00, 0x32, 0x00, 0x00]),
    ];
    let bytes = msbt::msbt::to_binary(records.clone(), be()).unwrap();
    let decoded = msbt::msbt::from_binary(&bytes).unwrap();
    assert_eq!(decoded.endianness, be());
    let mut strings = msbt::msbt::get_strings(decoded).unwrap();
    strings.sort_by(|a, b| a.index.cmp(&b.index));
    assert_eq!(strings, records);
}

#[test]
fn container_roundtrip_unsorted_input() {
    // Records handed over out of index order serialize sorted by index.
    let records = vec![
        rec(1, "Second", &[0x62, 0x00, 0x00, 0x00]),
        rec(0, "First", &[0x61, 0x00, 0x00, 0x00]),
    ];
    let bytes = msbt::msbt::to_binary(records.clone(), le()).unwrap();
    let decoded = msbt::msbt::from_binary(&bytes).unwrap();
    let mut strings = msbt::msbt::get_strings(decoded).unwrap();
    strings.sort_by(|a, b| a.index.cmp(&b.index));
    assert_eq!(strings[0], records[1]);
    assert_eq!(strings[1], records[0]);
}

#[test]
fn txt2_write_layout() {
    let records = vec![rec(0, "A", &[0x61, 0x00, 0x00, 0x00])];
    let bytes = TXT2::write_binary(records, le());
    assert_eq!(&bytes[0..4], b"TXT2");
    // section size = 4 (count) + 4 (one offset) + 4 (payload) = 12
    assert_eq!(&bytes[4..8], &[12, 0, 0, 0]);
    // one string
    assert_eq!(&bytes[16..20], &[1, 0, 0, 0]);
    // its offset: count field + one offset entry = 8
    assert_eq!(&bytes[20..24], &[8, 0, 0, 0]);
    assert_eq!(&bytes[24..28], &[0x61, 0x00, 0x00, 0x00]);
    // padded with 0xD0 to 32
    assert_eq!(bytes.len(), 32);
    assert_eq!(bytes[28], 0xD0);
}

#[test]
fn lbl1_bucket_layout() {
    // "A" hashes to bucket 65; the descriptor of bucket 65 must carry one
    // label at the base offset, and every other bucket repeats the
    // following offset.
    let records = vec![rec(0, "A", &[0x61, 0x00, 0x00, 0x00])];
    let bytes = LBL1::write_binary(&records, le());
    assert_eq!(&bytes[0..4], b"LBL1");
    // bucket count
    assert_eq!(&bytes[16..20], &[101, 0, 0, 0]);
    // descriptor of bucket 0: zero labels, offset 0x32C (no labels before).
    assert_eq!(&bytes[20..24], &[0, 0, 0, 0]);
    assert_eq!(&bytes[24..28], &[0x2C, 0x03, 0, 0]);
    // descriptor of bucket 65 at 20 + 65*8
    let d = 20 + 65 * 8;
    assert_eq!(&bytes[d..d + 4], &[1, 0, 0, 0]);
    assert_eq!(&bytes[d + 4..d + 8], &[0x2C, 0x03, 0, 0]);
    // descriptor of bucket 100: zero labels, offset past the one label
    // entry (1 + 1 + 4 bytes).
    let d100 = 20 + 100 * 8;
    assert_eq!(&bytes[d100..d100 + 4], &[0, 0, 0, 0]);
    assert_eq!(&bytes[d100 + 4..d100 + 8], &[0x32, 0x03, 0, 0]);
    // the label entry itself, right after the 101 descriptors
    let l = 20 + 101 * 8;
    assert_eq!(bytes[l], 1);
    assert_eq!(bytes[l + 1], b'A');
    assert_eq!(&bytes[l + 2..l + 6], &[0, 0, 0, 0]);
}

#[test]
fn duplicate_labels_are_preserved() {
    // Two records with the same label but different indices survive a
    // round trip as separate records.
    let records = vec![
        rec(0, "Twin", &[0x61, 0x00, 0x00, 0x00]),
        rec(1, "Twin", &[0x62, 0x00, 0x00, 0x00]),
    ];
    let bytes = msbt::msbt::to_binary(records.clone(), le()).unwrap();
    let decoded = msbt::msbt::from_binary(&bytes).unwrap();
    let mut strings = msbt::msbt::get_strings(decoded).unwrap();
    strings.sort_by(|a, b| a.index.cmp(&b.index));
    assert_eq!(strings, records);
}

#[test]
fn invalid_utf8_label_is_a_text_encoding_error() {
    // Corrupting a label byte to an invalid UTF-8 sequence makes the label
    // index unreadable as text.
    let records = vec![rec(0, "A", &[0x61, 0x00, 0x00, 0x00])];
    let mut bytes = LBL1::write_binary(&records, le());
    let entry = 20 + 101 * 8;
    assert_eq!(bytes[entry + 1], b'A');
    bytes[entry + 1] = 0xFF;
    assert_eq!(
        LBL1::read_from(&bytes, 0, le()).unwrap_err(),
        Error::TextEncodingError
    );
}

#[test]
fn truncated_label_index_is_malformed() {
    let records = vec![rec(0, "A", &[0x61, 0x00, 0x00, 0x00])];
    let bytes = LBL1::write_binary(&records, le());
    let cut = bytes[..100].to_vec();
    assert_eq!(LBL1::read_from(&cut, 0, le()).unwrap_err(), Error::MalformedSection);
}
