use msbt::diff_utils::{
    check_patch_hash, convert_diff, get_added, get_deleted, get_edited, patch_diff, State,
    StringDiff,
};
use msbt::endian::ByteOrder;
use msbt::error::Error;
use msbt::msbt::{
    add_string, add_string_raw, delete_string_by_index, delete_string_by_label,
    edit_string_by_label, table_from_document, table_to_document, MSBTString,
};

fn le() -> ByteOrder {
    ByteOrder::LittleEndian
}

fn rec(index: u32, label: &str, bytes: &[u8]) -> MSBTString {
    MSBTString { index, label: label.to_owned(), string: bytes.to_vec() }
}

fn five_records() -> Vec<MSBTString> {
    (0u32..5).map(|i| rec(i, &format!("L{}", i), &[0x61 + i as u8, 0x00])).collect()
}

#[test]
fn delete_renumbers_higher_indices() {
    // Deleting the record at index 2 out of {0,1,2,3,4} leaves {0,1,2,3}
    // with the labels shifted accordingly.
    let mut records = five_records();
    delete_string_by_index(&mut records, 2).unwrap();
    let indices: Vec<u32> = records.iter().map(|r| r.index).collect();
    assert_eq!(indices, vec![0, 1, 2, 3]);
    let labels: Vec<&str> = records.iter().map(|r| r.label.as_str()).collect();
    assert_eq!(labels, vec!["L0", "L1", "L3", "L4"]);
}

#[test]
fn delete_absent_label_fails() {
    let mut records = five_records();
    assert_eq!(
        delete_string_by_label(&mut records, "Nowhere".to_owned()).unwrap_err(),
        Error::LabelNotFound
    );
    assert_eq!(records.len(), 5);
}

#[test]
fn delete_absent_index_fails() {
    let mut records = five_records();
    assert_eq!(delete_string_by_index(&mut records, 9).unwrap_err(), Error::IndexNotFound);
}

#[test]
fn delete_by_label_removes_first_match() {
    let mut records = five_records();
    delete_string_by_label(&mut records, "L0".to_owned()).unwrap();
    assert_eq!(records.len(), 4);
    assert_eq!(records[0].label, "L1");
    assert_eq!(records[0].index, 0);
}

#[test]
fn add_assigns_next_index() {
    let mut records = five_records();
    add_string_raw(&mut records, "New".to_owned(), vec![0x7A, 0x00]).unwrap();
    assert_eq!(records.last().unwrap().index, 5);
    assert_eq!(records.last().unwrap().label, "New");
}

#[test]
fn add_encodes_utf16() {
    let mut records = vec![rec(0, "A", &[0x61, 0x00])];
    add_string(&mut records, "B".to_owned(), "hi\0".to_owned(), le()).unwrap();
    assert_eq!(records[1].string, vec![0x68, 0x00, 0x69, 0x00, 0x00, 0x00]);
    assert_eq!(records[1].index, 1);
}

#[test]
fn add_to_empty_table_fails() {
    let mut records: Vec<MSBTString> = Vec::new();
    assert_eq!(
        add_string_raw(&mut records, "X".to_owned(), vec![0]).unwrap_err(),
        Error::EmptyTableError
    );
}

#[test]
fn edit_replaces_payload_in_place() {
    let mut records = five_records();
    edit_string_by_label(&mut records, "L1".to_owned(), "z\0".to_owned(), le()).unwrap();
    assert_eq!(records[1].index, 1);
    assert_eq!(records[1].string, vec![0x7A, 0x00, 0x00, 0x00]);
}

#[test]
fn edit_absent_label_reports_not_found() {
    let mut records = five_records();
    assert_eq!(
        edit_string_by_label(&mut records, "Nope".to_owned(), "z\0".to_owned(), le()).unwrap_err(),
        Error::LabelNotFound
    );
    assert_eq!(records, five_records());
}

#[test]
fn diff_scenario() {
    // baseline {A:"x", B:"y"}, edited {A:"x", C:"z"}: added [C],
    // deleted [B], edited [].
    let baseline = vec![rec(0, "A", &[0x78, 0x00]), rec(1, "B", &[0x79, 0x00])];
    let edited = vec![vec![rec(0, "A", &[0x78, 0x00]), rec(1, "C", &[0x7A, 0x00])]];
    let added = get_added(baseline.clone(), edited.clone());
    assert_eq!(added.len(), 1);
    assert_eq!(added[0].label, "C");
    let deleted = get_deleted(baseline.clone(), edited.clone());
    assert_eq!(deleted.len(), 1);
    assert_eq!(deleted[0].label, "B");
    let changed = get_edited(baseline, edited);
    assert_eq!(changed.len(), 0);
}

#[test]
fn diff_sees_changed_payloads() {
    let baseline = vec![rec(0, "A", &[0x78, 0x00])];
    let edited = vec![vec![rec(0, "A", &[0x79, 0x00])]];
    let changed = get_edited(baseline, edited);
    assert_eq!(changed.len(), 1);
    assert_eq!(changed[0].string, vec![0x79, 0x00]);
}

#[test]
fn convert_diff_parses_entries() {
    let lines: Vec<String> = vec![
        "+NewLabel".to_owned(),
        ">text".to_owned(),
        "".to_owned(),
        "-Gone".to_owned(),
        "".to_owned(),
    ];
    let entries = convert_diff(lines).unwrap();
    assert_eq!(entries.len(), 3);
    assert_eq!(entries[0].state, State::Added);
    assert_eq!(entries[0].label, "NewLabel");
    assert_eq!(entries[0].string, "text");
    assert_eq!(entries[1].state, State::Deleted);
    assert_eq!(entries[1].label, "Gone");
    assert_eq!(entries[2].state, State::Null);
}

#[test]
fn convert_diff_rejects_unknown_state() {
    let lines: Vec<String> = vec!["xLabel".to_owned()];
    assert_eq!(convert_diff(lines).unwrap_err(), Error::MalformedDiffUnrecognizedState);
}

#[test]
fn patch_applies_entries() {
    let baseline = vec![rec(0, "A", &[0x78, 0x00, 0x00, 0x00]), rec(1, "B", &[0x79, 0x00, 0x00, 0x00])];
    let diff = vec![
        StringDiff { state: State::Added, label: "C".to_owned(), string: "z".to_owned() },
        StringDiff { state: State::Deleted, label: "B".to_owned(), string: "".to_owned() },
        StringDiff { state: State::Edited, label: "A".to_owned(), string: "w".to_owned() },
        StringDiff { state: State::Null, label: "".to_owned(), string: "".to_owned() },
    ];
    let patched = patch_diff(diff, baseline, le()).unwrap();
    assert_eq!(patched.len(), 2);
    assert_eq!(patched[0].label, "A");
    assert_eq!(patched[0].string, vec![0x77, 0x00, 0x00, 0x00]);
    assert_eq!(patched[1].label, "C");
    assert_eq!(patched[1].string, vec![0x7A, 0x00, 0x00, 0x00]);
}

#[test]
fn patch_skips_editing_an_absent_label() {
    let baseline = vec![rec(0, "A", &[0x78, 0x00])];
    let diff = vec![
        StringDiff { state: State::Edited, label: "Missing".to_owned(), string: "w".to_owned() },
    ];
    let patched = patch_diff(diff, baseline.clone(), le()).unwrap();
    assert_eq!(patched, baseline);
}

#[test]
fn patch_delete_of_absent_label_fails() {
    let baseline = vec![rec(0, "A", &[0x78, 0x00])];
    let diff = vec![
        StringDiff { state: State::Deleted, label: "Missing".to_owned(), string: "".to_owned() },
    ];
    assert_eq!(patch_diff(diff, baseline, le()).unwrap_err(), Error::LabelNotFound);
}

#[test]
fn patch_hash_check() {
    // The digest of "hello" is a published SHA-256 test value; a table
    // that hands the input back unchanged would fail this.
    let good = "2cf24dba5fb0a30e26e83b2ac5b9e29e1b161e5c1fa7425e73043362938b9824".to_owned();
    let bytes = b"hello".to_vec();
    assert!(check_patch_hash(&good, &bytes).is_ok());
    let bad = "hello".to_owned();
    assert_eq!(check_patch_hash(&bad, &bytes).unwrap_err(), Error::HashMismatch);
}

#[test]
fn document_roundtrip() {
    let entries = vec![
        ("A".to_owned(), "hi".to_owned()),
        ("B".to_owned(), "[Colour #FF0000FF]!".to_owned()),
    ];
    let table = table_from_document(entries.clone(), le()).unwrap();
    assert_eq!(table.len(), 2);
    assert_eq!(table[0].index, 0);
    assert_eq!(table[1].index, 1);
    // The text gains an explicit terminator when encoded.
    assert_eq!(table[0].string, vec![0x68, 0x00, 0x69, 0x00, 0x00, 0x00]);
    let back = table_to_document(&table, le()).unwrap();
    assert_eq!(back, entries);
}
