use bucky_raw_codec::{check_additive_compat, EmptyContent2, EmptyContentV1};

#[test]
fn empty_bytes_decode_to_all_defaults() {
    // The older revision's zero-length encoding decodes against the newer
    // revision: every added optional field comes back absent, and nothing
    // is left unread.
    let (v, rest) = EmptyContentV1::raw_decode(&[]).unwrap();
    assert!(v.name.is_none());
    assert_eq!(rest.len(), 0);
}

#[test]
fn newer_bytes_tolerated_by_older_readers() {
    let newer = EmptyContentV1 {
        name: Some("xxx".to_owned()),
    };
    let (encoded, unread, unknown) = check_additive_compat(&newer).unwrap();
    assert!(encoded > 0);
    assert_eq!(unread, encoded);
    assert!(unknown >= 1);
}

#[test]
fn bridged_round_trip() {
    let v = EmptyContentV1 {
        name: Some("abc".to_owned()),
    };
    let back = v.round_trip().unwrap();
    assert_eq!(back.name, Some("abc".to_owned()));

    let none = EmptyContentV1 { name: None };
    let back = none.round_trip().unwrap();
    assert!(back.name.is_none());
}

#[test]
fn bridged_empty_counts_unknown_fields() {
    let (_, unknown) = EmptyContent2::raw_decode_with_unknown(&[]).unwrap();
    assert_eq!(unknown, 0);

    let newer = EmptyContentV1 {
        name: Some("field".to_owned()),
    };
    let buf = newer.to_vec().unwrap();
    let (_, unknown) = EmptyContent2::raw_decode_with_unknown(&buf).unwrap();
    assert!(unknown >= 1);
}

#[test]
fn bridged_measure_matches() {
    let v = EmptyContentV1 {
        name: Some("measure me".to_owned()),
    };
    let n = v.raw_measure(&None).unwrap();
    assert_eq!(n, v.to_vec().unwrap().len());
    assert_eq!(EmptyContentV1 { name: None }.raw_measure(&None).unwrap(), 0);
}
