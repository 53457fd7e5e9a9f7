use bucky_raw_codec::{
    RawConvertTo, RawDecode, RawDecodeOption, RawEncode, RawEncodePurpose, RawFixedBytes, RawFrom,
    RawMergable, USize, WriteBuf,
};

#[test]
fn varint_small_values() {
    assert_eq!(USize(0).to_vec().unwrap(), vec![0u8]);
    assert_eq!(USize(127).to_vec().unwrap(), vec![127u8]);
    // 300 = 44 + 2 * 128: low seven bits first, high bit marks continuation.
    assert_eq!(USize(300).to_vec().unwrap(), vec![172u8, 2]);
}

#[test]
fn varint_round_trip() {
    for v in [0usize, 1, 127, 128, 300, 16383, 16384, usize::MAX] {
        let buf = USize(v).to_vec().unwrap();
        let (back, rest) = USize::raw_decode(&buf).unwrap();
        assert_eq!(back.value(), v);
        assert_eq!(rest.len(), 0);
    }
}

#[test]
fn varint_malformed() {
    // The input ends inside an encoding.
    assert!(USize::raw_decode(&[0x80u8]).is_err());
    assert!(USize::raw_decode(&[]).is_err());
}

#[test]
fn fixed_width_round_trips() {
    let buf = 0x1234u16.to_vec().unwrap();
    assert_eq!(buf, vec![0x12u8, 0x34]);
    let (v16, rest) = u16::raw_decode(&buf).unwrap();
    assert_eq!(v16, 0x1234);
    assert_eq!(rest.len(), 0);

    let buf = 0xDEADBEEFu32.to_vec().unwrap();
    assert_eq!(buf, vec![0xDEu8, 0xAD, 0xBE, 0xEF]);
    let (v32, _) = u32::raw_decode(&buf).unwrap();
    assert_eq!(v32, 0xDEADBEEF);

    let buf = 0x0102030405060708u64.to_vec().unwrap();
    assert_eq!(buf.len(), 8);
    let (v64, _) = u64::raw_decode(&buf).unwrap();
    assert_eq!(v64, 0x0102030405060708);

    let buf = 0xABu8.to_vec().unwrap();
    assert_eq!(buf, vec![0xABu8]);
}

#[test]
fn fixed_byte_counts() {
    assert_eq!(u8::raw_bytes(), Some(1));
    assert_eq!(u16::raw_bytes(), Some(2));
    assert_eq!(u32::raw_bytes(), Some(4));
    assert_eq!(u64::raw_bytes(), Some(8));
    assert_eq!(u32::raw_max_bytes(), Some(4));
    assert_eq!(u32::raw_min_bytes(), Some(4));
    // A varint word has no fixed size, only bounds.
    assert_eq!(USize::raw_bytes(), None);
    assert_eq!(USize::raw_max_bytes(), Some(10));
    assert_eq!(USize::raw_min_bytes(), Some(1));
}

#[test]
fn string_round_trip() {
    let s = "hello codec".to_owned();
    let buf = s.to_vec().unwrap();
    // One length byte, then the text bytes.
    assert_eq!(buf.len(), 1 + s.len());
    assert_eq!(buf[0], s.len() as u8);
    let (back, rest) = String::raw_decode(&buf).unwrap();
    assert_eq!(back, s);
    assert_eq!(rest.len(), 0);

    let empty = String::new();
    let buf = empty.to_vec().unwrap();
    assert_eq!(buf, vec![0u8]);
    let (back, _) = String::raw_decode(&buf).unwrap();
    assert_eq!(back, "");
}

#[test]
fn string_rejects_bad_input() {
    // Length overruns the input.
    assert!(String::raw_decode(&[5u8, b'a']).is_err());
    // Invalid text bytes.
    assert!(String::raw_decode(&[1u8, 0xFF]).is_err());
}

#[test]
fn decode_leaves_suffix() {
    let mut buf = 7u16.to_vec().unwrap();
    buf.push(0x99);
    buf.push(0x77);
    let (v, rest) = u16::raw_decode(&buf).unwrap();
    assert_eq!(v, 7);
    assert_eq!(rest, &[0x99u8, 0x77]);
}

#[test]
fn option_presence_tag() {
    let none: Option<u16> = None;
    assert_eq!(none.to_vec().unwrap(), vec![0u8]);
    let some: Option<u16> = Some(0x0102);
    assert_eq!(some.to_vec().unwrap(), vec![1u8, 1, 2]);

    let (back, _) = Option::<u16>::raw_decode(&[0u8]).unwrap();
    assert_eq!(back, None);
    let (back, _) = Option::<u16>::raw_decode(&[1u8, 1, 2]).unwrap();
    assert_eq!(back, Some(0x0102));
    assert!(Option::<u16>::raw_decode(&[2u8]).is_err());
}

#[test]
fn measure_matches_encoding() {
    for v in [0usize, 127, 128, 99999] {
        let n = USize(v).raw_measure(&None).unwrap();
        assert_eq!(n, USize(v).to_vec().unwrap().len());
    }
    let s = "abc".to_owned();
    assert_eq!(s.raw_measure(&None).unwrap(), s.to_vec().unwrap().len());
}

#[test]
fn hash_encoding_is_stable() {
    let a = 0x55AA55AAu32;
    let b = 0x55AA55AAu32;
    assert_eq!(a.raw_hash_encode().unwrap(), b.raw_hash_encode().unwrap());
    // For these scalar types the hash layout is the canonical layout.
    assert_eq!(a.raw_hash_encode().unwrap(), a.to_vec().unwrap());
}

#[test]
fn write_window_too_small() {
    let mut buf = WriteBuf::zeroed(2);
    let e = 0x01020304u32.raw_encode(&mut buf, &None).unwrap_err();
    assert_eq!(e.code(), bucky_raw_codec::CodecErrorCode::OutOfLimit);
}

#[test]
fn tail_encode_reports_written_count() {
    let mut buf = WriteBuf::zeroed(16);
    let n = USize(300).raw_tail_encode(&mut buf, &None).unwrap();
    assert_eq!(n, 2);
    assert_eq!(buf.position(), 2);
    assert_eq!(buf.remaining(), 14);
}

#[test]
fn purposes_share_layout_for_scalars() {
    let mut buf = WriteBuf::zeroed(4);
    7u32.raw_encode(&mut buf, &Some(RawEncodePurpose::Hash)).unwrap();
    assert_eq!(buf.into_vec(), 7u32.to_vec().unwrap());
}

#[test]
fn merge_needs_equality() {
    assert!(5u32.raw_merge_ok(&5u32));
    assert!(!5u32.raw_merge_ok(&6u32));
}

#[test]
fn hex_round_trip() {
    let v = 0xA1B2C3D4u32;
    let hex = v.to_hex().unwrap();
    assert_eq!(hex, "a1b2c3d4");
    let mut scratch: Vec<u8> = Vec::new();
    let back: u32 = u32::clone_from_hex(&hex, &mut scratch).unwrap();
    assert_eq!(back, v);
    assert_eq!(scratch, v.to_vec().unwrap());
}

#[test]
fn hex_rejects_malformed_text() {
    let mut scratch: Vec<u8> = Vec::new();
    let e = u32::clone_from_hex("zz", &mut scratch).unwrap_err();
    assert_eq!(e.code(), bucky_raw_codec::CodecErrorCode::Failed);
    let e = u32::clone_from_hex("abc", &mut scratch).unwrap_err();
    assert_eq!(e.code(), bucky_raw_codec::CodecErrorCode::Failed);
}

#[test]
fn clone_from_slice_ignores_suffix() {
    let v = u16::clone_from_slice(&[0x01u8, 0x02, 0xFF, 0xFF]).unwrap();
    assert_eq!(v, 0x0102);
}

#[test]
fn decode_option_defaults_to_native_format() {
    let opt = RawDecodeOption::default();
    assert_eq!(opt.version, 0);
    assert_eq!(opt.format, bucky_raw_codec::OBJECT_CONTENT_CODEC_FORMAT_RAW);
    let buf = 9u16.to_vec().unwrap();
    let (v, _) = u16::raw_decode_with_option(&buf, &opt).unwrap();
    assert_eq!(v, 9);
}
