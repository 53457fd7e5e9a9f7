use bucky_raw_codec::{
    CodecError, CodecErrorCode, OriginError, RawConvertTo, RawDecode, RawFrom,
};

#[test]
fn assigned_ordinals_encode() {
    assert_eq!(CodecErrorCode::Success.to_vec().unwrap(), vec![0u8]);
    assert_eq!(CodecErrorCode::NotFound.to_vec().unwrap(), vec![4u8]);
    assert_eq!(CodecErrorCode::DecNotRunning.to_vec().unwrap(), vec![69u8]);
    // The two payload-carrying classifications append a 16-bit value.
    assert_eq!(
        CodecErrorCode::MetaError(0x1234).to_vec().unwrap(),
        vec![70u8, 0x12, 0x34]
    );
    assert_eq!(CodecErrorCode::DecError(7).to_vec().unwrap(), vec![71u8, 0, 7]);
}

#[test]
fn assigned_ordinals_decode() {
    let (c, _) = CodecErrorCode::raw_decode(&[0u8]).unwrap();
    assert_eq!(c, CodecErrorCode::Success);
    let (c, _) = CodecErrorCode::raw_decode(&[4u8]).unwrap();
    assert_eq!(c, CodecErrorCode::NotFound);
    let (c, rest) = CodecErrorCode::raw_decode(&[70u8, 0x12, 0x34, 0xAA]).unwrap();
    assert_eq!(c, CodecErrorCode::MetaError(0x1234));
    assert_eq!(rest, &[0xAAu8]);
}

#[test]
fn unknown_ordinal_is_not_supported() {
    // 9999 encodes as two varint bytes; no classification owns it.
    let buf = bucky_raw_codec::USize(9999).to_vec().unwrap();
    let e = CodecErrorCode::raw_decode(&buf).unwrap_err();
    assert_eq!(e.code(), CodecErrorCode::NotSupport);
    // The diagnostic names the offending ordinal.
    assert_eq!(e.msg(), "unknown error code ordinal 9999");
}

#[test]
fn cut_short_payload_is_invalid() {
    let e = CodecErrorCode::raw_decode(&[70u8]).unwrap_err();
    assert_eq!(e.code(), CodecErrorCode::InvalidFormat);
    // The diagnostic says what was expected and what was found.
    assert_eq!(e.msg(), "error code payload needs 2 bytes, found 0");
    let e = CodecErrorCode::raw_decode(&[]).unwrap_err();
    assert_eq!(e.code(), CodecErrorCode::InvalidFormat);
}

#[test]
fn ordinal_accessor() {
    assert_eq!(CodecErrorCode::Success.ordinal(), 0);
    assert_eq!(CodecErrorCode::Timeout.ordinal(), 3);
    assert_eq!(CodecErrorCode::MetaError(1).ordinal(), 70);
    assert_eq!(CodecErrorCode::DecError(1).ordinal(), 71);
}

#[test]
fn error_code_round_trips() {
    for c in [
        CodecErrorCode::Success,
        CodecErrorCode::InvalidFormat,
        CodecErrorCode::OutOfLimit,
        CodecErrorCode::UnknownIOError,
        CodecErrorCode::MetaError(65535),
        CodecErrorCode::DecError(0),
    ] {
        let buf = c.to_vec().unwrap();
        let (back, rest) = CodecErrorCode::raw_decode(&buf).unwrap();
        assert_eq!(back, c);
        assert_eq!(rest.len(), 0);
    }
}

#[test]
fn composite_error_round_trip() {
    let e = CodecError::with_origin(
        CodecErrorCode::Timeout,
        "deadline passed".to_owned(),
        Some(OriginError::Code(42)),
    );
    let buf = e.to_vec().unwrap();
    let back = CodecError::clone_from_slice(&buf).unwrap();
    assert_eq!(back.code(), CodecErrorCode::Timeout);
    assert_eq!(back.msg(), "deadline passed");
    assert_eq!(back.origin(), &Some(OriginError::Code(42)));
}

#[test]
fn composite_error_without_origin() {
    let e = CodecError::new(CodecErrorCode::NotFound, "missing".to_owned());
    let buf = e.to_vec().unwrap();
    let (back, rest) = CodecError::raw_decode(&buf).unwrap();
    assert_eq!(back.code(), CodecErrorCode::NotFound);
    assert_eq!(back.msg(), "missing");
    assert!(back.origin().is_none());
    assert_eq!(rest.len(), 0);
}

#[test]
fn origin_error_layouts() {
    // A numeric library code keeps its value behind tag 1.
    let buf = OriginError::Code(0x01020304).to_vec().unwrap();
    assert_eq!(buf, vec![1u8, 1, 2, 3, 4]);
    let (back, _) = OriginError::raw_decode(&buf).unwrap();
    assert_eq!(back, OriginError::Code(0x01020304));

    // Text goes behind tag 2.
    let buf = OriginError::Msg("io".to_owned()).to_vec().unwrap();
    assert_eq!(buf, vec![2u8, 2, b'i', b'o']);
    let (back, _) = OriginError::raw_decode(&buf).unwrap();
    assert_eq!(back, OriginError::Msg("io".to_owned()));
}

#[test]
fn opaque_origin_is_lossy() {
    // An unrepresentable cause encodes as the bare opaque tag and comes
    // back as the empty textual classification: the documented lossy
    // boundary.
    let buf = OriginError::Opaque.to_vec().unwrap();
    assert_eq!(buf, vec![3u8]);
    let (back, rest) = OriginError::raw_decode(&buf).unwrap();
    assert_eq!(back, OriginError::Msg(String::new()));
    assert_eq!(rest.len(), 0);
}
