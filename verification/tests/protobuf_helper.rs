use bucky_raw_codec::{
    CodecErrorCode, EmptyContent, EmptyContent2, EmptyContentV1, ProtobufCodecHelper,
    ProtobufTransform, RawConvertTo, RawDecode,
};
use protobuf::Message;
use std::collections::HashMap;

#[test]
fn test_protobuf() {
    // A newer revision reads the older, fieldless revision's (empty) bytes.
    {
        let content = protobuf::well_known_types::Empty::new();
        let size = content.compute_size();
        assert_eq!(size, 0);

        let buf = vec![0u8; 0];
        let (content_v1, _) = EmptyContentV1::raw_decode(&buf).unwrap();
        assert!(content_v1.name.is_none());
    }

    // The older decoders tolerate the newer revision's bytes.
    {
        let content_v1 = EmptyContentV1 {
            name: Some("xxx".to_owned()),
        };
        let buf = content_v1.to_vec().unwrap();
        assert!(buf.len() > 0);

        // The native decoder of the empty revision consumes nothing.
        let (_content, left_buf) = EmptyContent::raw_decode(&buf).unwrap();
        assert!(left_buf.len() == buf.len());

        // The structured-message decoder consumes the whole buffer.
        let (_content, left_buf) = EmptyContent2::raw_decode(&buf).unwrap();
        assert!(left_buf.len() == 0);
    }

    let content2 = EmptyContent {};
    let buf = content2.to_vec().unwrap();
    assert_eq!(buf.len(), 0);
}

#[test]
fn test_helper() {
    let mut source: u32 = u32::MAX;
    let ret = ProtobufCodecHelper::decode_value::<u8, u32>(source);
    assert!(ret.is_err());

    source = u8::MAX as u32;
    let ret = ProtobufCodecHelper::decode_value::<u8, u32>(source);
    assert!(ret.is_ok());
    assert_eq!(ret.unwrap(), u8::MAX);
}

#[test]
fn narrowing_failures_carry_the_invalid_format_code() {
    let e = ProtobufCodecHelper::decode_value::<u8, u32>(u32::MAX).unwrap_err();
    assert_eq!(e.code(), CodecErrorCode::InvalidFormat);
    // The diagnostic names the source and target types and the value.
    assert_eq!(
        e.msg(),
        "32-bit unsigned value does not fit an 8-bit unsigned target: 4294967295"
    );
    let e = ProtobufCodecHelper::decode_value_list::<u8, u32>(vec![1, 256]).unwrap_err();
    assert_eq!(e.code(), CodecErrorCode::InvalidFormat);
}

#[test]
fn map_values_transform() {
    let mut m: HashMap<u64, u32> = HashMap::new();
    m.insert(1, 10);
    m.insert(2, 300);
    m.insert(3, 65535);
    let out: HashMap<u64, u16> = ProtobufTransform::transform(m).unwrap();
    assert_eq!(out.len(), 3);
    assert_eq!(out.get(&1), Some(&10u16));
    assert_eq!(out.get(&2), Some(&300u16));
    assert_eq!(out.get(&3), Some(&65535u16));

    let mut empty: HashMap<u64, u32> = HashMap::new();
    empty.insert(7, 7);
    empty.remove(&7);
    let out: HashMap<u64, u16> = ProtobufTransform::transform(empty).unwrap();
    assert!(out.is_empty());
}

#[test]
fn narrowing_boundaries() {
    // 16-bit target from a 32-bit source.
    assert_eq!(
        ProtobufCodecHelper::decode_value::<u16, u32>(65535).unwrap(),
        65535u16
    );
    assert!(ProtobufCodecHelper::decode_value::<u16, u32>(65536).is_err());

    // Signed targets.
    assert_eq!(ProtobufCodecHelper::decode_value::<i8, i32>(-128).unwrap(), -128i8);
    assert!(ProtobufCodecHelper::decode_value::<i8, i32>(128).is_err());
    assert!(ProtobufCodecHelper::decode_value::<u8, i32>(-1).is_err());
    assert_eq!(ProtobufCodecHelper::decode_value::<u8, i32>(255).unwrap(), 255u8);
}

#[test]
fn value_list_narrowing() {
    let ok: Vec<u8> = ProtobufCodecHelper::decode_value_list::<u8, u32>(vec![1, 2, 255]).unwrap();
    assert_eq!(ok, vec![1u8, 2, 255]);
    assert!(ProtobufCodecHelper::decode_value_list::<u8, u32>(vec![1, 256]).is_err());
}

#[test]
fn transform_truncates_by_design() {
    // The unchecked transform is declared intentional truncation.
    let t: u8 = ProtobufTransform::transform(511u32).unwrap();
    assert_eq!(t, 255u8);
    let id: u32 = ProtobufTransform::transform(7u32).unwrap();
    assert_eq!(id, 7);
    let list: Vec<u16> = ProtobufTransform::transform(vec![1u32, 2, 3]).unwrap();
    assert_eq!(list, vec![1u16, 2, 3]);
    let opt: Option<u16> = ProtobufTransform::transform(Some(9u32)).unwrap();
    assert_eq!(opt, Some(9u16));
}

#[test]
fn buf_list_round_trip() {
    let values: Vec<u32> = vec![1, 500, 70000];
    let bufs = ProtobufCodecHelper::encode_buf_list(values.as_slice()).unwrap();
    assert_eq!(bufs.len(), 3);
    let back: Vec<u32> = ProtobufCodecHelper::decode_buf_list(bufs).unwrap();
    assert_eq!(back, values);
}
