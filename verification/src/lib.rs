//! A compact binary serialization framework.
//!
//! Values are measured, encoded into an exactly sized buffer through a
//! forward-only write cursor, and decoded from a byte slice returning the
//! unread suffix.  A schema-resolution layer turns declarative per-type
//! configuration into a validated codec plan, aggregating every
//! configuration defect instead of stopping at the first.  An alternate
//! backend bridges values through an external structured-message format.
use vstd::prelude::*;

pub mod codec;
pub mod compat;
pub mod convert;
pub mod errors;
pub mod plan;
pub mod protobuf;
pub mod scalars;
pub mod shape;
pub mod text;
pub mod varint;

pub use codec::{
    effective_purpose, PrefixStable, RawDecode, RawDecodeOption, RawDecodeWithContext, RawEncode,
    RawEncodePurpose, RawEncodeWithContext, RawFixedBytes, RawMergable, WriteBuf,
};
pub use compat::{check_additive_compat, EmptyContent, EmptyContent2, EmptyContentV1};
pub use convert::{hex_bytes_of, hex_chars, is_hex_seq, RawConvertTo, RawFrom};
pub use errors::{
    dec_digits, lemma_codec_error_dec_len, lemma_codec_error_dec_ok, lemma_codec_error_layout,
    spec_ordinal, spec_payload, CodecError, CodecErrorCode, CodecResult, OriginError,
};
pub use plan::{
    str_eq, Attr, BoolAttr, CodecPath, Container, ContainerAttr, ContainerAttrKind, ContainerDecl,
    ContainerShape, Ctxt, DefaultPolicy, Field, FieldAttr, FieldAttrKind, FieldsShape, Identifier,
    RenameRule, ResolveError, ResolveErrorKind, Symbol, TagType, VecAttr, Variant, VariantAttr,
    VariantAttrKind, VariantDecl,
};
pub use protobuf::{
    proto_text_bytes, CheckedFromValue, ProtobufCodecHelper, ProtobufDecode, ProtobufEncode,
    ProtobufMessageCodecHelper, ProtobufTransform, PROTO_PARSE_MAX_BYTES, PROTO_TEXT_MAX_BYTES,
};
pub use text::{text_dec_ok, text_encoding};
pub use shape::{
    borrowable_lifetimes, collect_lifetimes, contains_string, is_cow, is_implicitly_borrowed,
    is_implicitly_borrowed_reference, is_option, is_primitive_path, is_primitive_type,
    is_reference, is_slice_u8, is_str, resolve_borrowed_lifetimes, shape_lifetimes, PathSegment,
    ShapeTest, TypeShape,
};
pub use varint::{varint_dec, varint_enc, USize};

verus! {

/// Wire-format tag: the native tagged layout.
pub const OBJECT_CONTENT_CODEC_FORMAT_RAW: u8 = 0;

/// Wire-format tag: the structured-message layout.
pub const OBJECT_CONTENT_CODEC_FORMAT_PROTOBUF: u8 = 1;

/// Wire-format tag: the textual layout.
pub const OBJECT_CONTENT_CODEC_FORMAT_JSON: u8 = 2;

} // verus!
