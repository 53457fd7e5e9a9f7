//! The structured-message bridge: encode and decode values through an
//! external self-describing message format instead of the native per-field
//! layout, plus the value-conversion helpers that go with it.
//!
//! The external calls are confined to the trusted methods of
//! [`ProtobufMessageCodecHelper`]; everything around them is verified.
use crate::codec::{RawDecode, RawEncode, RawEncodePurpose};
use crate::errors::{CodecError, CodecErrorCode, CodecResult};
use protobuf::Message;
use std::collections::HashMap;
use vstd::prelude::*;
use vstd::std_specs::iter::IteratorSpec;

verus! {

broadcast use vstd::std_specs::hash::group_hash_axioms;

/// Marker for types whose wire form goes through the structured-message
/// backend's encoder.
pub trait ProtobufEncode {

}

/// Marker for types whose wire form goes through the structured-message
/// backend's decoder.
pub trait ProtobufDecode {

}

/// The bytes of the structured text message whose single field holds `s`:
/// nothing for an empty text (the backend omits fields holding their
/// default), otherwise the field tag, the byte length as a base-128
/// varint, then the UTF-8 bytes.
pub open spec fn proto_text_bytes(s: Seq<char>) -> Seq<u8> {
    if s.len() == 0 {
        Seq::empty()
    } else {
        seq![0x0Au8] + crate::varint::varint_enc(vstd::utf8::encode_utf8(s).len())
            + vstd::utf8::encode_utf8(s)
    }
}

/// The byte budget the trusted size computation is specified under: inputs
/// beyond it could overflow the backend's 32-bit size arithmetic.
pub const PROTO_TEXT_MAX_BYTES: usize = 0x0FFF_FFFF;

/// The input budget the trusted parsers are specified under.  The backend
/// reads length delimiters into 32 bits, silently truncating longer
/// values, so nothing is claimed about what it makes of inputs that could
/// carry a four-gigabyte field; everything below this bound is read
/// faithfully.
pub const PROTO_PARSE_MAX_BYTES: usize = 0x7FFF_FFFF;

/// The calls into the external structured-message library, one trusted
/// method per call, for the concrete messages this crate bridges through:
/// the single-text-field message and the empty message.
pub struct ProtobufMessageCodecHelper {}

impl ProtobufMessageCodecHelper {
    /// Relies on `StringValue::compute_size` of the protobuf crate: it
    /// returns the exact serialized size of the message holding `s`.
    #[verifier::external_body]
    pub fn measure_text(s: &str) -> (r: usize)
        requires
            s@.len() <= PROTO_TEXT_MAX_BYTES,
        ensures
            r == proto_text_bytes(s@).len(),
    {
        let mut m = protobuf::well_known_types::StringValue::new();
        m.set_value(s.to_string());
        m.compute_size() as usize
    }

    /// Relies on `StringValue::write_to_bytes` of the protobuf crate: it
    /// writes exactly the tag, length-varint and bytes of the field, or
    /// nothing for the default text.
    #[verifier::external_body]
    pub fn encode_text(s: &str) -> (r: Vec<u8>)
        requires
            s@.len() <= PROTO_TEXT_MAX_BYTES,
        ensures
            r@ == proto_text_bytes(s@),
    {
        let mut m = protobuf::well_known_types::StringValue::new();
        m.set_value(s.to_string());
        m.write_to_bytes().expect("writing to a byte vector cannot fail")
    }

    /// Relies on `StringValue::parse_from_bytes` of the protobuf crate: it
    /// consumes the whole input; the text it returns was read out of the
    /// input, so its bytes fit it; an empty input yields the default,
    /// empty text; and — on inputs small enough that the backend's 32-bit
    /// length reads cannot truncate — parsing the canonical encoding of a
    /// text yields exactly that text.
    #[verifier::external_body]
    pub fn parse_text(buf: &[u8]) -> (r: Option<String>)
        ensures
            r matches Some(s) ==> s.valid() && vstd::utf8::encode_utf8(s@).len() <= buf@.len(),
            r matches Some(s) ==> (buf@.len() <= PROTO_PARSE_MAX_BYTES ==> (forall|s0: Seq<char>|
                buf@ == proto_text_bytes(s0) ==> s@ == s0)),
            r is None ==> (buf@.len() <= PROTO_PARSE_MAX_BYTES ==> (forall|s0: Seq<char>|
                buf@ != proto_text_bytes(s0))),
            r matches Some(s) ==> (buf@.len() == 0 ==> s@ == Seq::<char>::empty()),
            buf@.len() == 0 ==> r is Some,
    {
        match protobuf::well_known_types::StringValue::parse_from_bytes(buf) {
            Ok(m) => Some(m.value),
            Err(_) => None,
        }
    }

    /// Relies on `Empty::parse_from_bytes` of the protobuf crate: it
    /// consumes the whole input, filing every field it meets under the
    /// unknown fields; the result counts those entries.  An empty input
    /// parses with none, and — on inputs small enough that the backend's
    /// 32-bit length reads cannot truncate — a non-empty text-message
    /// encoding parses and leaves at least one entry.
    #[verifier::external_body]
    pub fn parse_empty(buf: &[u8]) -> (r: Option<usize>)
        ensures
            buf@.len() == 0 ==> r == Some(0usize),
            r is None ==> (buf@.len() <= PROTO_PARSE_MAX_BYTES ==> (forall|s0: Seq<char>|
                buf@ != proto_text_bytes(s0))),
            r matches Some(k) ==> (buf@.len() <= PROTO_PARSE_MAX_BYTES ==> (forall|s0: Seq<char>|
                s0.len() > 0 && buf@ == proto_text_bytes(s0) ==> k >= 1)),
    {
        match protobuf::well_known_types::Empty::parse_from_bytes(buf) {
            Ok(m) => Some(
                match &m.get_unknown_fields().fields {
                    Some(map) => map.len(),
                    None => 0,
                },
            ),
            Err(_) => None,
        }
    }
}

/// Conversion from a backend value type to a domain type.  The backend's
/// scalar set is narrower than the domain's, so some of these conversions
/// deliberately truncate; the checked counterparts live on
/// [`CheckedFromValue`].
pub trait ProtobufTransform<T>: Sized {
    /// Whether the conversion succeeds on this input.
    spec fn transform_some(value: T) -> bool;

    /// Whether `r` is the converted form of `value`.
    spec fn transform_ok(value: T, r: Self) -> bool;

    fn transform(value: T) -> (r: CodecResult<Self>)
        ensures
            r is Ok <==> Self::transform_some(value),
            r matches Ok(x) ==> Self::transform_ok(value, x),
    ;
}

impl ProtobufTransform<i32> for i8 {
    open spec fn transform_some(value: i32) -> bool {
        true
    }

    open spec fn transform_ok(value: i32, r: Self) -> bool {
        r == value as i8
    }

    fn transform(value: i32) -> (r: CodecResult<Self>) {
        Ok(value as i8)
    }
}

impl ProtobufTransform<i32> for u8 {
    open spec fn transform_some(value: i32) -> bool {
        true
    }

    open spec fn transform_ok(value: i32, r: Self) -> bool {
        r == value as u8
    }

    fn transform(value: i32) -> (r: CodecResult<Self>) {
        Ok(value as u8)
    }
}

impl ProtobufTransform<u32> for u8 {
    open spec fn transform_some(value: u32) -> bool {
        true
    }

    open spec fn transform_ok(value: u32, r: Self) -> bool {
        r == value as u8
    }

    fn transform(value: u32) -> (r: CodecResult<Self>) {
        Ok(value as u8)
    }
}

impl ProtobufTransform<i32> for i16 {
    open spec fn transform_some(value: i32) -> bool {
        true
    }

    open spec fn transform_ok(value: i32, r: Self) -> bool {
        r == value as i16
    }

    fn transform(value: i32) -> (r: CodecResult<Self>) {
        Ok(value as i16)
    }
}

impl ProtobufTransform<i32> for u16 {
    open spec fn transform_some(value: i32) -> bool {
        true
    }

    open spec fn transform_ok(value: i32, r: Self) -> bool {
        r == value as u16
    }

    fn transform(value: i32) -> (r: CodecResult<Self>) {
        Ok(value as u16)
    }
}

impl ProtobufTransform<u32> for u16 {
    open spec fn transform_some(value: u32) -> bool {
        true
    }

    open spec fn transform_ok(value: u32, r: Self) -> bool {
        r == value as u16
    }

    fn transform(value: u32) -> (r: CodecResult<Self>) {
        Ok(value as u16)
    }
}

impl ProtobufTransform<i32> for i32 {
    open spec fn transform_some(value: i32) -> bool {
        true
    }

    open spec fn transform_ok(value: i32, r: Self) -> bool {
        r == value
    }

    fn transform(value: i32) -> (r: CodecResult<Self>) {
        Ok(value)
    }
}

impl ProtobufTransform<i8> for i32 {
    open spec fn transform_some(value: i8) -> bool {
        true
    }

    open spec fn transform_ok(value: i8, r: Self) -> bool {
        r == value as i32
    }

    fn transform(value: i8) -> (r: CodecResult<Self>) {
        Ok(value as i32)
    }
}

impl ProtobufTransform<u8> for i32 {
    open spec fn transform_some(value: u8) -> bool {
        true
    }

    open spec fn transform_ok(value: u8, r: Self) -> bool {
        r == value as i32
    }

    fn transform(value: u8) -> (r: CodecResult<Self>) {
        Ok(value as i32)
    }
}

impl ProtobufTransform<i16> for i32 {
    open spec fn transform_some(value: i16) -> bool {
        true
    }

    open spec fn transform_ok(value: i16, r: Self) -> bool {
        r == value as i32
    }

    fn transform(value: i16) -> (r: CodecResult<Self>) {
        Ok(value as i32)
    }
}

impl ProtobufTransform<u16> for i32 {
    open spec fn transform_some(value: u16) -> bool {
        true
    }

    open spec fn transform_ok(value: u16, r: Self) -> bool {
        r == value as i32
    }

    fn transform(value: u16) -> (r: CodecResult<Self>) {
        Ok(value as i32)
    }
}

impl ProtobufTransform<u32> for u32 {
    open spec fn transform_some(value: u32) -> bool {
        true
    }

    open spec fn transform_ok(value: u32, r: Self) -> bool {
        r == value
    }

    fn transform(value: u32) -> (r: CodecResult<Self>) {
        Ok(value)
    }
}

impl ProtobufTransform<u8> for u32 {
    open spec fn transform_some(value: u8) -> bool {
        true
    }

    open spec fn transform_ok(value: u8, r: Self) -> bool {
        r == value as u32
    }

    fn transform(value: u8) -> (r: CodecResult<Self>) {
        Ok(value as u32)
    }
}

impl ProtobufTransform<u16> for u32 {
    open spec fn transform_some(value: u16) -> bool {
        true
    }

    open spec fn transform_ok(value: u16, r: Self) -> bool {
        r == value as u32
    }

    fn transform(value: u16) -> (r: CodecResult<Self>) {
        Ok(value as u32)
    }
}

impl ProtobufTransform<i64> for i64 {
    open spec fn transform_some(value: i64) -> bool {
        true
    }

    open spec fn transform_ok(value: i64, r: Self) -> bool {
        r == value
    }

    fn transform(value: i64) -> (r: CodecResult<Self>) {
        Ok(value)
    }
}

impl ProtobufTransform<u64> for u64 {
    open spec fn transform_some(value: u64) -> bool {
        true
    }

    open spec fn transform_ok(value: u64, r: Self) -> bool {
        r == value
    }

    fn transform(value: u64) -> (r: CodecResult<Self>) {
        Ok(value)
    }
}

impl ProtobufTransform<String> for String {
    open spec fn transform_some(value: String) -> bool {
        true
    }

    open spec fn transform_ok(value: String, r: Self) -> bool {
        r@ == value@
    }

    fn transform(value: String) -> (r: CodecResult<Self>) {
        Ok(value)
    }
}

impl ProtobufTransform<bool> for bool {
    open spec fn transform_some(value: bool) -> bool {
        true
    }

    open spec fn transform_ok(value: bool, r: Self) -> bool {
        r == value
    }

    fn transform(value: bool) -> (r: CodecResult<Self>) {
        Ok(value)
    }
}

impl ProtobufTransform<u8> for u8 {
    open spec fn transform_some(value: u8) -> bool {
        true
    }

    open spec fn transform_ok(value: u8, r: Self) -> bool {
        r == value
    }

    fn transform(value: u8) -> (r: CodecResult<Self>) {
        Ok(value)
    }
}

impl ProtobufTransform<u16> for u16 {
    open spec fn transform_some(value: u16) -> bool {
        true
    }

    open spec fn transform_ok(value: u16, r: Self) -> bool {
        r == value
    }

    fn transform(value: u16) -> (r: CodecResult<Self>) {
        Ok(value)
    }
}

impl<T, U: ProtobufTransform<T>> ProtobufTransform<Vec<T>> for Vec<U> {
    open spec fn transform_some(value: Vec<T>) -> bool {
        forall|i: int| 0 <= i < value@.len() ==> #[trigger] U::transform_some(value@[i])
    }

    open spec fn transform_ok(value: Vec<T>, r: Self) -> bool {
        r@.len() == value@.len() && forall|i: int|
            0 <= i < value@.len() ==> U::transform_ok(value@[i], #[trigger] r@[i])
    }

    #[verifier::loop_isolation(false)]
    fn transform(mut value: Vec<T>) -> (r: CodecResult<Self>) {
        let ghost orig = value@;
        let mut list: Vec<U> = Vec::new();
        while value.len() > 0
            invariant
                orig.len() == list@.len() + value@.len(),
                forall|j: int|
                    0 <= j < list@.len() ==> U::transform_ok(orig[j], #[trigger] list@[j]),
                forall|j: int|
                    0 <= j < list@.len() ==> U::transform_some(#[trigger] orig[j]),
                forall|j: int|
                    0 <= j < value@.len() ==> orig[list@.len() + j] == #[trigger] value@[j],
            decreases value@.len(),
        {
            let x = value.remove(0);
            let ghost gx = x;
            proof {
                assert(gx == orig[list@.len() as int]);
            }
            let y = match U::transform(x) {
                Ok(y) => y,
                Err(e) => {
                    proof {
                        assert(!U::transform_some(orig[list@.len() as int]));
                    }
                    return Err(e);
                },
            };
            list.push(y);
        }
        Ok(list)
    }
}

impl<T, U: ProtobufTransform<T>> ProtobufTransform<Option<T>> for Option<U> {
    open spec fn transform_some(value: Option<T>) -> bool {
        match value {
            Some(x) => U::transform_some(x),
            None => true,
        }
    }

    open spec fn transform_ok(value: Option<T>, r: Self) -> bool {
        match value {
            Some(x) => r matches Some(y) && U::transform_ok(x, y),
            None => r is None,
        }
    }

    fn transform(value: Option<T>) -> (r: CodecResult<Self>) {
        match value {
            Some(x) => Ok(Some(U::transform(x)?)),
            None => Ok(None),
        }
    }
}

impl<T, U: ProtobufTransform<T>> ProtobufTransform<HashMap<u64, T>> for HashMap<u64, U> {
    open spec fn transform_some(value: HashMap<u64, T>) -> bool {
        forall|k: u64| value@.contains_key(k) ==> U::transform_some(#[trigger] value@[k])
    }

    open spec fn transform_ok(value: HashMap<u64, T>, r: Self) -> bool {
        &&& r@.dom() == value@.dom()
        &&& forall|k: u64| value@.contains_key(k) ==> U::transform_ok(value@[k], #[trigger] r@[k])
    }

    #[verifier::loop_isolation(false)]
    #[verifier::rlimit(100)]
    fn transform(mut value: HashMap<u64, T>) -> (r: CodecResult<Self>) {
        let ghost orig = value@;
        let ghost key_seq = vstd::std_specs::hash::spec_keys_iter(&value).remaining();
        let mut ks: Vec<u64> = Vec::new();
        for kref in it: value.keys()
            invariant
                it.seq() == key_seq,
                ks@.len() == it.index(),
                forall|j: int| 0 <= j < ks@.len() ==> ks@[j] == *(#[trigger] key_seq[j]),
        {
            ks.push(*kref);
        }
        proof {
            assert(ks@.len() == key_seq.len());
            assert(ks@ =~= key_seq.unref());
            assert(ks@.to_set() == orig.dom());
            assert forall|k: u64| orig.contains_key(k) implies #[trigger] ks@.contains(k) by {
                assert(ks@.to_set().contains(k));
            }
        }
        let mut out: HashMap<u64, U> = HashMap::new();
        let n = ks.len();
        let mut i: usize = 0;
        proof {
            assert(ks@.skip(0) =~= ks@);
        }
        while i < n
            invariant
                0 <= i <= n,
                forall|k: u64| #[trigger]
                    value@.contains_key(k) ==> orig.contains_key(k) && value@[k] == orig[k]
                        && ks@.skip(i as int).contains(k),
                forall|k: u64| #[trigger]
                    out@.contains_key(k) ==> orig.contains_key(k) && U::transform_ok(
                        orig[k],
                        out@[k],
                    ) && U::transform_some(orig[k]),
                forall|k: u64| #[trigger]
                    orig.contains_key(k) ==> value@.contains_key(k) || out@.contains_key(k),
            decreases n - i,
        {
            let k = ks[i];
            let ghost pre = value@;
            match value.remove(&k) {
                None => {
                    proof {
                        assert(value@ == pre.remove(k));
                        assert(!pre.contains_key(k));
                        assert forall|k2: u64| #[trigger]
                            value@.contains_key(k2) implies ks@.skip(i + 1).contains(k2) by {
                            assert(pre.contains_key(k2) && k2 != k);
                            assert(ks@.skip(i as int).contains(k2));
                            let j = choose|j: int|
                                0 <= j < ks@.skip(i as int).len() && ks@.skip(i as int)[j] == k2;
                            assert(j != 0);
                            assert(ks@.skip(i + 1)[j - 1] == ks@.skip(i as int)[j]);
                        }
                    }
                },
                Some(v) => {
                    let ghost gv = v;
                    proof {
                        assert(value@ == pre.remove(k));
                        assert(pre.contains_key(k) && gv == pre[k]);
                        assert(orig.contains_key(k) && gv == orig[k]);
                        assert forall|k2: u64| #[trigger]
                            value@.contains_key(k2) implies ks@.skip(i + 1).contains(k2) by {
                            assert(pre.contains_key(k2) && k2 != k);
                            assert(ks@.skip(i as int).contains(k2));
                            let j = choose|j: int|
                                0 <= j < ks@.skip(i as int).len() && ks@.skip(i as int)[j] == k2;
                            assert(j != 0);
                            assert(ks@.skip(i + 1)[j - 1] == ks@.skip(i as int)[j]);
                        }
                    }
                    let u = match U::transform(v) {
                        Ok(u) => u,
                        Err(e) => {
                            proof {
                                assert(!U::transform_some(orig[k]));
                            }
                            return Err(e);
                        },
                    };
                    out.insert(k, u);
                },
            }
            i = i + 1;
        }
        proof {
            assert(ks@.skip(n as int) =~= Seq::<u64>::empty());
            assert forall|k: u64| !(#[trigger] value@.contains_key(k)) by {
                if value@.contains_key(k) {
                    assert(ks@.skip(n as int).contains(k));
                }
            }
            assert forall|k: u64|
                orig.dom().contains(k) <==> #[trigger] out@.dom().contains(k) by {
                if orig.contains_key(k) {
                    assert(value@.contains_key(k) || out@.contains_key(k));
                }
            }
            assert(out@.dom() =~= orig.dom());
        }
        Ok(out)
    }
}

/// Conversion from a backend value type that validates its range instead of
/// truncating: the checked counterpart of [`ProtobufTransform`].
pub trait CheckedFromValue<P>: Sized {
    /// Whether `value` is representable in the target type.
    spec fn fits(value: P) -> bool;

    /// Whether `r` is the exactly converted form of `value`.
    spec fn converted(value: P, r: Self) -> bool;

    /// Convert, failing on any value outside the target's range.
    fn checked_from(value: P) -> (r: CodecResult<Self>)
        ensures
            r is Ok <==> Self::fits(value),
            r matches Ok(x) ==> Self::converted(value, x),
            r matches Err(e) ==> e.spec_code() == CodecErrorCode::InvalidFormat,
    ;
}

impl CheckedFromValue<u32> for u8 {
    open spec fn fits(value: u32) -> bool {
        value <= u8::MAX
    }

    open spec fn converted(value: u32, r: Self) -> bool {
        r == value
    }

    fn checked_from(value: u32) -> (r: CodecResult<Self>) {
        if value <= 255 {
            Ok(value as u8)
        } else {
            Err(
                CodecError::new(
                    CodecErrorCode::InvalidFormat,
                    crate::errors::message_with_count(
                        "32-bit unsigned value does not fit an 8-bit unsigned target: ",
                        value as usize,
                    ),
                ),
            )
        }
    }
}

impl CheckedFromValue<u32> for u16 {
    open spec fn fits(value: u32) -> bool {
        value <= u16::MAX
    }

    open spec fn converted(value: u32, r: Self) -> bool {
        r == value
    }

    fn checked_from(value: u32) -> (r: CodecResult<Self>) {
        if value <= 65535 {
            Ok(value as u16)
        } else {
            Err(
                CodecError::new(
                    CodecErrorCode::InvalidFormat,
                    crate::errors::message_with_count(
                        "32-bit unsigned value does not fit a 16-bit unsigned target: ",
                        value as usize,
                    ),
                ),
            )
        }
    }
}

impl CheckedFromValue<i32> for i8 {
    open spec fn fits(value: i32) -> bool {
        i8::MIN <= value && value <= i8::MAX
    }

    open spec fn converted(value: i32, r: Self) -> bool {
        r == value
    }

    fn checked_from(value: i32) -> (r: CodecResult<Self>) {
        if -128 <= value && value <= 127 {
            Ok(value as i8)
        } else {
            Err(
                CodecError::new(
                    CodecErrorCode::InvalidFormat,
                    "32-bit signed value does not fit an 8-bit signed target".to_owned(),
                ),
            )
        }
    }
}

impl CheckedFromValue<i32> for i16 {
    open spec fn fits(value: i32) -> bool {
        i16::MIN <= value && value <= i16::MAX
    }

    open spec fn converted(value: i32, r: Self) -> bool {
        r == value
    }

    fn checked_from(value: i32) -> (r: CodecResult<Self>) {
        if -32768 <= value && value <= 32767 {
            Ok(value as i16)
        } else {
            Err(
                CodecError::new(
                    CodecErrorCode::InvalidFormat,
                    "32-bit signed value does not fit a 16-bit signed target".to_owned(),
                ),
            )
        }
    }
}

impl CheckedFromValue<i32> for u8 {
    open spec fn fits(value: i32) -> bool {
        0 <= value && value <= u8::MAX
    }

    open spec fn converted(value: i32, r: Self) -> bool {
        r == value
    }

    fn checked_from(value: i32) -> (r: CodecResult<Self>) {
        if 0 <= value && value <= 255 {
            Ok(value as u8)
        } else {
            Err(
                CodecError::new(
                    CodecErrorCode::InvalidFormat,
                    "32-bit signed value does not fit an 8-bit unsigned target".to_owned(),
                ),
            )
        }
    }
}

/// The verified helpers around the bridge: whole-buffer decodes, list
/// conversions, and range-checked value narrowing.
pub struct ProtobufCodecHelper {}

impl ProtobufCodecHelper {
    /// Decode a value from an owned buffer, dropping whatever follows its
    /// encoding.
    pub fn decode_buf<T: RawDecode>(buf: Vec<u8>) -> (r: CodecResult<T>)
        ensures
            r is Ok <==> T::dec_len(buf@) is Ok,
            r matches Ok(v) ==> T::dec_ok(buf@, v) && v.valid(),
            r matches Err(e) ==> T::dec_len(buf@) matches Err(c) && e.spec_code() == c,
    {
        let (item, _rest) = T::raw_decode(buf.as_slice())?;
        Ok(item)
    }

    /// Decode each buffer of the list into a value.
    pub fn decode_buf_list<T: RawDecode>(list: Vec<Vec<u8>>) -> (r: CodecResult<Vec<T>>)
        ensures
            r is Ok <==> (forall|i: int| 0 <= i < list@.len() ==> T::dec_len(#[trigger] list@[i]@)
                is Ok),
            r matches Ok(out) ==> out@.len() == list@.len() && (forall|i: int|
                0 <= i < list@.len() ==> T::dec_ok(list@[i]@, #[trigger] out@[i])),
    {
        let n = list.len();
        let mut result: Vec<T> = Vec::new();
        let mut i: usize = 0;
        while i < n
            invariant
                n == list@.len(),
                0 <= i <= n,
                result@.len() == i,
                forall|j: int| 0 <= j < i ==> T::dec_len(#[trigger] list@[j]@) is Ok,
                forall|j: int| 0 <= j < i ==> T::dec_ok(list@[j]@, #[trigger] result@[j]),
            decreases n - i,
        {
            let buf = &list[i];
            let (item, _rest) = T::raw_decode(buf.as_slice())?;
            result.push(item);
            i = i + 1;
        }
        Ok(result)
    }

    /// Encode each value of the list into its own exactly sized buffer;
    /// succeeds exactly when every encoding is addressable, and fails, as
    /// an out-of-limit condition, on the first that is not.
    #[verifier::loop_isolation(false)]
    pub fn encode_buf_list<T: RawEncode>(list: &[T]) -> (r: CodecResult<Vec<Vec<u8>>>)
        requires
            forall|i: int| 0 <= i < list@.len() ==> (#[trigger] list@[i]).valid(),
        ensures
            r is Ok <==> (forall|i: int|
                0 <= i < list@.len() ==> (#[trigger] list@[i]).encoding(
                    RawEncodePurpose::Serialize,
                ).len() <= usize::MAX),
            r matches Ok(out) ==> out@.len() == list@.len() && (forall|i: int|
                0 <= i < list@.len() ==> (#[trigger] out@[i])@ == list@[i].encoding(
                    RawEncodePurpose::Serialize,
                )),
            r matches Err(e) ==> e.spec_code() == CodecErrorCode::OutOfLimit,
    {
        let n = list.len();
        let mut result: Vec<Vec<u8>> = Vec::new();
        let mut i: usize = 0;
        while i < n
            invariant
                0 <= i <= n,
                result@.len() == i,
                forall|j: int|
                    0 <= j < i ==> (#[trigger] list@[j]).encoding(
                        RawEncodePurpose::Serialize,
                    ).len() <= usize::MAX,
                forall|j: int|
                    0 <= j < i ==> (#[trigger] result@[j])@ == list@[j].encoding(
                        RawEncodePurpose::Serialize,
                    ),
            decreases n - i,
        {
            let item = vstd::slice::slice_index_get(list, i);
            let buf = match item.raw_encode_to_buffer() {
                Ok(buf) => buf,
                Err(e) => {
                    proof {
                        assert(list@[i as int].encoding(RawEncodePurpose::Serialize).len()
                            > usize::MAX);
                    }
                    return Err(e);
                },
            };
            result.push(buf);
            i = i + 1;
        }
        Ok(result)
    }

    /// Convert a backend value to the target type, failing, as an
    /// invalid-format condition, rather than truncating when it does not
    /// fit.
    pub fn decode_value<T: CheckedFromValue<P>, P>(value: P) -> (r: CodecResult<T>)
        ensures
            r is Ok <==> T::fits(value),
            r matches Ok(x) ==> T::converted(value, x),
            r matches Err(e) ==> e.spec_code() == CodecErrorCode::InvalidFormat,
    {
        T::checked_from(value)
    }

    /// Convert a whole list of backend values; succeeds exactly when every
    /// one fits its target, and fails, as an invalid-format condition, on
    /// the first that does not.
    #[verifier::loop_isolation(false)]
    pub fn decode_value_list<T: CheckedFromValue<P>, P>(mut list: Vec<P>) -> (r: CodecResult<
        Vec<T>,
    >)
        ensures
            r is Ok <==> (forall|i: int| 0 <= i < list@.len() ==> T::fits(#[trigger] list@[i])),
            r matches Ok(out) ==> out@.len() == list@.len() && (forall|i: int|
                0 <= i < list@.len() ==> T::converted(list@[i], #[trigger] out@[i])),
            r matches Err(e) ==> e.spec_code() == CodecErrorCode::InvalidFormat,
    {
        let ghost orig = list@;
        let mut result: Vec<T> = Vec::new();
        while list.len() > 0
            invariant
                orig.len() == result@.len() + list@.len(),
                forall|j: int| 0 <= j < result@.len() ==> T::converted(
                    orig[j],
                    #[trigger] result@[j],
                ),
                forall|j: int| 0 <= j < result@.len() ==> T::fits(#[trigger] orig[j]),
                forall|j: int| 0 <= j < list@.len() ==> orig[result@.len() + j] == #[trigger] list@[j],
            decreases list.len(),
        {
            let v = list.remove(0);
            let ghost gv = v;
            proof {
                assert(gv == orig[result@.len() as int]);
            }
            let item = match Self::decode_value(v) {
                Ok(item) => item,
                Err(e) => {
                    proof {
                        assert(!T::fits(orig[result@.len() as int]));
                    }
                    return Err(e);
                },
            };
            result.push(item);
        }
        Ok(result)
    }
}

} // verus!

