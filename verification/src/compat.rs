//! The additive-evolution contract, shown on the smallest content types it
//! applies to: an empty content type on the native layout, the same shape
//! on the structured-message backend, and a newer revision that adds one
//! optional field.
//!
//! Together they carry the compatibility story: the native decoder of the
//! old type reads past nothing and leaves appended fields unread, while the
//! structured-message decoder consumes them and reports them as unknown
//! fields.
use crate::codec::{
    PrefixStable, RawDecode, RawEncode, RawEncodePurpose, WriteBuf,
};
use crate::errors::{CodecError, CodecErrorCode, CodecResult};
use crate::protobuf::{
    proto_text_bytes, ProtobufMessageCodecHelper, PROTO_PARSE_MAX_BYTES, PROTO_TEXT_MAX_BYTES,
};
use crate::text::lemma_chars_le_utf8_bytes;
use vstd::prelude::*;

verus! {

/// A content type with no fields on the native layout: it encodes to
/// nothing and decodes from anything, consuming nothing.
#[derive(Debug, Clone, PartialEq, Eq, Structural)]
pub struct EmptyContent {}

impl RawEncode for EmptyContent {
    open spec fn encoding(&self, purpose: RawEncodePurpose) -> Seq<u8> {
        Seq::empty()
    }

    fn raw_measure(&self, purpose: &Option<RawEncodePurpose>) -> (r: CodecResult<usize>) {
        Ok(0)
    }

    fn raw_encode(&self, buf: &mut WriteBuf, purpose: &Option<RawEncodePurpose>) -> (r: CodecResult<
        (),
    >) {
        proof {
            assert(old(buf).bytes() =~= old(buf).bytes().take(old(buf).cursor())
                + Seq::<u8>::empty() + old(buf).bytes().skip(old(buf).cursor()));
        }
        Ok(())
    }
}

impl RawDecode for EmptyContent {
    open spec fn dec_len(buf: Seq<u8>) -> Result<int, CodecErrorCode> {
        Ok(0)
    }

    open spec fn dec_ok(buf: Seq<u8>, v: Self) -> bool {
        true
    }

    proof fn lemma_dec_len(buf: Seq<u8>) {
    }

    proof fn lemma_round_trip(v: Self) {
    }

    fn raw_decode(buf: &[u8]) -> (r: CodecResult<(Self, &[u8])>) {
        proof {
            assert(buf@ =~= buf@.skip(0));
        }
        Ok((EmptyContent {  }, buf))
    }
}

impl PrefixStable for EmptyContent {
    proof fn lemma_dec_prefix(v: Self, tail: Seq<u8>) {
    }
}

/// The same empty shape, carried by the structured-message backend: its
/// encoding is still no bytes, but its decoder hands the whole input to the
/// backend, which consumes everything and files what it finds under the
/// unknown fields.
#[derive(Debug, Clone, PartialEq, Eq, Structural)]
pub struct EmptyContent2 {}

impl EmptyContent2 {
    pub open spec fn encoding(&self) -> Seq<u8> {
        Seq::empty()
    }

    pub fn raw_measure(&self, _purpose: &Option<RawEncodePurpose>) -> (r: CodecResult<usize>)
        ensures
            r matches Ok(n) && n == 0,
    {
        Ok(0)
    }

    pub fn raw_encode(&self, buf: &mut WriteBuf, _purpose: &Option<RawEncodePurpose>) -> (r:
        CodecResult<()>)
        requires
            old(buf).wf(),
        ensures
            r is Ok,
            *final(buf) == *old(buf),
    {
        Ok(())
    }

    /// Decode through the backend, reporting how many unknown field entries
    /// the input carried.  The whole input is consumed.  Inputs beyond the
    /// backend's readable budget are rejected rather than handed to its
    /// 32-bit length reads.
    pub fn raw_decode_with_unknown(buf: &[u8]) -> (r: CodecResult<(Self, usize)>)
        ensures
            buf@.len() == 0 ==> (r matches Ok((v, k)) && k == 0),
            buf@.len() <= PROTO_PARSE_MAX_BYTES && (exists|s0: Seq<char>|
                buf@ == proto_text_bytes(s0)) ==> r is Ok,
            r matches Ok((v, k)) ==> (forall|s0: Seq<char>|
                s0.len() > 0 && buf@ == proto_text_bytes(s0) ==> k >= 1),
            r matches Err(e) ==> e.spec_code() == CodecErrorCode::InvalidFormat,
    {
        if buf.len() > PROTO_PARSE_MAX_BYTES {
            return Err(
                CodecError::new(
                    CodecErrorCode::InvalidFormat,
                    "structured content exceeds the readable input budget".to_owned(),
                ),
            );
        }
        match ProtobufMessageCodecHelper::parse_empty(buf) {
            Some(unknown) => Ok((EmptyContent2 {  }, unknown)),
            None => Err(
                CodecError::new(
                    CodecErrorCode::InvalidFormat,
                    "malformed structured-message content".to_owned(),
                ),
            ),
        }
    }

    /// Decode through the backend, dropping the unknown-field diagnostic.
    pub fn raw_decode(buf: &[u8]) -> (r: CodecResult<(Self, &[u8])>)
        ensures
            r matches Ok((v, rest)) ==> rest@.len() == 0,
            buf@.len() == 0 ==> r is Ok,
            buf@.len() <= PROTO_PARSE_MAX_BYTES && (exists|s0: Seq<char>|
                buf@ == proto_text_bytes(s0)) ==> r is Ok,
            r matches Err(e) ==> e.spec_code() == CodecErrorCode::InvalidFormat,
    {
        let (v, _unknown) = Self::raw_decode_with_unknown(buf)?;
        let rest = vstd::slice::slice_subrange(buf, buf.len(), buf.len());
        Ok((v, rest))
    }
}

/// The newer revision of the empty content: one optional text field was
/// added, and the wire form goes through the structured-message backend so
/// that the two revisions can read each other's bytes.  An absent field and
/// an empty text are the same thing on this wire, so a present field is
/// always non-empty text.
#[derive(Debug, Clone, PartialEq, Eq)]
pub struct EmptyContentV1 {
    pub name: Option<String>,
}

impl EmptyContentV1 {
    /// A present name is non-empty and its UTF-8 form small enough for the
    /// backend's size arithmetic.
    pub open spec fn valid(&self) -> bool {
        match self.name {
            Some(s) => 0 < s@.len() && vstd::utf8::encode_utf8(s@).len() <= PROTO_TEXT_MAX_BYTES,
            None => true,
        }
    }

    /// The text this value carries: the empty text when the field is
    /// absent.
    pub open spec fn text(&self) -> Seq<char> {
        match self.name {
            Some(s) => s@,
            None => Seq::empty(),
        }
    }

    /// The wire bytes: nothing for an absent (default) field, the
    /// backend's text-message encoding otherwise.
    pub open spec fn encoding(&self) -> Seq<u8> {
        if self.text().len() == 0 {
            Seq::empty()
        } else {
            proto_text_bytes(self.text())
        }
    }

    pub fn raw_measure(&self, _purpose: &Option<RawEncodePurpose>) -> (r: CodecResult<usize>)
        requires
            self.valid(),
        ensures
            r matches Ok(n) && n == self.encoding().len(),
            self.text().len() > 0 ==> self.encoding().len() > 0,
    {
        match &self.name {
            None => Ok(0),
            Some(s) => {
                proof {
                    lemma_chars_le_utf8_bytes(s@);
                }
                Ok(ProtobufMessageCodecHelper::measure_text(s.as_str()))
            },
        }
    }

    /// The value's full encoding in a fresh, exactly sized vector.
    pub fn to_vec(&self) -> (r: CodecResult<Vec<u8>>)
        requires
            self.valid(),
        ensures
            r matches Ok(v) && v@ == self.encoding(),
            self.text().len() > 0 ==> self.encoding().len() > 0,
    {
        match &self.name {
            None => Ok(Vec::new()),
            Some(s) => {
                proof {
                    lemma_chars_le_utf8_bytes(s@);
                }
                Ok(ProtobufMessageCodecHelper::encode_text(s.as_str()))
            },
        }
    }

    /// Write the encoding at the buffer's cursor.
    pub fn raw_encode(&self, buf: &mut WriteBuf, _purpose: &Option<RawEncodePurpose>) -> (r:
        CodecResult<()>)
        requires
            self.valid(),
            old(buf).wf(),
        ensures
            final(buf).wf(),
            final(buf).bytes().len() == old(buf).bytes().len(),
            r is Ok <==> old(buf).cursor() + self.encoding().len() <= old(buf).bytes().len(),
            r is Ok ==> WriteBuf::wrote(*old(buf), *final(buf), self.encoding()),
            r matches Err(e) ==> e.spec_code() == CodecErrorCode::OutOfLimit,
    {
        match &self.name {
            None => {
                proof {
                    assert(old(buf).bytes() =~= old(buf).bytes().take(old(buf).cursor())
                        + Seq::<u8>::empty() + old(buf).bytes().skip(old(buf).cursor()));
                }
                Ok(())
            },
            Some(s) => {
                proof {
                    lemma_chars_le_utf8_bytes(s@);
                }
                let bytes = ProtobufMessageCodecHelper::encode_text(s.as_str());
                if bytes.len() > buf.remaining() {
                    return Err(
                        CodecError::new(
                            CodecErrorCode::OutOfLimit,
                            "content does not fit the remaining buffer".to_owned(),
                        ),
                    );
                }
                buf.put_slice(bytes.as_slice());
                Ok(())
            },
        }
    }

    /// Decode a value through the backend.  The whole input is consumed;
    /// inputs beyond the backend's readable budget are rejected rather
    /// than handed to its 32-bit length reads.
    ///
    /// An empty input is the encoding of the older, fieldless revision:
    /// it decodes to a value whose every added field is absent, with
    /// nothing left unread.
    pub fn raw_decode(buf: &[u8]) -> (r: CodecResult<(Self, &[u8])>)
        ensures
            r matches Ok((v, rest)) ==> rest@.len() == 0,
            buf@.len() == 0 ==> (r matches Ok((v, rest)) && v.name is None),
            r matches Ok((v, rest)) ==> (forall|s0: Seq<char>|
                buf@ == proto_text_bytes(s0) ==> v.text() == s0),
            buf@.len() <= PROTO_PARSE_MAX_BYTES && (exists|s0: Seq<char>|
                buf@ == proto_text_bytes(s0)) ==> r is Ok,
            r matches Ok((v, rest)) ==> (buf@.len() <= PROTO_TEXT_MAX_BYTES ==> v.valid()),
            r matches Err(e) ==> e.spec_code() == CodecErrorCode::InvalidFormat,
    {
        let rest = vstd::slice::slice_subrange(buf, buf.len(), buf.len());
        if buf.len() > PROTO_PARSE_MAX_BYTES {
            return Err(
                CodecError::new(
                    CodecErrorCode::InvalidFormat,
                    "structured content exceeds the readable input budget".to_owned(),
                ),
            );
        }
        match ProtobufMessageCodecHelper::parse_text(buf) {
            None => Err(
                CodecError::new(
                    CodecErrorCode::InvalidFormat,
                    "malformed structured-message content".to_owned(),
                ),
            ),
            Some(s) => {
                if s.as_str().is_empty() {
                    Ok((EmptyContentV1 { name: None }, rest))
                } else {
                    Ok((EmptyContentV1 { name: Some(s) }, rest))
                }
            },
        }
    }

    /// The round-trip law for the bridged revision: decoding a value's own
    /// encoding gives the value back (up to the text it carries), with
    /// nothing left unread.
    pub fn round_trip(&self) -> (r: CodecResult<EmptyContentV1>)
        requires
            self.valid(),
        ensures
            r is Ok,
            r matches Ok(w) ==> w.text() == self.text(),
    {
        let buf = self.to_vec()?;
        proof {
            if self.text().len() > 0 {
                crate::varint::lemma_varint_len_usize(
                    vstd::utf8::encode_utf8(self.text()).len(),
                );
            }
        }
        let (w, _rest) = Self::raw_decode(buf.as_slice())?;
        Ok(w)
    }
}

/// Additive backward tolerance, walked through end to end: a non-empty
/// value of the newer revision is encoded; the older revision's native
/// decoder accepts the bytes and leaves every one of them unread, while the
/// structured-message bridge consumes them all and flags at least one
/// unknown field.
pub fn check_additive_compat(newer: &EmptyContentV1) -> (r: CodecResult<(usize, usize, usize)>)
    requires
        newer.valid(),
        newer.name is Some,
    ensures
        r is Ok,
        r matches Ok((encoded, unread, unknown)) ==> encoded == newer.encoding().len() && encoded
            > 0 && unread == newer.encoding().len() && unknown >= 1,
{
    let buf = newer.to_vec()?;
    let encoded = buf.len();
    proof {
        crate::varint::lemma_varint_len_usize(
            vstd::utf8::encode_utf8(newer.text()).len(),
        );
    }
    let (_older, rest) = <EmptyContent as RawDecode>::raw_decode(buf.as_slice())?;
    let unread = rest.len();
    let (_bridged, unknown) = EmptyContent2::raw_decode_with_unknown(buf.as_slice())?;
    Ok((encoded, unread, unknown))
}

} // verus!
