//! Text on the wire: a string is its UTF-8 byte length as a varint,
//! followed by its UTF-8 bytes.
use crate::codec::{PrefixStable, RawDecode, RawEncode, RawEncodePurpose, WriteBuf};
use crate::errors::{CodecError, CodecErrorCode, CodecResult};
use crate::varint::{
    lemma_varint_dec_bounds, lemma_varint_round_trip, varint_dec, varint_enc, varint_read,
    varint_size, varint_write,
};
use vstd::prelude::*;
use vstd::utf8::{
    decode_utf8, decode_utf8_encode_utf8, encode_utf8, encode_utf8_decode_utf8,
    encode_utf8_valid_utf8, valid_utf8,
};

verus! {

/// The wire bytes of a text: its UTF-8 byte length as a varint, then the
/// UTF-8 bytes themselves.
pub open spec fn text_encoding(s: Seq<char>) -> Seq<u8> {
    varint_enc(encode_utf8(s).len()) + encode_utf8(s)
}

/// Whether `s` is the text the consumed prefix of `buf` stands for: a
/// varint byte count, that many bytes present, and `s` their UTF-8
/// decoding.
pub open spec fn text_dec_ok(buf: Seq<u8>, s: Seq<char>) -> bool {
    match varint_dec(buf) {
        Some((blen, k)) => {
            &&& k + blen <= buf.len()
            &&& valid_utf8(buf.subrange(k, k + blen as int))
            &&& s == decode_utf8(buf.subrange(k, k + blen as int))
        },
        None => false,
    }
}

/// A text never has more characters than UTF-8 bytes: every character
/// encodes to at least one byte.
pub proof fn lemma_chars_le_utf8_bytes(s: Seq<char>)
    ensures
        s.len() <= encode_utf8(s).len(),
    decreases s.len(),
{
    if s.len() > 0 {
        lemma_chars_le_utf8_bytes(s.drop_first());
        assert(vstd::utf8::encode_scalar(s[0] as u32).len() >= 1);
    }
}

/// Relies on `str::from_utf8` (and `str::to_string`): a byte slice converts
/// exactly when it is valid UTF-8, and the characters of the result are the
/// decoding of those bytes — the inverse of `str::as_bytes`, which vstd
/// specifies as `encode_utf8`.
#[verifier::external_body]
fn string_from_utf8(bytes: &[u8]) -> (r: Option<String>)
    ensures
        r is Some <==> valid_utf8(bytes@),
        r matches Some(s) ==> s@ == decode_utf8(bytes@),
{
    match std::str::from_utf8(bytes) {
        Ok(s) => Some(s.to_string()),
        Err(_) => None,
    }
}

impl RawEncode for String {
    /// Machine limit: the UTF-8 form must be addressable.
    open spec fn valid(&self) -> bool {
        encode_utf8(self@).len() <= usize::MAX
    }

    open spec fn encoding(&self, purpose: RawEncodePurpose) -> Seq<u8> {
        text_encoding(self@)
    }

    fn raw_measure(&self, purpose: &Option<RawEncodePurpose>) -> (r: CodecResult<usize>) {
        let blen = self.as_str().len();
        let vlen = varint_size(blen);
        if blen > usize::MAX - vlen {
            Err(
                CodecError::new(
                    CodecErrorCode::OutOfLimit,
                    "encoded size exceeds the machine word".to_owned(),
                ),
            )
        } else {
            Ok(vlen + blen)
        }
    }

    fn raw_encode(&self, buf: &mut WriteBuf, purpose: &Option<RawEncodePurpose>) -> (r: CodecResult<
        (),
    >) {
        let blen = self.as_str().len();
        let vlen = varint_size(blen);
        let room = buf.remaining();
        if vlen > room || blen > room - vlen {
            return Err(
                CodecError::new(
                    CodecErrorCode::OutOfLimit,
                    "text does not fit the remaining buffer".to_owned(),
                ),
            );
        }
        let ghost pre = *buf;
        varint_write(buf, blen);
        let ghost mid = *buf;
        buf.put_slice(self.as_str().as_bytes());
        proof {
            WriteBuf::lemma_wrote_trans(
                pre,
                mid,
                *buf,
                varint_enc(blen as nat),
                encode_utf8(self@),
            );
        }
        Ok(())
    }
}

impl RawDecode for String {
    open spec fn dec_len(buf: Seq<u8>) -> Result<int, CodecErrorCode> {
        match varint_dec(buf) {
            None => Err(CodecErrorCode::InvalidFormat),
            Some((blen, k)) => if blen > usize::MAX {
                Err(CodecErrorCode::InvalidFormat)
            } else if k + blen > buf.len() {
                Err(CodecErrorCode::InvalidFormat)
            } else if !valid_utf8(buf.subrange(k, k + blen as int)) {
                Err(CodecErrorCode::InvalidFormat)
            } else {
                Ok(k + blen as int)
            },
        }
    }

    open spec fn dec_ok(buf: Seq<u8>, v: Self) -> bool {
        text_dec_ok(buf, v@)
    }

    proof fn lemma_dec_len(buf: Seq<u8>) {
        lemma_varint_dec_bounds(buf);
    }

    proof fn lemma_round_trip(v: Self) {
        Self::lemma_dec_prefix(v, Seq::empty());
        assert(v.encoding(RawEncodePurpose::Serialize) + Seq::<u8>::empty() =~= v.encoding(
            RawEncodePurpose::Serialize,
        ));
    }

    fn raw_decode(buf: &[u8]) -> (r: CodecResult<(Self, &[u8])>) {
        proof {
            lemma_varint_dec_bounds(buf@);
        }
        match varint_read(buf) {
            None => Err(
                CodecError::new(CodecErrorCode::InvalidFormat, "malformed text length".to_owned()),
            ),
            Some((blen, k)) => {
                if blen > buf.len() - k {
                    return Err(
                        CodecError::new(
                            CodecErrorCode::InvalidFormat,
                            crate::errors::message_with_count(
                                "text length overruns the remaining input of ",
                                buf.len() - k,
                            ),
                        ),
                    );
                }
                let body = vstd::slice::slice_subrange(buf, k, k + blen);
                match string_from_utf8(body) {
                    None => Err(
                        CodecError::new(
                            CodecErrorCode::InvalidFormat,
                            "text is not valid utf-8".to_owned(),
                        ),
                    ),
                    Some(s) => {
                        proof {
                            decode_utf8_encode_utf8(body@);
                        }
                        let rest = vstd::slice::slice_subrange(buf, k + blen, buf.len());
                        Ok((s, rest))
                    },
                }
            },
        }
    }
}

impl PrefixStable for String {
    proof fn lemma_dec_prefix(v: Self, tail: Seq<u8>) {
        let u = encode_utf8(v@);
        let e = v.encoding(RawEncodePurpose::Serialize);
        lemma_varint_round_trip(u.len(), u + tail);
        assert(e + tail =~= varint_enc(u.len()) + (u + tail));
        let k = varint_enc(u.len()).len() as int;
        assert((e + tail).subrange(k, k + u.len() as int) =~= u);
        encode_utf8_valid_utf8(v@);
        encode_utf8_decode_utf8(v@);
    }
}

} // verus!
