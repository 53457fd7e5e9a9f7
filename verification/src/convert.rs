//! Whole-value conveniences: encode a value into an owned byte vector or a
//! lowercase hex string, and rebuild a value from either.
use crate::codec::{RawDecode, RawEncode, RawEncodePurpose};
use crate::errors::{CodecError, CodecErrorCode, CodecResult};
use vstd::prelude::*;

verus! {

/// The lowercase hex digit of a nibble.
pub open spec fn hex_digit(n: nat) -> char {
    if n == 0 {
        '0'
    } else if n == 1 {
        '1'
    } else if n == 2 {
        '2'
    } else if n == 3 {
        '3'
    } else if n == 4 {
        '4'
    } else if n == 5 {
        '5'
    } else if n == 6 {
        '6'
    } else if n == 7 {
        '7'
    } else if n == 8 {
        '8'
    } else if n == 9 {
        '9'
    } else if n == 10 {
        'a'
    } else if n == 11 {
        'b'
    } else if n == 12 {
        'c'
    } else if n == 13 {
        'd'
    } else if n == 14 {
        'e'
    } else {
        'f'
    }
}

/// The lowercase hex rendering of a byte sequence: two digits per byte,
/// high nibble first.
pub open spec fn hex_chars(b: Seq<u8>) -> Seq<char>
    decreases b.len(),
{
    if b.len() == 0 {
        Seq::empty()
    } else {
        seq![
            hex_digit((b[0] / 16) as nat),
            hex_digit((b[0] % 16) as nat),
        ] + hex_chars(b.skip(1))
    }
}

/// Whether `c` is a hex digit, either case.
pub open spec fn is_hex_digit(c: char) -> bool {
    ('0' <= c && c <= '9') || ('a' <= c && c <= 'f') || ('A' <= c && c <= 'F')
}

/// The value of a hex digit, either case.
pub open spec fn hex_nibble(c: char) -> nat {
    if '0' <= c && c <= '9' {
        (c as nat - '0' as nat) as nat
    } else if 'a' <= c && c <= 'f' {
        (c as nat - 'a' as nat + 10) as nat
    } else if 'A' <= c && c <= 'F' {
        (c as nat - 'A' as nat + 10) as nat
    } else {
        0
    }
}

/// Whether `s` is a well-formed hex string: an even count of hex digits.
pub open spec fn is_hex_seq(s: Seq<char>) -> bool {
    s.len() % 2 == 0 && forall|i: int| 0 <= i < s.len() ==> is_hex_digit(#[trigger] s[i])
}

/// The bytes a well-formed hex string stands for.
pub open spec fn hex_bytes_of(s: Seq<char>) -> Seq<u8> {
    Seq::new(
        (s.len() / 2) as nat,
        |i: int| (hex_nibble(s[2 * i]) * 16 + hex_nibble(s[2 * i + 1])) as u8,
    )
}

/// Relies on `hex::encode`: it renders each byte as two lowercase hex
/// digits, high nibble first, in input order.
#[verifier::external_body]
fn hex_encode_bytes(b: &[u8]) -> (r: String)
    ensures
        r@ == hex_chars(b@),
{
    hex::encode(b)
}

/// Relies on `hex::decode`: it accepts exactly the even-length strings of
/// hex digits (either case) and returns one byte per digit pair, high
/// nibble first.
#[verifier::external_body]
fn hex_decode_string(s: &str) -> (r: Option<Vec<u8>>)
    ensures
        r is Some <==> is_hex_seq(s@),
        r matches Some(v) ==> v@ == hex_bytes_of(s@),
{
    match hex::decode(s) {
        Ok(v) => Some(v),
        Err(_) => None,
    }
}

/// Encoding a value to owned bytes or to hex text.
pub trait RawConvertTo<O>: RawEncode {
    /// The value's full `Serialize` encoding in a fresh, exactly sized
    /// vector.
    fn to_vec(&self) -> (r: CodecResult<Vec<u8>>)
        requires
            self.valid(),
        ensures
            ({
                let e = self.encoding(RawEncodePurpose::Serialize);
                &&& (r matches Ok(v) ==> v@ == e)
                &&& (r is Ok <==> e.len() <= usize::MAX)
            }),
    ;

    /// The value's full `Serialize` encoding as lowercase hex text.
    fn to_hex(&self) -> (r: CodecResult<String>)
        requires
            self.valid(),
        ensures
            ({
                let e = self.encoding(RawEncodePurpose::Serialize);
                &&& (r matches Ok(s) ==> s@ == hex_chars(e))
                &&& (r is Ok <==> e.len() <= usize::MAX)
            }),
    ;
}

impl<T: RawEncode> RawConvertTo<T> for T {
    fn to_vec(&self) -> (r: CodecResult<Vec<u8>>) {
        self.raw_encode_to_buffer()
    }

    fn to_hex(&self) -> (r: CodecResult<String>) {
        let buf = self.to_vec()?;
        Ok(hex_encode_bytes(buf.as_slice()))
    }
}

/// Rebuilding a value from bytes or from hex text.  Trailing bytes after
/// the value's encoding are read past and dropped.
pub trait RawFrom<O: RawDecode>: Sized {
    /// Decode a value from the front of `buf`, discarding the remainder.
    fn clone_from_slice(buf: &[u8]) -> (r: CodecResult<O>)
        ensures
            r is Ok <==> O::dec_len(buf@) is Ok,
            r matches Ok(v) ==> O::dec_ok(buf@, v) && v.valid(),
            r matches Err(e) ==> O::dec_len(buf@) matches Err(c) && e.spec_code() == c,
    ;

    /// Decode the hex text into `buf`, then decode a value from the front
    /// of those bytes.
    fn clone_from_hex(hex_str: &str, buf: &mut Vec<u8>) -> (r: CodecResult<O>)
        ensures
            ({
                let s = hex_str@;
                &&& (!is_hex_seq(s) ==> (r matches Err(e) && e.spec_code()
                    == CodecErrorCode::Failed))
                &&& (is_hex_seq(s) ==> {
                    let bytes = hex_bytes_of(s);
                    &&& final(buf)@ == bytes
                    &&& (r is Ok <==> O::dec_len(bytes) is Ok)
                    &&& (r matches Ok(v) ==> O::dec_ok(bytes, v) && v.valid())
                    &&& (r matches Err(e) ==> O::dec_len(bytes) matches Err(c) && e.spec_code()
                        == c)
                })
            }),
    ;
}

impl<O: RawDecode> RawFrom<O> for O {
    fn clone_from_slice(buf: &[u8]) -> (r: CodecResult<O>) {
        let (t, _rest) = O::raw_decode(buf)?;
        Ok(t)
    }

    fn clone_from_hex(hex_str: &str, buf: &mut Vec<u8>) -> (r: CodecResult<O>) {
        match hex_decode_string(hex_str) {
            None => Err(
                CodecError::new(CodecErrorCode::Failed, "decode hex string error".to_owned()),
            ),
            Some(decoded) => {
                *buf = decoded;
                let (t, _rest) = O::raw_decode(buf.as_slice())?;
                Ok(t)
            },
        }
    }
}

} // verus!
