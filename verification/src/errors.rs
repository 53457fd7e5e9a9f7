//! The error taxonomy: a closed error-code enumeration with stable wire
//! ordinals, a lossy origin-error downgrade, and the composite error value
//! that crosses the wire as `code + message + optional origin`.
use crate::codec::{PrefixStable, RawDecode, RawEncode, RawEncodePurpose, WriteBuf};
use crate::scalars::{
    be_bytes, be_read, be_val, be_write, lemma_be_bytes_len, lemma_be_round_trip,
    lemma_be_val_bound, lemma_pow256_vals,
};
use crate::varint::{
    lemma_varint_dec_bounds, lemma_varint_round_trip, varint_dec, varint_enc, varint_read,
    varint_size, varint_write,
};
use vstd::prelude::*;
use vstd::string::StringExecFns;

verus! {

/// A closed, flat error classification.  Every variant has a fixed,
/// explicitly assigned wire ordinal (see `spec_ordinal` in `errors`); the
/// ordinal is never inferred from declaration order.  Two variants carry a
/// nested 16-bit payload: `MetaError` (meta classification) and `DecError`
/// (decoder classification).
#[derive(Debug, Clone, Copy, PartialEq, Eq, Structural)]
pub enum CodecErrorCode {
    Success,
    Failed,
    InvalidParam,
    Timeout,
    NotFound,
    AlreadyExists,
    NotSupport,
    ErrorState,
    InvalidFormat,
    Expired,
    OutOfLimit,
    InternalError,
    PermissionDenied,
    ConnectionRefused,
    ConnectionReset,
    ConnectionAborted,
    NotConnected,
    AddrInUse,
    AddrNotAvailable,
    Interrupted,
    InvalidInput,
    InvalidData,
    WriteZero,
    UnexpectedEof,
    BrokenPipe,
    WouldBlock,
    UnSupport,
    Unmatch,
    ExecuteError,
    Reject,
    Ignored,
    InvalidSignature,
    AlreadyExistsAndSignatureMerged,
    TargetNotFound,
    Aborted,
    ConnectFailed,
    ConnectInterZoneFailed,
    InnerPathNotFound,
    RangeNotSatisfiable,
    UserCanceled,
    Conflict,
    OutofSessionLimit,
    Redirect,
    MongoDBError,
    SqliteError,
    UrlError,
    ZipError,
    HttpError,
    JsonError,
    HexError,
    RsaError,
    CryptoError,
    MpscSendError,
    MpscRecvError,
    IoError,
    NetworkError,
    CodeError,
    UnknownBdtError,
    UnknownIOError,
    Unknown,
    Pending,
    NotChange,
    NotMatch,
    NotImplement,
    NotInit,
    ParseError,
    NotHandled,
    InvalidTarget,
    ErrorTimestamp,
    DecNotRunning,
    MetaError(u16),
    DecError(u16),
}

/// The lossy downgrade of an arbitrary underlying failure cause.  A cause
/// that carries a numeric library code keeps it; every other representable
/// cause is downgraded to its formatted text; an entirely unrepresentable
/// cause carries nothing.  Decoding reconstructs at least a textual
/// classification: the opaque case comes back as an empty text, the
/// documented lossy boundary of this format.
#[derive(Debug, Clone, PartialEq, Eq)]
pub enum OriginError {
    Code(u32),
    Msg(String),
    Opaque,
}

/// The composite error value: classification code, human-readable message,
/// and the optional downgraded origin cause.
#[derive(Debug, Clone)]
pub struct CodecError {
    code: CodecErrorCode,
    msg: String,
    origin: Option<OriginError>,
}

impl CodecError {
    /// The classification code.
    pub closed spec fn spec_code(&self) -> CodecErrorCode {
        self.code
    }

    /// The message text.
    pub closed spec fn spec_msg(&self) -> Seq<char> {
        self.msg@
    }

    /// The downgraded origin cause, if one was recorded.
    pub closed spec fn spec_origin(&self) -> Option<OriginError> {
        self.origin
    }

    pub fn new(code: CodecErrorCode, msg: String) -> (r: CodecError)
        ensures
            r.spec_code() == code,
            r.spec_msg() == msg@,
            r.spec_origin() is None,
    {
        CodecError { code, msg, origin: None }
    }

    pub fn with_origin(code: CodecErrorCode, msg: String, origin: Option<OriginError>) -> (r:
        CodecError)
        ensures
            r.spec_code() == code,
            r.spec_msg() == msg@,
            r.spec_origin() == origin,
    {
        CodecError { code, msg, origin }
    }

    pub fn code(&self) -> (r: CodecErrorCode)
        ensures
            r == self.spec_code(),
    {
        self.code
    }

    pub fn msg(&self) -> (r: &str)
        ensures
            r@ == self.spec_msg(),
    {
        self.msg.as_str()
    }

    pub fn origin(&self) -> (r: &Option<OriginError>)
        ensures
            *r == self.spec_origin(),
    {
        &self.origin
    }
}

/// The alias every fallible operation of this crate returns.
pub type CodecResult<T> = Result<T, CodecError>;

/// One base-ten digit.
pub open spec fn dec_digit(n: nat) -> char {
    if n == 0 {
        '0'
    } else if n == 1 {
        '1'
    } else if n == 2 {
        '2'
    } else if n == 3 {
        '3'
    } else if n == 4 {
        '4'
    } else if n == 5 {
        '5'
    } else if n == 6 {
        '6'
    } else if n == 7 {
        '7'
    } else if n == 8 {
        '8'
    } else {
        '9'
    }
}

/// The base-ten rendering of `n`, most significant digit first.
pub open spec fn dec_digits(n: nat) -> Seq<char>
    decreases n,
{
    if n < 10 {
        seq![dec_digit(n)]
    } else {
        dec_digits(n / 10) + seq![dec_digit(n % 10)]
    }
}

/// The one-character text of a base-ten digit.
fn dec_digit_str(d: usize) -> (r: &'static str)
    requires
        d < 10,
    ensures
        r@ == seq![dec_digit(d as nat)],
{
    match d {
        0 => {
            proof {
                reveal_strlit("0");
            }
            "0"
        },
        1 => {
            proof {
                reveal_strlit("1");
            }
            "1"
        },
        2 => {
            proof {
                reveal_strlit("2");
            }
            "2"
        },
        3 => {
            proof {
                reveal_strlit("3");
            }
            "3"
        },
        4 => {
            proof {
                reveal_strlit("4");
            }
            "4"
        },
        5 => {
            proof {
                reveal_strlit("5");
            }
            "5"
        },
        6 => {
            proof {
                reveal_strlit("6");
            }
            "6"
        },
        7 => {
            proof {
                reveal_strlit("7");
            }
            "7"
        },
        8 => {
            proof {
                reveal_strlit("8");
            }
            "8"
        },
        _ => {
            proof {
                reveal_strlit("9");
            }
            "9"
        },
    }
}

/// The base-ten text of `n`, most significant digit first.
fn decimal_text(n: usize) -> (r: String)
    ensures
        r@ == dec_digits(n as nat),
    decreases n,
{
    let d = n % 10;
    let ds = dec_digit_str(d);
    if n < 10 {
        ds.to_owned()
    } else {
        proof {
            vstd::arithmetic::div_mod::lemma_div_is_strictly_smaller(n as int, 10);
        }
        let mut high = decimal_text(n / 10);
        high.append(ds);
        high
    }
}

/// Append a count to a diagnostic message.
pub(crate) fn message_with_count(prefix: &str, n: usize) -> (r: String)
    ensures
        r@ == prefix@ + dec_digits(n as nat),
{
    let mut r = prefix.to_owned();
    let digits = decimal_text(n);
    r.append(digits.as_str());
    r
}

/// The fixed wire ordinal of each classification.  These are assignments,
/// not declaration positions: they may never change once a value has been
/// stored or sent.
pub open spec fn spec_ordinal(c: CodecErrorCode) -> nat {
    match c {
        CodecErrorCode::Success => 0,
        CodecErrorCode::Failed => 1,
        CodecErrorCode::InvalidParam => 2,
        CodecErrorCode::Timeout => 3,
        CodecErrorCode::NotFound => 4,
        CodecErrorCode::AlreadyExists => 5,
        CodecErrorCode::NotSupport => 6,
        CodecErrorCode::ErrorState => 7,
        CodecErrorCode::InvalidFormat => 8,
        CodecErrorCode::Expired => 9,
        CodecErrorCode::OutOfLimit => 10,
        CodecErrorCode::InternalError => 11,
        CodecErrorCode::PermissionDenied => 12,
        CodecErrorCode::ConnectionRefused => 13,
        CodecErrorCode::ConnectionReset => 14,
        CodecErrorCode::ConnectionAborted => 15,
        CodecErrorCode::NotConnected => 16,
        CodecErrorCode::AddrInUse => 17,
        CodecErrorCode::AddrNotAvailable => 18,
        CodecErrorCode::Interrupted => 19,
        CodecErrorCode::InvalidInput => 20,
        CodecErrorCode::InvalidData => 21,
        CodecErrorCode::WriteZero => 22,
        CodecErrorCode::UnexpectedEof => 23,
        CodecErrorCode::BrokenPipe => 24,
        CodecErrorCode::WouldBlock => 25,
        CodecErrorCode::UnSupport => 26,
        CodecErrorCode::Unmatch => 27,
        CodecErrorCode::ExecuteError => 28,
        CodecErrorCode::Reject => 29,
        CodecErrorCode::Ignored => 30,
        CodecErrorCode::InvalidSignature => 31,
        CodecErrorCode::AlreadyExistsAndSignatureMerged => 32,
        CodecErrorCode::TargetNotFound => 33,
        CodecErrorCode::Aborted => 34,
        CodecErrorCode::ConnectFailed => 35,
        CodecErrorCode::ConnectInterZoneFailed => 36,
        CodecErrorCode::InnerPathNotFound => 37,
        CodecErrorCode::RangeNotSatisfiable => 38,
        CodecErrorCode::UserCanceled => 39,
        CodecErrorCode::Conflict => 40,
        CodecErrorCode::OutofSessionLimit => 41,
        CodecErrorCode::Redirect => 42,
        CodecErrorCode::MongoDBError => 43,
        CodecErrorCode::SqliteError => 44,
        CodecErrorCode::UrlError => 45,
        CodecErrorCode::ZipError => 46,
        CodecErrorCode::HttpError => 47,
        CodecErrorCode::JsonError => 48,
        CodecErrorCode::HexError => 49,
        CodecErrorCode::RsaError => 50,
        CodecErrorCode::CryptoError => 51,
        CodecErrorCode::MpscSendError => 52,
        CodecErrorCode::MpscRecvError => 53,
        CodecErrorCode::IoError => 54,
        CodecErrorCode::NetworkError => 55,
        CodecErrorCode::CodeError => 56,
        CodecErrorCode::UnknownBdtError => 57,
        CodecErrorCode::UnknownIOError => 58,
        CodecErrorCode::Unknown => 59,
        CodecErrorCode::Pending => 60,
        CodecErrorCode::NotChange => 61,
        CodecErrorCode::NotMatch => 62,
        CodecErrorCode::NotImplement => 63,
        CodecErrorCode::NotInit => 64,
        CodecErrorCode::ParseError => 65,
        CodecErrorCode::NotHandled => 66,
        CodecErrorCode::InvalidTarget => 67,
        CodecErrorCode::ErrorTimestamp => 68,
        CodecErrorCode::DecNotRunning => 69,
        CodecErrorCode::MetaError(_) => 70,
        CodecErrorCode::DecError(_) => 71,
    }
}

/// The nested payload two classifications carry after their ordinal.
pub open spec fn spec_payload(c: CodecErrorCode) -> Seq<u8> {
    match c {
        CodecErrorCode::MetaError(p) => crate::scalars::be_bytes(p as nat, 2),
        CodecErrorCode::DecError(p) => crate::scalars::be_bytes(p as nat, 2),
        _ => Seq::empty(),
    }
}

impl CodecErrorCode {
    /// The assigned wire ordinal of this classification.
    pub fn ordinal(&self) -> (r: usize)
        ensures
            r == spec_ordinal(*self),
    {
        match self {
            CodecErrorCode::Success => 0,
            CodecErrorCode::Failed => 1,
            CodecErrorCode::InvalidParam => 2,
            CodecErrorCode::Timeout => 3,
            CodecErrorCode::NotFound => 4,
            CodecErrorCode::AlreadyExists => 5,
            CodecErrorCode::NotSupport => 6,
            CodecErrorCode::ErrorState => 7,
            CodecErrorCode::InvalidFormat => 8,
            CodecErrorCode::Expired => 9,
            CodecErrorCode::OutOfLimit => 10,
            CodecErrorCode::InternalError => 11,
            CodecErrorCode::PermissionDenied => 12,
            CodecErrorCode::ConnectionRefused => 13,
            CodecErrorCode::ConnectionReset => 14,
            CodecErrorCode::ConnectionAborted => 15,
            CodecErrorCode::NotConnected => 16,
            CodecErrorCode::AddrInUse => 17,
            CodecErrorCode::AddrNotAvailable => 18,
            CodecErrorCode::Interrupted => 19,
            CodecErrorCode::InvalidInput => 20,
            CodecErrorCode::InvalidData => 21,
            CodecErrorCode::WriteZero => 22,
            CodecErrorCode::UnexpectedEof => 23,
            CodecErrorCode::BrokenPipe => 24,
            CodecErrorCode::WouldBlock => 25,
            CodecErrorCode::UnSupport => 26,
            CodecErrorCode::Unmatch => 27,
            CodecErrorCode::ExecuteError => 28,
            CodecErrorCode::Reject => 29,
            CodecErrorCode::Ignored => 30,
            CodecErrorCode::InvalidSignature => 31,
            CodecErrorCode::AlreadyExistsAndSignatureMerged => 32,
            CodecErrorCode::TargetNotFound => 33,
            CodecErrorCode::Aborted => 34,
            CodecErrorCode::ConnectFailed => 35,
            CodecErrorCode::ConnectInterZoneFailed => 36,
            CodecErrorCode::InnerPathNotFound => 37,
            CodecErrorCode::RangeNotSatisfiable => 38,
            CodecErrorCode::UserCanceled => 39,
            CodecErrorCode::Conflict => 40,
            CodecErrorCode::OutofSessionLimit => 41,
            CodecErrorCode::Redirect => 42,
            CodecErrorCode::MongoDBError => 43,
            CodecErrorCode::SqliteError => 44,
            CodecErrorCode::UrlError => 45,
            CodecErrorCode::ZipError => 46,
            CodecErrorCode::HttpError => 47,
            CodecErrorCode::JsonError => 48,
            CodecErrorCode::HexError => 49,
            CodecErrorCode::RsaError => 50,
            CodecErrorCode::CryptoError => 51,
            CodecErrorCode::MpscSendError => 52,
            CodecErrorCode::MpscRecvError => 53,
            CodecErrorCode::IoError => 54,
            CodecErrorCode::NetworkError => 55,
            CodecErrorCode::CodeError => 56,
            CodecErrorCode::UnknownBdtError => 57,
            CodecErrorCode::UnknownIOError => 58,
            CodecErrorCode::Unknown => 59,
            CodecErrorCode::Pending => 60,
            CodecErrorCode::NotChange => 61,
            CodecErrorCode::NotMatch => 62,
            CodecErrorCode::NotImplement => 63,
            CodecErrorCode::NotInit => 64,
            CodecErrorCode::ParseError => 65,
            CodecErrorCode::NotHandled => 66,
            CodecErrorCode::InvalidTarget => 67,
            CodecErrorCode::ErrorTimestamp => 68,
            CodecErrorCode::DecNotRunning => 69,
            CodecErrorCode::MetaError(_) => 70,
            CodecErrorCode::DecError(_) => 71,
        }
    }

    /// The classification a simple (payload-free) ordinal stands for.  Only
    /// meaningful below 70; the two payload-carrying ordinals are decoded
    /// separately.
    pub fn from_simple_ordinal(ord: usize) -> (r: CodecErrorCode)
        requires
            ord <= 69,
        ensures
            spec_ordinal(r) == ord,
            !(r is MetaError),
            !(r is DecError),
    {
        match ord {
            0 => CodecErrorCode::Success,
            1 => CodecErrorCode::Failed,
            2 => CodecErrorCode::InvalidParam,
            3 => CodecErrorCode::Timeout,
            4 => CodecErrorCode::NotFound,
            5 => CodecErrorCode::AlreadyExists,
            6 => CodecErrorCode::NotSupport,
            7 => CodecErrorCode::ErrorState,
            8 => CodecErrorCode::InvalidFormat,
            9 => CodecErrorCode::Expired,
            10 => CodecErrorCode::OutOfLimit,
            11 => CodecErrorCode::InternalError,
            12 => CodecErrorCode::PermissionDenied,
            13 => CodecErrorCode::ConnectionRefused,
            14 => CodecErrorCode::ConnectionReset,
            15 => CodecErrorCode::ConnectionAborted,
            16 => CodecErrorCode::NotConnected,
            17 => CodecErrorCode::AddrInUse,
            18 => CodecErrorCode::AddrNotAvailable,
            19 => CodecErrorCode::Interrupted,
            20 => CodecErrorCode::InvalidInput,
            21 => CodecErrorCode::InvalidData,
            22 => CodecErrorCode::WriteZero,
            23 => CodecErrorCode::UnexpectedEof,
            24 => CodecErrorCode::BrokenPipe,
            25 => CodecErrorCode::WouldBlock,
            26 => CodecErrorCode::UnSupport,
            27 => CodecErrorCode::Unmatch,
            28 => CodecErrorCode::ExecuteError,
            29 => CodecErrorCode::Reject,
            30 => CodecErrorCode::Ignored,
            31 => CodecErrorCode::InvalidSignature,
            32 => CodecErrorCode::AlreadyExistsAndSignatureMerged,
            33 => CodecErrorCode::TargetNotFound,
            34 => CodecErrorCode::Aborted,
            35 => CodecErrorCode::ConnectFailed,
            36 => CodecErrorCode::ConnectInterZoneFailed,
            37 => CodecErrorCode::InnerPathNotFound,
            38 => CodecErrorCode::RangeNotSatisfiable,
            39 => CodecErrorCode::UserCanceled,
            40 => CodecErrorCode::Conflict,
            41 => CodecErrorCode::OutofSessionLimit,
            42 => CodecErrorCode::Redirect,
            43 => CodecErrorCode::MongoDBError,
            44 => CodecErrorCode::SqliteError,
            45 => CodecErrorCode::UrlError,
            46 => CodecErrorCode::ZipError,
            47 => CodecErrorCode::HttpError,
            48 => CodecErrorCode::JsonError,
            49 => CodecErrorCode::HexError,
            50 => CodecErrorCode::RsaError,
            51 => CodecErrorCode::CryptoError,
            52 => CodecErrorCode::MpscSendError,
            53 => CodecErrorCode::MpscRecvError,
            54 => CodecErrorCode::IoError,
            55 => CodecErrorCode::NetworkError,
            56 => CodecErrorCode::CodeError,
            57 => CodecErrorCode::UnknownBdtError,
            58 => CodecErrorCode::UnknownIOError,
            59 => CodecErrorCode::Unknown,
            60 => CodecErrorCode::Pending,
            61 => CodecErrorCode::NotChange,
            62 => CodecErrorCode::NotMatch,
            63 => CodecErrorCode::NotImplement,
            64 => CodecErrorCode::NotInit,
            65 => CodecErrorCode::ParseError,
            66 => CodecErrorCode::NotHandled,
            67 => CodecErrorCode::InvalidTarget,
            68 => CodecErrorCode::ErrorTimestamp,
            _ => CodecErrorCode::DecNotRunning,
        }
    }
}

impl RawEncode for CodecErrorCode {
    open spec fn encoding(&self, purpose: RawEncodePurpose) -> Seq<u8> {
        varint_enc(spec_ordinal(*self)) + spec_payload(*self)
    }

    fn raw_measure(&self, purpose: &Option<RawEncodePurpose>) -> (r: CodecResult<usize>) {
        let vlen = varint_size(self.ordinal());
        match self {
            CodecErrorCode::MetaError(_) | CodecErrorCode::DecError(_) => {
                proof {
                    match *self {
                        CodecErrorCode::MetaError(p) => lemma_be_bytes_len(p as nat, 2),
                        CodecErrorCode::DecError(p) => lemma_be_bytes_len(p as nat, 2),
                        _ => {},
                    }
                }
                Ok(vlen + 2)
            },
            _ => Ok(vlen),
        }
    }

    fn raw_encode(&self, buf: &mut WriteBuf, purpose: &Option<RawEncodePurpose>) -> (r: CodecResult<
        (),
    >) {
        proof {
            match *self {
                CodecErrorCode::MetaError(p) => lemma_be_bytes_len(p as nat, 2),
                CodecErrorCode::DecError(p) => lemma_be_bytes_len(p as nat, 2),
                _ => {},
            }
        }
        let size = self.raw_measure(purpose)?;
        if size > buf.remaining() {
            return Err(
                CodecError::new(
                    CodecErrorCode::OutOfLimit,
                    "error code does not fit the remaining buffer".to_owned(),
                ),
            );
        }
        let ghost pre = *buf;
        varint_write(buf, self.ordinal());
        let ghost mid = *buf;
        match self {
            CodecErrorCode::MetaError(p) => {
                be_write(buf, *p as u64, 2);
            },
            CodecErrorCode::DecError(p) => {
                be_write(buf, *p as u64, 2);
            },
            _ => {
                proof {
                    assert(mid.bytes() =~= mid.bytes().take(mid.cursor()) + Seq::<u8>::empty()
                        + mid.bytes().skip(mid.cursor()));
                }
            },
        }
        proof {
            WriteBuf::lemma_wrote_trans(
                pre,
                mid,
                *buf,
                varint_enc(spec_ordinal(*self)),
                spec_payload(*self),
            );
        }
        Ok(())
    }
}

impl RawDecode for CodecErrorCode {
    open spec fn dec_len(buf: Seq<u8>) -> Result<int, CodecErrorCode> {
        match varint_dec(buf) {
            None => Err(CodecErrorCode::InvalidFormat),
            Some((v, k)) => if v > usize::MAX {
                Err(CodecErrorCode::InvalidFormat)
            } else if v <= 69 {
                Ok(k)
            } else if v == 70 || v == 71 {
                if k + 2 <= buf.len() {
                    Ok(k + 2)
                } else {
                    Err(CodecErrorCode::InvalidFormat)
                }
            } else {
                Err(CodecErrorCode::NotSupport)
            },
        }
    }

    open spec fn dec_ok(buf: Seq<u8>, v: Self) -> bool {
        match varint_dec(buf) {
            None => false,
            Some((ord, k)) => {
                &&& spec_ordinal(v) == ord
                &&& match v {
                    CodecErrorCode::MetaError(p) => k + 2 <= buf.len() && p as nat == be_val(
                        buf.subrange(k, k + 2),
                    ),
                    CodecErrorCode::DecError(p) => k + 2 <= buf.len() && p as nat == be_val(
                        buf.subrange(k, k + 2),
                    ),
                    _ => true,
                }
            },
        }
    }

    proof fn lemma_dec_len(buf: Seq<u8>) {
        lemma_varint_dec_bounds(buf);
    }

    proof fn lemma_round_trip(v: Self) {
        Self::lemma_dec_prefix(v, Seq::empty());
        assert(v.encoding(RawEncodePurpose::Serialize) + Seq::<u8>::empty() =~= v.encoding(
            RawEncodePurpose::Serialize,
        ));
    }

    fn raw_decode(buf: &[u8]) -> (r: CodecResult<(Self, &[u8])>) {
        proof {
            lemma_varint_dec_bounds(buf@);
        }
        match varint_read(buf) {
            None => Err(
                CodecError::new(
                    CodecErrorCode::InvalidFormat,
                    "malformed error code ordinal".to_owned(),
                ),
            ),
            Some((ord, k)) => {
                if ord <= 69 {
                    let code = CodecErrorCode::from_simple_ordinal(ord);
                    let rest = vstd::slice::slice_subrange(buf, k, buf.len());
                    Ok((code, rest))
                } else if ord == 70 || ord == 71 {
                    if buf.len() - k < 2 {
                        return Err(
                            CodecError::new(
                                CodecErrorCode::InvalidFormat,
                                message_with_count(
                                    "error code payload needs 2 bytes, found ",
                                    buf.len() - k,
                                ),
                            ),
                        );
                    }
                    let body = vstd::slice::slice_subrange(buf, k, buf.len());
                    let wide = be_read(body, 2);
                    proof {
                        lemma_be_val_bound(body@.take(2));
                        lemma_pow256_vals();
                        assert(body@.take(2) =~= buf@.subrange(k as int, k + 2));
                    }
                    let payload = wide as u16;
                    let code = if ord == 70 {
                        CodecErrorCode::MetaError(payload)
                    } else {
                        CodecErrorCode::DecError(payload)
                    };
                    let rest = vstd::slice::slice_subrange(buf, k + 2, buf.len());
                    Ok((code, rest))
                } else {
                    Err(
                        CodecError::new(
                            CodecErrorCode::NotSupport,
                            message_with_count("unknown error code ordinal ", ord),
                        ),
                    )
                }
            },
        }
    }
}

impl PrefixStable for CodecErrorCode {
    proof fn lemma_dec_prefix(v: Self, tail: Seq<u8>) {
        let ord = spec_ordinal(v);
        let pay = spec_payload(v);
        let e = v.encoding(RawEncodePurpose::Serialize);
        lemma_varint_round_trip(ord, pay + tail);
        assert(e + tail =~= varint_enc(ord) + (pay + tail));
        let k = varint_enc(ord).len() as int;
        match v {
            CodecErrorCode::MetaError(p) => {
                lemma_be_bytes_len(p as nat, 2);
                assert((e + tail).subrange(k, k + 2) =~= be_bytes(p as nat, 2));
                lemma_pow256_vals();
                lemma_be_round_trip(p as nat, 2);
            },
            CodecErrorCode::DecError(p) => {
                lemma_be_bytes_len(p as nat, 2);
                assert((e + tail).subrange(k, k + 2) =~= be_bytes(p as nat, 2));
                lemma_pow256_vals();
                lemma_be_round_trip(p as nat, 2);
            },
            _ => {
                assert(e + tail =~= varint_enc(ord) + tail);
            },
        }
    }
}

impl RawEncode for OriginError {
    open spec fn valid(&self) -> bool {
        match self {
            OriginError::Msg(s) => s.valid(),
            _ => true,
        }
    }

    open spec fn encoding(&self, purpose: RawEncodePurpose) -> Seq<u8> {
        match self {
            OriginError::Code(c) => varint_enc(1) + be_bytes(*c as nat, 4),
            OriginError::Msg(s) => varint_enc(2) + s.encoding(purpose),
            OriginError::Opaque => varint_enc(3),
        }
    }

    fn raw_measure(&self, purpose: &Option<RawEncodePurpose>) -> (r: CodecResult<usize>) {
        match self {
            OriginError::Code(c) => {
                proof {
                    lemma_be_bytes_len(*c as nat, 4);
                }
                Ok(5)
            },
            OriginError::Msg(s) => {
                let inner = s.raw_measure(purpose)?;
                if inner == usize::MAX {
                    Err(
                        CodecError::new(
                            CodecErrorCode::OutOfLimit,
                            "encoded size exceeds the machine word".to_owned(),
                        ),
                    )
                } else {
                    Ok(inner + 1)
                }
            },
            OriginError::Opaque => Ok(1),
        }
    }

    fn raw_encode(&self, buf: &mut WriteBuf, purpose: &Option<RawEncodePurpose>) -> (r: CodecResult<
        (),
    >) {
        match self {
            OriginError::Code(c) => {
                proof {
                    lemma_be_bytes_len(*c as nat, 4);
                }
                if buf.remaining() < 5 {
                    return Err(
                        CodecError::new(
                            CodecErrorCode::OutOfLimit,
                            "origin error does not fit the remaining buffer".to_owned(),
                        ),
                    );
                }
                let ghost pre = *buf;
                varint_write(buf, 1);
                let ghost mid = *buf;
                be_write(buf, *c as u64, 4);
                proof {
                    WriteBuf::lemma_wrote_trans(
                        pre,
                        mid,
                        *buf,
                        varint_enc(1),
                        be_bytes(*c as nat, 4),
                    );
                }
                Ok(())
            },
            OriginError::Msg(s) => {
                if buf.remaining() < 1 {
                    return Err(
                        CodecError::new(
                            CodecErrorCode::OutOfLimit,
                            "origin error does not fit the remaining buffer".to_owned(),
                        ),
                    );
                }
                let ghost pre = *buf;
                varint_write(buf, 2);
                let ghost mid = *buf;
                s.raw_encode(buf, purpose)?;
                proof {
                    WriteBuf::lemma_wrote_trans(
                        pre,
                        mid,
                        *buf,
                        varint_enc(2),
                        s.encoding(crate::codec::effective_purpose(*purpose)),
                    );
                }
                Ok(())
            },
            OriginError::Opaque => {
                if buf.remaining() < 1 {
                    return Err(
                        CodecError::new(
                            CodecErrorCode::OutOfLimit,
                            "origin error does not fit the remaining buffer".to_owned(),
                        ),
                    );
                }
                varint_write(buf, 3);
                Ok(())
            },
        }
    }
}

impl RawDecode for OriginError {
    open spec fn dec_len(buf: Seq<u8>) -> Result<int, CodecErrorCode> {
        match varint_dec(buf) {
            None => Err(CodecErrorCode::InvalidFormat),
            Some((t, k)) => if t > usize::MAX {
                Err(CodecErrorCode::InvalidFormat)
            } else if t == 1 {
                if k + 4 <= buf.len() {
                    Ok(k + 4)
                } else {
                    Err(CodecErrorCode::InvalidFormat)
                }
            } else if t == 2 {
                match <String as RawDecode>::dec_len(buf.skip(k)) {
                    Ok(n) => Ok(k + n),
                    Err(c) => Err(c),
                }
            } else {
                Ok(k)
            },
        }
    }

    open spec fn dec_ok(buf: Seq<u8>, v: Self) -> bool {
        match varint_dec(buf) {
            None => false,
            Some((t, k)) => if t == 1 {
                v matches OriginError::Code(c) && k + 4 <= buf.len() && c as nat == be_val(
                    buf.subrange(k, k + 4),
                )
            } else if t == 2 {
                v matches OriginError::Msg(s) && <String as RawDecode>::dec_ok(buf.skip(k), s)
            } else if t <= usize::MAX {
                v matches OriginError::Msg(s) && s@ == Seq::<char>::empty()
            } else {
                false
            },
        }
    }

    /// An opaque cause encodes but comes back as the empty textual
    /// classification: the documented lossy boundary.
    open spec fn canonical(&self) -> bool {
        !(self is Opaque)
    }

    proof fn lemma_dec_len(buf: Seq<u8>) {
        lemma_varint_dec_bounds(buf);
        match varint_dec(buf) {
            Some((t, k)) => {
                <String as RawDecode>::lemma_dec_len(buf.skip(k));
            },
            None => {},
        }
    }

    proof fn lemma_round_trip(v: Self) {
        Self::lemma_dec_prefix(v, Seq::empty());
        assert(v.encoding(RawEncodePurpose::Serialize) + Seq::<u8>::empty() =~= v.encoding(
            RawEncodePurpose::Serialize,
        ));
    }

    fn raw_decode(buf: &[u8]) -> (r: CodecResult<(Self, &[u8])>) {
        proof {
            lemma_varint_dec_bounds(buf@);
        }
        match varint_read(buf) {
            None => Err(
                CodecError::new(
                    CodecErrorCode::InvalidFormat,
                    "malformed origin error tag".to_owned(),
                ),
            ),
            Some((t, k)) => {
                if t == 1 {
                    if buf.len() - k < 4 {
                        return Err(
                            CodecError::new(
                                CodecErrorCode::InvalidFormat,
                                message_with_count(
                                    "origin error code needs 4 bytes, found ",
                                    buf.len() - k,
                                ),
                            ),
                        );
                    }
                    let body = vstd::slice::slice_subrange(buf, k, buf.len());
                    let wide = be_read(body, 4);
                    proof {
                        lemma_be_val_bound(body@.take(4));
                        lemma_pow256_vals();
                        assert(body@.take(4) =~= buf@.subrange(k as int, k + 4));
                    }
                    let rest = vstd::slice::slice_subrange(buf, k + 4, buf.len());
                    Ok((OriginError::Code(wide as u32), rest))
                } else if t == 2 {
                    let body = vstd::slice::slice_subrange(buf, k, buf.len());
                    assert(body@ =~= buf@.skip(k as int));
                    let (s, rest) = <String as RawDecode>::raw_decode(body)?;
                    proof {
                        <String as RawDecode>::lemma_dec_len(body@);
                        let n2 = body@.len() - rest@.len();
                        assert(rest@ == body@.skip(n2));
                        vstd::seq_lib::lemma_seq_skip_of_skip(buf@, k as int, n2);
                        assert(body@.skip(n2) =~= buf@.skip(k + n2));
                        assert(rest@ =~= buf@.skip(buf@.len() - rest@.len()));
                    }
                    Ok((OriginError::Msg(s), rest))
                } else {
                    let rest = vstd::slice::slice_subrange(buf, k, buf.len());
                    let empty = String::new();
                    proof {
                        assert(vstd::utf8::encode_utf8(Seq::<char>::empty()).len() == 0);
                    }
                    Ok((OriginError::Msg(empty), rest))
                }
            },
        }
    }
}

impl PrefixStable for OriginError {
    proof fn lemma_dec_prefix(v: Self, tail: Seq<u8>) {
        let e = v.encoding(RawEncodePurpose::Serialize);
        match v {
            OriginError::Code(c) => {
                lemma_be_bytes_len(c as nat, 4);
                lemma_varint_round_trip(1, be_bytes(c as nat, 4) + tail);
                assert(e + tail =~= varint_enc(1) + (be_bytes(c as nat, 4) + tail));
                let k = varint_enc(1).len() as int;
                assert((e + tail).subrange(k, k + 4) =~= be_bytes(c as nat, 4));
                lemma_pow256_vals();
                lemma_be_round_trip(c as nat, 4);
            },
            OriginError::Msg(s) => {
                let se = s.encoding(RawEncodePurpose::Serialize);
                lemma_varint_round_trip(2, se + tail);
                assert(e + tail =~= varint_enc(2) + (se + tail));
                let k = varint_enc(2).len() as int;
                <String as PrefixStable>::lemma_dec_prefix(s, tail);
                assert((e + tail).skip(k) =~= se + tail);
            },
            OriginError::Opaque => {},
        }
    }
}

impl RawEncode for CodecError {
    closed spec fn valid(&self) -> bool {
        self.msg.valid() && self.origin.valid()
    }

    closed spec fn encoding(&self, purpose: RawEncodePurpose) -> Seq<u8> {
        self.code.encoding(purpose) + self.msg.encoding(purpose) + self.origin.encoding(purpose)
    }

    fn raw_measure(&self, purpose: &Option<RawEncodePurpose>) -> (r: CodecResult<usize>) {
        let a = self.code.raw_measure(purpose)?;
        let b = self.msg.raw_measure(purpose)?;
        let c = self.origin.raw_measure(purpose)?;
        if b > usize::MAX - a {
            return Err(
                CodecError::new(
                    CodecErrorCode::OutOfLimit,
                    "encoded size exceeds the machine word".to_owned(),
                ),
            );
        }
        if c > usize::MAX - a - b {
            return Err(
                CodecError::new(
                    CodecErrorCode::OutOfLimit,
                    "encoded size exceeds the machine word".to_owned(),
                ),
            );
        }
        Ok(a + b + c)
    }

    fn raw_encode(&self, buf: &mut WriteBuf, purpose: &Option<RawEncodePurpose>) -> (r: CodecResult<
        (),
    >) {
        let ghost pre = *buf;
        self.code.raw_encode(buf, purpose)?;
        let ghost mid1 = *buf;
        self.msg.raw_encode(buf, purpose)?;
        let ghost mid2 = *buf;
        self.origin.raw_encode(buf, purpose)?;
        proof {
            let p = crate::codec::effective_purpose(*purpose);
            WriteBuf::lemma_wrote_trans(
                pre,
                mid1,
                mid2,
                self.code.encoding(p),
                self.msg.encoding(p),
            );
            WriteBuf::lemma_wrote_trans(
                pre,
                mid2,
                *buf,
                self.code.encoding(p) + self.msg.encoding(p),
                self.origin.encoding(p),
            );
        }
        Ok(())
    }
}

impl RawDecode for CodecError {
    closed spec fn dec_len(buf: Seq<u8>) -> Result<int, CodecErrorCode> {
        match CodecErrorCode::dec_len(buf) {
            Err(c) => Err(c),
            Ok(n1) => match <String as RawDecode>::dec_len(buf.skip(n1)) {
                Err(c) => Err(c),
                Ok(n2) => match <Option<OriginError> as RawDecode>::dec_len(buf.skip(n1).skip(n2)) {
                    Err(c) => Err(c),
                    Ok(n3) => Ok(n1 + n2 + n3),
                },
            },
        }
    }

    closed spec fn dec_ok(buf: Seq<u8>, v: Self) -> bool {
        match CodecErrorCode::dec_len(buf) {
            Err(_) => false,
            Ok(n1) => CodecErrorCode::dec_ok(buf, v.code) && match <String as RawDecode>::dec_len(
                buf.skip(n1),
            ) {
                Err(_) => false,
                Ok(n2) => <String as RawDecode>::dec_ok(buf.skip(n1), v.msg)
                    && <Option<OriginError> as RawDecode>::dec_ok(buf.skip(n1).skip(n2), v.origin),
            },
        }
    }

    closed spec fn canonical(&self) -> bool {
        self.origin.canonical()
    }

    proof fn lemma_dec_len(buf: Seq<u8>) {
        CodecErrorCode::lemma_dec_len(buf);
        match CodecErrorCode::dec_len(buf) {
            Ok(n1) => {
                <String as RawDecode>::lemma_dec_len(buf.skip(n1));
                match <String as RawDecode>::dec_len(buf.skip(n1)) {
                    Ok(n2) => {
                        <Option<OriginError> as RawDecode>::lemma_dec_len(buf.skip(n1).skip(n2));
                    },
                    Err(_) => {},
                }
            },
            Err(_) => {},
        }
    }

    proof fn lemma_round_trip(v: Self) {
        Self::lemma_dec_prefix(v, Seq::empty());
        assert(v.encoding(RawEncodePurpose::Serialize) + Seq::<u8>::empty() =~= v.encoding(
            RawEncodePurpose::Serialize,
        ));
    }

    fn raw_decode(buf: &[u8]) -> (r: CodecResult<(Self, &[u8])>) {
        proof {
            Self::lemma_dec_len(buf@);
        }
        let (code, r1) = CodecErrorCode::raw_decode(buf)?;
        let (msg, r2) = <String as RawDecode>::raw_decode(r1)?;
        let (origin, r3) = <Option<OriginError> as RawDecode>::raw_decode(r2)?;
        proof {
            CodecErrorCode::lemma_dec_len(buf@);
            <String as RawDecode>::lemma_dec_len(r1@);
            <Option<OriginError> as RawDecode>::lemma_dec_len(r2@);
            let n1 = buf@.len() - r1@.len();
            let n2 = r1@.len() - r2@.len();
            let n3 = r2@.len() - r3@.len();
            assert(r1@ == buf@.skip(n1));
            assert(r2@ == r1@.skip(n2));
            assert(r3@ == r2@.skip(n3));
            vstd::seq_lib::lemma_seq_skip_of_skip(buf@, n1, n2);
            assert(r1@.skip(n2) =~= buf@.skip(n1 + n2));
            vstd::seq_lib::lemma_seq_skip_of_skip(buf@, n1 + n2, n3);
            assert(r2@.skip(n3) =~= buf@.skip(n1 + n2 + n3));
            assert(r3@ =~= buf@.skip(buf@.len() - r3@.len()));
        }
        Ok((CodecError { code, msg, origin }, r3))
    }
}

/// The composite error's wire layout, §-for-§ the external interface: the
/// classification code, then the length-prefixed message text, then the
/// presence-tagged origin, back to back.
pub proof fn lemma_codec_error_layout(e: CodecError, purpose: RawEncodePurpose)
    ensures
        e.encoding(purpose) == e.spec_code().encoding(purpose) + crate::text::text_encoding(
            e.spec_msg(),
        ) + e.spec_origin().encoding(purpose),
{
}

/// Decoding the composite error consumes its three parts back to back:
/// the classification code, the message text, the optional origin.
pub proof fn lemma_codec_error_dec_len(buf: Seq<u8>)
    ensures
        CodecError::dec_len(buf) == (match CodecErrorCode::dec_len(buf) {
            Err(c) => Err::<int, CodecErrorCode>(c),
            Ok(n1) => match <String as RawDecode>::dec_len(buf.skip(n1)) {
                Err(c) => Err(c),
                Ok(n2) => match <Option<OriginError> as RawDecode>::dec_len(
                    buf.skip(n1).skip(n2),
                ) {
                    Err(c) => Err(c),
                    Ok(n3) => Ok(n1 + n2 + n3),
                },
            },
        }),
{
}

/// The value a composite-error decode stands for, part by part.
pub proof fn lemma_codec_error_dec_ok(buf: Seq<u8>, e: CodecError)
    ensures
        CodecError::dec_ok(buf, e) == (match CodecErrorCode::dec_len(buf) {
            Err(_) => false,
            Ok(n1) => CodecErrorCode::dec_ok(buf, e.spec_code()) && match <String as RawDecode>::dec_len(
                buf.skip(n1),
            ) {
                Err(_) => false,
                Ok(n2) => crate::text::text_dec_ok(buf.skip(n1), e.spec_msg()) && <Option<
                    OriginError,
                > as RawDecode>::dec_ok(buf.skip(n1).skip(n2), e.spec_origin()),
            },
        }),
{
}

impl PrefixStable for CodecError {
    proof fn lemma_dec_prefix(v: Self, tail: Seq<u8>) {
        let p = RawEncodePurpose::Serialize;
        let e1 = v.code.encoding(p);
        let e2 = v.msg.encoding(p);
        let e3 = v.origin.encoding(p);
        let e = v.encoding(p);
        CodecErrorCode::lemma_dec_prefix(v.code, e2 + (e3 + tail));
        assert(e + tail =~= e1 + (e2 + (e3 + tail)));
        let n1 = e1.len() as int;
        <String as PrefixStable>::lemma_dec_prefix(v.msg, e3 + tail);
        assert((e + tail).skip(n1) =~= e2 + (e3 + tail));
        let n2 = e2.len() as int;
        <Option<OriginError> as PrefixStable>::lemma_dec_prefix(v.origin, tail);
        assert((e + tail).skip(n1).skip(n2) =~= e3 + tail);
    }
}

} // verus!
