//! The buffer-protocol core: the measure/encode/decode capability contracts
//! and the forward-consuming buffer discipline.
//!
//! Encoding owns a strictly shrinking write window: a [`WriteBuf`] couples an
//! exclusively held byte region with a cursor, and every encode step advances
//! the cursor over exactly the bytes it wrote.  Decoding consumes a prefix of
//! a read-only input slice and returns the unread suffix.
use crate::errors::{CodecError, CodecErrorCode, CodecResult};
use vstd::prelude::*;

verus! {

/// Why a value is being encoded: `Serialize` asks for the full canonical
/// encoding intended for storage or transmission; `Hash` asks for an encoding
/// that is only fed to a digest, under which a type may omit volatile fields
/// as long as equal values keep equal hash encodings.
#[derive(Debug, Clone, PartialEq, Eq, Structural)]
pub enum RawEncodePurpose {
    Serialize,
    Hash,
}

/// The purpose an encode call runs under: an absent purpose means the full
/// `Serialize` encoding.
pub open spec fn effective_purpose(p: Option<RawEncodePurpose>) -> RawEncodePurpose {
    match p {
        Some(q) => q,
        None => RawEncodePurpose::Serialize,
    }
}

/// Caller-supplied decode steering: a schema `version` meaningful only to
/// types that branch on it, and a `format` tag selecting which wire layout
/// governs an opaque payload.
#[derive(Debug, Clone)]
pub struct RawDecodeOption {
    pub version: u8,
    pub format: u8,
}

impl Default for RawDecodeOption {
    fn default() -> (r: Self)
        ensures
            r.version == 0,
            r.format == crate::OBJECT_CONTENT_CODEC_FORMAT_RAW,
    {
        Self { version: 0, format: crate::OBJECT_CONTENT_CODEC_FORMAT_RAW }
    }
}

/// An exclusively owned byte region plus a write cursor.  Encode steps only
/// ever move the cursor forward, over exactly the bytes they wrote; the
/// region's length never changes.
pub struct WriteBuf {
    data: Vec<u8>,
    pos: usize,
}

impl WriteBuf {
    /// The whole underlying byte region.
    pub closed spec fn bytes(&self) -> Seq<u8> {
        self.data@
    }

    /// The write cursor: everything before it has been written.
    pub closed spec fn cursor(&self) -> int {
        self.pos as int
    }

    pub open spec fn wf(&self) -> bool {
        0 <= self.cursor() <= self.bytes().len()
    }

    /// `post` is `pre` with exactly `s` written at the cursor and the cursor
    /// advanced past it.
    pub open spec fn wrote(pre: WriteBuf, post: WriteBuf, s: Seq<u8>) -> bool {
        &&& post.bytes().len() == pre.bytes().len()
        &&& post.cursor() == pre.cursor() + s.len()
        &&& post.bytes() == pre.bytes().take(pre.cursor()) + s + pre.bytes().skip(
            pre.cursor() + s.len(),
        )
    }

    /// Writing is cumulative: two consecutive writes are one write of the
    /// concatenation.
    pub proof fn lemma_wrote_trans(a: WriteBuf, b: WriteBuf, c: WriteBuf, s1: Seq<u8>, s2: Seq<u8>)
        requires
            a.wf(),
            Self::wrote(a, b, s1),
            Self::wrote(b, c, s2),
        ensures
            Self::wrote(a, c, s1 + s2),
    {
        assert(c.bytes() =~= a.bytes().take(a.cursor()) + (s1 + s2) + a.bytes().skip(
            a.cursor() + (s1 + s2).len(),
        ));
    }

    /// A fresh all-zero buffer of the given length, cursor at the start.
    pub fn zeroed(len: usize) -> (r: WriteBuf)
        ensures
            r.wf(),
            r.cursor() == 0,
            r.bytes().len() == len,
    {
        WriteBuf { data: vec![0u8; len], pos: 0 }
    }

    pub fn position(&self) -> (r: usize)
        ensures
            r == self.cursor(),
    {
        self.pos
    }

    pub fn len(&self) -> (r: usize)
        ensures
            r == self.bytes().len(),
    {
        self.data.len()
    }

    /// How many bytes of the window are still unwritten.
    pub fn remaining(&self) -> (r: usize)
        requires
            self.wf(),
        ensures
            r == self.bytes().len() - self.cursor(),
    {
        self.data.len() - self.pos
    }

    /// Give up the region, e.g. after asserting that the window was filled
    /// exactly.
    pub fn into_vec(self) -> (r: Vec<u8>)
        ensures
            r@ == self.bytes(),
    {
        self.data
    }

    /// Write a single byte at the cursor.
    pub fn put_u8(&mut self, b: u8)
        requires
            old(self).wf(),
            old(self).cursor() < old(self).bytes().len(),
        ensures
            final(self).wf(),
            Self::wrote(*old(self), *final(self), seq![b]),
    {
        let i = self.pos;
        let n = self.data.len();
        self.data[i] = b;
        self.pos = i + 1;
        proof {
            assert(self.bytes() =~= old(self).bytes().take(old(self).cursor()) + seq![b] + old(
                self,
            ).bytes().skip(old(self).cursor() + 1));
        }
    }

    /// Write a whole slice at the cursor.
    pub fn put_slice(&mut self, s: &[u8])
        requires
            old(self).wf(),
            old(self).cursor() + s@.len() <= old(self).bytes().len(),
        ensures
            final(self).wf(),
            Self::wrote(*old(self), *final(self), s@),
    {
        let ghost pre = *self;
        let n = s.len();
        let mut i: usize = 0;
        proof {
            assert(s@.take(0) =~= Seq::<u8>::empty());
            assert(pre.bytes() =~= pre.bytes().take(pre.cursor()) + Seq::<u8>::empty()
                + pre.bytes().skip(pre.cursor()));
        }
        while i < n
            invariant
                n == s@.len(),
                pre.wf(),
                pre.cursor() + n <= pre.bytes().len(),
                0 <= i <= n,
                self.wf(),
                Self::wrote(pre, *self, s@.take(i as int)),
            decreases n - i,
        {
            let ghost mid = *self;
            let b = *vstd::slice::slice_index_get(s, i);
            self.put_u8(b);
            proof {
                Self::lemma_wrote_trans(pre, mid, *self, s@.take(i as int), seq![b]);
                assert(s@.take(i as int) + seq![b] =~= s@.take(i + 1));
            }
            i = i + 1;
        }
        proof {
            assert(s@.take(n as int) =~= s@);
        }
    }
}

/// The encoding capability.  Each implementing type fixes, as the spec
/// function [`RawEncode::encoding`], the exact byte sequence a value produces
/// under each purpose; `raw_measure` and `raw_encode` are held to it.
pub trait RawEncode: Sized {
    /// Values the codec accepts; encoding is only owed on these.
    open spec fn valid(&self) -> bool {
        true
    }

    /// The exact bytes this value encodes to under `purpose`.
    spec fn encoding(&self, purpose: RawEncodePurpose) -> Seq<u8>;

    /// The exact number of bytes `raw_encode` will write — never an upper
    /// bound.  Fails, with the out-of-limit classification, only when that
    /// count does not fit the machine word.
    fn raw_measure(&self, purpose: &Option<RawEncodePurpose>) -> (r: CodecResult<usize>)
        requires
            self.valid(),
        ensures
            ({
                let e = self.encoding(effective_purpose(*purpose));
                &&& (r matches Ok(n) ==> n == e.len())
                &&& (r is Ok <==> e.len() <= usize::MAX)
                &&& (r matches Err(err) ==> err.spec_code() == CodecErrorCode::OutOfLimit)
            }),
    ;

    /// Write the value's encoding at the buffer's cursor.  Succeeds exactly
    /// when the encoding fits the remaining window; failure carries the
    /// out-of-limit classification, and the window's contents are then
    /// unspecified and must not be reused.
    fn raw_encode(&self, buf: &mut WriteBuf, purpose: &Option<RawEncodePurpose>) -> (r: CodecResult<
        (),
    >)
        requires
            self.valid(),
            old(buf).wf(),
        ensures
            ({
                let e = self.encoding(effective_purpose(*purpose));
                &&& final(buf).wf()
                &&& final(buf).bytes().len() == old(buf).bytes().len()
                &&& (r is Ok <==> old(buf).cursor() + e.len() <= old(buf).bytes().len())
                &&& (r is Ok ==> WriteBuf::wrote(*old(buf), *final(buf), e))
                &&& (r is Err ==> final(buf).cursor() >= old(buf).cursor())
                &&& (r matches Err(err) ==> err.spec_code() == CodecErrorCode::OutOfLimit)
            }),
    ;

    /// Encode and report how many bytes were written.
    fn raw_tail_encode(&self, buf: &mut WriteBuf, purpose: &Option<RawEncodePurpose>) -> (r:
        CodecResult<usize>)
        requires
            self.valid(),
            old(buf).wf(),
        ensures
            ({
                let e = self.encoding(effective_purpose(*purpose));
                &&& final(buf).wf()
                &&& final(buf).bytes().len() == old(buf).bytes().len()
                &&& (r is Ok <==> old(buf).cursor() + e.len() <= old(buf).bytes().len())
                &&& (r matches Ok(n) ==> WriteBuf::wrote(*old(buf), *final(buf), e) && n == e.len())
                &&& (r matches Err(err) ==> err.spec_code() == CodecErrorCode::OutOfLimit)
            }),
        default_ensures
            true,
    {
        let start = buf.position();
        self.raw_encode(buf, purpose)?;
        let end = buf.position();
        Ok(end - start)
    }

    /// Measure, allocate an exactly sized buffer, encode into it, and return
    /// it; the window is asserted to be filled completely.
    fn raw_encode_to_buffer(&self) -> (r: CodecResult<Vec<u8>>)
        requires
            self.valid(),
        ensures
            ({
                let e = self.encoding(RawEncodePurpose::Serialize);
                &&& (r matches Ok(v) ==> v@ == e)
                &&& (r is Ok <==> e.len() <= usize::MAX)
                &&& (r matches Err(err) ==> err.spec_code() == CodecErrorCode::OutOfLimit)
            }),
        default_ensures
            true,
    {
        let size = self.raw_measure(&None)?;
        let mut buf = WriteBuf::zeroed(size);
        self.raw_encode(&mut buf, &None)?;
        assert(buf.cursor() == buf.bytes().len());
        proof {
            assert(buf.bytes() =~= self.encoding(RawEncodePurpose::Serialize));
        }
        Ok(buf.into_vec())
    }

    /// Encode under the `Hash` purpose into an exactly sized buffer.
    fn raw_hash_encode(&self) -> (r: CodecResult<Vec<u8>>)
        requires
            self.valid(),
        ensures
            ({
                let e = self.encoding(RawEncodePurpose::Hash);
                &&& (r matches Ok(v) ==> v@ == e)
                &&& (r is Ok <==> e.len() <= usize::MAX)
                &&& (r matches Err(err) ==> err.spec_code() == CodecErrorCode::OutOfLimit)
            }),
        default_ensures
            true,
    {
        let purpose = Some(RawEncodePurpose::Hash);
        let size = self.raw_measure(&purpose)?;
        let mut buf = WriteBuf::zeroed(size);
        self.raw_encode(&mut buf, &purpose)?;
        assert(buf.cursor() == buf.bytes().len());
        proof {
            assert(buf.bytes() =~= self.encoding(RawEncodePurpose::Hash));
        }
        Ok(buf.into_vec())
    }
}

/// The decoding capability.  Each implementing type fixes, as spec functions,
/// how many bytes a decode of a given input consumes (or with which error
/// code it fails), and which values the consumed prefix stands for; and it
/// proves the round-trip law tying decoding back to [`RawEncode::encoding`].
pub trait RawDecode: RawEncode {
    /// How many bytes decoding `buf` consumes, or the error code it fails
    /// with.
    spec fn dec_len(buf: Seq<u8>) -> Result<int, CodecErrorCode>;

    /// Whether `v` is the value the consumed prefix of `buf` stands for
    /// (unique up to the type's abstraction).
    spec fn dec_ok(buf: Seq<u8>, v: Self) -> bool;

    /// Values whose encoding decodes back to themselves.  Everything is
    /// canonical unless a type documents a lossy corner.
    open spec fn canonical(&self) -> bool {
        true
    }

    /// A successful decode consumes a prefix.
    proof fn lemma_dec_len(buf: Seq<u8>)
        ensures
            Self::dec_len(buf) matches Ok(n) ==> 0 <= n <= buf.len(),
    ;

    /// The round-trip law: decoding a canonical value's full `Serialize`
    /// encoding succeeds, consumes every byte, and yields the value back.
    proof fn lemma_round_trip(v: Self)
        requires
            v.valid(),
            v.canonical(),
        ensures
            Self::dec_len(v.encoding(RawEncodePurpose::Serialize)) == Ok::<int, CodecErrorCode>(
                v.encoding(RawEncodePurpose::Serialize).len() as int,
            ),
            Self::dec_ok(v.encoding(RawEncodePurpose::Serialize), v),
    ;

    /// Decode a value from a prefix of `buf`, returning it with the unread
    /// suffix.
    fn raw_decode(buf: &[u8]) -> (r: CodecResult<(Self, &[u8])>)
        ensures
            r is Ok <==> Self::dec_len(buf@) is Ok,
            ({
                match r {
                    Ok((v, rest)) => {
                        &&& Self::dec_len(buf@) == Ok::<int, CodecErrorCode>(
                            buf@.len() - rest@.len(),
                        )
                        &&& Self::dec_ok(buf@, v)
                        &&& v.valid()
                        &&& rest@ == buf@.skip(buf@.len() - rest@.len())
                    },
                    Err(e) => Self::dec_len(buf@) matches Err(c) && e.spec_code() == c,
                }
            }),
    ;

    /// Version- and format-aware decoding; by default the option is ignored
    /// and decoding forwards to the native layout.
    fn raw_decode_with_option<'a>(buf: &'a [u8], _opt: &RawDecodeOption) -> (r: CodecResult<
        (Self, &'a [u8]),
    >)
        ensures
            r is Ok <==> Self::dec_len(buf@) is Ok,
            ({
                match r {
                    Ok((v, rest)) => {
                        &&& Self::dec_len(buf@) == Ok::<int, CodecErrorCode>(
                            buf@.len() - rest@.len(),
                        )
                        &&& Self::dec_ok(buf@, v)
                        &&& v.valid()
                        &&& rest@ == buf@.skip(buf@.len() - rest@.len())
                    },
                    Err(e) => Self::dec_len(buf@) matches Err(c) && e.spec_code() == c,
                }
            }),
        default_ensures
            true,
    {
        Self::raw_decode(buf)
    }
}

/// Encoding that threads a caller-owned context through every step, for
/// formats whose layout depends on ambient state.  Implementors fix the
/// bytes as [`RawEncodeWithContext::encoding_with_context`], a function of
/// the value and the context's state at the call.
pub trait RawEncodeWithContext<Context>: Sized {
    /// The exact bytes this value encodes to under `purpose`, given the
    /// context state.
    spec fn encoding_with_context(&self, context: Context, purpose: RawEncodePurpose) -> Seq<u8>;

    fn raw_measure_with_context(
        &self,
        context: &mut Context,
        purpose: &Option<RawEncodePurpose>,
    ) -> (r: CodecResult<usize>)
        ensures
            r matches Ok(n) ==> n == self.encoding_with_context(
                *old(context),
                effective_purpose(*purpose),
            ).len(),
    ;

    fn raw_encode_with_context(
        &self,
        buf: &mut WriteBuf,
        context: &mut Context,
        purpose: &Option<RawEncodePurpose>,
    ) -> (r: CodecResult<()>)
        requires
            old(buf).wf(),
        ensures
            ({
                let e = self.encoding_with_context(*old(context), effective_purpose(*purpose));
                &&& final(buf).wf()
                &&& final(buf).bytes().len() == old(buf).bytes().len()
                &&& (r is Ok ==> WriteBuf::wrote(*old(buf), *final(buf), e))
            }),
    ;

    /// Encode and report how many bytes were written.
    fn raw_tail_encode_with_context(
        &self,
        buf: &mut WriteBuf,
        context: &mut Context,
        purpose: &Option<RawEncodePurpose>,
    ) -> (r: CodecResult<usize>)
        requires
            old(buf).wf(),
        ensures
            ({
                let e = self.encoding_with_context(*old(context), effective_purpose(*purpose));
                &&& final(buf).wf()
                &&& final(buf).bytes().len() == old(buf).bytes().len()
                &&& (r matches Ok(n) ==> WriteBuf::wrote(*old(buf), *final(buf), e) && n
                    == e.len())
            }),
        default_ensures
            true,
    {
        let start = buf.position();
        self.raw_encode_with_context(buf, context, purpose)?;
        let end = buf.position();
        Ok(end - start)
    }
}

/// Decoding that consumes a caller-owned context.
pub trait RawDecodeWithContext<Context>: Sized {
    /// How many bytes decoding `buf` under the context consumes, or the
    /// error code it fails with.
    spec fn dec_len_with_context(buf: Seq<u8>, context: Context) -> Result<int, CodecErrorCode>;

    /// Whether `v` is the value the consumed prefix of `buf` stands for
    /// under the context.
    spec fn dec_ok_with_context(buf: Seq<u8>, context: Context, v: Self) -> bool;

    fn raw_decode_with_context<'a>(buf: &'a [u8], context: Context) -> (r: CodecResult<
        (Self, &'a [u8]),
    >)
        ensures
            r is Ok <==> Self::dec_len_with_context(buf@, context) is Ok,
            ({
                match r {
                    Ok((v, rest)) => {
                        &&& Self::dec_len_with_context(buf@, context) == Ok::<
                            int,
                            CodecErrorCode,
                        >(buf@.len() - rest@.len())
                        &&& Self::dec_ok_with_context(buf@, context, v)
                        &&& rest@ == buf@.skip(buf@.len() - rest@.len())
                    },
                    Err(e) => Self::dec_len_with_context(buf@, context) matches Err(c)
                        && e.spec_code() == c,
                }
            }),
    ;
}

/// Codecs whose decode is stable under appended bytes: decoding reads the
/// value's encoding and leaves whatever follows untouched.  This is the
/// property that lets fields be laid out back to back in the native layout;
/// the structured-message backend deliberately lacks it, since that backend
/// consumes its whole input.
pub trait PrefixStable: RawDecode {
    proof fn lemma_dec_prefix(v: Self, tail: Seq<u8>)
        requires
            v.valid(),
            v.canonical(),
        ensures
            Self::dec_len(v.encoding(RawEncodePurpose::Serialize) + tail) == Ok::<
                int,
                CodecErrorCode,
            >(v.encoding(RawEncodePurpose::Serialize).len() as int),
            Self::dec_ok(v.encoding(RawEncodePurpose::Serialize) + tail, v),
    ;
}

/// Statically known encoded sizes: `spec_raw_bytes` is `Some(n)` when every
/// value of the type encodes to exactly `n` bytes under every purpose.  A
/// type whose size merely stays inside static bounds keeps that `None` and
/// gives the bounds instead.
pub trait RawFixedBytes {
    spec fn spec_raw_bytes() -> Option<usize>;

    open spec fn spec_raw_max_bytes() -> Option<usize> {
        Self::spec_raw_bytes()
    }

    open spec fn spec_raw_min_bytes() -> Option<usize> {
        Self::spec_raw_bytes()
    }

    fn raw_bytes() -> (r: Option<usize>)
        ensures
            r == Self::spec_raw_bytes(),
    ;

    fn raw_max_bytes() -> (r: Option<usize>)
        ensures
            r == Self::spec_raw_max_bytes(),
    ;

    fn raw_min_bytes() -> (r: Option<usize>)
        ensures
            r == Self::spec_raw_min_bytes(),
    ;
}

/// Values that can be merged when both sides already agree.
pub trait RawMergable: Clone {
    /// Whether the equality test below is meaningful for this type.
    spec fn merge_obeys() -> bool;

    /// Merging is allowed exactly when both values are equal.
    spec fn spec_merge_ok(&self, other: &Self) -> bool;

    fn raw_merge_ok(&self, other: &Self) -> (r: bool)
        ensures
            Self::merge_obeys() ==> r == self.spec_merge_ok(other),
    ;
}

impl<T: RawEncode + Eq + Clone + vstd::std_specs::cmp::PartialEqSpec> RawMergable for T {
    open spec fn merge_obeys() -> bool {
        T::obeys_eq_spec()
    }

    open spec fn spec_merge_ok(&self, other: &Self) -> bool {
        self.eq_spec(other)
    }

    fn raw_merge_ok(&self, other: &Self) -> (r: bool) {
        self.eq(other)
    }
}

/// Hash stability: logically equal values produce equal `Hash`-purpose
/// encodings, whatever their `Serialize` encodings look like.
pub proof fn lemma_hash_stability<T: RawEncode>(v1: T, v2: T)
    requires
        v1 == v2,
    ensures
        v1.encoding(RawEncodePurpose::Hash) == v2.encoding(RawEncodePurpose::Hash),
{
}

/// The round-trip law at the crate's door: for every canonical value of
/// every codec-carrying type, decoding the full encoding gives the value
/// back with nothing left unread.
pub proof fn lemma_decode_inverts_encode<T: RawDecode>(v: T)
    requires
        v.valid(),
        v.canonical(),
    ensures
        T::dec_len(v.encoding(RawEncodePurpose::Serialize)) == Ok::<int, CodecErrorCode>(
            v.encoding(RawEncodePurpose::Serialize).len() as int,
        ),
        T::dec_ok(v.encoding(RawEncodePurpose::Serialize), v),
{
    T::lemma_round_trip(v);
}

} // verus!
