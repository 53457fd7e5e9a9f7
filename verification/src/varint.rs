//! The unsigned variable-length integer primitive: seven value bits per
//! byte, least significant group first, the high bit of a byte marking that
//! another byte follows.  [`USize`] wraps a machine word and is the ordinal
//! and length carrier of the native wire layout.
use crate::codec::{RawDecode, RawEncode, RawEncodePurpose, WriteBuf};
use crate::errors::{CodecError, CodecErrorCode, CodecResult};
use vstd::arithmetic::div_mod::{
    lemma_div_is_strictly_smaller, lemma_fundamental_div_mod, lemma_multiply_divide_lt,
};
use vstd::arithmetic::power::pow;
use vstd::prelude::*;

verus! {

/// The bytes of the variable-length encoding of `n`.
pub open spec fn varint_enc(n: nat) -> Seq<u8>
    decreases n,
{
    if n < 128 {
        seq![n as u8]
    } else {
        seq![(128 + (n % 128)) as u8] + varint_enc(n / 128)
    }
}

/// Decoding a variable-length integer from the front of `b`: the value and
/// the number of bytes consumed, or nothing when `b` ends inside the
/// encoding.
pub open spec fn varint_dec(b: Seq<u8>) -> Option<(nat, int)>
    decreases b.len(),
{
    if b.len() == 0 {
        None
    } else if b[0] < 128 {
        Some((b[0] as nat, 1))
    } else {
        match varint_dec(b.skip(1)) {
            Some((v, k)) => Some((((b[0] - 128) + 128 * v) as nat, k + 1)),
            None => None,
        }
    }
}

/// A successful varint decode consumes between one byte and the whole input.
pub proof fn lemma_varint_dec_bounds(b: Seq<u8>)
    ensures
        varint_dec(b) matches Some((v, k)) ==> 1 <= k <= b.len(),
    decreases b.len(),
{
    if b.len() != 0 && b[0] >= 128 {
        lemma_varint_dec_bounds(b.skip(1));
    }
}

/// The varint round trip, stable under any appended tail: decoding the
/// encoding of `n` followed by anything gives back `n`, consuming exactly
/// the encoding.
pub proof fn lemma_varint_round_trip(n: nat, tail: Seq<u8>)
    ensures
        varint_dec(varint_enc(n) + tail) == Some((n, varint_enc(n).len() as int)),
    decreases n,
{
    let e = varint_enc(n);
    if n < 128 {
        assert((e + tail)[0] == n as u8);
    } else {
        let b0: u8 = (128 + (n % 128)) as u8;
        assert((e + tail)[0] == b0);
        assert((e + tail).skip(1) =~= varint_enc(n / 128) + tail);
        lemma_div_is_strictly_smaller(n as int, 128);
        lemma_varint_round_trip(n / 128, tail);
        lemma_fundamental_div_mod(n as int, 128);
        assert((b0 - 128) + 128 * (n / 128) == n as int);
    }
}

/// An encoding never takes more than `k` bytes for values below `128^k`.
proof fn lemma_varint_len_le(n: nat, k: nat)
    requires
        k >= 1,
        n < pow(128, k),
    ensures
        varint_enc(n).len() <= k,
    decreases k,
{
    reveal(pow);
    if n >= 128 {
        assert(pow(128, k) == 128 * pow(128, (k - 1) as nat));
        lemma_multiply_divide_lt(n as int, 128, pow(128, (k - 1) as nat));
        if k == 1 {
            assert(pow(128, 0nat) == 1);
            assert(false);
        }
        lemma_varint_len_le(n / 128, (k - 1) as nat);
    }
}

/// No machine word needs more than ten bytes.
pub proof fn lemma_varint_len_usize(n: nat)
    requires
        n <= usize::MAX,
    ensures
        varint_enc(n).len() <= 10,
{
    reveal(pow);
    assert(pow(128, 0) == 1);
    assert(pow(128, 1) == 128 * pow(128, 0));
    assert(pow(128, 2) == 128 * pow(128, 1));
    assert(pow(128, 3) == 128 * pow(128, 2));
    assert(pow(128, 4) == 128 * pow(128, 3));
    assert(pow(128, 5) == 128 * pow(128, 4));
    assert(pow(128, 6) == 128 * pow(128, 5));
    assert(pow(128, 7) == 128 * pow(128, 6));
    assert(pow(128, 8) == 128 * pow(128, 7));
    assert(pow(128, 9) == 128 * pow(128, 8));
    assert(pow(128, 10) == 128 * pow(128, 9));
    assert(pow(128, 10) == 0x400000000000000000);
    assert(n < pow(128, 10));
    lemma_varint_len_le(n, 10);
}

/// The exact encoded length of `v`.
pub fn varint_size(v: usize) -> (r: usize)
    ensures
        r == varint_enc(v as nat).len(),
        r <= 10,
{
    proof {
        lemma_varint_len_usize(v as nat);
    }
    let mut rest = v;
    let mut size: usize = 1;
    while rest >= 128
        invariant
            varint_enc(v as nat).len() == size - 1 + varint_enc(rest as nat).len(),
            1 <= size,
            size + varint_enc(rest as nat).len() <= 11,
        decreases rest,
    {
        proof {
            lemma_div_is_strictly_smaller(rest as int, 128);
        }
        rest = rest / 128;
        size = size + 1;
    }
    size
}

/// Write the encoding of `v` at the cursor.
pub fn varint_write(buf: &mut WriteBuf, v: usize)
    requires
        old(buf).wf(),
        old(buf).cursor() + varint_enc(v as nat).len() <= old(buf).bytes().len(),
    ensures
        final(buf).wf(),
        WriteBuf::wrote(*old(buf), *final(buf), varint_enc(v as nat)),
{
    let ghost pre = *buf;
    let ghost whole = varint_enc(v as nat);
    let ghost mut done: Seq<u8> = Seq::empty();
    let mut rest = v;
    proof {
        assert(done + varint_enc(rest as nat) =~= whole);
        assert(WriteBuf::wrote(pre, *buf, done)) by {
            assert(pre.bytes() =~= pre.bytes().take(pre.cursor()) + done + pre.bytes().skip(
                pre.cursor(),
            ));
        }
    }
    while rest >= 128
        invariant
            pre.wf(),
            buf.wf(),
            WriteBuf::wrote(pre, *buf, done),
            done + varint_enc(rest as nat) == whole,
            pre.cursor() + whole.len() <= pre.bytes().len(),
        decreases rest,
    {
        let ghost mid = *buf;
        let b0: u8 = 128 + (rest % 128) as u8;
        proof {
            assert(varint_enc(rest as nat) == seq![b0] + varint_enc((rest / 128) as nat));
            assert(buf.cursor() < pre.bytes().len());
        }
        buf.put_u8(b0);
        proof {
            WriteBuf::lemma_wrote_trans(pre, mid, *buf, done, seq![b0]);
            done = done + seq![b0];
            assert(done + varint_enc((rest / 128) as nat) =~= whole);
            lemma_div_is_strictly_smaller(rest as int, 128);
        }
        rest = rest / 128;
    }
    let ghost mid = *buf;
    proof {
        assert(varint_enc(rest as nat) == seq![rest as u8]);
        assert(buf.cursor() < pre.bytes().len());
    }
    buf.put_u8(rest as u8);
    proof {
        WriteBuf::lemma_wrote_trans(pre, mid, *buf, done, seq![rest as u8]);
        assert(done + seq![rest as u8] =~= whole);
    }
}

/// Read a varint from the front of `buf`: the value and the count of bytes
/// consumed.  Fails when the input ends inside an encoding or the value does
/// not fit a machine word.
pub fn varint_read(buf: &[u8]) -> (r: Option<(usize, usize)>)
    ensures
        ({
            match varint_dec(buf@) {
                Some((v, k)) => if v <= usize::MAX {
                    r == Some((v as usize, k as usize))
                } else {
                    r is None
                },
                None => r is None,
            }
        }),
    decreases buf@.len(),
{
    proof {
        lemma_varint_dec_bounds(buf@);
    }
    if buf.len() == 0 {
        return None;
    }
    let b0 = *vstd::slice::slice_index_get(buf, 0);
    if b0 < 128 {
        return Some((b0 as usize, 1));
    }
    let rest = vstd::slice::slice_subrange(buf, 1, buf.len());
    assert(rest@ =~= buf@.skip(1));
    proof {
        lemma_varint_dec_bounds(rest@);
    }
    match varint_read(rest) {
        None => None,
        Some((v, k)) => {
            let low = (b0 - 128) as usize;
            if v > (usize::MAX - low) / 128 {
                proof {
                    assert(varint_dec(rest@) matches Some((sv, sk)) && sv == v as nat);
                    assert(low + 128 * (v as int) > usize::MAX) by (nonlinear_arith)
                        requires
                            v > (usize::MAX - low) / 128,
                            low < 128,
                            low <= usize::MAX,
                            v <= usize::MAX,
                    ;
                }
                None
            } else {
                proof {
                    assert(low + 128 * (v as int) <= usize::MAX) by (nonlinear_arith)
                        requires
                            v <= (usize::MAX - low) / 128,
                            low < 128,
                            low <= usize::MAX,
                    ;
                }
                Some((low + 128 * v, k + 1))
            }
        },
    }
}

/// A machine word carried on the wire as a variable-length integer.
#[derive(Debug, Clone, Copy, PartialEq, Eq, Structural)]
pub struct USize(pub usize);

impl USize {
    pub fn value(&self) -> (r: usize)
        ensures
            r == self.0,
    {
        self.0
    }
}

impl RawEncode for USize {
    open spec fn encoding(&self, purpose: RawEncodePurpose) -> Seq<u8> {
        varint_enc(self.0 as nat)
    }

    fn raw_measure(&self, purpose: &Option<RawEncodePurpose>) -> (r: CodecResult<usize>) {
        Ok(varint_size(self.0))
    }

    fn raw_encode(&self, buf: &mut WriteBuf, purpose: &Option<RawEncodePurpose>) -> (r: CodecResult<
        (),
    >) {
        let size = varint_size(self.0);
        if size > buf.remaining() {
            return Err(
                CodecError::new(
                    CodecErrorCode::OutOfLimit,
                    "varint does not fit the remaining buffer".to_owned(),
                ),
            );
        }
        varint_write(buf, self.0);
        Ok(())
    }
}

impl RawDecode for USize {
    open spec fn dec_len(buf: Seq<u8>) -> Result<int, CodecErrorCode> {
        match varint_dec(buf) {
            Some((v, k)) => if v <= usize::MAX {
                Ok(k)
            } else {
                Err(CodecErrorCode::InvalidFormat)
            },
            None => Err(CodecErrorCode::InvalidFormat),
        }
    }

    open spec fn dec_ok(buf: Seq<u8>, v: Self) -> bool {
        varint_dec(buf) matches Some((n, k)) && n == v.0 as nat
    }

    proof fn lemma_dec_len(buf: Seq<u8>) {
        lemma_varint_dec_bounds(buf);
    }

    proof fn lemma_round_trip(v: Self) {
        lemma_usize_dec_prefix(v, Seq::empty());
        assert(v.encoding(RawEncodePurpose::Serialize) + Seq::<u8>::empty() =~= v.encoding(
            RawEncodePurpose::Serialize,
        ));
    }

    fn raw_decode(buf: &[u8]) -> (r: CodecResult<(Self, &[u8])>) {
        proof {
            lemma_varint_dec_bounds(buf@);
        }
        match varint_read(buf) {
            Some((v, k)) => {
                let rest = vstd::slice::slice_subrange(buf, k, buf.len());
                Ok((USize(v), rest))
            },
            None => Err(
                CodecError::new(CodecErrorCode::InvalidFormat, "malformed varint".to_owned()),
            ),
        }
    }
}

impl crate::codec::RawFixedBytes for USize {
    open spec fn spec_raw_bytes() -> Option<usize> {
        None
    }

    open spec fn spec_raw_max_bytes() -> Option<usize> {
        Some(10)
    }

    open spec fn spec_raw_min_bytes() -> Option<usize> {
        Some(1)
    }

    fn raw_bytes() -> (r: Option<usize>) {
        None
    }

    fn raw_max_bytes() -> (r: Option<usize>) {
        Some(10)
    }

    fn raw_min_bytes() -> (r: Option<usize>) {
        Some(1)
    }
}

/// A machine word's encoding stays inside the static bounds the
/// [`crate::codec::RawFixedBytes`] impl states.
pub proof fn lemma_usize_size_bounds(v: USize, purpose: RawEncodePurpose)
    ensures
        1 <= v.encoding(purpose).len() <= 10,
{
    lemma_varint_len_usize(v.0 as nat);
}

impl crate::codec::PrefixStable for USize {
    proof fn lemma_dec_prefix(v: Self, tail: Seq<u8>) {
        lemma_usize_dec_prefix(v, tail);
    }
}

/// The [`USize`] decode is stable under an appended tail: the primitive the
/// concatenated field layouts rest on.
pub proof fn lemma_usize_dec_prefix(v: USize, tail: Seq<u8>)
    ensures
        USize::dec_len(v.encoding(RawEncodePurpose::Serialize) + tail) == Ok::<
            int,
            CodecErrorCode,
        >(v.encoding(RawEncodePurpose::Serialize).len() as int),
        USize::dec_ok(v.encoding(RawEncodePurpose::Serialize) + tail, v),
{
    lemma_varint_round_trip(v.0 as nat, tail);
}

} // verus!
