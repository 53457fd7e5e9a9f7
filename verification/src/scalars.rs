//! Fixed-width unsigned integers on the wire: big-endian bytes, one byte
//! per eight bits, and the presence-tagged layout for optional values.
use crate::codec::{
    PrefixStable, RawDecode, RawEncode, RawEncodePurpose, RawFixedBytes, WriteBuf,
};
use crate::errors::{CodecError, CodecErrorCode, CodecResult};
use vstd::arithmetic::div_mod::{
    lemma_div_is_strictly_smaller, lemma_fundamental_div_mod, lemma_multiply_divide_lt,
};
use vstd::arithmetic::power::pow;
use vstd::prelude::*;

verus! {

/// The `k` big-endian bytes of `n` (high bits beyond `k` bytes are cut off).
pub open spec fn be_bytes(n: nat, k: nat) -> Seq<u8>
    decreases k,
{
    if k == 0 {
        Seq::empty()
    } else {
        be_bytes(n / 256, (k - 1) as nat) + seq![(n % 256) as u8]
    }
}

/// The value big-endian bytes stand for.
pub open spec fn be_val(b: Seq<u8>) -> nat
    decreases b.len(),
{
    if b.len() == 0 {
        0
    } else {
        be_val(b.drop_last()) * 256 + b.last() as nat
    }
}

pub proof fn lemma_be_bytes_len(n: nat, k: nat)
    ensures
        be_bytes(n, k).len() == k,
    decreases k,
{
    if k > 0 {
        lemma_be_bytes_len(n / 256, (k - 1) as nat);
    }
}

/// Reading back the big-endian bytes of a value below `256^k` gives the
/// value.
pub proof fn lemma_be_round_trip(n: nat, k: nat)
    requires
        n < pow(256, k),
    ensures
        be_val(be_bytes(n, k)) == n,
    decreases k,
{
    reveal(pow);
    if k == 0 {
        assert(pow(256, 0nat) == 1);
    } else {
        let e = be_bytes(n, k);
        lemma_be_bytes_len(n / 256, (k - 1) as nat);
        assert(e.drop_last() =~= be_bytes(n / 256, (k - 1) as nat));
        assert(pow(256, k) == 256 * pow(256, (k - 1) as nat));
        lemma_multiply_divide_lt(n as int, 256, pow(256, (k - 1) as nat));
        lemma_be_round_trip(n / 256, (k - 1) as nat);
        lemma_fundamental_div_mod(n as int, 256);
    }
}

/// A `k`-byte value stays below `256^k`.
pub proof fn lemma_be_val_bound(b: Seq<u8>)
    ensures
        be_val(b) < pow(256, b.len() as nat),
    decreases b.len(),
{
    reveal(pow);
    if b.len() == 0 {
        assert(pow(256, 0nat) == 1);
    } else {
        lemma_be_val_bound(b.drop_last());
        assert(pow(256, b.len() as nat) == 256 * pow(256, (b.len() - 1) as nat));
        assert(be_val(b.drop_last()) * 256 + b.last() < 256 * pow(256, (b.len() - 1) as nat))
            by (nonlinear_arith)
            requires
                be_val(b.drop_last()) < pow(256, (b.len() - 1) as nat),
                b.last() < 256,
        ;
    }
}

/// Write the `k` big-endian bytes of `v` at the cursor.
pub fn be_write(buf: &mut WriteBuf, v: u64, k: usize)
    requires
        old(buf).wf(),
        old(buf).cursor() + k <= old(buf).bytes().len(),
    ensures
        final(buf).wf(),
        WriteBuf::wrote(*old(buf), *final(buf), be_bytes(v as nat, k as nat)),
    decreases k,
{
    proof {
        lemma_be_bytes_len(v as nat, k as nat);
    }
    if k == 0 {
        proof {
            assert(old(buf).bytes() =~= old(buf).bytes().take(old(buf).cursor())
                + Seq::<u8>::empty() + old(buf).bytes().skip(old(buf).cursor()));
        }
        return ;
    }
    let ghost pre = *buf;
    be_write(buf, v / 256, k - 1);
    let ghost mid = *buf;
    buf.put_u8((v % 256) as u8);
    proof {
        WriteBuf::lemma_wrote_trans(
            pre,
            mid,
            *buf,
            be_bytes((v / 256) as nat, (k - 1) as nat),
            seq![(v % 256) as u8],
        );
        assert(be_bytes((v / 256) as nat, (k - 1) as nat) + seq![(v % 256) as u8] =~= be_bytes(
            v as nat,
            k as nat,
        ));
    }
}

/// The small powers of 256 the fixed-width codecs reason with.
pub proof fn lemma_pow256_vals()
    ensures
        pow(256, 1) == 0x100,
        pow(256, 2) == 0x10000,
        pow(256, 4) == 0x100000000,
        pow(256, 8) == 0x10000000000000000,
{
    reveal(pow);
    assert(pow(256, 0) == 1);
    assert(pow(256, 1) == 256 * pow(256, 0));
    assert(pow(256, 2) == 256 * pow(256, 1));
    assert(pow(256, 3) == 256 * pow(256, 2));
    assert(pow(256, 4) == 256 * pow(256, 3));
    assert(pow(256, 5) == 256 * pow(256, 4));
    assert(pow(256, 6) == 256 * pow(256, 5));
    assert(pow(256, 7) == 256 * pow(256, 6));
    assert(pow(256, 8) == 256 * pow(256, 7));
}

/// Read the value of the first `k` bytes of `buf`, big-endian.
pub fn be_read(buf: &[u8], k: usize) -> (r: u64)
    requires
        k <= buf@.len(),
        k <= 8,
    ensures
        r == be_val(buf@.take(k as int)),
    decreases k,
{
    proof {
        lemma_be_val_bound(buf@.take(k as int));
        reveal(pow);
        assert(pow(256, 0) == 1);
        assert(pow(256, 1) == 256 * pow(256, 0));
        assert(pow(256, 2) == 256 * pow(256, 1));
        assert(pow(256, 3) == 256 * pow(256, 2));
        assert(pow(256, 4) == 256 * pow(256, 3));
        assert(pow(256, 5) == 256 * pow(256, 4));
        assert(pow(256, 6) == 256 * pow(256, 5));
        assert(pow(256, 7) == 256 * pow(256, 6));
        assert(pow(256, 8) == 256 * pow(256, 7));
    }
    if k == 0 {
        return 0;
    }
    let high = be_read(buf, k - 1);
    let last = *vstd::slice::slice_index_get(buf, k - 1);
    proof {
        assert(buf@.take(k as int).drop_last() =~= buf@.take(k - 1));
        assert(buf@.take(k as int).last() == buf@[k - 1]);
        lemma_be_val_bound(buf@.take(k - 1));
    }
    high * 256 + (last as u64)
}

impl RawEncode for u8 {
    open spec fn encoding(&self, purpose: RawEncodePurpose) -> Seq<u8> {
        seq![*self]
    }

    fn raw_measure(&self, purpose: &Option<RawEncodePurpose>) -> (r: CodecResult<usize>) {
        Ok(1)
    }

    fn raw_encode(&self, buf: &mut WriteBuf, purpose: &Option<RawEncodePurpose>) -> (r: CodecResult<
        (),
    >) {
        if buf.remaining() < 1 {
            return Err(
                CodecError::new(
                    CodecErrorCode::OutOfLimit,
                    "byte does not fit the remaining buffer".to_owned(),
                ),
            );
        }
        buf.put_u8(*self);
        Ok(())
    }
}

impl RawDecode for u8 {
    open spec fn dec_len(buf: Seq<u8>) -> Result<int, CodecErrorCode> {
        if buf.len() >= 1 {
            Ok(1)
        } else {
            Err(CodecErrorCode::InvalidFormat)
        }
    }

    open spec fn dec_ok(buf: Seq<u8>, v: Self) -> bool {
        buf.len() >= 1 && v == buf[0]
    }

    proof fn lemma_dec_len(buf: Seq<u8>) {
    }

    proof fn lemma_round_trip(v: Self) {
    }

    fn raw_decode(buf: &[u8]) -> (r: CodecResult<(Self, &[u8])>) {
        if buf.len() < 1 {
            return Err(
                CodecError::new(CodecErrorCode::InvalidFormat, "input ends in a byte".to_owned()),
            );
        }
        let v = *vstd::slice::slice_index_get(buf, 0);
        let rest = vstd::slice::slice_subrange(buf, 1, buf.len());
        Ok((v, rest))
    }
}

impl PrefixStable for u8 {
    proof fn lemma_dec_prefix(v: Self, tail: Seq<u8>) {
    }
}

impl RawFixedBytes for u8 {
    open spec fn spec_raw_bytes() -> Option<usize> {
        Some(1)
    }

    fn raw_bytes() -> (r: Option<usize>) {
        Some(1)
    }

    fn raw_max_bytes() -> (r: Option<usize>) {
        Some(1)
    }

    fn raw_min_bytes() -> (r: Option<usize>) {
        Some(1)
    }
}

impl RawEncode for u16 {
    open spec fn encoding(&self, purpose: RawEncodePurpose) -> Seq<u8> {
        be_bytes(*self as nat, 2)
    }

    fn raw_measure(&self, purpose: &Option<RawEncodePurpose>) -> (r: CodecResult<usize>) {
        proof {
            lemma_be_bytes_len(*self as nat, 2);
        }
        Ok(2)
    }

    fn raw_encode(&self, buf: &mut WriteBuf, purpose: &Option<RawEncodePurpose>) -> (r: CodecResult<
        (),
    >) {
        proof {
            lemma_be_bytes_len(*self as nat, 2);
        }
        if buf.remaining() < 2 {
            return Err(
                CodecError::new(
                    CodecErrorCode::OutOfLimit,
                    "word does not fit the remaining buffer".to_owned(),
                ),
            );
        }
        be_write(buf, *self as u64, 2);
        Ok(())
    }
}

impl RawDecode for u16 {
    open spec fn dec_len(buf: Seq<u8>) -> Result<int, CodecErrorCode> {
        if buf.len() >= 2 {
            Ok(2)
        } else {
            Err(CodecErrorCode::InvalidFormat)
        }
    }

    open spec fn dec_ok(buf: Seq<u8>, v: Self) -> bool {
        buf.len() >= 2 && v as nat == be_val(buf.take(2))
    }

    proof fn lemma_dec_len(buf: Seq<u8>) {
    }

    proof fn lemma_round_trip(v: Self) {
        Self::lemma_dec_prefix(v, Seq::empty());
        assert(v.encoding(RawEncodePurpose::Serialize) + Seq::<u8>::empty() =~= v.encoding(
            RawEncodePurpose::Serialize,
        ));
    }

    fn raw_decode(buf: &[u8]) -> (r: CodecResult<(Self, &[u8])>) {
        if buf.len() < 2 {
            return Err(
                CodecError::new(
                    CodecErrorCode::InvalidFormat,
                    crate::errors::message_with_count(
                        "word needs 2 bytes, found ",
                        buf.len(),
                    ),
                ),
            );
        }
        let wide = be_read(buf, 2);
        proof {
            lemma_be_val_bound(buf@.take(2));
            lemma_pow256_vals();
        }
        let v = wide as u16;
        let rest = vstd::slice::slice_subrange(buf, 2, buf.len());
        Ok((v, rest))
    }
}

impl PrefixStable for u16 {
    proof fn lemma_dec_prefix(v: Self, tail: Seq<u8>) {
        let e = v.encoding(RawEncodePurpose::Serialize);
        lemma_be_bytes_len(v as nat, 2);
        assert((e + tail).take(2) =~= e);
        lemma_pow256_vals();
        lemma_be_round_trip(v as nat, 2);
    }
}

impl RawFixedBytes for u16 {
    open spec fn spec_raw_bytes() -> Option<usize> {
        Some(2)
    }

    fn raw_bytes() -> (r: Option<usize>) {
        Some(2)
    }

    fn raw_max_bytes() -> (r: Option<usize>) {
        Some(2)
    }

    fn raw_min_bytes() -> (r: Option<usize>) {
        Some(2)
    }
}

impl RawEncode for u32 {
    open spec fn encoding(&self, purpose: RawEncodePurpose) -> Seq<u8> {
        be_bytes(*self as nat, 4)
    }

    fn raw_measure(&self, purpose: &Option<RawEncodePurpose>) -> (r: CodecResult<usize>) {
        proof {
            lemma_be_bytes_len(*self as nat, 4);
        }
        Ok(4)
    }

    fn raw_encode(&self, buf: &mut WriteBuf, purpose: &Option<RawEncodePurpose>) -> (r: CodecResult<
        (),
    >) {
        proof {
            lemma_be_bytes_len(*self as nat, 4);
        }
        if buf.remaining() < 4 {
            return Err(
                CodecError::new(
                    CodecErrorCode::OutOfLimit,
                    "word does not fit the remaining buffer".to_owned(),
                ),
            );
        }
        be_write(buf, *self as u64, 4);
        Ok(())
    }
}

impl RawDecode for u32 {
    open spec fn dec_len(buf: Seq<u8>) -> Result<int, CodecErrorCode> {
        if buf.len() >= 4 {
            Ok(4)
        } else {
            Err(CodecErrorCode::InvalidFormat)
        }
    }

    open spec fn dec_ok(buf: Seq<u8>, v: Self) -> bool {
        buf.len() >= 4 && v as nat == be_val(buf.take(4))
    }

    proof fn lemma_dec_len(buf: Seq<u8>) {
    }

    proof fn lemma_round_trip(v: Self) {
        Self::lemma_dec_prefix(v, Seq::empty());
        assert(v.encoding(RawEncodePurpose::Serialize) + Seq::<u8>::empty() =~= v.encoding(
            RawEncodePurpose::Serialize,
        ));
    }

    fn raw_decode(buf: &[u8]) -> (r: CodecResult<(Self, &[u8])>) {
        if buf.len() < 4 {
            return Err(
                CodecError::new(
                    CodecErrorCode::InvalidFormat,
                    crate::errors::message_with_count(
                        "word needs 4 bytes, found ",
                        buf.len(),
                    ),
                ),
            );
        }
        let wide = be_read(buf, 4);
        proof {
            lemma_be_val_bound(buf@.take(4));
            lemma_pow256_vals();
        }
        let v = wide as u32;
        let rest = vstd::slice::slice_subrange(buf, 4, buf.len());
        Ok((v, rest))
    }
}

impl PrefixStable for u32 {
    proof fn lemma_dec_prefix(v: Self, tail: Seq<u8>) {
        let e = v.encoding(RawEncodePurpose::Serialize);
        lemma_be_bytes_len(v as nat, 4);
        assert((e + tail).take(4) =~= e);
        lemma_pow256_vals();
        lemma_be_round_trip(v as nat, 4);
    }
}

impl RawFixedBytes for u32 {
    open spec fn spec_raw_bytes() -> Option<usize> {
        Some(4)
    }

    fn raw_bytes() -> (r: Option<usize>) {
        Some(4)
    }

    fn raw_max_bytes() -> (r: Option<usize>) {
        Some(4)
    }

    fn raw_min_bytes() -> (r: Option<usize>) {
        Some(4)
    }
}

impl RawEncode for u64 {
    open spec fn encoding(&self, purpose: RawEncodePurpose) -> Seq<u8> {
        be_bytes(*self as nat, 8)
    }

    fn raw_measure(&self, purpose: &Option<RawEncodePurpose>) -> (r: CodecResult<usize>) {
        proof {
            lemma_be_bytes_len(*self as nat, 8);
        }
        Ok(8)
    }

    fn raw_encode(&self, buf: &mut WriteBuf, purpose: &Option<RawEncodePurpose>) -> (r: CodecResult<
        (),
    >) {
        proof {
            lemma_be_bytes_len(*self as nat, 8);
        }
        if buf.remaining() < 8 {
            return Err(
                CodecError::new(
                    CodecErrorCode::OutOfLimit,
                    "word does not fit the remaining buffer".to_owned(),
                ),
            );
        }
        be_write(buf, *self, 8);
        Ok(())
    }
}

impl RawDecode for u64 {
    open spec fn dec_len(buf: Seq<u8>) -> Result<int, CodecErrorCode> {
        if buf.len() >= 8 {
            Ok(8)
        } else {
            Err(CodecErrorCode::InvalidFormat)
        }
    }

    open spec fn dec_ok(buf: Seq<u8>, v: Self) -> bool {
        buf.len() >= 8 && v as nat == be_val(buf.take(8))
    }

    proof fn lemma_dec_len(buf: Seq<u8>) {
    }

    proof fn lemma_round_trip(v: Self) {
        Self::lemma_dec_prefix(v, Seq::empty());
        assert(v.encoding(RawEncodePurpose::Serialize) + Seq::<u8>::empty() =~= v.encoding(
            RawEncodePurpose::Serialize,
        ));
    }

    fn raw_decode(buf: &[u8]) -> (r: CodecResult<(Self, &[u8])>) {
        if buf.len() < 8 {
            return Err(
                CodecError::new(
                    CodecErrorCode::InvalidFormat,
                    crate::errors::message_with_count(
                        "word needs 8 bytes, found ",
                        buf.len(),
                    ),
                ),
            );
        }
        let wide = be_read(buf, 8);
        proof {
            lemma_be_val_bound(buf@.take(8));
            lemma_pow256_vals();
        }
        let rest = vstd::slice::slice_subrange(buf, 8, buf.len());
        Ok((wide, rest))
    }
}

impl PrefixStable for u64 {
    proof fn lemma_dec_prefix(v: Self, tail: Seq<u8>) {
        let e = v.encoding(RawEncodePurpose::Serialize);
        lemma_be_bytes_len(v as nat, 8);
        assert((e + tail).take(8) =~= e);
        lemma_pow256_vals();
        lemma_be_round_trip(v as nat, 8);
    }
}

impl RawFixedBytes for u64 {
    open spec fn spec_raw_bytes() -> Option<usize> {
        Some(8)
    }

    fn raw_bytes() -> (r: Option<usize>) {
        Some(8)
    }

    fn raw_max_bytes() -> (r: Option<usize>) {
        Some(8)
    }

    fn raw_min_bytes() -> (r: Option<usize>) {
        Some(8)
    }
}

/// Every fixed-width integer encodes to exactly the byte count its
/// [`RawFixedBytes`] impl states, under every purpose.
pub proof fn lemma_fixed_widths(a: u8, b: u16, c: u32, d: u64, purpose: RawEncodePurpose)
    ensures
        a.encoding(purpose).len() == 1,
        b.encoding(purpose).len() == 2,
        c.encoding(purpose).len() == 4,
        d.encoding(purpose).len() == 8,
{
    lemma_be_bytes_len(b as nat, 2);
    lemma_be_bytes_len(c as nat, 4);
    lemma_be_bytes_len(d as nat, 8);
}

impl<T: RawEncode> RawEncode for Option<T> {
    open spec fn valid(&self) -> bool {
        match self {
            Some(x) => x.valid(),
            None => true,
        }
    }

    open spec fn encoding(&self, purpose: RawEncodePurpose) -> Seq<u8> {
        match self {
            None => seq![0u8],
            Some(x) => seq![1u8] + x.encoding(purpose),
        }
    }

    fn raw_measure(&self, purpose: &Option<RawEncodePurpose>) -> (r: CodecResult<usize>) {
        match self {
            None => Ok(1),
            Some(x) => {
                let inner = x.raw_measure(purpose)?;
                if inner == usize::MAX {
                    Err(
                        CodecError::new(
                            CodecErrorCode::OutOfLimit,
                            "encoded size exceeds the machine word".to_owned(),
                        ),
                    )
                } else {
                    Ok(inner + 1)
                }
            },
        }
    }

    fn raw_encode(&self, buf: &mut WriteBuf, purpose: &Option<RawEncodePurpose>) -> (r: CodecResult<
        (),
    >) {
        if buf.remaining() < 1 {
            return Err(
                CodecError::new(
                    CodecErrorCode::OutOfLimit,
                    "presence tag does not fit the remaining buffer".to_owned(),
                ),
            );
        }
        match self {
            None => {
                buf.put_u8(0);
                Ok(())
            },
            Some(x) => {
                let ghost pre = *buf;
                buf.put_u8(1);
                let ghost mid = *buf;
                x.raw_encode(buf, purpose)?;
                proof {
                    WriteBuf::lemma_wrote_trans(
                        pre,
                        mid,
                        *buf,
                        seq![1u8],
                        x.encoding(crate::codec::effective_purpose(*purpose)),
                    );
                }
                Ok(())
            },
        }
    }
}

impl<T: RawDecode> RawDecode for Option<T> {
    open spec fn dec_len(buf: Seq<u8>) -> Result<int, CodecErrorCode> {
        if buf.len() == 0 {
            Err(CodecErrorCode::InvalidFormat)
        } else if buf[0] == 0 {
            Ok(1)
        } else if buf[0] == 1 {
            match T::dec_len(buf.skip(1)) {
                Ok(n) => Ok(n + 1),
                Err(c) => Err(c),
            }
        } else {
            Err(CodecErrorCode::InvalidFormat)
        }
    }

    open spec fn dec_ok(buf: Seq<u8>, v: Self) -> bool {
        buf.len() > 0 && match v {
            None => buf[0] == 0,
            Some(x) => buf[0] == 1 && T::dec_ok(buf.skip(1), x),
        }
    }

    open spec fn canonical(&self) -> bool {
        match self {
            Some(x) => x.canonical(),
            None => true,
        }
    }

    proof fn lemma_dec_len(buf: Seq<u8>) {
        T::lemma_dec_len(buf.skip(1));
    }

    proof fn lemma_round_trip(v: Self) {
        let e = v.encoding(RawEncodePurpose::Serialize);
        match v {
            None => {},
            Some(x) => {
                T::lemma_round_trip(x);
                assert(e.skip(1) =~= x.encoding(RawEncodePurpose::Serialize));
            },
        }
    }

    fn raw_decode(buf: &[u8]) -> (r: CodecResult<(Self, &[u8])>) {
        proof {
            T::lemma_dec_len(buf@.skip(1));
        }
        if buf.len() == 0 {
            return Err(
                CodecError::new(
                    CodecErrorCode::InvalidFormat,
                    "input ends in a presence tag".to_owned(),
                ),
            );
        }
        let tag = *vstd::slice::slice_index_get(buf, 0);
        if tag == 0 {
            let rest = vstd::slice::slice_subrange(buf, 1, buf.len());
            Ok((None, rest))
        } else if tag == 1 {
            let body = vstd::slice::slice_subrange(buf, 1, buf.len());
            assert(body@ =~= buf@.skip(1));
            let (x, rest) = T::raw_decode(body)?;
            proof {
                assert(rest@ =~= buf@.skip(buf@.len() - rest@.len()));
            }
            Ok((Some(x), rest))
        } else {
            Err(
                CodecError::new(CodecErrorCode::InvalidFormat, "unknown presence tag".to_owned()),
            )
        }
    }
}

impl<T: PrefixStable> PrefixStable for Option<T> {
    proof fn lemma_dec_prefix(v: Self, tail: Seq<u8>) {
        let e = v.encoding(RawEncodePurpose::Serialize);
        match v {
            None => {
                assert((e + tail)[0] == 0u8);
            },
            Some(x) => {
                assert((e + tail)[0] == 1u8);
                T::lemma_dec_prefix(x, tail);
                assert((e + tail).skip(1) =~= x.encoding(RawEncodePurpose::Serialize) + tail);
            },
        }
    }
}

} // verus!
