//! MIDI variable-length quantities: seven bits per byte, most significant group first,
//! with the high bit of every byte but the last set.
use vstd::prelude::*;

use crate::cursor::{ByteCursor, DecodeError};

verus! {

/// The longest encoding accepted: four groups, 28 bits.
pub const MAX_VLQ_BYTES: usize = 4;

/// The index of the first byte at or after `p` whose high bit is clear, or the length of
/// `b` when there is none.
pub open spec fn terminator(b: Seq<u8>, p: int) -> int
    decreases b.len() - p,
{
    if p < 0 || p >= b.len() {
        b.len() as int
    } else if b[p] < 0x80 {
        p
    } else {
        terminator(b, p + 1)
    }
}

/// The number whose seven-bit groups are the low bits of the bytes of `s`, most
/// significant first.
pub open spec fn vlq_value(s: Seq<u8>) -> nat
    decreases s.len(),
{
    if s.len() == 0 {
        0
    } else {
        vlq_value(s.drop_last()) * 128 + (s.last() % 128) as nat
    }
}

/// Decoding of the quantity at `p`: its value and the position after it.
pub open spec fn spec_vlq(b: Seq<u8>, p: int) -> Result<(u32, int), DecodeError> {
    let q = terminator(b, p);
    if q >= b.len() {
        Err(DecodeError::OutOfData)
    } else if q + 1 - p > MAX_VLQ_BYTES {
        Err(DecodeError::MalformedVlq)
    } else {
        Ok((vlq_value(b.subrange(p, q + 1)) as u32, q + 1))
    }
}

/// The groups of `w`, most significant first, each with its high bit set.
pub open spec fn vlq_prefix(w: nat) -> Seq<u8>
    decreases w,
{
    if w < 128 {
        seq![(w + 128) as u8]
    } else {
        vlq_prefix(w / 128).push((w % 128 + 128) as u8)
    }
}

/// The shortest encoding of `v`.
pub open spec fn vlq_encoding(v: nat) -> Seq<u8> {
    if v < 128 {
        seq![v as u8]
    } else {
        vlq_prefix(v / 128).push((v % 128) as u8)
    }
}

/// `128` to the power `n`.
pub open spec fn pow128(n: nat) -> nat
    decreases n,
{
    if n == 0 {
        1
    } else {
        128 * pow128((n - 1) as nat)
    }
}

proof fn lemma_vlq_value_bound(s: Seq<u8>)
    ensures
        vlq_value(s) < pow128(s.len()),
    decreases s.len(),
{
    if s.len() > 0 {
        lemma_vlq_value_bound(s.drop_last());
        assert(pow128(s.len()) == 128 * pow128(s.drop_last().len()));
    }
}

proof fn lemma_pow128_small(n: nat)
    requires
        n <= 4,
    ensures
        pow128(n) <= 0x10000000,
{
    reveal_with_fuel(pow128, 5);
}

/// Once the terminator is known, decoding yields a value below `2^28`.
proof fn lemma_spec_vlq_fits(b: Seq<u8>, p: int)
    requires
        0 <= p,
        terminator(b, p) < b.len(),
        terminator(b, p) + 1 - p <= MAX_VLQ_BYTES,
    ensures
        p <= terminator(b, p),
        vlq_value(b.subrange(p, terminator(b, p) + 1)) < 0x10000000,
{
    lemma_terminator_range(b, p);
    let s = b.subrange(p, terminator(b, p) + 1);
    lemma_vlq_value_bound(s);
    lemma_pow128_small(s.len());
}

proof fn lemma_terminator_range(b: Seq<u8>, p: int)
    requires
        0 <= p,
    ensures
        p <= terminator(b, p) || terminator(b, p) == b.len(),
        terminator(b, p) <= b.len(),
        forall|i: int| p <= i < terminator(b, p) ==> b[i] >= 0x80,
        terminator(b, p) < b.len() ==> b[terminator(b, p)] < 0x80,
    decreases b.len() - p,
{
    if p < b.len() && b[p] >= 0x80 {
        lemma_terminator_range(b, p + 1);
    }
}

proof fn lemma_terminator_at(b: Seq<u8>, p: int, q: int)
    requires
        0 <= p <= q < b.len(),
        b[q] < 0x80,
        forall|i: int| p <= i < q ==> b[i] >= 0x80,
    ensures
        terminator(b, p) == q,
    decreases q - p,
{
    if p < q {
        lemma_terminator_at(b, p + 1, q);
    }
}

proof fn lemma_prefix_facts(w: nat)
    ensures
        forall|i: int| 0 <= i < vlq_prefix(w).len() ==> vlq_prefix(w)[i] >= 0x80,
        vlq_value(vlq_prefix(w)) == w,
        vlq_prefix(w).len() >= 1,
        w < 0x200000 ==> vlq_prefix(w).len() <= 3,
        w < 0x4000 ==> vlq_prefix(w).len() <= 2,
    decreases w,
{
    if w < 128 {
        let s = vlq_prefix(w);
        assert(s.drop_last() =~= Seq::<u8>::empty());
        assert(vlq_value(Seq::<u8>::empty()) == 0);
        assert(s.last() == (w + 128) as u8);
        assert(vlq_value(s) == w);
    } else {
        lemma_prefix_facts(w / 128);
        let s = vlq_prefix(w);
        assert(s.drop_last() =~= vlq_prefix(w / 128));
        assert(s.last() % 128 == w % 128);
        assert(w == (w / 128) * 128 + w % 128);
        assert(vlq_value(s) == w);
    }
}

/// Decoding the encoding of any value of at most 28 bits gives that value back, and
/// stops right after the encoding.
pub proof fn lemma_vlq_round_trip(v: u32)
    requires
        v <= 0x0FFFFFFF,
    ensures
        spec_vlq(vlq_encoding(v as nat), 0) == Ok::<(u32, int), DecodeError>(
            (v, vlq_encoding(v as nat).len() as int),
        ),
{
    let e = vlq_encoding(v as nat);
    if v < 128 {
        lemma_terminator_at(e, 0, 0);
        assert(e.subrange(0, 1) =~= e);
        assert(e.drop_last() =~= Seq::<u8>::empty());
        assert(vlq_value(Seq::<u8>::empty()) == 0);
        assert(vlq_value(e) == v);
    } else {
        let w = (v / 128) as nat;
        lemma_prefix_facts(w);
        let pre = vlq_prefix(w);
        assert(forall|i: int| 0 <= i < pre.len() ==> e[i] == pre[i]);
        lemma_terminator_at(e, 0, pre.len() as int);
        assert(e.subrange(0, e.len() as int) =~= e);
        assert(e.drop_last() =~= pre);
        assert(v == w * 128 + v % 128);
        assert(vlq_value(e) == v);
    }
}

/// A successful decoding ends after its start and within the buffer.
pub proof fn lemma_spec_vlq_advances(b: Seq<u8>, p: int)
    requires
        0 <= p,
    ensures
        spec_vlq(b, p) matches Ok((_, q)) ==> p < q <= b.len(),
{
    lemma_terminator_range(b, p);
}

/// Reads bytes up to and including the first one whose high bit is clear.
pub fn read_bytes_until_msb_zero(c: &mut ByteCursor) -> (r: Result<Vec<u8>, DecodeError>)
    requires
        old(c).wf(),
    ensures
        final(c).wf(),
        final(c).bytes() == old(c).bytes(),
        ({
            let q = terminator(old(c).bytes(), old(c).pos());
            &&& q < old(c).bytes().len() ==> r is Ok && r->Ok_0@ == old(c).bytes().subrange(
                old(c).pos(),
                q + 1,
            ) && final(c).pos() == q + 1
            &&& q >= old(c).bytes().len() ==> r == Err::<Vec<u8>, DecodeError>(
                DecodeError::OutOfData,
            )
        }),
{
    let ghost b = c.bytes();
    let ghost p0 = c.pos();
    let mut out: Vec<u8> = Vec::new();
    loop
        invariant
            c.wf(),
            c.bytes() == b,
            old(c).bytes() == b,
            old(c).pos() == p0,
            0 <= p0 <= c.pos(),
            out@ == b.subrange(p0, c.pos()),
            terminator(b, p0) == terminator(b, c.pos()),
        decreases b.len() - c.pos(),
    {
        let byte = match c.read_u8() {
            Ok(x) => x,
            Err(e) => {
                return Err(e);
            },
        };
        out.push(byte);
        assert(out@ =~= b.subrange(p0, c.pos()));
        if byte < 0x80 {
            return Ok(out);
        }
    }
}

/// Reads a variable-length quantity of at most four bytes.
pub fn read_vlq(c: &mut ByteCursor) -> (r: Result<u32, DecodeError>)
    requires
        old(c).wf(),
    ensures
        final(c).wf(),
        final(c).bytes() == old(c).bytes(),
        spec_vlq(old(c).bytes(), old(c).pos()) == match r {
            Ok(v) => Ok((v, final(c).pos())),
            Err(e) => Err(e),
        },
{
    let ghost b = c.bytes();
    let ghost p0 = c.pos();
    let bytes = read_bytes_until_msb_zero(c)?;
    proof {
        lemma_terminator_range(b, p0);
    }
    if bytes.len() > MAX_VLQ_BYTES {
        return Err(DecodeError::MalformedVlq);
    }
    proof {
        lemma_spec_vlq_fits(b, p0);
    }
    let mut v: u32 = 0;
    let mut i: usize = 0;
    while i < bytes.len()
        invariant
            bytes.len() <= MAX_VLQ_BYTES,
            i <= bytes.len(),
            v as nat == vlq_value(bytes@.subrange(0, i as int)),
        decreases bytes.len() - i,
    {
        proof {
            let s = bytes@.subrange(0, i + 1);
            assert(s.drop_last() =~= bytes@.subrange(0, i as int));
            lemma_vlq_value_bound(bytes@.subrange(0, i as int));
            lemma_pow128_small(i as nat);
            lemma_pow128_small((i + 1) as nat);
        }
        v = v * 128 + (bytes[i] % 128) as u32;
        i = i + 1;
    }
    assert(bytes@.subrange(0, bytes.len() as int) =~= bytes@);
    Ok(v)
}

/// Decodes the variable-length quantity at the start of `bytes`.
pub fn decode_vlq(bytes: &[u8]) -> (r: Result<u32, DecodeError>)
    ensures
        r == match spec_vlq(bytes@, 0) {
            Ok((v, _)) => Ok::<u32, DecodeError>(v),
            Err(e) => Err(e),
        },
{
    let mut c = ByteCursor::new(vstd::slice::slice_to_vec(bytes));
    read_vlq(&mut c)
}

fn push_vlq_prefix(w: u32, out: &mut Vec<u8>)
    ensures
        final(out)@ == old(out)@ + vlq_prefix(w as nat),
    decreases w,
{
    if w >= 128 {
        push_vlq_prefix(w / 128, out);
    }
    out.push((w % 128) as u8 + 128);
    proof {
        if w >= 128 {
            assert(final(out)@ =~= old(out)@ + vlq_prefix(w as nat));
        }
    }
}

/// The shortest encoding of `v` as a variable-length quantity.
pub fn encode_vlq(v: u32) -> (r: Vec<u8>)
    ensures
        r@ == vlq_encoding(v as nat),
{
    let mut out: Vec<u8> = Vec::new();
    if v >= 128 {
        push_vlq_prefix(v / 128, &mut out);
    }
    out.push((v % 128) as u8);
    assert(out@ =~= vlq_encoding(v as nat));
    out
}

} // verus!
