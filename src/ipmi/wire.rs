//! Byte-level helpers shared by every layer: integer fields, in-place writes and
//! the IPMI checksum.
use vstd::prelude::*;
use vstd::arithmetic::div_mod::lemma_mod_multiples_basic;

verus! {

/// `s` with the bytes from `at` on replaced by `b`.
pub open spec fn splice(s: Seq<u8>, at: int, b: Seq<u8>) -> Seq<u8> {
    s.take(at) + b + s.skip(at + b.len())
}

/// Four bytes, most significant first.
pub open spec fn be4(x: u32) -> Seq<u8> {
    seq![(x >> 24u32) as u8, (x >> 16u32) as u8, (x >> 8u32) as u8, x as u8]
}

/// Four bytes, least significant first.
pub open spec fn le4(x: u32) -> Seq<u8> {
    seq![x as u8, (x >> 8u32) as u8, (x >> 16u32) as u8, (x >> 24u32) as u8]
}

/// The integer that four bytes give, most significant first.
pub open spec fn be_u32(s: Seq<u8>) -> u32 {
    ((s[0] as u32) << 24u32) | ((s[1] as u32) << 16u32) | ((s[2] as u32) << 8u32) | (s[3] as u32)
}

/// The integer that four bytes give, least significant first.
pub open spec fn le_u32(s: Seq<u8>) -> u32 {
    be_u32(seq![s[3], s[2], s[1], s[0]])
}

/// Sum of all bytes.
pub open spec fn byte_sum(s: Seq<u8>) -> nat
    decreases s.len(),
{
    if s.len() == 0 {
        0
    } else {
        byte_sum(s.drop_last()) + s.last() as nat
    }
}

/// The byte that brings the modulo-256 sum of `s` to zero.
pub open spec fn checksum_of(s: Seq<u8>) -> u8 {
    ((256 - byte_sum(s) % 256) % 256) as u8
}

/// The modulo-256 sum of `s` is zero.
pub open spec fn checksum_holds(s: Seq<u8>) -> bool {
    byte_sum(s) % 256 == 0
}

pub proof fn lemma_be_round_trip(x: u32)
    ensures
        be_u32(be4(x)) == x,
{
    let (a, b, c, d) = ((x >> 24u32) as u8, (x >> 16u32) as u8, (x >> 8u32) as u8, x as u8);
    assert((((a as u32) << 24u32) | ((b as u32) << 16u32) | ((c as u32) << 8u32) | (d as u32))
        == x) by (bit_vector)
        requires
            a == (x >> 24u32) as u8,
            b == (x >> 16u32) as u8,
            c == (x >> 8u32) as u8,
            d == x as u8,
    ;
}

pub proof fn lemma_le_round_trip(x: u32)
    ensures
        le_u32(le4(x)) == x,
{
    lemma_be_round_trip(x);
    assert(seq![le4(x)[3], le4(x)[2], le4(x)[1], le4(x)[0]] =~= be4(x));
}

pub proof fn lemma_be_bytes_round_trip(s: Seq<u8>)
    requires
        s.len() == 4,
    ensures
        be4(be_u32(s)) == s,
{
    let (a, b, c, d) = (s[0], s[1], s[2], s[3]);
    let x = be_u32(s);
    assert(x == ((a as u32) << 24u32) | ((b as u32) << 16u32) | ((c as u32) << 8u32) | (d as u32));
    assert((x >> 24u32) as u8 == a && (x >> 16u32) as u8 == b && (x >> 8u32) as u8 == c && x as u8
        == d) by (bit_vector)
        requires
            x == ((a as u32) << 24u32) | ((b as u32) << 16u32) | ((c as u32) << 8u32) | (d as u32),
    ;
    assert(be4(x) =~= s);
}

pub proof fn lemma_le_bytes_round_trip(s: Seq<u8>)
    requires
        s.len() == 4,
    ensures
        le4(le_u32(s)) == s,
{
    let r = seq![s[3], s[2], s[1], s[0]];
    lemma_be_bytes_round_trip(r);
    assert(le4(le_u32(s)) =~= s);
}

pub proof fn lemma_byte_sum_append(a: Seq<u8>, b: Seq<u8>)
    ensures
        byte_sum(a + b) == byte_sum(a) + byte_sum(b),
    decreases b.len(),
{
    if b.len() == 0 {
        assert(a + b =~= a);
    } else {
        lemma_byte_sum_append(a, b.drop_last());
        assert((a + b).drop_last() =~= a + b.drop_last());
    }
}

pub proof fn lemma_checksum_of_holds(s: Seq<u8>)
    ensures
        checksum_holds(s.push(checksum_of(s))),
{
    let c = checksum_of(s);
    lemma_byte_sum_append(s, seq![c]);
    assert(s.push(c) =~= s + seq![c]);
    assert(seq![c].drop_last() =~= Seq::<u8>::empty());
    assert(byte_sum(Seq::<u8>::empty()) == 0);
    assert(seq![c].last() == c);
    assert(byte_sum(seq![c]) == byte_sum(seq![c].drop_last()) + c as nat);
    let k = byte_sum(s) as int;
    let q = k / 256;
    assert(k == q * 256 + k % 256);
    if k % 256 == 0 {
        assert(c == 0);
        lemma_mod_multiples_basic(q, 256);
        assert((k + c) % 256 == 0);
    } else {
        assert(c == 256 - k % 256);
        assert(k + c == (q + 1) * 256);
        lemma_mod_multiples_basic(q + 1, 256);
        assert((k + c) % 256 == 0);
    }
}

/// A sequence whose sum is zero ends in the checksum of what precedes it.
pub proof fn lemma_checksum_last(s: Seq<u8>)
    requires
        s.len() > 0,
        checksum_holds(s),
    ensures
        s.last() == checksum_of(s.drop_last()),
{
    assert(byte_sum(s) == byte_sum(s.drop_last()) + s.last() as nat);
}

pub proof fn lemma_byte_sum_update(x: Seq<u8>, j: int, v: u8)
    requires
        0 <= j < x.len(),
    ensures
        byte_sum(x.update(j, v)) + x[j] == byte_sum(x) + v,
    decreases x.len(),
{
    let y = x.update(j, v);
    if j == x.len() - 1 {
        assert(y.drop_last() =~= x.drop_last());
    } else {
        assert(y.drop_last() =~= x.drop_last().update(j, v));
        lemma_byte_sum_update(x.drop_last(), j, v);
    }
}

/// Changing any one byte of a block whose checksum holds breaks it.
pub proof fn lemma_checksum_breaks(x: Seq<u8>, j: int, v: u8)
    requires
        checksum_holds(x),
        0 <= j < x.len(),
        v != x[j],
    ensures
        !checksum_holds(x.update(j, v)),
{
    lemma_byte_sum_update(x, j, v);
    let a = byte_sum(x) as int;
    let b = byte_sum(x.update(j, v)) as int;
    let d = v as int - x[j] as int;
    assert(b == a + d);
    assert(-256 < d < 256 && d != 0);
    if b % 256 == 0 {
        assert(d == (b / 256 - a / 256) * 256) by (nonlinear_arith)
            requires
                b == a + d,
                a % 256 == 0,
                b % 256 == 0,
        ;
        assert(false) by (nonlinear_arith)
            requires
                d == (b / 256 - a / 256) * 256,
                -256 < d < 256,
                d != 0,
        ;
    }
}

/// Reads the big-endian integer at `at`.
pub fn read_be_u32(s: &[u8], at: usize) -> (r: u32)
    requires
        at + 4 <= s@.len(),
    ensures
        r == be_u32(s@.subrange(at as int, at + 4)),
{
    ((s[at] as u32) << 24u32) | ((s[at + 1] as u32) << 16u32) | ((s[at + 2] as u32) << 8u32) | (
    s[at + 3] as u32)
}

/// Reads the little-endian integer at `at`.
pub fn read_le_u32(s: &[u8], at: usize) -> (r: u32)
    requires
        at + 4 <= s@.len(),
    ensures
        r == le_u32(s@.subrange(at as int, at + 4)),
{
    let _n = s.len();
    ((s[at + 3] as u32) << 24u32) | ((s[at + 2] as u32) << 16u32) | ((s[at + 1] as u32) << 8u32)
        | (s[at] as u32)
}

/// Writes `b` at `at`.
pub fn put_u8(out: &mut [u8], at: usize, b: u8)
    requires
        at < old(out)@.len(),
    ensures
        final(out)@ == splice(old(out)@, at as int, seq![b]),
{
    out[at] = b;
    assert(final(out)@ =~= splice(old(out)@, at as int, seq![b]));
}

/// Copies `src` to `at`.
pub fn put_bytes(out: &mut [u8], at: usize, src: &[u8])
    requires
        at + src@.len() <= old(out)@.len(),
    ensures
        final(out)@ == splice(old(out)@, at as int, src@),
{
    let n = src.len();
    let _m = out.len();
    let mut i: usize = 0;
    while i < n
        invariant
            n == src@.len(),
            at + n <= out@.len(),
            out@.len() == old(out)@.len(),
            at + n <= usize::MAX,
            i <= n,
            out@ == splice(old(out)@, at as int, src@.take(i as int)),
        decreases n - i,
    {
        out[at + i] = src[i];
        assert(out@ =~= splice(old(out)@, at as int, src@.take(i + 1)));
        i = i + 1;
    }
    assert(src@.take(n as int) =~= src@);
}

/// Writes `x` at `at`, most significant byte first.
pub fn put_be_u32(out: &mut [u8], at: usize, x: u32)
    requires
        at + 4 <= old(out)@.len(),
    ensures
        final(out)@ == splice(old(out)@, at as int, be4(x)),
{
    out[at] = (x >> 24u32) as u8;
    out[at + 1] = (x >> 16u32) as u8;
    out[at + 2] = (x >> 8u32) as u8;
    out[at + 3] = x as u8;
    assert(final(out)@ =~= splice(old(out)@, at as int, be4(x)));
}

/// Writes `x` at `at`, least significant byte first.
pub fn put_le_u32(out: &mut [u8], at: usize, x: u32)
    requires
        at + 4 <= old(out)@.len(),
    ensures
        final(out)@ == splice(old(out)@, at as int, le4(x)),
{
    out[at] = x as u8;
    out[at + 1] = (x >> 8u32) as u8;
    out[at + 2] = (x >> 16u32) as u8;
    out[at + 3] = (x >> 24u32) as u8;
    assert(final(out)@ =~= splice(old(out)@, at as int, le4(x)));
}

/// Two splices side by side are one splice of the two byte strings.
pub proof fn lemma_splice_adjacent(s: Seq<u8>, at: int, a: Seq<u8>, b: Seq<u8>)
    requires
        0 <= at,
        at + a.len() + b.len() <= s.len(),
    ensures
        splice(splice(s, at, a), at + a.len(), b) == splice(s, at, a + b),
{
    assert(splice(splice(s, at, a), at + a.len(), b) =~= splice(s, at, a + b));
}

/// What a splice put in place can be read back.
pub proof fn lemma_splice_read(s: Seq<u8>, at: int, b: Seq<u8>)
    requires
        0 <= at,
        at + b.len() <= s.len(),
    ensures
        splice(s, at, b).subrange(at, at + b.len()) == b,
        splice(s, at, b).len() == s.len(),
{
    assert(splice(s, at, b).subrange(at, at + b.len()) =~= b);
}

/// Writes, right after the `n` bytes at `at`, the checksum of those bytes.
pub fn seal(out: &mut [u8], at: usize, n: usize)
    requires
        at + n < old(out)@.len(),
    ensures
        final(out)@ == splice(
            old(out)@,
            at + n,
            seq![checksum_of(old(out)@.subrange(at as int, at + n))],
        ),
{
    let _len = out.len();
    let c = ipmi_cksum(vstd::slice::slice_subrange(out, at, at + n));
    put_u8(out, at + n, c);
}

/// Sealing a block that a splice put in place appends its checksum to it.
pub proof fn lemma_seal_splice(o: Seq<u8>, at: int, p: Seq<u8>)
    requires
        0 <= at,
        at + p.len() < o.len(),
    ensures
        splice(
            splice(o, at, p),
            at + p.len(),
            seq![checksum_of(splice(o, at, p).subrange(at, at + p.len()))],
        ) == splice(o, at, p.push(checksum_of(p))),
{
    lemma_splice_read(o, at, p);
    lemma_splice_adjacent(o, at, p, seq![checksum_of(p)]);
    assert(p + seq![checksum_of(p)] =~= p.push(checksum_of(p)));
}

/// Modulo-256 sum of all bytes of `s`.
fn sum_mod(s: &[u8]) -> (r: u8)
    ensures
        r as nat == byte_sum(s@) % 256,
{
    let n = s.len();
    let mut acc: u8 = 0;
    let mut i: usize = 0;
    while i < n
        invariant
            n == s@.len(),
            i <= n,
            acc as nat == byte_sum(s@.take(i as int)) % 256,
        decreases n - i,
    {
        assert(s@.take(i + 1).drop_last() =~= s@.take(i as int));
        acc = ((acc as u16 + s[i] as u16) % 256) as u8;
        i = i + 1;
    }
    assert(s@.take(n as int) =~= s@);
    acc
}

/// The IPMI checksum: the two's complement of the modulo-256 sum of the bytes.
pub fn ipmi_cksum(slice: &[u8]) -> (r: u8)
    ensures
        r == checksum_of(slice@),
{
    let t = sum_mod(slice);
    ((256 - t as u16) % 256) as u8
}

/// Whether the bytes, checksum included, sum to zero modulo 256.
pub fn ipmi_cksum_verify(slice: &[u8]) -> (r: bool)
    ensures
        r == checksum_holds(slice@),
{
    sum_mod(slice) == 0
}

} // verus!
