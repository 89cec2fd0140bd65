//! LEB128, the variable-length integer encoding every count, index and
//! immediate in a wasm module is written in.
//!
//! Both encoders are minimal: a validator may reject a padded encoding, and a
//! padded one is never what a canonical producer emits. What is stated here is
//! the encoding itself as a function of the value, the reading of it back, and
//! the laws that tie the two together.
use vstd::prelude::*;
use vstd::arithmetic::div_mod::{
    lemma_fundamental_div_mod_converse_div, lemma_fundamental_div_mod_converse_mod,
};

verus! {

/// Unsigned LEB128 of `v`, minimal length: seven bits per byte, low group
/// first, the high bit set on every byte but the last.
pub open spec fn leb_u(v: nat) -> Seq<u8>
    decreases v,
{
    if v < 128 {
        seq![v as u8]
    } else {
        seq![(v % 128 + 128) as u8] + leb_u(v / 128)
    }
}

/// Unsigned LEB128 of a `u32`.
pub open spec fn leb_u32(v: u32) -> Seq<u8> {
    leb_u(v as nat)
}

/// The magnitude of an integer, the measure the signed encoding shrinks.
pub open spec fn magnitude(v: int) -> nat {
    if v < 0 { (-v) as nat } else { v as nat }
}

/// Whether the signed encoding of `v` is complete after the byte holding its
/// low seven bits: the remaining bits are all copies of the sign, and bit 6 of
/// that byte already carries the sign.
pub open spec fn leb_s_last(v: int) -> bool {
    (v / 128 == 0 && v % 128 < 64) || (v / 128 == -1 && v % 128 >= 64)
}

/// Signed LEB128 of `v`, minimal length. The low seven bits are `v % 128`
/// (Euclidean, so in `0..128` for a negative `v` too) and the rest is
/// `v / 128`, which is the arithmetic shift right by seven.
pub open spec fn leb_s(v: int) -> Seq<u8>
    decreases magnitude(v),
{
    if leb_s_last(v) {
        seq![(v % 128) as u8]
    } else {
        seq![(v % 128 + 128) as u8] + leb_s(v / 128)
    }
}

/// Reading an unsigned LEB128 number at the start of `b`: its value and how
/// many bytes it took, or `None` when the bytes end first.
pub open spec fn read_leb_u(b: Seq<u8>) -> Option<(nat, nat)>
    decreases b.len(),
{
    if b.len() == 0 {
        None
    } else if b[0] < 128 {
        Some((b[0] as nat, 1nat))
    } else {
        match read_leb_u(b.drop_first()) {
            Some((v, n)) => Some((((b[0] - 128) + 128 * v) as nat, n + 1)),
            None => None,
        }
    }
}

/// Reading a signed LEB128 number at the start of `b`: bit 6 of the last byte
/// is the sign of everything above it.
pub open spec fn read_leb_s(b: Seq<u8>) -> Option<(int, nat)>
    decreases b.len(),
{
    if b.len() == 0 {
        None
    } else if b[0] < 128 {
        Some((if b[0] >= 64 { b[0] - 128 } else { b[0] as int }, 1nat))
    } else {
        match read_leb_s(b.drop_first()) {
            Some((v, n)) => Some(((b[0] - 128) + 128 * v, n + 1)),
            None => None,
        }
    }
}

proof fn lemma_u32_split(v: u32)
    ensures
        (v & 0x7f) as int == v as int % 128,
        (v >> 7) as int == v as int / 128,
{
    assert((v & 0x7f) == v % 128 && (v >> 7) == v / 128) by (bit_vector);
}

proof fn lemma_i64_split(x: i64)
    ensures
        (x & 0x7f) as int == x as int % 128,
        (x >> 7) as int == x as int / 128,
{
    assert(0 <= (x & 0x7f) < 128 && (x >> 7) * 128 + (x & 0x7f) == x) by (bit_vector);
    let q = (x >> 7) as int;
    let r = (x & 0x7f) as int;
    assert(x as int == q * 128 + r);
    lemma_fundamental_div_mod_converse_mod(x as int, 128, q, r);
    lemma_fundamental_div_mod_converse_div(x as int, 128, q, r);
}

proof fn lemma_high_bit(b: u8)
    requires
        b < 128,
    ensures
        (b | 0x80) as int == b as int + 128,
{
    assert(b < 128 ==> (b | 0x80) == b + 128) by (bit_vector);
}

/// Unsigned LEB128, minimal length, appended to `out`.
pub fn unsigned(out: &mut Vec<u8>, value: u32)
    ensures
        final(out)@ == old(out)@ + leb_u32(value),
{
    let ghost start = out@;
    let mut rest = value;
    loop
        invariant
            start == old(out)@,
            out@ + leb_u(rest as nat) == start + leb_u32(value),
        decreases rest,
    {
        proof {
            lemma_u32_split(rest);
        }
        let byte = (rest & 0x7f) as u8;
        let ghost before = rest as nat;
        let ghost prefix = out@;
        rest = rest >> 7;
        if rest == 0 {
            out.push(byte);
            assert(out@ =~= prefix + leb_u(before));
            return;
        }
        proof {
            lemma_high_bit(byte);
        }
        out.push(byte | 0x80);
        assert(leb_u(before) =~= seq![(byte | 0x80)] + leb_u(rest as nat));
        assert(out@ + leb_u(rest as nat) =~= prefix + leb_u(before));
    }
}

/// Signed LEB128 of an `i32`, minimal length: the value widened to `i64`,
/// which does not change the minimal encoding.
pub fn signed_32(out: &mut Vec<u8>, value: i32)
    ensures
        final(out)@ == old(out)@ + leb_s(value as int),
{
    signed_64(out, value as i64);
}

/// Signed LEB128, minimal length, appended to `out`. The loop stops when the
/// remaining bits are all copies of the sign bit and the byte just written
/// carries that sign in bit 6.
pub fn signed_64(out: &mut Vec<u8>, value: i64)
    ensures
        final(out)@ == old(out)@ + leb_s(value as int),
{
    let ghost start = out@;
    let mut remaining = value;
    loop
        invariant
            start == old(out)@,
            out@ + leb_s(remaining as int) == start + leb_s(value as int),
        decreases magnitude(remaining as int),
    {
        proof {
            lemma_i64_split(remaining);
        }
        let byte = (remaining & 0x7f) as u8;
        let ghost before = remaining as int;
        let ghost prefix = out@;
        remaining = remaining >> 7;
        let sign_bit_set = byte & 0x40 != 0;
        assert(sign_bit_set == (byte >= 64)) by (bit_vector)
            requires
                sign_bit_set == (byte & 0x40 != 0),
                byte < 128,
        ;
        if (remaining == 0 && !sign_bit_set) || (remaining == -1 && sign_bit_set) {
            out.push(byte);
            assert(leb_s_last(before));
            assert(out@ =~= prefix + leb_s(before));
            return;
        }
        proof {
            lemma_high_bit(byte);
        }
        out.push(byte | 0x80);
        assert(!leb_s_last(before));
        assert(leb_s(before) =~= seq![(byte | 0x80)] + leb_s(remaining as int));
        assert(out@ + leb_s(remaining as int) =~= prefix + leb_s(before));
    }
}

// -- laws ---------------------------------------------------------------------

/// Reading back an unsigned LEB128 encoding gives the value and exactly the
/// encoding's length, whatever bytes follow it.
pub proof fn lemma_leb_u_roundtrip(v: nat, rest: Seq<u8>)
    ensures
        read_leb_u(leb_u(v) + rest) == Some((v, leb_u(v).len())),
    decreases v,
{
    let b = leb_u(v) + rest;
    if v < 128 {
        assert(b[0] == v as u8);
    } else {
        lemma_leb_u_roundtrip(v / 128, rest);
        assert(b.drop_first() =~= leb_u(v / 128) + rest);
        assert(b[0] == (v % 128 + 128) as u8);
    }
}

/// The unsigned encoding is canonical: every byte but the last has its high
/// bit set, the last does not, and the last is never a padding zero.
pub proof fn lemma_leb_u_canonical(v: nat)
    ensures
        leb_u(v).len() >= 1,
        forall|i: int| 0 <= i < leb_u(v).len() - 1 ==> leb_u(v)[i] >= 128,
        leb_u(v).last() < 128,
        leb_u(v).len() > 1 ==> leb_u(v).last() != 0,
    decreases v,
{
    if v >= 128 {
        lemma_leb_u_canonical(v / 128);
        let s = leb_u(v);
        let t = leb_u(v / 128);
        assert forall|i: int| 0 <= i < s.len() - 1 implies s[i] >= 128 by {
            if i > 0 {
                assert(s[i] == t[i - 1]);
            }
        }
        if t.len() == 1 {
            assert(v / 128 >= 1);
        }
    }
}

/// A `u32` takes at most five bytes.
pub proof fn lemma_leb_u32_len(v: u32)
    ensures
        leb_u32(v).len() <= 5,
{
    let n = v as nat;
    assert(leb_u(n / 128 / 128 / 128 / 128).len() == 1);
    assert(leb_u(n / 128 / 128 / 128).len() <= 2);
    assert(leb_u(n / 128 / 128).len() <= 3);
    assert(leb_u(n / 128).len() <= 4);
}

/// Reading back a signed LEB128 encoding gives the value and exactly the
/// encoding's length, whatever bytes follow it.
pub proof fn lemma_leb_s_roundtrip(v: int, rest: Seq<u8>)
    ensures
        read_leb_s(leb_s(v) + rest) == Some((v, leb_s(v).len())),
    decreases magnitude(v),
{
    let b = leb_s(v) + rest;
    if leb_s_last(v) {
        assert(b[0] == (v % 128) as u8);
    } else {
        lemma_leb_s_roundtrip(v / 128, rest);
        assert(b.drop_first() =~= leb_s(v / 128) + rest);
        assert(b[0] == (v % 128 + 128) as u8);
    }
}

/// The signed encoding is canonical: the high bit marks every byte but the
/// last, and no trailing byte is redundant -- a last byte of `0x00` follows a
/// byte whose bit 6 is set, and a last byte of `0x7f` follows one whose bit 6
/// is clear. So `-64` is the single byte `0x40` and `64` is `0xc0 0x00`.
pub proof fn lemma_leb_s_canonical(v: int)
    ensures
        leb_s(v).len() >= 1,
        forall|i: int| 0 <= i < leb_s(v).len() - 1 ==> leb_s(v)[i] >= 128,
        leb_s(v).last() < 128,
        leb_s(v).len() > 1 ==> {
            let n = leb_s(v).len() as int;
            &&& leb_s(v)[n - 1] == 0 ==> leb_s(v)[n - 2] - 128 >= 64
            &&& leb_s(v)[n - 1] == 0x7f ==> leb_s(v)[n - 2] - 128 < 64
        },
    decreases magnitude(v),
{
    if !leb_s_last(v) {
        let w = v / 128;
        lemma_leb_s_canonical(w);
        let s = leb_s(v);
        let t = leb_s(w);
        assert forall|i: int| 0 <= i < s.len() - 1 implies s[i] >= 128 by {
            if i > 0 {
                assert(s[i] == t[i - 1]);
            }
        }
        if t.len() == 1 {
            // `w` is a one-byte value; `v` needed more than one, so `w`'s byte
            // cannot be a pure sign copy of `v`'s bit 6.
            assert(leb_s_last(w));
            assert(s[0] == (v % 128 + 128) as u8);
            assert(t[0] == (w % 128) as u8);
        }
    }
}

/// An `i64` takes at most ten bytes, and an `i32` at most five.
pub proof fn lemma_leb_s_len(v: int)
    ensures
        i64::MIN <= v <= i64::MAX ==> leb_s(v).len() <= 10,
        i32::MIN <= v <= i32::MAX ==> leb_s(v).len() <= 5,
{
    assert(pow128(0) == 1);
    assert(pow128(1) == 128);
    assert(pow128(2) == 16384);
    assert(pow128(3) == 2097152);
    assert(pow128(4) == 268435456);
    assert(pow128(5) == 34359738368);
    assert(pow128(6) == 4398046511104);
    assert(pow128(7) == 562949953421312);
    assert(pow128(8) == 72057594037927936);
    assert(pow128(9) == 9223372036854775808);
    lemma_leb_s_len_bound(v, 9);
    lemma_leb_s_len_bound(v, 4);
}

proof fn lemma_leb_s_len_bound(v: int, k: nat)
    ensures
        -pow128(k) * 64 <= v < pow128(k) * 64 ==> leb_s(v).len() <= k + 1,
    decreases k,
{
    if -pow128(k) * 64 <= v < pow128(k) * 64 {
        if k == 0 {
            assert(leb_s_last(v));
        } else if !leb_s_last(v) {
            lemma_leb_s_len_bound(v / 128, (k - 1) as nat);
            assert(pow128(k) == 128 * pow128((k - 1) as nat));
            lemma_div_bound(v, pow128((k - 1) as nat) * 64);
        }
    }
}

proof fn lemma_div_bound(v: int, m: int)
    requires
        m > 0,
        -(128 * m) <= v < 128 * m,
    ensures
        -m <= v / 128 < m,
{
    let q = v / 128;
    let r = v % 128;
    assert(v == 128 * q + r);
    assert(0 <= r < 128);
    assert(-m <= q < m) by (nonlinear_arith)
        requires
            v == 128 * q + r,
            0 <= r < 128,
            -(128 * m) <= v < 128 * m,
    ;
}

/// `128^k`.
pub open spec fn pow128(k: nat) -> int
    decreases k,
{
    if k == 0 { 1 } else { 128 * pow128((k - 1) as nat) }
}

} // verus!
