//! Fixed-width big-endian serialization of target-group elements.
//!
//! A target-group element is carried as 72 base-field limbs in Montgomery
//! form (twelve base-field elements of six 64-bit limbs each).  Each
//! base-field element is taken out of Montgomery form by a full Montgomery
//! reduction and written as 48 big-endian bytes; the elements are emitted in
//! the tower's reversed order.

use vstd::prelude::*;
use vstd::arithmetic::div_mod::{
    lemma_add_mod_noop, lemma_fundamental_div_mod_converse, lemma_mod_multiples_basic,
    lemma_small_mod,
};
use crate::modarith::{lemma_mul_mod_fold, lemma_mul_assoc3, lemma_cong_mul_right};

verus! {

/// The base-field modulus of BLS12-381:
/// p = 0x1a0111ea397fe69a4b1ba7b6434bacd764774b84f38512bf
///     6730d2a0f6b0f6241eabfffeb153ffffb9feffffffffaaab.
pub open spec fn fp_modulus() -> nat {
    0x1a0111ea397fe69a4b1ba7b6434bacd764774b84f38512bf6730d2a0f6b0f6241eabfffeb153ffffb9feffffffffaaabnat
}

/// The Montgomery radix 2^384.
pub open spec fn fp_radix() -> nat {
    0x1000000000000000000000000000000000000000000000000000000000000000000000000000000000000000000000000nat
}

/// The little-endian limbs of p, lowest first.
const MODULUS_0: u64 = 0xb9fe_ffff_ffff_aaab;

const MODULUS_1: u64 = 0x1eab_fffe_b153_ffff;

const MODULUS_2: u64 = 0x6730_d2a0_f6b0_f624;

const MODULUS_3: u64 = 0x6477_4b84_f385_12bf;

const MODULUS_4: u64 = 0x4b1b_a7b6_434b_acd7;

const MODULUS_5: u64 = 0x1a01_11ea_397f_e69a;

/// INV = -(p^{-1} mod 2^64) mod 2^64.
const INV: u64 = 0x89f3_fffc_fffc_fffd;

/// The value of six little-endian 64-bit limbs.
pub open spec fn fp_val(t: Seq<u64>) -> nat {
    t[0] as nat + t[1] as nat * 0x10000000000000000nat + t[2] as nat
        * 0x100000000000000000000000000000000nat + t[3] as nat
        * 0x1000000000000000000000000000000000000000000000000nat + t[4] as nat
        * 0x10000000000000000000000000000000000000000000000000000000000000000nat + t[5] as nat
        * 0x100000000000000000000000000000000000000000000000000000000000000000000000000000000nat
}

/// The big-endian value of a byte string.
pub open spec fn be_val(s: Seq<u8>) -> nat
    decreases s.len(),
{
    if s.len() == 0 {
        0
    } else {
        be_val(s.drop_last()) * 256 + (s.last() as nat)
    }
}

/// Multiply-and-accumulate: `a + b * c + carry`, split into a low and a
/// high 64-bit word.
pub fn mac(a: u64, b: u64, c: u64, carry: u64) -> (r: (u64, u64))
    ensures
        r.0 + r.1 * 0x10000000000000000 == a + b * c + carry,
{
    proof {
        assert ((b as nat) * (c as nat) <= 0xffffffffffffffffnat * 0xffffffffffffffffnat)
            by (nonlinear_arith)
            requires
                b <= 0xffffffffffffffffu64,
                c <= 0xffffffffffffffffu64,
        ;
    }
    let t: u128 = (a as u128) + (b as u128) * (c as u128) + (carry as u128);
    let lo: u64 = (t % 0x10000000000000000) as u64;
    let hi: u64 = (t / 0x10000000000000000) as u64;
    (lo, hi)
}

/// Add with carry: `a + b + carry`, split into a low and a high 64-bit
/// word.
pub fn adc(a: u64, b: u64, carry: u64) -> (r: (u64, u64))
    ensures
        r.0 + r.1 * 0x10000000000000000 == a + b + carry,
{
    let t: u128 = (a as u128) + (b as u128) + (carry as u128);
    let lo: u64 = (t % 0x10000000000000000) as u64;
    let hi: u64 = (t / 0x10000000000000000) as u64;
    (lo, hi)
}

/// Subtract with borrow: `a - b - (borrow >> 63)`; the second word is zero
/// when no underflow happened and all ones when it did.
pub fn sbb(a: u64, b: u64, borrow: u64) -> (r: (u64, u64))
    ensures
        r.0 + 0x10000000000000000 * (if r.1 == 0 { 1int } else { 0int }) == a as int - b as int - (
        borrow as int / 0x8000000000000000) + 0x10000000000000000,
        r.1 == 0 || r.1 == 0xffffffffffffffffu64,
        (r.1 == 0) == (a as int - b as int - (borrow as int / 0x8000000000000000) >= 0),
{
    let bin: u64 = borrow / 0x8000000000000000;
    let t: u128 = (a as u128) + 0x10000000000000000 - (b as u128) - (bin as u128);
    let lo: u64 = (t % 0x10000000000000000) as u64;
    let hi: u64 = (t / 0x10000000000000000) as u64;
    if hi == 0 {
        (lo, 0xffffffffffffffff)
    } else {
        (lo, 0)
    }
}

/// Subtracts p once when the six-limb value is at least p, and returns the
/// value unchanged otherwise.
pub fn subtract_p(tmp: &[u64; 6]) -> (r: [u64; 6])
    ensures
        fp_val(r@) as int == if fp_val(tmp@) >= fp_modulus() {
            fp_val(tmp@) - fp_modulus()
        } else {
            fp_val(tmp@) as int
        },
{
    let (r0, borrow) = sbb(tmp[0], MODULUS_0, 0);
    let (r1, borrow) = sbb(tmp[1], MODULUS_1, borrow);
    let (r2, borrow) = sbb(tmp[2], MODULUS_2, borrow);
    let (r3, borrow) = sbb(tmp[3], MODULUS_3, borrow);
    let (r4, borrow) = sbb(tmp[4], MODULUS_4, borrow);
    let (r5, borrow) = sbb(tmp[5], MODULUS_5, borrow);
    proof {
        assert (fp_val(seq![r0, r1, r2, r3, r4, r5]) + (if borrow == 0 {
            1int
        } else {
            0int
        }) * (fp_radix() as int) == fp_val(tmp@) - fp_modulus() + fp_radix());
        assert ((borrow == 0) == (fp_val(tmp@) >= fp_modulus()));
    }
    if borrow == 0 {
        let out = [r0, r1, r2, r3, r4, r5];
        proof {
            assert (out@ =~= seq![r0, r1, r2, r3, r4, r5]);
        }
        out
    } else {
        let out = [tmp[0], tmp[1], tmp[2], tmp[3], tmp[4], tmp[5]];
        proof {
            assert (out@ =~= tmp@);
        }
        out
    }
}


/// One Montgomery-reduction scalar: `t + ((t * INV) % 2^64) * p_0` is a
/// multiple of `2^64`, by the choice of INV.
proof fn lemma_redc_k(t: u64)
    ensures
        ((t as nat) + ((t as nat * (INV as nat)) % 0x10000000000000000nat) * (MODULUS_0 as nat))
            % 0x10000000000000000nat == 0,
{
    let m = 0x10000000000000000nat;
    let inv = INV as nat;
    let p0 = MODULUS_0 as nat;
    let tn = t as nat;
    let k = (tn * inv) % m;
    lemma_mul_mod_fold(tn * inv, p0, m);
    lemma_mul_assoc3(tn, inv, p0);
    lemma_mul_mod_fold(tn, inv * p0, m);
    assert ((inv * p0) % m == (m - 1) as nat);
    assert ((k * p0) % m == (tn * ((m - 1) as nat)) % m);
    lemma_add_mod_noop(tn as int, (k * p0) as int, m as int);
    lemma_small_mod(tn, m);
    vstd::arithmetic::div_mod::lemma_add_mod_noop_right(
        tn as int,
        (tn * ((m - 1) as nat)) as int,
        m as int,
    );
    assert (tn + tn * ((m - 1) as nat) == tn * m);
    lemma_mod_multiples_basic(tn as int, m as int);
}

/// The value of twelve little-endian 64-bit limbs.
pub open spec fn fp_wide_val(t: Seq<u64>) -> nat {
    fp_val(t.subrange(0, 6)) + fp_val(t.subrange(6, 12)) * fp_radix()
}


/// One Montgomery-reduction round: clears the lowest limb of the running
/// seven-limb window by adding the right multiple of p, and shifts the
/// window up by one limb.  The returned scalar is that multiple.
fn redc_round(s0: u64, s1: u64, s2: u64, s3: u64, s4: u64, s5: u64, t6: u64, pend: u64) -> (r: (
    u64,
    u64,
    u64,
    u64,
    u64,
    u64,
    u64,
    u64,
))
    ensures
        s0 as nat + s1 as nat * 0x10000000000000000nat + s2 as nat * 0x100000000000000000000000000000000nat + s3 as nat
            * 0x1000000000000000000000000000000000000000000000000nat + s4 as nat * 0x10000000000000000000000000000000000000000000000000000000000000000nat + s5 as nat * 0x100000000000000000000000000000000000000000000000000000000000000000000000000000000nat
            + t6 as nat * 0x1000000000000000000000000000000000000000000000000000000000000000000000000000000000000000000000000nat + pend as nat * 0x1000000000000000000000000000000000000000000000000000000000000000000000000000000000000000000000000nat + r.0 as nat
            * fp_modulus() == r.1 as nat * 0x10000000000000000nat + r.2 as nat * 0x100000000000000000000000000000000nat
            + r.3 as nat * 0x1000000000000000000000000000000000000000000000000nat + r.4 as nat * 0x10000000000000000000000000000000000000000000000000000000000000000nat + r.5 as nat
            * 0x100000000000000000000000000000000000000000000000000000000000000000000000000000000nat + r.6 as nat * 0x1000000000000000000000000000000000000000000000000000000000000000000000000000000000000000000000000nat + r.7 as nat * 0x10000000000000000000000000000000000000000000000000000000000000000000000000000000000000000000000000000000000000000nat,
{
    let k = s0.wrapping_mul(INV);
    proof {
        lemma_redc_k(s0);
    }
    let (z, carry) = mac(s0, k, MODULUS_0, 0);
    proof {
        lemma_fundamental_div_mod_converse(
            (s0 as nat + k as nat * MODULUS_0 as nat) as int,
            0x10000000000000000,
            carry as int,
            z as int,
        );
        assert (z == 0);
    }
    let (o1, carry) = mac(s1, k, MODULUS_1, carry);
    let (o2, carry) = mac(s2, k, MODULUS_2, carry);
    let (o3, carry) = mac(s3, k, MODULUS_3, carry);
    let (o4, carry) = mac(s4, k, MODULUS_4, carry);
    let (o5, carry) = mac(s5, k, MODULUS_5, carry);
    let (o6, o7) = adc(t6, pend, carry);
    proof {
        assert (fp_modulus() == MODULUS_0 as nat + MODULUS_1 as nat * 0x10000000000000000nat
            + MODULUS_2 as nat * 0x100000000000000000000000000000000nat + MODULUS_3 as nat * 0x1000000000000000000000000000000000000000000000000nat
            + MODULUS_4 as nat * 0x10000000000000000000000000000000000000000000000000000000000000000nat + MODULUS_5 as nat * 0x100000000000000000000000000000000000000000000000000000000000000000000000000000000nat);
    }
    (k, o1, o2, o3, o4, o5, o6, o7)
}



/// Three Montgomery-reduction rounds in a row: clears the three lowest
/// limbs of the running window, absorbing three fresh high limbs.
fn redc_triple(
    s0: u64,
    s1: u64,
    s2: u64,
    s3: u64,
    s4: u64,
    s5: u64,
    pend: u64,
    u6: u64,
    u7: u64,
    u8: u64,
) -> (r: (u64, u64, u64, u64, u64, u64, u64, Ghost<nat>))
    ensures
        s0 as nat + s1 as nat * 0x10000000000000000nat + s2 as nat * 0x100000000000000000000000000000000nat + s3 as nat * 0x1000000000000000000000000000000000000000000000000nat + s4 as nat * 0x10000000000000000000000000000000000000000000000000000000000000000nat + s5 as nat * 0x100000000000000000000000000000000000000000000000000000000000000000000000000000000nat
            + pend as nat * 0x1000000000000000000000000000000000000000000000000000000000000000000000000000000000000000000000000nat + u6 as nat * 0x1000000000000000000000000000000000000000000000000000000000000000000000000000000000000000000000000nat + u7 as nat
            * 0x10000000000000000000000000000000000000000000000000000000000000000000000000000000000000000000000000000000000000000nat + u8 as nat * 0x100000000000000000000000000000000000000000000000000000000000000000000000000000000000000000000000000000000000000000000000000000000nat + r.7@ * fp_modulus()
            == r.0 as nat * 0x1000000000000000000000000000000000000000000000000nat + r.1 as nat * 0x10000000000000000000000000000000000000000000000000000000000000000nat + r.2 as nat
            * 0x100000000000000000000000000000000000000000000000000000000000000000000000000000000nat + r.3 as nat * 0x1000000000000000000000000000000000000000000000000000000000000000000000000000000000000000000000000nat + r.4 as nat * 0x10000000000000000000000000000000000000000000000000000000000000000000000000000000000000000000000000000000000000000nat
            + r.5 as nat * 0x100000000000000000000000000000000000000000000000000000000000000000000000000000000000000000000000000000000000000000000000000000000nat + r.6 as nat * 0x1000000000000000000000000000000000000000000000000000000000000000000000000000000000000000000000000000000000000000000000000000000000000000000000000nat,
        r.7@ < 0x1000000000000000000000000000000000000000000000000nat,
{
    let (k1, a1, a2, a3, a4, a5, a6, a7) = redc_round(s0, s1, s2, s3, s4, s5, u6, pend);
    let (k2, b2, b3, b4, b5, b6, b7, b8) = redc_round(a1, a2, a3, a4, a5, a6, u7, a7);
    let (k3, c3, c4, c5, c6, c7, c8, c9) = redc_round(b2, b3, b4, b5, b6, b7, u8, b8);
    let ghost kk = k1 as nat + k2 as nat * 0x10000000000000000nat + k3 as nat * 0x100000000000000000000000000000000nat;
    proof {
        assert (kk < 0x1000000000000000000000000000000000000000000000000nat);
    }
    (c3, c4, c5, c6, c7, c8, c9, Ghost(kk))
}

/// The full Montgomery reduction of a twelve-limb value: the result times
/// the Montgomery radix is congruent to the value (mod p), and lies in
/// [0, p).
#[verifier::rlimit(100)]
pub fn montgomery_reduce(
    t0: u64,
    t1: u64,
    t2: u64,
    t3: u64,
    t4: u64,
    t5: u64,
    t6: u64,
    t7: u64,
    t8: u64,
    t9: u64,
    t10: u64,
    t11: u64,
) -> (r: [u64; 6])
    requires
        fp_wide_val(seq![t0, t1, t2, t3, t4, t5, t6, t7, t8, t9, t10, t11]) < fp_modulus()
            * fp_radix(),
    ensures
        fp_val(r@) < fp_modulus(),
        (fp_val(r@) * fp_radix()) % fp_modulus() == fp_wide_val(
            seq![t0, t1, t2, t3, t4, t5, t6, t7, t8, t9, t10, t11],
        ) % fp_modulus(),
{
    let ghost tw = seq![t0, t1, t2, t3, t4, t5, t6, t7, t8, t9, t10, t11];
    let ghost tval = fp_wide_val(tw);
    let ghost p = fp_modulus();
    proof {
        assert (tval == t0 as nat + t1 as nat * 0x10000000000000000nat + t2 as nat * 0x100000000000000000000000000000000nat + t3 as nat * 0x1000000000000000000000000000000000000000000000000nat + t4 as nat * 0x10000000000000000000000000000000000000000000000000000000000000000nat + t5 as nat * 0x100000000000000000000000000000000000000000000000000000000000000000000000000000000nat + t6 as nat * 0x1000000000000000000000000000000000000000000000000000000000000000000000000000000000000000000000000nat + t7 as nat * 0x10000000000000000000000000000000000000000000000000000000000000000000000000000000000000000000000000000000000000000nat + t8 as nat * 0x100000000000000000000000000000000000000000000000000000000000000000000000000000000000000000000000000000000000000000000000000000000nat + t9 as nat * 0x1000000000000000000000000000000000000000000000000000000000000000000000000000000000000000000000000000000000000000000000000000000000000000000000000nat + t10 as nat * 0x10000000000000000000000000000000000000000000000000000000000000000000000000000000000000000000000000000000000000000000000000000000000000000000000000000000000000000nat + t11 as nat * 0x100000000000000000000000000000000000000000000000000000000000000000000000000000000000000000000000000000000000000000000000000000000000000000000000000000000000000000000000000000000nat);
    }
    let (m0, m1, m2, m3, m4, m5, mp, kk1) = redc_triple(t0, t1, t2, t3, t4, t5, 0, t6, t7, t8);
    let (n0, n1, n2, n3, n4, n5, np, kk2) = redc_triple(m0, m1, m2, m3, m4, m5, mp, t9, t10, t11);
    let ghost kk = kk1@ + kk2@ * 0x1000000000000000000000000000000000000000000000000nat;
    proof {
        assert (tval + kk1@ * p == m0 as nat * 0x1000000000000000000000000000000000000000000000000nat + m1 as nat * 0x10000000000000000000000000000000000000000000000000000000000000000nat + m2 as nat * 0x100000000000000000000000000000000000000000000000000000000000000000000000000000000nat + m3 as nat * 0x1000000000000000000000000000000000000000000000000000000000000000000000000000000000000000000000000nat + m4 as nat * 0x10000000000000000000000000000000000000000000000000000000000000000000000000000000000000000000000000000000000000000nat + m5 as nat * 0x100000000000000000000000000000000000000000000000000000000000000000000000000000000000000000000000000000000000000000000000000000000nat
            + mp as nat * 0x1000000000000000000000000000000000000000000000000000000000000000000000000000000000000000000000000000000000000000000000000000000000000000000000000nat + t9 as nat * 0x1000000000000000000000000000000000000000000000000000000000000000000000000000000000000000000000000000000000000000000000000000000000000000000000000nat + t10 as nat
            * 0x10000000000000000000000000000000000000000000000000000000000000000000000000000000000000000000000000000000000000000000000000000000000000000000000000000000000000000nat + t11 as nat * 0x100000000000000000000000000000000000000000000000000000000000000000000000000000000000000000000000000000000000000000000000000000000000000000000000000000000000000000000000000000000nat);
        assert (tval + kk * p == n0 as nat * 0x1000000000000000000000000000000000000000000000000000000000000000000000000000000000000000000000000nat + n1 as nat * 0x10000000000000000000000000000000000000000000000000000000000000000000000000000000000000000000000000000000000000000nat + n2 as nat * 0x100000000000000000000000000000000000000000000000000000000000000000000000000000000000000000000000000000000000000000000000000000000nat + n3 as nat * 0x1000000000000000000000000000000000000000000000000000000000000000000000000000000000000000000000000000000000000000000000000000000000000000000000000nat + n4 as nat * 0x10000000000000000000000000000000000000000000000000000000000000000000000000000000000000000000000000000000000000000000000000000000000000000000000000000000000000000nat + n5 as nat * 0x100000000000000000000000000000000000000000000000000000000000000000000000000000000000000000000000000000000000000000000000000000000000000000000000000000000000000000000000000000000nat
            + np as nat * 0x1000000000000000000000000000000000000000000000000000000000000000000000000000000000000000000000000000000000000000000000000000000000000000000000000000000000000000000000000000000000000000000000000nat);
        assert (kk < 0x1000000000000000000000000000000000000000000000000000000000000000000000000000000000000000000000000nat);
        assert (kk * p <= (0x1000000000000000000000000000000000000000000000000000000000000000000000000000000000000000000000000nat - 1) * p) by (nonlinear_arith)
            requires
                kk < 0x1000000000000000000000000000000000000000000000000000000000000000000000000000000000000000000000000nat,
        ;
        assert (tval + kk * p < 0x1000000000000000000000000000000000000000000000000000000000000000000000000000000000000000000000000000000000000000000000000000000000000000000000000000000000000000000000000000000000000000000000000nat);
        assert (np == 0);
    }
    let pre = [n0, n1, n2, n3, n4, n5];
    proof {
        assert (pre@ =~= seq![n0, n1, n2, n3, n4, n5]);
        let v = fp_val(pre@);
        assert (v * fp_radix() == tval + kk * p);
        vstd::arithmetic::div_mod::lemma_mod_multiples_vanish(kk as int, tval as int, p as int);
        assert ((v * fp_radix()) % p == tval % p);
        assert (v * fp_radix() < p * fp_radix() + p * fp_radix());
        assert (v < p + p);
    }
    let out = subtract_p(&pre);
    proof {
        let v = fp_val(pre@);
        let w = fp_val(out@);
        if v >= p {
            assert (w == v - p);
            vstd::arithmetic::div_mod::lemma_mod_sub_multiples_vanish(v as int, p as int);
            lemma_small_mod(w, p);
            assert (w % p == v % p);
        } else {
            assert (w == v);
            lemma_small_mod(w, p);
        }
        assert (w < p);
        lemma_cong_mul_right(w, v, fp_radix(), p);
        assert ((w * fp_radix()) % p == (v * fp_radix()) % p);
    }
    out
}



/// Appends the eight big-endian bytes of a 64-bit word.
fn push_be_u64(out: &mut Vec<u8>, x: u64)
    ensures
        final(out)@.len() == old(out)@.len() + 8,
        be_val(final(out)@) == be_val(old(out)@) * 0x10000000000000000nat + x as nat,
        final(out)@.subrange(0, old(out)@.len() as int) == old(out)@,
{
    let b0 = ((x / 0x100000000000000) % 256) as u8;
    let b1 = ((x / 0x1000000000000) % 256) as u8;
    let b2 = ((x / 0x10000000000) % 256) as u8;
    let b3 = ((x / 0x100000000) % 256) as u8;
    let b4 = ((x / 0x1000000) % 256) as u8;
    let b5 = ((x / 0x10000) % 256) as u8;
    let b6 = ((x / 0x100) % 256) as u8;
    let b7 = (x % 256) as u8;
    let ghost base = out@;
    out.push(b0);
    out.push(b1);
    out.push(b2);
    out.push(b3);
    out.push(b4);
    out.push(b5);
    out.push(b6);
    out.push(b7);
    proof {
        let s1 = base.push(b0);
        let s2 = s1.push(b1);
        let s3 = s2.push(b2);
        let s4 = s3.push(b3);
        let s5 = s4.push(b4);
        let s6 = s5.push(b5);
        let s7 = s6.push(b6);
        let s8 = s7.push(b7);
        assert (out@ =~= s8);
        assert (s1.drop_last() =~= base);
        assert (s2.drop_last() =~= s1);
        assert (s3.drop_last() =~= s2);
        assert (s4.drop_last() =~= s3);
        assert (s5.drop_last() =~= s4);
        assert (s6.drop_last() =~= s5);
        assert (s7.drop_last() =~= s6);
        assert (s8.drop_last() =~= s7);
        assert (be_val(s1) == be_val(base) * 256 + b0 as nat);
        assert (be_val(s2) == be_val(s1) * 256 + b1 as nat);
        assert (be_val(s3) == be_val(s2) * 256 + b2 as nat);
        assert (be_val(s4) == be_val(s3) * 256 + b3 as nat);
        assert (be_val(s5) == be_val(s4) * 256 + b4 as nat);
        assert (be_val(s6) == be_val(s5) * 256 + b5 as nat);
        assert (be_val(s7) == be_val(s6) * 256 + b6 as nat);
        assert (be_val(s8) == be_val(s7) * 256 + b7 as nat);
        let xn = x as int;
        vstd::arithmetic::div_mod::lemma_div_denominator(xn, 0x100, 0x100);
        vstd::arithmetic::div_mod::lemma_div_denominator(xn, 0x10000, 0x100);
        vstd::arithmetic::div_mod::lemma_div_denominator(xn, 0x1000000, 0x100);
        vstd::arithmetic::div_mod::lemma_div_denominator(xn, 0x100000000, 0x100);
        vstd::arithmetic::div_mod::lemma_div_denominator(xn, 0x10000000000, 0x100);
        vstd::arithmetic::div_mod::lemma_div_denominator(xn, 0x1000000000000, 0x100);
        vstd::arithmetic::div_mod::lemma_fundamental_div_mod(xn, 0x100);
        vstd::arithmetic::div_mod::lemma_fundamental_div_mod(xn / 0x100, 0x100);
        vstd::arithmetic::div_mod::lemma_fundamental_div_mod(xn / 0x10000, 0x100);
        vstd::arithmetic::div_mod::lemma_fundamental_div_mod(xn / 0x1000000, 0x100);
        vstd::arithmetic::div_mod::lemma_fundamental_div_mod(xn / 0x100000000, 0x100);
        vstd::arithmetic::div_mod::lemma_fundamental_div_mod(xn / 0x10000000000, 0x100);
        vstd::arithmetic::div_mod::lemma_fundamental_div_mod(xn / 0x1000000000000, 0x100);
        assert (xn / 0x100000000000000 < 256);
        vstd::arithmetic::div_mod::lemma_small_mod((xn / 0x100000000000000) as nat, 256);
        assert (out@.subrange(0, base.len() as int) =~= base);
    }
}

/// A byte string encodes a base-field element given in Montgomery limbs:
/// it is the 48-byte big-endian form of the value the limbs stand for.
pub open spec fn fp_encodes(bytes: Seq<u8>, limbs: Seq<u64>) -> bool {
    &&& bytes.len() == 48
    &&& be_val(bytes) < fp_modulus()
    &&& (be_val(bytes) * fp_radix()) % fp_modulus() == fp_val(limbs) % fp_modulus()
}

/// Writes one base-field element, taken out of Montgomery form, as 48
/// big-endian bytes.
pub fn fp_to_bytes_format(tmp: &[u64]) -> (r: Vec<u8>)
    requires
        tmp@.len() >= 6,
    ensures
        fp_encodes(r@, tmp@.subrange(0, 6)),
{
    let red = montgomery_reduce(tmp[0], tmp[1], tmp[2], tmp[3], tmp[4], tmp[5], 0, 0, 0, 0, 0, 0);
    proof {
        let padded = seq![tmp[0], tmp[1], tmp[2], tmp[3], tmp[4], tmp[5], 0u64, 0u64, 0u64, 0u64, 0u64, 0u64];
        assert (padded.subrange(0, 6) =~= tmp@.subrange(0, 6));
        assert (fp_val(padded.subrange(6, 12)) == 0);
        assert (fp_wide_val(padded) == fp_val(tmp@.subrange(0, 6)));
        assert (fp_val(tmp@.subrange(0, 6)) < fp_radix());
        assert (fp_radix() <= fp_modulus() * fp_radix());
    }
    let mut res: Vec<u8> = Vec::new();
    push_be_u64(&mut res, red[5]);
    push_be_u64(&mut res, red[4]);
    push_be_u64(&mut res, red[3]);
    push_be_u64(&mut res, red[2]);
    push_be_u64(&mut res, red[1]);
    push_be_u64(&mut res, red[0]);
    proof {
        assert (be_val(res@) == fp_val(red@));
    }
    res
}


/// A byte string encodes a quadratic-extension element given in Montgomery
/// limbs: the two base-field coefficients in reversed order.
pub open spec fn fp2_encodes(bytes: Seq<u8>, limbs: Seq<u64>) -> bool {
    &&& bytes.len() == 96
    &&& fp_encodes(bytes.subrange(0, 48), limbs.subrange(6, 12))
    &&& fp_encodes(bytes.subrange(48, 96), limbs.subrange(0, 6))
}

/// Writes one quadratic-extension element as 96 bytes, coefficients in
/// reversed order.
pub fn fp2_to_bytes_format(tmp: &[u64]) -> (r: Vec<u8>)
    requires
        tmp@.len() >= 12,
    ensures
        fp2_encodes(r@, tmp@.subrange(0, 12)),
{
    let c0 = fp_to_bytes_format(&tmp[0..6]);
    let c1 = fp_to_bytes_format(&tmp[6..12]);
    let ghost c0v = c0@;
    let ghost c1v = c1@;
    let mut res = c1;
    let mut c0m = c0;
    res.append(&mut c0m);
    proof {
        assert (res@ =~= c1v + c0v);
        assert (res@.subrange(0, 48) =~= c1v);
        assert (res@.subrange(48, 96) =~= c0v);
        assert (tmp@.subrange(6, 12).subrange(0, 6) =~= tmp@.subrange(0, 12).subrange(6, 12));
        assert (tmp@.subrange(0, 6).subrange(0, 6) =~= tmp@.subrange(0, 12).subrange(0, 6));
    }
    res
}

/// A byte string encodes a sextic-extension element given in Montgomery
/// limbs: the three quadratic coefficients in reversed order.
pub open spec fn fp6_encodes(bytes: Seq<u8>, limbs: Seq<u64>) -> bool {
    &&& bytes.len() == 288
    &&& fp2_encodes(bytes.subrange(0, 96), limbs.subrange(24, 36))
    &&& fp2_encodes(bytes.subrange(96, 192), limbs.subrange(12, 24))
    &&& fp2_encodes(bytes.subrange(192, 288), limbs.subrange(0, 12))
}

/// Writes one sextic-extension element as 288 bytes, coefficients in
/// reversed order.
pub fn fp6_to_bytes_format(tmp: &[u64]) -> (r: Vec<u8>)
    requires
        tmp@.len() >= 36,
    ensures
        fp6_encodes(r@, tmp@.subrange(0, 36)),
{
    let c0 = fp2_to_bytes_format(&tmp[0..12]);
    let c1 = fp2_to_bytes_format(&tmp[12..24]);
    let c2 = fp2_to_bytes_format(&tmp[24..36]);
    let ghost c0v = c0@;
    let ghost c1v = c1@;
    let ghost c2v = c2@;
    let mut res = c2;
    let mut c1m = c1;
    let mut c0m = c0;
    res.append(&mut c1m);
    res.append(&mut c0m);
    proof {
        assert (res@ =~= c2v + c1v + c0v);
        assert (res@.subrange(0, 96) =~= c2v);
        assert (res@.subrange(96, 192) =~= c1v);
        assert (res@.subrange(192, 288) =~= c0v);
        assert (tmp@.subrange(24, 36).subrange(0, 12) =~= tmp@.subrange(0, 36).subrange(24, 36));
        assert (tmp@.subrange(12, 24).subrange(0, 12) =~= tmp@.subrange(0, 36).subrange(12, 24));
        assert (tmp@.subrange(0, 12).subrange(0, 12) =~= tmp@.subrange(0, 36).subrange(0, 12));
    }
    res
}

/// Writes a target-group element, given as 72 Montgomery limbs, as 576
/// big-endian bytes: the two sextic coefficients in reversed order.
pub fn gt_format(tmp: &[u64]) -> (r: Vec<u8>)
    requires
        tmp@.len() >= 72,
    ensures
        r@.len() == 576,
        fp6_encodes(r@.subrange(0, 288), tmp@.subrange(36, 72)),
        fp6_encodes(r@.subrange(288, 576), tmp@.subrange(0, 36)),
{
    let c0 = fp6_to_bytes_format(&tmp[0..36]);
    let c1 = fp6_to_bytes_format(&tmp[36..72]);
    let ghost c0v = c0@;
    let ghost c1v = c1@;
    let mut res = c1;
    let mut c0m = c0;
    res.append(&mut c0m);
    proof {
        assert (res@ =~= c1v + c0v);
        assert (res@.subrange(0, 288) =~= c1v);
        assert (res@.subrange(288, 576) =~= c0v);
        assert (tmp@.subrange(36, 72).subrange(0, 36) =~= tmp@.subrange(36, 72));
        assert (tmp@.subrange(0, 36).subrange(0, 36) =~= tmp@.subrange(0, 36));
    }
    res
}

} // verus!
