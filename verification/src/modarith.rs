//! Small facts about modular products and powers, shared by the ceremony
//! proofs.  The modulus is always the group order q.

use vstd::prelude::*;
use vstd::arithmetic::div_mod::{
    lemma_mul_mod_noop_general, lemma_mul_mod_noop_left,
};
use vstd::arithmetic::mul::lemma_mul_is_associative;

verus! {

/// The base raised to the exponent.
pub open spec fn pow_nat(b: nat, e: nat) -> nat
    decreases e,
{
    if e == 0 {
        1
    } else {
        b * pow_nat(b, (e - 1) as nat)
    }
}

/// One is a fixed point of every power.
pub proof fn lemma_pow_nat_one(e: nat)
    ensures
        pow_nat(1, e) == 1,
    decreases e,
{
    if e > 0 {
        lemma_pow_nat_one((e - 1) as nat);
    }
}

/// A power of a product is the product of the powers.
pub proof fn lemma_pow_nat_distributes(a: nat, b: nat, e: nat)
    ensures
        pow_nat(a * b, e) == pow_nat(a, e) * pow_nat(b, e),
    decreases e,
{
    if e > 0 {
        let e1 = (e - 1) as nat;
        lemma_pow_nat_distributes(a, b, e1);
        let pa = pow_nat(a, e1);
        let pb = pow_nat(b, e1);
        assert ((a * b) * (pa * pb) == (a * pa) * (b * pb)) by (nonlinear_arith);
        assert (pow_nat(a * b, e) == (a * b) * pow_nat(a * b, e1));
        assert (pow_nat(a * b, e1) == pa * pb);
        assert (pow_nat(a, e) == a * pa);
        assert (pow_nat(b, e) == b * pb);
        assert (pow_nat(a, e) * pow_nat(b, e) == (a * pa) * (b * pb)) by (nonlinear_arith)
            requires
                pow_nat(a, e) == a * pa,
                pow_nat(b, e) == b * pb,
        ;
        assert (pow_nat(a * b, e) == pow_nat(a, e) * pow_nat(b, e));
    } else {
        assert (pow_nat(a * b, e) == 1);
        assert (pow_nat(a, e) * pow_nat(b, e) == 1) by (nonlinear_arith)
            requires
                pow_nat(a, e) == 1,
                pow_nat(b, e) == 1,
        ;
    }
}

/// Multiplying two congruent values by the same factor keeps them congruent.
pub proof fn lemma_cong_mul_right(a1: nat, a2: nat, x: nat, m: nat)
    requires
        m > 0,
        a1 % m == a2 % m,
    ensures
        (a1 * x) % m == (a2 * x) % m,
{
    lemma_mul_mod_noop_left(a1 as int, x as int, m as int);
    lemma_mul_mod_noop_left(a2 as int, x as int, m as int);
}

/// Reducing one factor of a product before multiplying does not change the
/// reduced product.
pub proof fn lemma_mul_mod_fold(a: nat, b: nat, m: nat)
    requires
        m > 0,
    ensures
        ((a % m) * b) % m == (a * b) % m,
        (a * (b % m)) % m == (a * b) % m,
        ((a % m) * (b % m)) % m == (a * b) % m,
{
    lemma_mul_mod_noop_general(a as int, b as int, m as int);
}

/// A value multiplied by something, then by that something's inverse, is the
/// value again (mod m).
pub proof fn lemma_inv_cancel(p: nat, x: nat, i: nat, m: nat)
    requires
        m > 0,
        (x * i) % m == 1,
    ensures
        (((p * i) % m) * x) % m == p % m,
{
    lemma_mul_mod_fold(p * i, x, m);
    assert ((p * i) * x == p * (x * i)) by (nonlinear_arith);
    lemma_mul_mod_fold(p, x * i, m);
    assert ((p * ((x * i) % m)) % m == (p * 1) % m);
}

/// Products can be regrouped across a pair of factors.
pub proof fn lemma_mul_exchange(a: nat, b: nat, c: nat, d: nat)
    ensures
        (a * b) * (c * d) == (a * c) * (b * d),
{
    assert ((a * b) * (c * d) == (a * c) * (b * d)) by (nonlinear_arith);
}

/// The reduced product of two reduced factors equals the reduced product of
/// the originals.
pub proof fn lemma_mul_mod_both(a: nat, b: nat, m: nat)
    requires
        m > 0,
    ensures
        ((a % m) * (b % m)) % m == (a * b) % m,
{
    lemma_mul_mod_fold(a, b, m);
}

/// Three-factor products may be reassociated.
pub proof fn lemma_mul_assoc3(a: nat, b: nat, c: nat)
    ensures
        (a * b) * c == a * (b * c),
{
    lemma_mul_is_associative(a as int, b as int, c as int);
}

} // verus!
