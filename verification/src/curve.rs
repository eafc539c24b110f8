//! The concrete-curve layer: BLS12-381 group elements and scalars, modelled
//! by the exponent they carry.
//!
//! G1, G2 and the pairing target group Gt are cyclic groups of the same prime
//! order q.  `g1_dlog`, `g2_dlog` and `gt_dlog` name the discrete logarithm
//! of an element with respect to the group's fixed generator, `g1_in_group`
//! and `g2_in_group` name membership in the prime-order group, and `fr_val`
//! names the integer value of a scalar field element.  The trusted functions
//! below say how each curve operation acts on those exponents; the public
//! wrapper types keep their fields private and their type invariant says the
//! held point lies in the prime-order group, so the trusted contracts are
//! only ever used on points they are true of.

use vstd::prelude::*;

verus! {

/// The order of the BLS12-381 scalar field, which is also the order of G1,
/// G2 and of the pairing target group:
/// q = 0x73eda753299d7d483339d80809a1d80553bda402fffe5bfeffffffff00000001.
pub open spec fn fr_order() -> nat {
    0x73eda753299d7d483339d80809a1d80553bda402fffe5bfeffffffff00000001nat
}

/// The difference of two exponents, reduced into [0, q).
pub open spec fn sub_mod(a: nat, b: nat) -> nat {
    ((a % fr_order() + fr_order() - b % fr_order()) as nat) % fr_order()
}

#[verifier::external_type_specification]
#[verifier::external_body]
pub struct ExG1Projective(bls12_381::G1Projective);

#[verifier::external_type_specification]
#[verifier::external_body]
pub struct ExG2Projective(bls12_381::G2Projective);

#[verifier::external_type_specification]
#[verifier::external_body]
pub struct ExGt(bls12_381::Gt);

#[verifier::external_type_specification]
#[verifier::external_body]
pub struct ExScalar(bls12_381::Scalar);

/// The integer value, in [0, q), that a scalar field element stands for.
pub uninterp spec fn fr_val(s: bls12_381::Scalar) -> nat;

/// Whether a G1 point lies in the prime-order group generated by the fixed
/// G1 generator.
pub uninterp spec fn g1_in_group(p: bls12_381::G1Projective) -> bool;

/// The discrete logarithm, with respect to the fixed G1 generator, of a G1
/// point of the prime-order group.
pub uninterp spec fn g1_dlog(p: bls12_381::G1Projective) -> nat;

/// Whether a G2 point lies in the prime-order group generated by the fixed
/// G2 generator.
pub uninterp spec fn g2_in_group(p: bls12_381::G2Projective) -> bool;

/// The discrete logarithm, with respect to the fixed G2 generator, of a G2
/// point of the prime-order group.
pub uninterp spec fn g2_dlog(p: bls12_381::G2Projective) -> nat;

/// The discrete logarithm of a target-group element with respect to
/// e(G1, G2), the pairing of the two fixed generators.  Every value of `Gt`
/// lies in the prime-order group, so this is total.
pub uninterp spec fn gt_dlog(v: bls12_381::Gt) -> nat;

/// Relies on `From<u64> for Scalar`: embeds the integer into the field.
/// Every u64 is below q, so the embedding is exact.
#[verifier::external_body]
fn fr_from_u64_raw(x: u64) -> (r: bls12_381::Scalar)
    ensures
        fr_val(r) == x as nat,
{
    bls12_381::Scalar::from(x)
}

/// Relies on `Mul for Scalar`: field multiplication, i.e. the product of the
/// values modulo q.
#[verifier::external_body]
fn fr_mul_raw(a: &bls12_381::Scalar, b: &bls12_381::Scalar) -> (r: bls12_381::Scalar)
    ensures
        fr_val(r) == (fr_val(*a) * fr_val(*b)) % fr_order(),
{
    a * b
}

/// Relies on `Scalar::invert`: yields the multiplicative inverse of the
/// element and fails exactly on zero.
#[verifier::external_body]
fn fr_invert_raw(a: &bls12_381::Scalar) -> (r: Option<bls12_381::Scalar>)
    ensures
        r is Some <==> fr_val(*a) % fr_order() != 0,
        r is Some ==> (fr_val(*a) * fr_val(r->0)) % fr_order() == 1 && fr_val(r->0) < fr_order(),
{
    Option::<bls12_381::Scalar>::from(a.invert())
}

/// Relies on `G1Projective::generator`: the fixed base point of G1.
#[verifier::external_body]
fn g1_generator_raw() -> (r: bls12_381::G1Projective)
    ensures
        g1_in_group(r),
        g1_dlog(r) == 1,
{
    bls12_381::G1Projective::generator()
}

/// Relies on `G1Projective::identity`: the neutral element of G1.
#[verifier::external_body]
fn g1_identity_raw() -> (r: bls12_381::G1Projective)
    ensures
        g1_in_group(r),
        g1_dlog(r) == 0,
{
    bls12_381::G1Projective::identity()
}

/// Relies on `Mul<Scalar> for G1Projective`: scalar multiplication, which
/// multiplies the committed exponent by the scalar (mod q).
#[verifier::external_body]
fn g1_mul_raw(p: &bls12_381::G1Projective, s: &bls12_381::Scalar) -> (r: bls12_381::G1Projective)
    requires
        g1_in_group(*p),
    ensures
        g1_in_group(r),
        g1_dlog(r) == (g1_dlog(*p) * fr_val(*s)) % fr_order(),
{
    p * s
}

/// Relies on `Add for G1Projective`: group addition adds exponents (mod q).
#[verifier::external_body]
fn g1_add_raw(a: &bls12_381::G1Projective, b: &bls12_381::G1Projective) -> (r:
    bls12_381::G1Projective)
    requires
        g1_in_group(*a),
        g1_in_group(*b),
    ensures
        g1_in_group(r),
        g1_dlog(r) == (g1_dlog(*a) + g1_dlog(*b)) % fr_order(),
{
    a + b
}

/// Relies on `Sub for G1Projective`: group subtraction subtracts exponents
/// (mod q).
#[verifier::external_body]
fn g1_sub_raw(a: &bls12_381::G1Projective, b: &bls12_381::G1Projective) -> (r:
    bls12_381::G1Projective)
    requires
        g1_in_group(*a),
        g1_in_group(*b),
    ensures
        g1_in_group(r),
        g1_dlog(r) == sub_mod(g1_dlog(*a), g1_dlog(*b)),
{
    a - b
}

/// Relies on `PartialEq for G1Projective`: G1 is cyclic of prime order q, so
/// two elements of it are equal exactly when their exponents agree (mod q).
#[verifier::external_body]
fn g1_eq_raw(a: &bls12_381::G1Projective, b: &bls12_381::G1Projective) -> (r: bool)
    requires
        g1_in_group(*a),
        g1_in_group(*b),
    ensures
        r == ((g1_dlog(*a) % fr_order()) == (g1_dlog(*b) % fr_order())),
{
    a == b
}

/// Relies on `G2Projective::generator`: the fixed base point of G2.
#[verifier::external_body]
fn g2_generator_raw() -> (r: bls12_381::G2Projective)
    ensures
        g2_in_group(r),
        g2_dlog(r) == 1,
{
    bls12_381::G2Projective::generator()
}

/// Relies on `G2Projective::identity`: the neutral element of G2.
#[verifier::external_body]
fn g2_identity_raw() -> (r: bls12_381::G2Projective)
    ensures
        g2_in_group(r),
        g2_dlog(r) == 0,
{
    bls12_381::G2Projective::identity()
}

/// Relies on `Mul<Scalar> for G2Projective`: scalar multiplication, which
/// multiplies the committed exponent by the scalar (mod q).
#[verifier::external_body]
fn g2_mul_raw(p: &bls12_381::G2Projective, s: &bls12_381::Scalar) -> (r: bls12_381::G2Projective)
    requires
        g2_in_group(*p),
    ensures
        g2_in_group(r),
        g2_dlog(r) == (g2_dlog(*p) * fr_val(*s)) % fr_order(),
{
    p * s
}

/// Relies on `Add for G2Projective`: group addition adds exponents (mod q).
#[verifier::external_body]
fn g2_add_raw(a: &bls12_381::G2Projective, b: &bls12_381::G2Projective) -> (r:
    bls12_381::G2Projective)
    requires
        g2_in_group(*a),
        g2_in_group(*b),
    ensures
        g2_in_group(r),
        g2_dlog(r) == (g2_dlog(*a) + g2_dlog(*b)) % fr_order(),
{
    a + b
}

/// Relies on `Sub for G2Projective`: group subtraction subtracts exponents
/// (mod q).
#[verifier::external_body]
fn g2_sub_raw(a: &bls12_381::G2Projective, b: &bls12_381::G2Projective) -> (r:
    bls12_381::G2Projective)
    requires
        g2_in_group(*a),
        g2_in_group(*b),
    ensures
        g2_in_group(r),
        g2_dlog(r) == sub_mod(g2_dlog(*a), g2_dlog(*b)),
{
    a - b
}

/// Relies on `PartialEq for G2Projective`: G2 is cyclic of prime order q, so
/// two elements of it are equal exactly when their exponents agree (mod q).
#[verifier::external_body]
fn g2_eq_raw(a: &bls12_381::G2Projective, b: &bls12_381::G2Projective) -> (r: bool)
    requires
        g2_in_group(*a),
        g2_in_group(*b),
    ensures
        r == ((g2_dlog(*a) % fr_order()) == (g2_dlog(*b) % fr_order())),
{
    a == b
}

/// Relies on `bls12_381::pairing`: the bilinear map G1 x G2 -> Gt, so the
/// exponent of the result is the product of the two exponents (mod q).
#[verifier::external_body]
fn pairing_raw(a: &bls12_381::G1Projective, b: &bls12_381::G2Projective) -> (r: bls12_381::Gt)
    requires
        g1_in_group(*a),
        g2_in_group(*b),
    ensures
        gt_dlog(r) == (g1_dlog(*a) * g2_dlog(*b)) % fr_order(),
{
    bls12_381::pairing(&(*a).into(), &(*b).into())
}

/// Relies on `PartialEq for Gt`: the target group is cyclic of prime order
/// q, so two of its elements are equal exactly when their exponents agree
/// (mod q).
#[verifier::external_body]
fn gt_eq_raw(a: &bls12_381::Gt, b: &bls12_381::Gt) -> (r: bool)
    ensures
        r == ((gt_dlog(*a) % fr_order()) == (gt_dlog(*b) % fr_order())),
{
    a == b
}

/// A scalar field element; its view is the integer it stands for.
#[derive(Clone, Copy, Debug)]
pub struct Fr {
    scalar: bls12_381::Scalar,
}

impl View for Fr {
    type V = nat;

    closed spec fn view(&self) -> nat {
        fr_val(self.scalar)
    }
}

impl Fr {
    /// The field element standing for a small integer.
    pub fn from_u64(x: u64) -> (r: Fr)
        ensures
            r@ == x as nat,
    {
        Fr { scalar: fr_from_u64_raw(x) }
    }

    /// The field product of the two elements.
    pub fn mul_fr(&self, o: &Fr) -> (r: Fr)
        ensures
            r@ == (self@ * o@) % fr_order(),
    {
        Fr { scalar: fr_mul_raw(&self.scalar, &o.scalar) }
    }

    /// The multiplicative inverse of the element, if it is not zero.
    pub fn invert(&self) -> (r: Option<Fr>)
        ensures
            r is Some <==> self@ % fr_order() != 0,
            r is Some ==> (self@ * r->0@) % fr_order() == 1 && r->0@ < fr_order(),
    {
        match fr_invert_raw(&self.scalar) {
            Some(s) => Some(Fr { scalar: s }),
            None => None,
        }
    }
}

/// A G1 group element; its view is the exponent the element commits to,
/// i.e. the point is the G1 generator raised to the view (mod q).
#[derive(Clone, Copy, Debug)]
pub struct G1Point {
    point: bls12_381::G1Projective,
}

impl View for G1Point {
    type V = nat;

    closed spec fn view(&self) -> nat {
        g1_dlog(self.point)
    }
}

impl G1Point {
    #[verifier::type_invariant]
    spec fn type_inv(self) -> bool {
        g1_in_group(self.point)
    }

    /// The fixed base point of G1.
    pub fn generator() -> (r: G1Point)
        ensures
            r@ == 1,
    {
        G1Point { point: g1_generator_raw() }
    }

    /// The neutral element of G1.
    pub fn identity() -> (r: G1Point)
        ensures
            r@ == 0,
    {
        G1Point { point: g1_identity_raw() }
    }

    /// The element raised to a scalar.
    pub fn mul_fr(&self, s: &Fr) -> (r: G1Point)
        ensures
            r@ == (self@ * s@) % fr_order(),
    {
        proof {
            use_type_invariant(self);
        }
        G1Point { point: g1_mul_raw(&self.point, &s.scalar) }
    }

    /// The group sum of the two elements.
    pub fn add_point(&self, o: &G1Point) -> (r: G1Point)
        ensures
            r@ == (self@ + o@) % fr_order(),
    {
        proof {
            use_type_invariant(self);
            use_type_invariant(o);
        }
        G1Point { point: g1_add_raw(&self.point, &o.point) }
    }

    /// The group difference of the two elements.
    pub fn sub_point(&self, o: &G1Point) -> (r: G1Point)
        ensures
            r@ == sub_mod(self@, o@),
    {
        proof {
            use_type_invariant(self);
            use_type_invariant(o);
        }
        G1Point { point: g1_sub_raw(&self.point, &o.point) }
    }

    /// Whether the two elements are the same point.
    pub fn eq_point(&self, o: &G1Point) -> (r: bool)
        ensures
            r == ((self@ % fr_order()) == (o@ % fr_order())),
    {
        proof {
            use_type_invariant(self);
            use_type_invariant(o);
        }
        g1_eq_raw(&self.point, &o.point)
    }

    /// The generator raised to a small integer.
    pub fn from_u64(x: u64) -> (r: G1Point)
        ensures
            r@ == x as nat % fr_order(),
    {
        let g = G1Point::generator();
        let s = Fr::from_u64(x);
        g.mul_fr(&s)
    }
}

/// A G2 group element; its view is the exponent the element commits to.
#[derive(Clone, Copy, Debug)]
pub struct G2Point {
    point: bls12_381::G2Projective,
}

impl View for G2Point {
    type V = nat;

    closed spec fn view(&self) -> nat {
        g2_dlog(self.point)
    }
}

impl G2Point {
    #[verifier::type_invariant]
    spec fn type_inv(self) -> bool {
        g2_in_group(self.point)
    }

    /// The fixed base point of G2.
    pub fn generator() -> (r: G2Point)
        ensures
            r@ == 1,
    {
        G2Point { point: g2_generator_raw() }
    }

    /// The neutral element of G2.
    pub fn identity() -> (r: G2Point)
        ensures
            r@ == 0,
    {
        G2Point { point: g2_identity_raw() }
    }

    /// The element raised to a scalar.
    pub fn mul_fr(&self, s: &Fr) -> (r: G2Point)
        ensures
            r@ == (self@ * s@) % fr_order(),
    {
        proof {
            use_type_invariant(self);
        }
        G2Point { point: g2_mul_raw(&self.point, &s.scalar) }
    }

    /// The group sum of the two elements.
    pub fn add_point(&self, o: &G2Point) -> (r: G2Point)
        ensures
            r@ == (self@ + o@) % fr_order(),
    {
        proof {
            use_type_invariant(self);
            use_type_invariant(o);
        }
        G2Point { point: g2_add_raw(&self.point, &o.point) }
    }

    /// The group difference of the two elements.
    pub fn sub_point(&self, o: &G2Point) -> (r: G2Point)
        ensures
            r@ == sub_mod(self@, o@),
    {
        proof {
            use_type_invariant(self);
            use_type_invariant(o);
        }
        G2Point { point: g2_sub_raw(&self.point, &o.point) }
    }

    /// Whether the two elements are the same point.
    pub fn eq_point(&self, o: &G2Point) -> (r: bool)
        ensures
            r == ((self@ % fr_order()) == (o@ % fr_order())),
    {
        proof {
            use_type_invariant(self);
            use_type_invariant(o);
        }
        g2_eq_raw(&self.point, &o.point)
    }

    /// The generator raised to a small integer.
    pub fn from_u64(x: u64) -> (r: G2Point)
        ensures
            r@ == x as nat % fr_order(),
    {
        let g = G2Point::generator();
        let s = Fr::from_u64(x);
        g.mul_fr(&s)
    }
}

/// An element of the pairing target group; its view is the exponent of the
/// element with respect to the fixed generator e(G1, G2).
#[derive(Clone, Copy, Debug)]
pub struct GtPoint {
    value: bls12_381::Gt,
}

impl View for GtPoint {
    type V = nat;

    closed spec fn view(&self) -> nat {
        gt_dlog(self.value)
    }
}

/// The pairing of a G1 element and a G2 element.
pub fn pairing(a: &G1Point, b: &G2Point) -> (r: GtPoint)
    ensures
        r@ == (a@ * b@) % fr_order(),
{
    proof {
        use_type_invariant(a);
        use_type_invariant(b);
    }
    GtPoint { value: pairing_raw(&a.point, &b.point) }
}

/// Whether the two target-group elements are equal.
pub fn gt_eq(a: &GtPoint, b: &GtPoint) -> (r: bool)
    ensures
        r == ((a@ % fr_order()) == (b@ % fr_order())),
{
    gt_eq_raw(&a.value, &b.value)
}

} // verus!
