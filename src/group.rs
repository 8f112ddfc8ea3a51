use vstd::prelude::*;
use crate::field::{limb_base, limbs_from, lemma_order_facts, order, Scalar};
use vstd::arithmetic::div_mod::lemma_add_mod_noop;
use vstd::arithmetic::mul::lemma_mul_is_distributive_add;
use vstd::arithmetic::power2::{lemma2_to64, lemma_pow2_unfold, pow2};
use ark_ec::{PairingEngine, ProjectiveCurve};
use ark_ff::{BigInteger256, Field, One, Zero};
use ark_serialize::{CanonicalDeserialize, CanonicalSerialize};
use crate::codec::{g1_encoding_of, g2_encoding_of, gt_encoding_of, G1_SIZE, G2_SIZE, GT_SIZE};
use crate::hash::{g1_candidate_of, g1_hash_log, g2_candidate_of, hash, hash_log, hash_to_g1};
use crate::error::CurveError377;

verus! {

// The three structs below hold ark values behind `external_body`: Verus
// refuses to declare ark's curve and field types, whose type parameters are
// bounded by ark's own traits.

/// A point of G1 as the curve library holds it (projective coordinates).
#[verifier::external_body]
pub struct G1Point {
    p: ark_bls12_381::G1Projective,
}

/// A point of G2 as the curve library holds it (projective coordinates).
#[verifier::external_body]
pub struct G2Point {
    p: ark_bls12_381::G2Projective,
}

/// An element of the degree-12 extension field that holds GT.
#[verifier::external_body]
pub struct GtValue {
    v: ark_bls12_381::Fq12,
}

/// A point of the prime-order subgroup G1. `log` is its discrete logarithm
/// with respect to the fixed generator of G1; it is never computed.
pub struct G1 {
    point: G1Point,
    log: Ghost<nat>,
}

/// A point of the prime-order subgroup G2, modelled as `G1` is.
pub struct G2 {
    point: G2Point,
    log: Ghost<nat>,
}

/// An element of the target group GT. `log` is its discrete logarithm with
/// respect to `e(g1, g2)`, the pairing of the two generators.
pub struct GT {
    value: GtValue,
    log: Ghost<nat>,
}

impl G1 {
    /// The discrete logarithm that the element stands for. Only this
    /// module's constructors set it.
    pub closed spec fn log(&self) -> nat {
        self.log@
    }

    pub open spec fn wf(&self) -> bool {
        self.log() < order()
    }

    /// A second handle on the same point.
    pub fn copy(&self) -> (r: G1)
        ensures
            r.log() == self.log(),
    {
        G1 { point: g1_point_copy(&self.point), log: Ghost(self.log()) }
    }

    /// The identity.
    pub fn new() -> (r: G1)
        ensures
            r.wf(),
            r.log() == 0,
    {
        g1_zero()
    }

    /// The fixed generator.
    pub fn one() -> (r: G1)
        ensures
            r.wf(),
            r.log() == 1,
    {
        g1_generator()
    }

    /// Group addition.
    pub fn add(&mut self, other: &G1)
        requires
            old(self).wf(),
            other.wf(),
        ensures
            final(self).wf(),
            final(self).log() == (old(self).log() + other.log()) % order(),
    {
        *self = g1_add(self, other);
    }

    /// Scalar multiplication.
    pub fn mul(&mut self, s: &Scalar)
        requires
            old(self).wf(),
            s.wf(),
        ensures
            final(self).wf(),
            final(self).log() == (old(self).log() * s.value()) % order(),
    {
        *self = g1_scale(self, s);
    }

    /// Replaces the point by the hash of `data` (see `hash::hash_to_g1`).
    pub fn map(&mut self, data: &[u8]) -> (r: Result<(), CurveError377>)
        ensures
            r is Ok <==> g1_hash_log(data@) is Some,
            r is Ok ==> final(self).wf() && Some(final(self).log()) == g1_hash_log(data@),
            r is Err ==> *final(self) == *old(self) && r == Err::<(), CurveError377>(CurveError377::HashToCurveError),
    {
        match hash_to_g1(data) {
            Ok(p) => {
                *self = p;
                Ok(())
            },
            Err(e) => Err(e),
        }
    }

    /// Equality of points.
    pub fn equals(&self, other: &G1) -> (r: bool)
        requires
            self.wf(),
            other.wf(),
        ensures
            r == (self.log() == other.log()),
    {
        g1_eq(self, other)
    }
}

impl G2 {
    /// The discrete logarithm that the element stands for. Only this
    /// module's constructors set it.
    pub closed spec fn log(&self) -> nat {
        self.log@
    }

    pub open spec fn wf(&self) -> bool {
        self.log() < order()
    }

    /// A second handle on the same point.
    pub fn copy(&self) -> (r: G2)
        ensures
            r.log() == self.log(),
    {
        G2 { point: g2_point_copy(&self.point), log: Ghost(self.log()) }
    }

    /// The identity.
    pub fn new() -> (r: G2)
        ensures
            r.wf(),
            r.log() == 0,
    {
        g2_zero()
    }

    /// The fixed generator.
    pub fn one() -> (r: G2)
        ensures
            r.wf(),
            r.log() == 1,
    {
        g2_generator()
    }

    /// Group addition.
    pub fn add(&mut self, other: &G2)
        requires
            old(self).wf(),
            other.wf(),
        ensures
            final(self).wf(),
            final(self).log() == (old(self).log() + other.log()) % order(),
    {
        *self = g2_add(self, other);
    }

    /// Scalar multiplication.
    pub fn mul(&mut self, s: &Scalar)
        requires
            old(self).wf(),
            s.wf(),
        ensures
            final(self).wf(),
            final(self).log() == (old(self).log() * s.value()) % order(),
    {
        *self = g2_scale(self, s);
    }

    /// Replaces the point by the hash of `data` (see `hash::hash`).
    pub fn map(&mut self, data: &[u8]) -> (r: Result<(), CurveError377>)
        ensures
            r is Ok <==> hash_log(data@) is Some,
            r is Ok ==> final(self).wf() && Some(final(self).log()) == hash_log(data@),
            r is Err ==> *final(self) == *old(self) && r == Err::<(), CurveError377>(CurveError377::HashToCurveError),
    {
        match hash(data) {
            Ok(p) => {
                *self = p;
                Ok(())
            },
            Err(e) => Err(e),
        }
    }

    /// Equality of points.
    pub fn equals(&self, other: &G2) -> (r: bool)
        requires
            self.wf(),
            other.wf(),
        ensures
            r == (self.log() == other.log()),
    {
        g2_eq(self, other)
    }
}

/// Relies on the `Copy` of ark's G1 projective type: the same coordinates.
#[verifier::external_body]
fn g1_point_copy(a: &G1Point) -> (r: G1Point)
    ensures
        r == a,
{
    G1Point { p: a.p }
}

/// `((b * e) % r + (b * p) % r) % r == (b * (e + p)) % r`
proof fn lemma_mod_sum_of_multiples(b: int, e: int, p: int)
    requires
        order() > 0,
    ensures
        ((b * e) % (order() as int) + (b * p) % (order() as int)) % (order() as int) == (b * (e + p)) % (order() as int),
{
    lemma_add_mod_noop(b * e, b * p, order() as int);
    lemma_mul_is_distributive_add(b, e, p);
}

impl GT {
    /// The discrete logarithm that the element stands for. Only this
    /// module's constructors set it.
    pub closed spec fn log(&self) -> nat {
        self.log@
    }

    pub open spec fn wf(&self) -> bool {
        self.log() < order()
    }

    /// A second handle on the same element.
    pub fn copy(&self) -> (r: GT)
        ensures
            r.log() == self.log(),
    {
        GT { value: gt_value_copy(&self.value), log: Ghost(self.log()) }
    }

    /// The identity of GT (the field's one).
    pub fn new() -> (r: GT)
        ensures
            r.wf(),
            r.log() == 0,
    {
        gt_one()
    }

    /// The identity of GT (the field's one).
    pub fn one() -> (r: GT)
        ensures
            r.wf(),
            r.log() == 0,
    {
        gt_one()
    }

    /// The group operation of GT, which is multiplication in the field.
    pub fn add(&mut self, other: &GT)
        requires
            old(self).wf(),
            other.wf(),
        ensures
            final(self).wf(),
            final(self).log() == (old(self).log() + other.log()) % order(),
    {
        *self = gt_mul(self, other);
    }

    /// Exponentiation by a scalar: square-and-multiply over the scalar's
    /// bits, least significant first.
    pub fn mul(&mut self, s: &Scalar)
        requires
            old(self).wf(),
            s.wf(),
        ensures
            final(self).wf(),
            final(self).log() == (old(self).log() * s.value()) % order(),
    {
        proof {
            lemma_order_facts();
            lemma2_to64();
        }
        let limbs = s.to_limbs();
        let ghost b: int = self.log() as int;
        let ghost m: int = order() as int;
        let mut res = GT::one();
        let mut temp = self.copy();
        let ghost mut e: int = 0;
        let ghost mut p: int = 1;
        assert(b * e == 0);
        assert(temp.log() == (b * p) % m) by {
            vstd::arithmetic::div_mod::lemma_small_mod(b as nat, m as nat);
        }
        let mut j: usize = 0;
        while j < 4
            invariant
                j <= 4,
                m == order(),
                m > 1,
                limbs@ == s.limbs(),
                res.wf(),
                temp.wf(),
                p > 0,
                e >= 0,
                res.log() == (b * e) % m,
                temp.log() == (b * p) % m,
                e + p * limbs_from(limbs@, j as int) == s.value(),
            decreases 4 - j,
        {
            let ghost e_start: int = e;
            let ghost p_start: int = p;
            let mut w: u64 = limbs[j];
            let mut i: usize = 0;
            proof {
                lemma2_to64();
                assert(p == p_start * pow2(0));
            }
            while i < 64
                invariant
                    i <= 64,
                    j < 4,
                    m == order(),
                    m > 1,
                    res.wf(),
                    temp.wf(),
                    p_start > 0,
                    e >= 0,
                    p == p_start * pow2(i as nat),
                    res.log() == (b * e) % m,
                    temp.log() == (b * p) % m,
                    e + p * w == e_start + p_start * limbs[j as int],
                    w < pow2((64 - i) as nat),
                decreases 64 - i,
            {
                proof {
                    lemma_pow2_unfold((64 - i) as nat);
                    lemma_pow2_unfold((i + 1) as nat);
                }
                let ghost wp: int = w as int;
                let ghost pp: int = p;
                let ghost ep: int = e;
                if w % 2 == 1 {
                    res.add(&temp);
                    proof {
                        lemma_mod_sum_of_multiples(b, e, p);
                        e = e + p;
                    }
                }
                let t = temp.copy();
                temp.add(&t);
                proof {
                    lemma_mod_sum_of_multiples(b, p, p);
                    if wp % 2 == 1 {
                        assert(pp * (wp % 2) == pp);
                    } else {
                        assert(wp % 2 == 0);
                        assert(pp * 0 == 0);
                    }
                    assert(e == ep + pp * (wp % 2));
                    assert(pp * wp == pp * (wp % 2) + (2 * pp) * (wp / 2)) by (nonlinear_arith)
                        requires
                            wp == (wp % 2) + 2 * (wp / 2);
                    p = 2 * p;
                    assert(p == p_start * pow2((i + 1) as nat)) by (nonlinear_arith)
                        requires
                            p == 2 * (p_start * pow2(i as nat)),
                            pow2((i + 1) as nat) == 2 * pow2(i as nat);
                }
                w = w / 2;
                i = i + 1;
            }
            proof {
                assert(w == 0);
                let rest = limbs_from(limbs@, j + 1);
                assert(limbs_from(limbs@, j as int) == limbs[j as int] + limb_base() * rest);
                assert(p == p_start * limb_base());
                assert(p_start * limb_base() > 0) by (nonlinear_arith)
                    requires
                        p_start > 0;
                assert(p_start * (limbs[j as int] + limb_base() * rest) == p_start * limbs[j as int] + p * rest) by (nonlinear_arith)
                    requires
                        p == p_start * limb_base();
            }
            j = j + 1;
        }
        proof {
            assert(limbs_from(limbs@, 4) == 0);
            assert(p * 0 == 0);
        }
        *self = res;
    }

    /// Whether the element lies in the subgroup of order r; an element
    /// outside it carries an exponent of at least r.
    pub fn in_correct_subgroup(&self) -> (r: bool)
        ensures
            r == self.wf(),
    {
        gt_in_subgroup(self)
    }

    /// Equality of elements.
    pub fn equals(&self, other: &GT) -> (r: bool)
        requires
            self.wf(),
            other.wf(),
        ensures
            r == (self.log() == other.log()),
    {
        gt_eq(self, other)
    }
}

/// The pairing of BLS12-381.
#[derive(Debug, Clone, Copy, PartialEq, Eq, Structural)]
pub struct PairingCurve;

impl PairingCurve {
    /// The bilinear map `e: G1 x G2 -> GT`, with `e(g1, g2)` as GT's base.
    pub fn pair(a: &G1, b: &G2) -> (r: GT)
        requires
            a.wf(),
            b.wf(),
        ensures
            r.wf(),
            r.log() == (a.log() * b.log()) % order(),
    {
        bls_pairing(a, b)
    }
}

/// Relies on ark's `PairingEngine::pairing` for BLS12-381: it is bilinear and
/// maps the two generators to the generator of GT.
#[verifier::external_body]
fn bls_pairing(a: &G1, b: &G2) -> (r: GT)
    ensures
        r.log() == (a.log() * b.log()) % order(),
{
    GT { value: GtValue { v: ark_bls12_381::Bls12_381::pairing(a.point.p, b.point.p) }, log: Ghost((a.log() * b.log()) % order()) }
}

/// Relies on the `Copy` of ark's `Fq12`: the same element.
#[verifier::external_body]
fn gt_value_copy(a: &GtValue) -> (r: GtValue)
    ensures
        r == a,
{
    GtValue { v: a.v }
}

/// Relies on ark's `One::one` for `Fq12`: the identity of GT.
#[verifier::external_body]
fn gt_one() -> (r: GT)
    ensures
        r.log() == 0,
{
    GT { value: GtValue { v: ark_bls12_381::Fq12::one() }, log: Ghost(0) }
}

/// Relies on ark's `*` on `Fq12`: the group law of GT.
#[verifier::external_body]
fn gt_mul(a: &GT, b: &GT) -> (r: GT)
    requires
        a.wf(),
        b.wf(),
    ensures
        r.log() == (a.log() + b.log()) % order(),
{
    GT { value: GtValue { v: a.value.v * b.value.v }, log: Ghost((a.log() + b.log()) % order()) }
}

/// Relies on ark's `Field::pow` on `Fq12` by the order r and `is_one`: `x^r == 1`
/// holds exactly for the elements of the subgroup of order r.
#[verifier::external_body]
fn gt_in_subgroup(a: &GT) -> (r: bool)
    ensures
        r == a.wf(),
{
    a.value.v.pow(ark_bls12_381::Fr::characteristic()).is_one()
}

/// Relies on ark's `==` on `Fq12`.
#[verifier::external_body]
fn gt_eq(a: &GT, b: &GT) -> (r: bool)
    requires
        a.wf(),
        b.wf(),
    ensures
        r == (a.log() == b.log()),
{
    a.value.v == b.value.v
}

/// Relies on ark's `Zero::zero` for the G1 projective type: the identity.
#[verifier::external_body]
fn g1_zero() -> (r: G1)
    ensures
        r.log() == 0,
{
    G1 { point: G1Point { p: ark_bls12_381::G1Projective::zero() }, log: Ghost(0) }
}

/// Relies on ark's `prime_subgroup_generator` for G1.
#[verifier::external_body]
fn g1_generator() -> (r: G1)
    ensures
        r.log() == 1,
{
    G1 { point: G1Point { p: ark_bls12_381::G1Projective::prime_subgroup_generator() }, log: Ghost(1) }
}

/// Relies on ark's `+` on G1 projective points: the group law.
#[verifier::external_body]
fn g1_add(a: &G1, b: &G1) -> (r: G1)
    ensures
        r.log() == (a.log() + b.log()) % order(),
{
    G1 { point: G1Point { p: a.point.p + b.point.p }, log: Ghost((a.log() + b.log()) % order()) }
}

/// Relies on ark's `ProjectiveCurve::mul` on G1: multiplication by the scalar's integer value.
#[verifier::external_body]
fn g1_scale(a: &G1, s: &Scalar) -> (r: G1)
    ensures
        r.log() == (a.log() * s.value()) % order(),
{
    G1 { point: G1Point { p: a.point.p.mul(BigInteger256::new([s.l0, s.l1, s.l2, s.l3])) }, log: Ghost((a.log() * s.value()) % order()) }
}

/// Relies on ark's `==` on G1 projective points, which compares the points
/// themselves, whatever their coordinates.
#[verifier::external_body]
fn g1_eq(a: &G1, b: &G1) -> (r: bool)
    requires
        a.wf(),
        b.wf(),
    ensures
        r == (a.log() == b.log()),
{
    a.point.p == b.point.p
}

/// Relies on the `Copy` of ark's G2 projective type: the same coordinates.
#[verifier::external_body]
fn g2_point_copy(a: &G2Point) -> (r: G2Point)
    ensures
        r == a,
{
    G2Point { p: a.p }
}

/// Relies on ark's `Zero::zero` for the G2 projective type: the identity.
#[verifier::external_body]
fn g2_zero() -> (r: G2)
    ensures
        r.log() == 0,
{
    G2 { point: G2Point { p: ark_bls12_381::G2Projective::zero() }, log: Ghost(0) }
}

/// Relies on ark's `prime_subgroup_generator` for G2.
#[verifier::external_body]
fn g2_generator() -> (r: G2)
    ensures
        r.log() == 1,
{
    G2 { point: G2Point { p: ark_bls12_381::G2Projective::prime_subgroup_generator() }, log: Ghost(1) }
}

/// Relies on ark's `+` on G2 projective points: the group law.
#[verifier::external_body]
fn g2_add(a: &G2, b: &G2) -> (r: G2)
    ensures
        r.log() == (a.log() + b.log()) % order(),
{
    G2 { point: G2Point { p: a.point.p + b.point.p }, log: Ghost((a.log() + b.log()) % order()) }
}

/// Relies on ark's `ProjectiveCurve::mul` on G2: multiplication by the scalar's integer value.
#[verifier::external_body]
fn g2_scale(a: &G2, s: &Scalar) -> (r: G2)
    ensures
        r.log() == (a.log() * s.value()) % order(),
{
    G2 { point: G2Point { p: a.point.p.mul(BigInteger256::new([s.l0, s.l1, s.l2, s.l3])) }, log: Ghost((a.log() * s.value()) % order()) }
}

/// Relies on ark's `==` on G2 projective points, which compares the points
/// themselves, whatever their coordinates.
#[verifier::external_body]
fn g2_eq(a: &G2, b: &G2) -> (r: bool)
    requires
        a.wf(),
        b.wf(),
    ensures
        r == (a.log() == b.log()),
{
    a.point.p == b.point.p
}

/// Relies on ark's `CanonicalSerialize::serialize` for G1 projective points:
/// the compressed affine form, 48 bytes.
#[verifier::external_body]
pub(crate) fn g1_serialize(p: &G1) -> (r: Vec<u8>)
    ensures
        r@ == g1_encoding_of(p.log()),
        r@.len() == G1_SIZE,
{
    let mut bytes = Vec::with_capacity(G1_SIZE);
    let _ = p.point.p.serialize(&mut bytes);
    bytes
}

/// Relies on ark's `CanonicalDeserialize::deserialize` for G1 projective
/// points: it reads the compressed form, rejects points off the curve or out
/// of the prime-order subgroup, and reads back every encoding it writes. The
/// one form it accepts that it does not write, the infinity flag with other
/// bits set, gives the identity.
#[verifier::external_body]
pub(crate) fn g1_deserialize(b: &[u8]) -> (r: Result<G1, ark_serialize::SerializationError>)
    ensures
        r matches Ok(p) ==> p.wf(),
        r matches Ok(p) ==> (p.log() != 0 ==> b@ == g1_encoding_of(p.log())),
        forall|k: nat| k < order() && b@ == g1_encoding_of(k) ==> (r is Ok && r->Ok_0.log() == k),
{
    ark_bls12_381::G1Projective::deserialize(b).map(|p| G1 {
        point: G1Point { p },
        log: Ghost(
            if exists|k: nat| k < order() && b@ == g1_encoding_of(k) {
                choose|k: nat| k < order() && b@ == g1_encoding_of(k)
            } else {
                0
            },
        ),
    })
}

/// Relies on ark's `CanonicalSerialize::serialize` for G2 projective points:
/// the compressed affine form, 96 bytes.
#[verifier::external_body]
pub(crate) fn g2_serialize(p: &G2) -> (r: Vec<u8>)
    ensures
        r@ == g2_encoding_of(p.log()),
        r@.len() == G2_SIZE,
{
    let mut bytes = Vec::with_capacity(G2_SIZE);
    let _ = p.point.p.serialize(&mut bytes);
    bytes
}

/// Relies on ark's `CanonicalDeserialize::deserialize` for G2 projective
/// points: it reads the compressed form, rejects points off the curve or out
/// of the prime-order subgroup, and reads back every encoding it writes. The
/// one form it accepts that it does not write, the infinity flag with other
/// bits set, gives the identity.
#[verifier::external_body]
pub(crate) fn g2_deserialize(b: &[u8]) -> (r: Result<G2, ark_serialize::SerializationError>)
    ensures
        r matches Ok(p) ==> p.wf(),
        r matches Ok(p) ==> (p.log() != 0 ==> b@ == g2_encoding_of(p.log())),
        forall|k: nat| k < order() && b@ == g2_encoding_of(k) ==> (r is Ok && r->Ok_0.log() == k),
{
    ark_bls12_381::G2Projective::deserialize(b).map(|p| G2 {
        point: G2Point { p },
        log: Ghost(
            if exists|k: nat| k < order() && b@ == g2_encoding_of(k) {
                choose|k: nat| k < order() && b@ == g2_encoding_of(k)
            } else {
                0
            },
        ),
    })
}

/// Relies on ark's `CanonicalSerialize::serialize` for `Fq12`: twelve base
/// field elements, 576 bytes.
#[verifier::external_body]
pub(crate) fn gt_serialize(a: &GT) -> (r: Vec<u8>)
    requires
        a.wf(),
    ensures
        r@ == gt_encoding_of(a.log()),
        r@.len() == GT_SIZE,
{
    let mut bytes = Vec::with_capacity(GT_SIZE);
    let _ = a.value.v.serialize(&mut bytes);
    bytes
}

/// Relies on ark's `CanonicalDeserialize::deserialize` for `Fq12`: it reads
/// back every encoding it writes. It does not check the subgroup: a value
/// outside it is given an exponent of at least r.
#[verifier::external_body]
pub(crate) fn gt_deserialize(b: &[u8]) -> (r: Result<GT, ark_serialize::SerializationError>)
    ensures
        forall|k: nat| k < order() && b@ == gt_encoding_of(k) ==> (r is Ok && r->Ok_0.log() == k),
{
    ark_bls12_381::Fq12::deserialize(b).map(|v| GT {
        value: GtValue { v },
        log: Ghost(
            if exists|k: nat| k < order() && b@ == gt_encoding_of(k) {
                choose|k: nat| k < order() && b@ == gt_encoding_of(k)
            } else {
                order()
            },
        ),
    })
}

/// Relies on ark's `Field::from_random_bytes` on `Fq2`, on
/// `GroupAffine::get_point_from_x` (the larger y when `greatest`, else the
/// smaller) and on `scale_by_cofactor`, which lands in the prime-order subgroup.
#[verifier::external_body]
pub(crate) fn g2_candidate(digest: &Vec<u8>, greatest: bool) -> (r: Option<G2>)
    ensures
        r is Some <==> g2_candidate_of(digest@, greatest) is Some,
        r matches Some(p) ==> p.wf() && Some(p.log()) == g2_candidate_of(digest@, greatest),
{
    ark_bls12_381::Fq2::from_random_bytes(digest)
        .and_then(|x| ark_bls12_381::G2Affine::get_point_from_x(x, greatest))
        .map(|a| G2 {
            point: G2Point { p: a.scale_by_cofactor() },
            log: Ghost(g2_candidate_of(digest@, greatest).unwrap()),
        })
}

/// Relies on ark's `Field::from_random_bytes` on `Fq`, on
/// `GroupAffine::get_point_from_x` (the larger y when `greatest`, else the
/// smaller) and on `scale_by_cofactor`, which lands in the prime-order subgroup.
#[verifier::external_body]
pub(crate) fn g1_candidate(digest: &Vec<u8>, greatest: bool) -> (r: Option<G1>)
    ensures
        r is Some <==> g1_candidate_of(digest@, greatest) is Some,
        r matches Some(p) ==> p.wf() && Some(p.log()) == g1_candidate_of(digest@, greatest),
{
    ark_bls12_381::Fq::from_random_bytes(digest)
        .and_then(|x| ark_bls12_381::G1Affine::get_point_from_x(x, greatest))
        .map(|a| G1 {
            point: G1Point { p: a.scale_by_cofactor() },
            log: Ghost(g1_candidate_of(digest@, greatest).unwrap()),
        })
}

} // verus!
