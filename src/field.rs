use vstd::prelude::*;
use ark_ff::{BigInteger256, Field, PrimeField};
use vstd::arithmetic::power2::pow2;

verus! {

/// 2^64, the base of the limb representation.
pub open spec fn limb_base() -> nat {
    0x1_0000_0000_0000_0000nat
}

/// Value of the little-endian limbs `l[j..]`.
pub open spec fn limbs_from(l: Seq<u64>, j: int) -> nat
    decreases l.len() - j,
{
    if j < 0 || j >= l.len() {
        0
    } else {
        l[j] as nat + limb_base() * limbs_from(l, j + 1)
    }
}

/// The order r of the groups G1, G2 and GT, and the modulus of the scalar field.
pub open spec fn order() -> nat {
    limbs_from(seq![0xffffffff00000001u64, 0x53bda402fffe5bfeu64, 0x3339d80809a1d805u64, 0x73eda753299d7d48u64], 0)
}

pub proof fn lemma_order_facts()
    ensures
        order() > 1,
        order() < limb_base() * limb_base() * limb_base() * limb_base(),
{
    reveal_with_fuel(limbs_from, 5);
}

/// The integer that bytes spell, least significant byte first.
pub open spec fn le_value(b: Seq<u8>) -> nat
    decreases b.len(),
{
    if b.len() == 0 {
        0
    } else {
        b[0] as nat + 256 * le_value(b.subrange(1, b.len() as int))
    }
}

/// The integer that ark's `Fr::from_random_bytes` reads from a byte string:
/// the first 32 bytes (fewer are padded with zeros), least significant first,
/// with bit 255 cleared.
pub open spec fn random_bytes_value(b: Seq<u8>) -> nat {
    le_value(if b.len() > 32 { b.subrange(0, 32) } else { b }) % pow2(255)
}

/// An element of the scalar field Fr, held as four little-endian 64-bit limbs.
#[derive(Debug, Clone, Copy, PartialEq, Eq, Structural)]
pub struct Scalar {
    pub l0: u64,
    pub l1: u64,
    pub l2: u64,
    pub l3: u64,
}

impl Scalar {
    /// The limbs, least significant first.
    pub open spec fn limbs(&self) -> Seq<u64> {
        seq![self.l0, self.l1, self.l2, self.l3]
    }

    pub open spec fn value(&self) -> nat {
        limbs_from(self.limbs(), 0)
    }

    /// The limbs as an array, least significant first.
    pub fn to_limbs(&self) -> (r: [u64; 4])
        ensures
            r@ == self.limbs(),
    {
        let r = [self.l0, self.l1, self.l2, self.l3];
        assert(r@ =~= self.limbs());
        r
    }

    /// The limbs hold a value below the field modulus.
    pub open spec fn wf(&self) -> bool {
        self.value() < order()
    }

    /// The additive identity.
    pub fn new() -> (r: Scalar)
        ensures
            r.wf(),
            r.value() == 0,
    {
        proof {
            lemma_order_facts();
        }
        let r = Scalar { l0: 0, l1: 0, l2: 0, l3: 0 };
        proof {
            reveal_with_fuel(limbs_from, 5);
        }
        r
    }

    /// The multiplicative identity.
    pub fn one() -> (r: Scalar)
        ensures
            r.wf(),
            r.value() == 1,
    {
        proof {
            lemma_order_facts();
        }
        let r = Scalar { l0: 1, l1: 0, l2: 0, l3: 0 };
        proof {
            reveal_with_fuel(limbs_from, 5);
        }
        r
    }

    /// Replaces the scalar by the integer `i`.
    pub fn set_int(&mut self, i: u64)
        ensures
            final(self).wf(),
            final(self).value() == i as nat,
    {
        proof {
            reveal_with_fuel(limbs_from, 5);
            lemma_order_facts();
        }
        *self = Scalar { l0: i, l1: 0, l2: 0, l3: 0 };
        assert(order() > limb_base()) by {
            reveal_with_fuel(limbs_from, 5);
        }
    }

    /// Field addition.
    pub fn add(&mut self, other: &Scalar)
        requires
            old(self).wf(),
            other.wf(),
        ensures
            final(self).wf(),
            final(self).value() == (old(self).value() + other.value()) % order(),
    {
        *self = fr_add(self, other);
    }

    /// Field subtraction.
    pub fn sub(&mut self, other: &Scalar)
        requires
            old(self).wf(),
            other.wf(),
        ensures
            final(self).wf(),
            final(self).value() == (old(self).value() + order() - other.value()) % order() as int,
    {
        *self = fr_sub(self, other);
    }

    /// Field multiplication.
    pub fn mul(&mut self, other: &Scalar)
        requires
            old(self).wf(),
            other.wf(),
        ensures
            final(self).wf(),
            final(self).value() == (old(self).value() * other.value()) % order(),
    {
        *self = fr_mul(self, other);
    }

    /// Additive inverse.
    pub fn negate(&mut self)
        requires
            old(self).wf(),
        ensures
            final(self).wf(),
            final(self).value() == (order() - old(self).value()) % order() as int,
    {
        let zero = Scalar::new();
        let mut r = zero;
        r.sub(self);
        proof {
            lemma_order_facts();
        }
        *self = r;
    }

    /// Multiplicative inverse; `None` for zero.
    pub fn inverse(&self) -> (r: Option<Scalar>)
        requires
            self.wf(),
        ensures
            r is None <==> self.value() == 0,
            r matches Some(s) ==> s.wf() && (s.value() * self.value()) % order() == 1,
    {
        fr_inverse(self)
    }

    /// The scalar that random bytes spell, if it is below the modulus (see
    /// `random_bytes_value`).
    pub fn from_random_bytes(bytes: &[u8]) -> (r: Option<Scalar>)
        ensures
            r is Some <==> random_bytes_value(bytes@) < order(),
            r matches Some(s) ==> s.wf() && s.value() == random_bytes_value(bytes@),
    {
        fr_from_random_bytes(bytes)
    }

    /// Width of the canonical encoding of a scalar, in bytes.
    pub fn serialized_size(&self) -> (r: usize)
        ensures
            r == 32,
    {
        32
    }
}

/// Relies on ark's `Fr` `+`: addition modulo r.
#[verifier::external_body]
fn fr_add(a: &Scalar, b: &Scalar) -> (r: Scalar)
    requires
        a.wf(),
        b.wf(),
    ensures
        r.wf(),
        r.value() == (a.value() + b.value()) % order(),
{
    let x = ark_bls12_381::Fr::from_repr(BigInteger256::new([a.l0, a.l1, a.l2, a.l3])).unwrap();
    let y = ark_bls12_381::Fr::from_repr(BigInteger256::new([b.l0, b.l1, b.l2, b.l3])).unwrap();
    let l = (x + y).into_repr().0;
    Scalar { l0: l[0], l1: l[1], l2: l[2], l3: l[3] }
}

/// Relies on ark's `Fr` `-`: subtraction modulo r.
#[verifier::external_body]
fn fr_sub(a: &Scalar, b: &Scalar) -> (r: Scalar)
    requires
        a.wf(),
        b.wf(),
    ensures
        r.wf(),
        r.value() == (a.value() + order() - b.value()) % order() as int,
{
    let x = ark_bls12_381::Fr::from_repr(BigInteger256::new([a.l0, a.l1, a.l2, a.l3])).unwrap();
    let y = ark_bls12_381::Fr::from_repr(BigInteger256::new([b.l0, b.l1, b.l2, b.l3])).unwrap();
    let l = (x - y).into_repr().0;
    Scalar { l0: l[0], l1: l[1], l2: l[2], l3: l[3] }
}

/// Relies on ark's `Fr` `*`: multiplication modulo r.
#[verifier::external_body]
fn fr_mul(a: &Scalar, b: &Scalar) -> (r: Scalar)
    requires
        a.wf(),
        b.wf(),
    ensures
        r.wf(),
        r.value() == (a.value() * b.value()) % order(),
{
    let x = ark_bls12_381::Fr::from_repr(BigInteger256::new([a.l0, a.l1, a.l2, a.l3])).unwrap();
    let y = ark_bls12_381::Fr::from_repr(BigInteger256::new([b.l0, b.l1, b.l2, b.l3])).unwrap();
    let l = (x * y).into_repr().0;
    Scalar { l0: l[0], l1: l[1], l2: l[2], l3: l[3] }
}

/// Relies on ark's `Field::inverse` on `Fr`: the inverse modulo r, `None` for zero.
#[verifier::external_body]
fn fr_inverse(a: &Scalar) -> (r: Option<Scalar>)
    requires
        a.wf(),
    ensures
        r is None <==> a.value() == 0,
        r matches Some(s) ==> s.wf() && (s.value() * a.value()) % order() == 1,
{
    let x = ark_bls12_381::Fr::from_repr(BigInteger256::new([a.l0, a.l1, a.l2, a.l3])).unwrap();
    x.inverse().map(|y| {
        let l = y.into_repr().0;
        Scalar { l0: l[0], l1: l[1], l2: l[2], l3: l[3] }
    })
}

/// Relies on ark's `Field::from_random_bytes` on `Fr`: it reads the first 32
/// bytes with bit 255 cleared and keeps the value when it is below the modulus.
#[verifier::external_body]
fn fr_from_random_bytes(b: &[u8]) -> (r: Option<Scalar>)
    ensures
        r is Some <==> random_bytes_value(b@) < order(),
        r matches Some(s) ==> s.wf() && s.value() == random_bytes_value(b@),
{
    ark_bls12_381::Fr::from_random_bytes(b).map(|y| {
        let l = y.into_repr().0;
        Scalar { l0: l[0], l1: l[1], l2: l[2], l3: l[3] }
    })
}

} // verus!
