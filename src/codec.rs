use vstd::prelude::*;
use crate::error::CurveError377;
use crate::field::{le_value, order, Scalar};
use crate::group::{g1_deserialize, g1_serialize, g2_deserialize, g2_serialize, gt_deserialize, gt_serialize, G1, G2, GT};
use crate::sig::{PrivateKey, PublicKey, Signature};
use ark_ff::{BigInteger256, PrimeField};
use ark_serialize::{CanonicalDeserialize, CanonicalSerialize};

verus! {

/// Width of a compressed G1 point, in bytes.
pub const G1_SIZE: usize = 48;

/// Width of a compressed G2 point, in bytes.
pub const G2_SIZE: usize = 96;

/// Width of an element of GT, in bytes.
pub const GT_SIZE: usize = 576;

/// Width of a scalar, in bytes.
pub const SCALAR_SIZE: usize = 32;

#[verifier::external_type_specification]
#[verifier::external_body]
pub struct ExSerializationError(ark_serialize::SerializationError);

/// The compressed encoding that ark writes for the G1 point with exponent `log`.
pub uninterp spec fn g1_encoding_of(log: nat) -> Seq<u8>;

/// The compressed encoding that ark writes for the G2 point with exponent `log`.
pub uninterp spec fn g2_encoding_of(log: nat) -> Seq<u8>;

/// The encoding that ark writes for the element of GT with exponent `log`.
pub uninterp spec fn gt_encoding_of(log: nat) -> Seq<u8>;

/// What decoding a G1 point from `b` may give: the wrong width is malformed;
/// any other failure is an invalid point; a decoded point lies in the
/// subgroup; a point other than the identity comes only from its own
/// encoding; and an encoding of a point decodes to that point.
pub open spec fn g1_decoded(b: Seq<u8>, r: Result<G1, CurveError377>) -> bool {
    &&& b.len() != G1_SIZE ==> r == Err::<G1, CurveError377>(CurveError377::MalformedEncodingError)
    &&& b.len() == G1_SIZE ==> r != Err::<G1, CurveError377>(CurveError377::MalformedEncodingError)
    &&& r matches Err(e) ==> e == CurveError377::MalformedEncodingError || e == CurveError377::InvalidPointError
    &&& r matches Ok(p) ==> p.wf()
    &&& r matches Ok(p) ==> (p.log() != 0 ==> b == g1_encoding_of(p.log()))
    &&& forall|k: nat| k < order() && b.len() == G1_SIZE && b == g1_encoding_of(k) ==> (r is Ok && r->Ok_0.log() == k)
}

/// What decoding a G2 point from `b` may give, as for G1.
pub open spec fn g2_decoded(b: Seq<u8>, r: Result<G2, CurveError377>) -> bool {
    &&& b.len() != G2_SIZE ==> r == Err::<G2, CurveError377>(CurveError377::MalformedEncodingError)
    &&& b.len() == G2_SIZE ==> r != Err::<G2, CurveError377>(CurveError377::MalformedEncodingError)
    &&& r matches Err(e) ==> e == CurveError377::MalformedEncodingError || e == CurveError377::InvalidPointError
    &&& r matches Ok(p) ==> p.wf()
    &&& r matches Ok(p) ==> (p.log() != 0 ==> b == g2_encoding_of(p.log()))
    &&& forall|k: nat| k < order() && b.len() == G2_SIZE && b == g2_encoding_of(k) ==> (r is Ok && r->Ok_0.log() == k)
}

/// What decoding an element of GT from `b` may give, as for G1.
pub open spec fn gt_decoded(b: Seq<u8>, r: Result<GT, CurveError377>) -> bool {
    &&& b.len() != GT_SIZE ==> r == Err::<GT, CurveError377>(CurveError377::MalformedEncodingError)
    &&& b.len() == GT_SIZE ==> r != Err::<GT, CurveError377>(CurveError377::MalformedEncodingError)
    &&& r matches Err(e) ==> e == CurveError377::MalformedEncodingError || e == CurveError377::InvalidPointError
    &&& r matches Ok(p) ==> p.wf()
    &&& forall|k: nat| k < order() && b.len() == GT_SIZE && b == gt_encoding_of(k) ==> (r is Ok && r->Ok_0.log() == k)
}

/// What decoding a scalar from `b` gives: the wrong width is malformed; a
/// value not below the modulus is invalid; otherwise the value.
pub open spec fn scalar_decoded(b: Seq<u8>, r: Result<Scalar, CurveError377>) -> bool {
    &&& b.len() != SCALAR_SIZE ==> r == Err::<Scalar, CurveError377>(CurveError377::MalformedEncodingError)
    &&& b.len() == SCALAR_SIZE && le_value(b) >= order() ==> r == Err::<Scalar, CurveError377>(CurveError377::InvalidPointError)
    &&& b.len() == SCALAR_SIZE && le_value(b) < order() ==> (r is Ok && r->Ok_0.wf() && r->Ok_0.value() == le_value(b))
}

/// The point inside a decoded signature.
pub open spec fn signature_point(r: Result<Signature, CurveError377>) -> Result<G2, CurveError377> {
    match r {
        Ok(s) => Ok(s.point),
        Err(e) => Err(e),
    }
}

/// The point inside a decoded public key.
pub open spec fn public_key_point(r: Result<PublicKey, CurveError377>) -> Result<G1, CurveError377> {
    match r {
        Ok(k) => Ok(k.point),
        Err(e) => Err(e),
    }
}

/// The scalar inside a decoded private key.
pub open spec fn private_key_scalar(r: Result<PrivateKey, CurveError377>) -> Result<Scalar, CurveError377> {
    match r {
        Ok(k) => Ok(k.sk),
        Err(e) => Err(e),
    }
}

impl G1 {
    /// The canonical compressed encoding, of fixed width.
    pub fn serialize_group(&self) -> (r: Vec<u8>)
        requires
            self.wf(),
        ensures
            r@ == g1_encoding_of(self.log()),
            r@.len() == G1_SIZE,
    {
        g1_serialize(self)
    }

    /// Decodes a compressed point, checking width, curve and subgroup.
    pub fn deserialize_group(bytes: &[u8]) -> (r: Result<G1, CurveError377>)
        ensures
            g1_decoded(bytes@, r),
    {
        if bytes.len() != G1_SIZE {
            return Err(CurveError377::MalformedEncodingError);
        }
        match g1_deserialize(bytes) {
            Ok(p) => Ok(p),
            Err(_) => Err(CurveError377::InvalidPointError),
        }
    }
}

impl G2 {
    /// The canonical compressed encoding, of fixed width.
    pub fn serialize_group(&self) -> (r: Vec<u8>)
        requires
            self.wf(),
        ensures
            r@ == g2_encoding_of(self.log()),
            r@.len() == G2_SIZE,
    {
        g2_serialize(self)
    }

    /// Decodes a compressed point, checking width, curve and subgroup.
    pub fn deserialize_group(bytes: &[u8]) -> (r: Result<G2, CurveError377>)
        ensures
            g2_decoded(bytes@, r),
    {
        if bytes.len() != G2_SIZE {
            return Err(CurveError377::MalformedEncodingError);
        }
        match g2_deserialize(bytes) {
            Ok(p) => Ok(p),
            Err(_) => Err(CurveError377::InvalidPointError),
        }
    }
}

impl GT {
    /// The canonical encoding of the field element, of fixed width.
    pub fn serialize_field(&self) -> (r: Vec<u8>)
        requires
            self.wf(),
        ensures
            r@ == gt_encoding_of(self.log()),
            r@.len() == GT_SIZE,
    {
        gt_serialize(self)
    }

    /// Decodes a field element and checks that it lies in GT.
    pub fn deserialize_field(bytes: &[u8]) -> (r: Result<GT, CurveError377>)
        ensures
            gt_decoded(bytes@, r),
    {
        if bytes.len() != GT_SIZE {
            return Err(CurveError377::MalformedEncodingError);
        }
        match gt_deserialize(bytes) {
            Ok(v) => {
                if v.in_correct_subgroup() {
                    Ok(v)
                } else {
                    Err(CurveError377::InvalidPointError)
                }
            },
            Err(_) => Err(CurveError377::InvalidPointError),
        }
    }
}

impl Scalar {
    /// The canonical encoding: the value in 32 bytes, least significant first.
    pub fn serialize_field(&self) -> (r: Vec<u8>)
        requires
            self.wf(),
        ensures
            le_value(r@) == self.value(),
            r@.len() == SCALAR_SIZE,
    {
        fr_serialize(self)
    }

    /// Decodes 32 little-endian bytes holding a value below the modulus.
    pub fn deserialize_field(bytes: &[u8]) -> (r: Result<Scalar, CurveError377>)
        ensures
            scalar_decoded(bytes@, r),
    {
        if bytes.len() != SCALAR_SIZE {
            return Err(CurveError377::MalformedEncodingError);
        }
        match fr_deserialize(bytes) {
            Ok(s) => Ok(s),
            Err(_) => Err(CurveError377::InvalidPointError),
        }
    }
}

impl Signature {
    /// The compressed encoding of the signature's point.
    pub fn as_bytes(&self) -> (r: Vec<u8>)
        requires
            self.wf(),
        ensures
            r@ == g2_encoding_of(self.point.log()),
            r@.len() == G2_SIZE,
    {
        self.point.serialize_group()
    }

    /// Decodes a signature's point.
    pub fn from_bytes(bytes: &[u8]) -> (r: Result<Signature, CurveError377>)
        ensures
            g2_decoded(bytes@, signature_point(r)),
    {
        match G2::deserialize_group(bytes) {
            Ok(p) => Ok(Signature { point: p }),
            Err(e) => Err(e),
        }
    }
}

impl PublicKey {
    /// The compressed encoding of the key's point.
    pub fn as_bytes(&self) -> (r: Vec<u8>)
        requires
            self.wf(),
        ensures
            r@ == g1_encoding_of(self.point.log()),
            r@.len() == G1_SIZE,
    {
        self.point.serialize_group()
    }

    /// Decodes a public key's point.
    pub fn from_bytes(bytes: &[u8]) -> (r: Result<PublicKey, CurveError377>)
        ensures
            g1_decoded(bytes@, public_key_point(r)),
    {
        match G1::deserialize_group(bytes) {
            Ok(p) => Ok(PublicKey { point: p }),
            Err(e) => Err(e),
        }
    }
}

impl PrivateKey {
    /// The encoding of the private scalar.
    pub fn as_bytes(&self) -> (r: Vec<u8>)
        requires
            self.wf(),
        ensures
            le_value(r@) == self.sk.value(),
            r@.len() == SCALAR_SIZE,
    {
        self.sk.serialize_field()
    }

    /// Decodes a private scalar.
    pub fn from_bytes(bytes: &[u8]) -> (r: Result<PrivateKey, CurveError377>)
        ensures
            scalar_decoded(bytes@, private_key_scalar(r)),
    {
        match Scalar::deserialize_field(bytes) {
            Ok(s) => Ok(PrivateKey { sk: s }),
            Err(e) => Err(e),
        }
    }
}

/// Relies on ark's `CanonicalSerialize::serialize` for `Fr`: the canonical
/// integer, 32 bytes, least significant first.
#[verifier::external_body]
fn fr_serialize(s: &Scalar) -> (r: Vec<u8>)
    ensures
        le_value(r@) == s.value(),
        r@.len() == SCALAR_SIZE,
{
    let mut bytes = Vec::with_capacity(SCALAR_SIZE);
    let _ = BigInteger256::new([s.l0, s.l1, s.l2, s.l3]).serialize(&mut bytes);
    bytes
}

/// Relies on ark's `CanonicalDeserialize::deserialize` for `Fr`: 32 bytes,
/// least significant first, accepted exactly when below the modulus.
#[verifier::external_body]
fn fr_deserialize(b: &[u8]) -> (r: Result<Scalar, ark_serialize::SerializationError>)
    requires
        b@.len() == SCALAR_SIZE,
    ensures
        r is Ok <==> le_value(b@) < order(),
        r matches Ok(s) ==> s.wf() && s.value() == le_value(b@),
{
    ark_bls12_381::Fr::deserialize(b).map(|f| {
        let l = f.into_repr().0;
        Scalar { l0: l[0], l1: l[1], l2: l[2], l3: l[3] }
    })
}

/// Decoding what was encoded gives the element of GT back.
pub proof fn lemma_gt_round_trip(a: GT, b: Seq<u8>, r: Result<GT, CurveError377>)
    requires
        a.wf(),
        b == gt_encoding_of(a.log()),
        b.len() == GT_SIZE,
        gt_decoded(b, r),
    ensures
        r is Ok && r->Ok_0.log() == a.log(),
{
}

/// Decoding what was encoded gives the point back, in G1 and in G2.
pub proof fn lemma_group_round_trip(p1: G1, b1: Seq<u8>, r1: Result<G1, CurveError377>, p2: G2, b2: Seq<u8>, r2: Result<G2, CurveError377>)
    requires
        p1.wf(),
        b1 == g1_encoding_of(p1.log()),
        b1.len() == G1_SIZE,
        g1_decoded(b1, r1),
        p2.wf(),
        b2 == g2_encoding_of(p2.log()),
        b2.len() == G2_SIZE,
        g2_decoded(b2, r2),
    ensures
        r1 is Ok && r1->Ok_0.log() == p1.log(),
        r2 is Ok && r2->Ok_0.log() == p2.log(),
{
}

/// Decoding what was encoded gives the scalar back.
pub proof fn lemma_scalar_round_trip(s: Scalar, b: Seq<u8>, r: Result<Scalar, CurveError377>)
    requires
        s.wf(),
        le_value(b) == s.value(),
        b.len() == SCALAR_SIZE,
        scalar_decoded(b, r),
    ensures
        r is Ok && r->Ok_0.value() == s.value(),
{
}

/// A byte string of the wrong width is rejected as malformed, whatever it
/// was meant to hold.
pub proof fn lemma_wrong_width_malformed(
    b: Seq<u8>,
    r1: Result<G1, CurveError377>,
    r2: Result<G2, CurveError377>,
    rs: Result<Scalar, CurveError377>,
)
    requires
        g1_decoded(b, r1),
        g2_decoded(b, r2),
        scalar_decoded(b, rs),
    ensures
        b.len() != G1_SIZE ==> r1 == Err::<G1, CurveError377>(CurveError377::MalformedEncodingError),
        b.len() != G2_SIZE ==> r2 == Err::<G2, CurveError377>(CurveError377::MalformedEncodingError),
        b.len() != SCALAR_SIZE ==> rs == Err::<Scalar, CurveError377>(CurveError377::MalformedEncodingError),
{
}

/// A G2 encoding of a point other than the identity, with any change, never
/// decodes back to that point: it is rejected or gives another point.
pub proof fn lemma_tampered_g2_encoding(p: G2, b: Seq<u8>, b2: Seq<u8>, r: Result<G2, CurveError377>)
    requires
        p.wf(),
        p.log() != 0,
        b == g2_encoding_of(p.log()),
        b2 != b,
        g2_decoded(b2, r),
    ensures
        r matches Ok(q) ==> q.log() != p.log(),
{
}

/// The same for G1.
pub proof fn lemma_tampered_g1_encoding(p: G1, b: Seq<u8>, b2: Seq<u8>, r: Result<G1, CurveError377>)
    requires
        p.wf(),
        p.log() != 0,
        b == g1_encoding_of(p.log()),
        b2 != b,
        g1_decoded(b2, r),
    ensures
        r matches Ok(q) ==> q.log() != p.log(),
{
}

} // verus!
