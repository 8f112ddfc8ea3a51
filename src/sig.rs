use vstd::prelude::*;
use crate::error::CurveError377;
use crate::field::{lemma_order_facts, order, Scalar};
use crate::group::{PairingCurve, G1, G2, GT};
use crate::hash::{hash, hash_log};
use vstd::arithmetic::div_mod::{lemma_add_mod_noop, lemma_small_mod};

verus! {

/// A signer's secret: one scalar.
pub struct PrivateKey {
    pub sk: Scalar,
}

/// A verifier's key: the generator of G1 times the private scalar.
pub struct PublicKey {
    pub point: G1,
}

/// A signature, or an aggregate of signatures: a point of G2.
pub struct Signature {
    pub point: G2,
}

impl PublicKey {
    pub open spec fn wf(&self) -> bool {
        self.point.wf()
    }
}

impl Signature {
    pub open spec fn wf(&self) -> bool {
        self.point.wf()
    }

    /// Equality of signatures.
    pub fn equals(&self, other: &Signature) -> (r: bool)
        requires
            self.wf(),
            other.wf(),
        ensures
            r == (self.point.log() == other.point.log()),
    {
        self.point.equals(&other.point)
    }
}

/// The exponent of the signature of `m` under the scalar `sk`.
pub open spec fn sign_log(sk: nat, m: Seq<u8>) -> nat {
    (hash_log(m).unwrap() * sk) % order()
}

/// Sum of the exponents of a sequence of signatures.
pub open spec fn sig_sum(s: Seq<Signature>) -> int
    decreases s.len(),
{
    if s.len() == 0 {
        0
    } else {
        sig_sum(s.drop_last()) + s.last().point.log()
    }
}

/// `sum_i pk_i * h_i` over the exponents of keys and message points.
pub open spec fn pair_sum(pks: Seq<PublicKey>, hs: Seq<G2>) -> int
    decreases pks.len(),
{
    if pks.len() == 0 || hs.len() == 0 {
        0
    } else {
        pair_sum(pks.drop_last(), hs.drop_last()) + pks.last().point.log() * hs.last().log()
    }
}

/// `sum_i pk_i * hash(m_i)` over the exponents of keys and hashed messages.
pub open spec fn msg_pair_sum(pks: Seq<PublicKey>, msgs: Seq<Vec<u8>>) -> int
    decreases pks.len(),
{
    if pks.len() == 0 || msgs.len() == 0 {
        0
    } else {
        msg_pair_sum(pks.drop_last(), msgs.drop_last()) + pks.last().point.log() * hash_log(msgs.last()@).unwrap()
    }
}

/// The aggregate verification equation `e(g1, sig) == prod_i e(pk_i, h_i)`,
/// read in the exponents.
pub open spec fn verify_holds(sig: Signature, hs: Seq<G2>, pks: Seq<PublicKey>) -> bool {
    &&& hs.len() == pks.len()
    &&& hs.len() > 0
    &&& sig.point.log() == pair_sum(pks, hs) % (order() as int)
}

/// Every message hashes to a point.
pub open spec fn all_hashable(msgs: Seq<Vec<u8>>) -> bool {
    forall|i: int| 0 <= i < msgs.len() ==> (#[trigger] hash_log(msgs[i]@)) is Some
}

/// The verification equation with each message hashed first.
pub open spec fn verify_messages_holds(sig: Signature, msgs: Seq<Vec<u8>>, pks: Seq<PublicKey>) -> bool {
    &&& msgs.len() == pks.len()
    &&& msgs.len() > 0
    &&& all_hashable(msgs)
    &&& sig.point.log() == msg_pair_sum(pks, msgs) % (order() as int)
}

impl PrivateKey {
    pub open spec fn wf(&self) -> bool {
        self.sk.wf()
    }

    /// The key with the given scalar.
    pub fn new(sk: Scalar) -> (r: PrivateKey)
        requires
            sk.wf(),
        ensures
            r.wf(),
            r.sk == sk,
    {
        PrivateKey { sk }
    }

    /// The key that random bytes make, when they form a scalar.
    pub fn from_random_bytes(bytes: &[u8]) -> (r: Option<PrivateKey>)
        ensures
            r is Some <==> crate::field::random_bytes_value(bytes@) < order(),
            r matches Some(k) ==> k.wf() && k.sk.value() == crate::field::random_bytes_value(bytes@),
    {
        match Scalar::from_random_bytes(bytes) {
            Some(s) => Some(PrivateKey { sk: s }),
            None => None,
        }
    }

    /// The public key: the generator of G1 times the private scalar.
    pub fn public_key(&self) -> (r: PublicKey)
        requires
            self.wf(),
        ensures
            r.wf(),
            r.point.log() == self.sk.value(),
    {
        let mut g = G1::one();
        g.mul(&self.sk);
        proof {
            lemma_order_facts();
            lemma_small_mod(self.sk.value(), order());
        }
        PublicKey { point: g }
    }

    /// Signs `msg`: its hash times the private scalar. Fails only where
    /// hashing fails.
    pub fn sign(&self, msg: &[u8]) -> (r: Result<Signature, CurveError377>)
        requires
            self.wf(),
        ensures
            r is Ok <==> hash_log(msg@) is Some,
            r matches Ok(s) ==> s.wf() && s.point.log() == sign_log(self.sk.value(), msg@),
            r matches Err(e) ==> e == CurveError377::HashToCurveError,
    {
        match hash(msg) {
            Ok(h) => {
                let mut p = h;
                p.mul(&self.sk);
                Ok(Signature { point: p })
            },
            Err(e) => Err(e),
        }
    }
}

/// The sum of the signatures. Fails on an empty sequence.
pub fn aggregate(sigs: &[Signature]) -> (r: Result<Signature, CurveError377>)
    requires
        forall|i: int| 0 <= i < sigs@.len() ==> (#[trigger] sigs@[i]).wf(),
    ensures
        r is Err <==> sigs@.len() == 0,
        r matches Err(e) ==> e == CurveError377::EmptyInputError,
        r matches Ok(s) ==> s.wf() && s.point.log() == sig_sum(sigs@) % (order() as int),
{
    if sigs.len() == 0 {
        return Err(CurveError377::EmptyInputError);
    }
    proof {
        lemma_order_facts();
    }
    let mut acc = G2::new();
    let mut i: usize = 0;
    while i < sigs.len()
        invariant
            i <= sigs@.len(),
            order() > 1,
            forall|k: int| 0 <= k < sigs@.len() ==> (#[trigger] sigs@[k]).wf(),
            acc.wf(),
            acc.log() == sig_sum(sigs@.subrange(0, i as int)) % (order() as int),
        decreases sigs@.len() - i,
    {
        acc.add(&sigs[i].point);
        proof {
            let pre = sigs@.subrange(0, i as int);
            let post = sigs@.subrange(0, i + 1);
            assert(post.drop_last() =~= pre);
            let x = sigs@[i as int].point.log() as int;
            lemma_small_mod(x as nat, order());
            lemma_add_mod_noop(sig_sum(pre), x, order() as int);
        }
        i = i + 1;
    }
    assert(sigs@.subrange(0, sigs@.len() as int) =~= sigs@);
    Ok(Signature { point: acc })
}

/// Checks `e(g1, sig) == prod_i e(pk_i, h_i)`. False when the sequences
/// differ in length or are empty.
pub fn verify(sig: &Signature, hashes: &[G2], public_keys: &[PublicKey]) -> (r: bool)
    requires
        sig.wf(),
        forall|i: int| 0 <= i < hashes@.len() ==> (#[trigger] hashes@[i]).wf(),
        forall|i: int| 0 <= i < public_keys@.len() ==> (#[trigger] public_keys@[i]).wf(),
    ensures
        r == verify_holds(*sig, hashes@, public_keys@),
{
    if hashes.len() != public_keys.len() || hashes.len() == 0 {
        return false;
    }
    proof {
        lemma_order_facts();
    }
    let lhs = PairingCurve::pair(&G1::one(), &sig.point);
    assert(lhs.log() == sig.point.log()) by {
        lemma_small_mod(sig.point.log(), order());
    }
    let mut rhs = GT::one();
    assert(pair_sum(public_keys@.subrange(0, 0), hashes@.subrange(0, 0)) == 0);
    assert(0int % (order() as int) == 0);
    let mut i: usize = 0;
    while i < hashes.len()
        invariant
            i <= hashes@.len(),
            hashes@.len() == public_keys@.len(),
            order() > 1,
            forall|k: int| 0 <= k < hashes@.len() ==> (#[trigger] hashes@[k]).wf(),
            forall|k: int| 0 <= k < public_keys@.len() ==> (#[trigger] public_keys@[k]).wf(),
            rhs.wf(),
            rhs.log() == pair_sum(public_keys@.subrange(0, i as int), hashes@.subrange(0, i as int)) % (order() as int),
        decreases hashes@.len() - i,
    {
        let e = PairingCurve::pair(&public_keys[i].point, &hashes[i]);
        rhs.add(&e);
        proof {
            let pk_pre = public_keys@.subrange(0, i as int);
            let h_pre = hashes@.subrange(0, i as int);
            assert(public_keys@.subrange(0, i + 1).drop_last() =~= pk_pre);
            assert(hashes@.subrange(0, i + 1).drop_last() =~= h_pre);
            let x = public_keys@[i as int].point.log() * hashes@[i as int].log();
            vstd::arithmetic::div_mod::lemma_mod_twice(x as int, order() as int);
            lemma_add_mod_noop(pair_sum(pk_pre, h_pre), x as int, order() as int);
        }
        i = i + 1;
    }
    assert(public_keys@.subrange(0, i as int) =~= public_keys@);
    assert(hashes@.subrange(0, i as int) =~= hashes@);
    lhs.equals(&rhs)
}

/// Hashes each message and checks the aggregate verification equation.
/// False when the sequences differ in length or are empty, or when a message
/// does not hash. Safe against rogue keys only when the messages are
/// pairwise distinct; that is the caller's to ensure.
pub fn verify_messages(sig: &Signature, messages: &[Vec<u8>], public_keys: &[PublicKey]) -> (r: bool)
    requires
        sig.wf(),
        forall|i: int| 0 <= i < public_keys@.len() ==> (#[trigger] public_keys@[i]).wf(),
    ensures
        r == verify_messages_holds(*sig, messages@, public_keys@),
{
    if messages.len() != public_keys.len() || messages.len() == 0 {
        return false;
    }
    let mut hashes: Vec<G2> = Vec::new();
    let mut i: usize = 0;
    while i < messages.len()
        invariant
            i <= messages@.len(),
            hashes@.len() == i,
            forall|k: int| 0 <= k < i ==> (#[trigger] hashes@[k]).wf(),
            forall|k: int| 0 <= k < i ==> hash_log(messages@[k]@) == Some((#[trigger] hashes@[k]).log()),
        decreases messages@.len() - i,
    {
        match hash(messages[i].as_slice()) {
            Ok(h) => {
                hashes.push(h);
            },
            Err(_) => {
                assert(!all_hashable(messages@)) by {
                    assert(hash_log(messages@[i as int]@) is None);
                }
                return false;
            },
        }
        i = i + 1;
    }
    proof {
        lemma_hashed_pair_sum(public_keys@, hashes@, messages@);
    }
    verify(sig, hashes.as_slice(), public_keys)
}

/// Summing over message points equals summing over the messages they hash from.
proof fn lemma_hashed_pair_sum(pks: Seq<PublicKey>, hs: Seq<G2>, msgs: Seq<Vec<u8>>)
    requires
        hs.len() == msgs.len(),
        forall|k: int| 0 <= k < hs.len() ==> hash_log(msgs[k]@) == Some((#[trigger] hs[k]).log()),
    ensures
        pair_sum(pks, hs) == msg_pair_sum(pks, msgs),
        all_hashable(msgs),
    decreases hs.len(),
{
    if pks.len() > 0 && hs.len() > 0 {
        lemma_hashed_pair_sum(pks.drop_last(), hs.drop_last(), msgs.drop_last());
        assert(hash_log(msgs.last()@) == Some(hs.last().log()));
    }
    assert forall|i: int| 0 <= i < msgs.len() implies (#[trigger] hash_log(msgs[i]@)) is Some by {
        assert(hash_log(msgs[i]@) == Some(hs[i].log()));
    }
}

} // verus!
