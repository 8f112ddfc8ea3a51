use vstd::prelude::*;
use crate::field::{lemma_order_facts, order};
use crate::hash::hash_log;
use crate::sig::{
    all_hashable, msg_pair_sum, pair_sum, sig_sum, sign_log, verify_messages_holds, verify_holds,
    PrivateKey, PublicKey, Signature,
};
use crate::group::G2;
use crate::error::CurveError377;
use crate::codec::{g2_decoded, g2_encoding_of, lemma_tampered_g2_encoding, signature_point};
use vstd::arithmetic::div_mod::{lemma_add_mod_noop, lemma_mod_twice};
use vstd::arithmetic::mul::lemma_mul_is_commutative;

verus! {

broadcast use vstd::seq_lib::group_to_multiset_ensures;

/// A signature verifies against the hash of its message and the signer's
/// public key: for `sig` the signature of `m` under `sk`, `h` the hash of
/// `m` and `pk` the public key of `sk`, `verify(sig, [h], [pk])` holds.
pub proof fn lemma_sign_then_verify(sk: PrivateKey, m: Seq<u8>, sig: Signature, h: G2, pk: PublicKey)
    requires
        sk.wf(),
        hash_log(m) is Some,
        sig.point.log() == sign_log(sk.sk.value(), m),
        Some(h.log()) == hash_log(m),
        pk.point.log() == sk.sk.value(),
    ensures
        verify_holds(sig, seq![h], seq![pk]),
{
    let hs = seq![h];
    let pks = seq![pk];
    assert(hs.drop_last() =~= Seq::<G2>::empty());
    assert(pks.drop_last() =~= Seq::<PublicKey>::empty());
    assert(pair_sum(pks.drop_last(), hs.drop_last()) == 0);
    assert(pks.last() == pk && hs.last() == h);
    assert(pair_sum(pks, hs) == pk.point.log() * h.log());
    lemma_mul_is_commutative(pk.point.log() as int, h.log() as int);
}

/// The aggregate of signatures, each of its own message under its own key,
/// verifies against the messages and the public keys. (Distinct messages
/// are what makes this safe against rogue keys; the equation holds either way.)
pub proof fn lemma_aggregate_then_verify_messages(
    sks: Seq<PrivateKey>,
    msgs: Seq<Vec<u8>>,
    sigs: Seq<Signature>,
    pks: Seq<PublicKey>,
    agg: Signature,
)
    requires
        sks.len() > 0,
        msgs.len() == sks.len(),
        sigs.len() == sks.len(),
        pks.len() == sks.len(),
        forall|i: int| 0 <= i < sks.len() ==> (#[trigger] sks[i]).wf(),
        all_hashable(msgs),
        forall|i: int| 0 <= i < sks.len() ==> (#[trigger] sigs[i]).point.log() == sign_log(sks[i].sk.value(), msgs[i]@),
        forall|i: int| 0 <= i < sks.len() ==> (#[trigger] pks[i]).point.log() == sks[i].sk.value(),
        agg.point.log() == sig_sum(sigs) % (order() as int),
    ensures
        verify_messages_holds(agg, msgs, pks),
{
    lemma_sums_agree(sks, msgs, sigs, pks);
}

proof fn lemma_sums_agree(sks: Seq<PrivateKey>, msgs: Seq<Vec<u8>>, sigs: Seq<Signature>, pks: Seq<PublicKey>)
    requires
        msgs.len() == sks.len(),
        sigs.len() == sks.len(),
        pks.len() == sks.len(),
        all_hashable(msgs),
        forall|i: int| 0 <= i < sks.len() ==> (#[trigger] sigs[i]).point.log() == sign_log(sks[i].sk.value(), msgs[i]@),
        forall|i: int| 0 <= i < sks.len() ==> (#[trigger] pks[i]).point.log() == sks[i].sk.value(),
    ensures
        sig_sum(sigs) % (order() as int) == msg_pair_sum(pks, msgs) % (order() as int),
    decreases sks.len(),
{
    lemma_order_facts();
    if sks.len() > 0 {
        let n = sks.len() - 1;
        let (s2, m2, g2, p2) = (sks.drop_last(), msgs.drop_last(), sigs.drop_last(), pks.drop_last());
        assert forall|i: int| 0 <= i < m2.len() implies (#[trigger] hash_log(m2[i]@)) is Some by {
            assert(m2[i] == msgs[i]);
        }
        assert forall|i: int| 0 <= i < s2.len() implies (#[trigger] g2[i]).point.log() == sign_log(s2[i].sk.value(), m2[i]@) by {
            assert(g2[i] == sigs[i]);
        }
        assert forall|i: int| 0 <= i < s2.len() implies (#[trigger] p2[i]).point.log() == s2[i].sk.value() by {
            assert(p2[i] == pks[i]);
        }
        lemma_sums_agree(s2, m2, g2, p2);
        let h = hash_log(msgs[n]@).unwrap();
        let k = sks[n].sk.value();
        let a = sig_sum(g2);
        let b = msg_pair_sum(p2, m2);
        let x = ((h * k) % order()) as int;
        let m = order() as int;
        assert(sigs.last().point.log() == x);
        assert(pks.last().point.log() * hash_log(msgs.last()@).unwrap() == k * h);
        lemma_mul_is_commutative(k as int, h as int);
        lemma_add_mod_noop(a, x, m);
        lemma_mod_twice((h * k) as int, m);
        lemma_add_mod_noop(b, (h * k) as int, m);
    }
}

/// The aggregate does not depend on the order of the signatures: two
/// sequences that are permutations of one another sum to the same point.
pub proof fn lemma_aggregate_order_independent(a: Seq<Signature>, b: Seq<Signature>)
    requires
        a.to_multiset() == b.to_multiset(),
    ensures
        sig_sum(a) == sig_sum(b),
        sig_sum(a) % (order() as int) == sig_sum(b) % (order() as int),
    decreases a.len(),
{
    if a.len() == 0 {
        assert(b.to_multiset().len() == 0);
        assert(b =~= Seq::<Signature>::empty());
    } else {
        let x = a.last();
        let a2 = a.drop_last();
        assert(a2.push(x) =~= a);
        assert(a.to_multiset().count(x) > 0);
        assert(b.contains(x));
        let i = choose|i: int| 0 <= i < b.len() && b[i] == x;
        let b2 = b.remove(i);
        assert(b2.to_multiset() == b.to_multiset().remove(x));
        assert(a2.to_multiset() =~= a.to_multiset().remove(x));
        lemma_aggregate_order_independent(a2, b2);
        lemma_sig_sum_remove(b, i);
    }
}

/// Removing the `i`-th signature takes its exponent off the sum.
proof fn lemma_sig_sum_remove(s: Seq<Signature>, i: int)
    requires
        0 <= i < s.len(),
    ensures
        sig_sum(s) == sig_sum(s.remove(i)) + s[i].point.log(),
    decreases s.len(),
{
    if i < s.len() - 1 {
        let t = s.drop_last();
        lemma_sig_sum_remove(t, i);
        assert(s.remove(i).drop_last() =~= t.remove(i));
        assert(s.remove(i).last() == s.last());
    } else {
        assert(s.remove(i) =~= s.drop_last());
    }
}

/// A signature that verifies, other than the identity, stops verifying once
/// its encoding is changed: the changed bytes are rejected, or decode to a
/// signature that fails the same verification.
pub proof fn lemma_tampered_signature_rejected(
    sig: Signature,
    hs: Seq<G2>,
    pks: Seq<PublicKey>,
    b2: Seq<u8>,
    r: Result<Signature, CurveError377>,
)
    requires
        sig.wf(),
        sig.point.log() != 0,
        verify_holds(sig, hs, pks),
        b2 != g2_encoding_of(sig.point.log()),
        g2_decoded(b2, signature_point(r)),
    ensures
        r matches Ok(s2) ==> !verify_holds(s2, hs, pks),
{
    lemma_tampered_g2_encoding(sig.point, g2_encoding_of(sig.point.log()), b2, signature_point(r));
}

} // verus!
