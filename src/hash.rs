use vstd::prelude::*;
use crate::error::CurveError377;
use crate::group::{g1_candidate, g2_candidate, G1, G2};
use ark_ff::Field;
use sha2::Digest;

verus! {

/// Number of counters tried before hashing gives up.
pub const MAX_ATTEMPTS: u64 = 256;

/// What SHA-512 returns on a byte string.
pub uninterp spec fn sha512_of(data: Seq<u8>) -> Seq<u8>;

/// The exponent of the G2 point that a digest maps to, if it maps to one:
/// the digest read as an x-coordinate in Fq2, the point above it with the
/// larger y when `greatest` (else the smaller), and that point times the
/// cofactor of G2.
pub uninterp spec fn g2_candidate_of(digest: Seq<u8>, greatest: bool) -> Option<nat>;

/// The exponent of the G1 point that a digest maps to, if it maps to one:
/// the digest read as an x-coordinate in Fq, the point above it with the
/// larger y when `greatest` (else the smaller), and that point times the
/// cofactor of G1.
pub uninterp spec fn g1_candidate_of(digest: Seq<u8>, greatest: bool) -> Option<nat>;

/// Which of the two points above a candidate x this scheme takes: the one
/// with the smaller y.
pub open spec fn take_greatest_y() -> bool {
    false
}

/// The tag that separates this scheme's hashes from any other use of SHA-512.
pub open spec fn domain_tag() -> Seq<u8> {
    seq![0x42u8, 0x4cu8, 0x53u8, 0x5fu8, 0x53u8, 0x49u8, 0x47u8, 0x5fu8, 0x47u8, 0x32u8]
}

/// The bytes digested at attempt `counter`: tag, counter, message.
pub open spec fn hash_input(counter: nat, msg: Seq<u8>) -> Seq<u8> {
    domain_tag() + seq![counter as u8] + msg
}

/// The outcome of attempt `counter`.
pub open spec fn attempt(counter: nat, msg: Seq<u8>) -> Option<nat> {
    g2_candidate_of(sha512_of(hash_input(counter, msg)), take_greatest_y())
}

/// The first attempt from `counter` on that gives a point.
pub open spec fn hash_from(counter: nat, msg: Seq<u8>) -> Option<nat>
    decreases MAX_ATTEMPTS - counter,
{
    if counter >= MAX_ATTEMPTS {
        None
    } else if attempt(counter, msg) is Some {
        attempt(counter, msg)
    } else {
        hash_from(counter + 1, msg)
    }
}

/// The outcome of attempt `counter` when hashing to G1.
pub open spec fn g1_attempt(counter: nat, msg: Seq<u8>) -> Option<nat> {
    g1_candidate_of(sha512_of(hash_input(counter, msg)), take_greatest_y())
}

/// The first attempt from `counter` on that gives a point of G1.
pub open spec fn g1_hash_from(counter: nat, msg: Seq<u8>) -> Option<nat>
    decreases MAX_ATTEMPTS - counter,
{
    if counter >= MAX_ATTEMPTS {
        None
    } else if g1_attempt(counter, msg) is Some {
        g1_attempt(counter, msg)
    } else {
        g1_hash_from(counter + 1, msg)
    }
}

/// The exponent of the G1 point that `msg` hashes to, if the attempts suffice.
pub open spec fn g1_hash_log(msg: Seq<u8>) -> Option<nat> {
    g1_hash_from(0, msg)
}

/// The exponent of the point that `msg` hashes to, if the attempts suffice.
pub open spec fn hash_log(msg: Seq<u8>) -> Option<nat> {
    hash_from(0, msg)
}

fn domain_tag_bytes() -> (r: Vec<u8>)
    ensures
        r@ == domain_tag(),
{
    let r: Vec<u8> = vec![0x42, 0x4c, 0x53, 0x5f, 0x53, 0x49, 0x47, 0x5f, 0x47, 0x32];
    assert(r@ =~= domain_tag());
    r
}

/// Appends `s` to `v`.
pub fn append_bytes(v: &mut Vec<u8>, s: &[u8])
    ensures
        final(v)@ == old(v)@ + s@,
{
    let mut i: usize = 0;
    while i < s.len()
        invariant
            i <= s@.len(),
            v@ == old(v)@ + s@.subrange(0, i as int),
        decreases s@.len() - i,
    {
        v.push(s[i]);
        i = i + 1;
        assert(v@ =~= old(v)@ + s@.subrange(0, i as int));
    }
    assert(s@.subrange(0, i as int) =~= s@);
}

/// The bytes digested at attempt `counter`.
fn hash_input_bytes(counter: u64, msg: &[u8]) -> (r: Vec<u8>)
    requires
        counter < MAX_ATTEMPTS,
    ensures
        r@ == hash_input(counter as nat, msg@),
{
    let mut input = domain_tag_bytes();
    input.push(counter as u8);
    append_bytes(&mut input, msg);
    assert(input@ =~= hash_input(counter as nat, msg@));
    input
}

/// Maps a message to a point of G1 as `hash` does to G2, with the same
/// digests read as x-coordinates in Fq.
pub fn hash_to_g1(msg: &[u8]) -> (r: Result<G1, CurveError377>)
    ensures
        r is Ok <==> g1_hash_log(msg@) is Some,
        r matches Ok(p) ==> p.wf() && Some(p.log()) == g1_hash_log(msg@),
        r matches Err(e) ==> e == CurveError377::HashToCurveError,
{
    let mut counter: u64 = 0;
    while counter < MAX_ATTEMPTS
        invariant
            counter <= MAX_ATTEMPTS,
            g1_hash_log(msg@) == g1_hash_from(counter as nat, msg@),
        decreases MAX_ATTEMPTS - counter,
    {
        let input = hash_input_bytes(counter, msg);
        let digest = sha512(&input);
        match g1_candidate(&digest, false) {
            Some(p) => {
                return Ok(p);
            },
            None => {},
        }
        counter = counter + 1;
    }
    Err(CurveError377::HashToCurveError)
}

/// Maps a message to a point of G2 by try-and-increment: digest the tag,
/// a one-byte counter and the message with SHA-512; read the digest as the
/// x-coordinate of a candidate point, take the smaller y and clear the
/// cofactor; on failure take the next counter.
///
/// This construction is this library's own. Its message points differ from
/// those of other BLS hash-to-curve constructions (the IETF suites, or a
/// try-and-increment over another hasher or domain tag), so its signatures do
/// not verify there, nor theirs here.
pub fn hash(msg: &[u8]) -> (r: Result<G2, CurveError377>)
    ensures
        r is Ok <==> hash_log(msg@) is Some,
        r matches Ok(p) ==> p.wf() && Some(p.log()) == hash_log(msg@),
        r matches Err(e) ==> e == CurveError377::HashToCurveError,
{
    let mut counter: u64 = 0;
    while counter < MAX_ATTEMPTS
        invariant
            counter <= MAX_ATTEMPTS,
            hash_log(msg@) == hash_from(counter as nat, msg@),
        decreases MAX_ATTEMPTS - counter,
    {
        let input = hash_input_bytes(counter, msg);
        let digest = sha512(&input);
        match g2_candidate(&digest, false) {
            Some(p) => {
                return Ok(p);
            },
            None => {},
        }
        counter = counter + 1;
    }
    Err(CurveError377::HashToCurveError)
}

/// Relies on `sha2::Sha512::digest`: the SHA-512 digest, 64 bytes.
#[verifier::external_body]
fn sha512(data: &Vec<u8>) -> (r: Vec<u8>)
    ensures
        r@ == sha512_of(data@),
        r@.len() == 64,
{
    sha2::Sha512::digest(data).to_vec()
}

} // verus!
