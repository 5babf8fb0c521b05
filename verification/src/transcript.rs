//! The challenge transcript: deterministic serialization of the ordered
//! commitment values and the nonce, hashed into the Fiat–Shamir challenge.
//!
//! Each commitment is encoded in its fixed eight-byte little-endian form,
//! the encodings are concatenated in accumulation order, the nonce's sixteen
//! bytes follow, and the whole is mapped through SHA-256 into a 64-bit
//! challenge.  The encoding is injective: a transcript determines the
//! commitment sequence (given its length) and the nonce, which is what makes
//! the aggregate proof binding.

use vstd::prelude::*;
use vstd::bytes::{
    lemma_auto_spec_u128_to_from_le_bytes, lemma_auto_spec_u64_to_from_le_bytes,
    spec_u128_to_le_bytes, spec_u64_from_le_bytes, spec_u64_to_le_bytes, u128_to_le_bytes,
    u64_from_le_bytes, u64_to_le_bytes,
};
use vstd::slice::slice_subrange;
use crate::types::Nonce;
use sha2::Digest;

verus! {

/// What SHA-256 returns for a byte sequence; fixed by the bytes alone.
/// Applied by the `sha256_digest` wrapper.
pub uninterp spec fn sha256_of(data: Seq<u8>) -> Seq<u8>;

/// Relies on `sha2::Sha256` (the one-shot `Digest::digest`): a 32-byte
/// digest that depends on the input bytes alone.
#[verifier::external_body]
fn sha256_digest(data: &Vec<u8>) -> (r: Vec<u8>)
    ensures
        r@ == sha256_of(data@),
        r@.len() == 32,
{
    sha2::Sha256::digest(data.as_slice()).to_vec()
}

/// Concatenation of the first `i` commitments' eight-byte encodings.
pub open spec fn commitments_bytes(cs: Seq<u64>, i: int) -> Seq<u8>
    decreases i,
{
    if i <= 0 {
        Seq::empty()
    } else {
        commitments_bytes(cs, i - 1) + spec_u64_to_le_bytes(cs[i - 1])
    }
}

/// The full transcript: every commitment in order, then the nonce.
pub open spec fn transcript_bytes(cs: Seq<u64>, nonce: u128) -> Seq<u8> {
    commitments_bytes(cs, cs.len() as int) + spec_u128_to_le_bytes(nonce)
}

/// The challenge a byte transcript hashes to: its digest's first eight
/// bytes, read as a little-endian integer.
pub open spec fn challenge_of_bytes(data: Seq<u8>) -> u64 {
    spec_u64_from_le_bytes(sha256_of(data).take(8))
}

/// The challenge a commitment sequence and a nonce determine.
pub open spec fn spec_challenge(cs: Seq<u64>, nonce: u128) -> u64 {
    challenge_of_bytes(transcript_bytes(cs, nonce))
}

/// Serializes the ordered commitments and the nonce into the transcript.
pub fn build_transcript(commitments: &Vec<u64>, nonce: &Nonce) -> (out: Vec<u8>)
    ensures
        out@ == transcript_bytes(commitments@, nonce.value),
{
    let mut out: Vec<u8> = Vec::new();
    let mut i: usize = 0;
    while i < commitments.len()
        invariant
            i <= commitments@.len(),
            out@ == commitments_bytes(commitments@, i as int),
        decreases commitments@.len() - i,
    {
        let mut enc = u64_to_le_bytes(commitments[i]);
        out.append(&mut enc);
        i += 1;
    }
    let mut tail = u128_to_le_bytes(nonce.value);
    out.append(&mut tail);
    out
}

/// Maps the ordered commitments and the nonce to the aggregate challenge.
pub fn build_challenge(commitments: &Vec<u64>, nonce: &Nonce) -> (c: u64)
    ensures
        c == spec_challenge(commitments@, nonce.value),
{
    let transcript = build_transcript(commitments, nonce);
    let digest = sha256_digest(&transcript);
    let head = slice_subrange(digest.as_slice(), 0, 8);
    proof {
        assert(head@ =~= sha256_of(transcript@).take(8));
    }
    u64_from_le_bytes(head)
}

/// Each commitment contributes exactly eight bytes.
pub proof fn lemma_commitments_bytes_len(cs: Seq<u64>, i: int)
    requires
        0 <= i,
    ensures
        commitments_bytes(cs, i).len() == 8 * i,
    decreases i,
{
    lemma_auto_spec_u64_to_from_le_bytes();
    if i > 0 {
        lemma_commitments_bytes_len(cs, i - 1);
    }
}

/// Equal encodings of equally many commitments mean equal commitments.
proof fn lemma_commitments_bytes_inj(cs1: Seq<u64>, cs2: Seq<u64>, i: int)
    requires
        0 <= i <= cs1.len(),
        i <= cs2.len(),
        commitments_bytes(cs1, i) == commitments_bytes(cs2, i),
    ensures
        forall|j: int| 0 <= j < i ==> cs1[j] == cs2[j],
    decreases i,
{
    lemma_auto_spec_u64_to_from_le_bytes();
    if i > 0 {
        let p1 = commitments_bytes(cs1, i - 1);
        let p2 = commitments_bytes(cs2, i - 1);
        let e1 = spec_u64_to_le_bytes(cs1[i - 1]);
        let e2 = spec_u64_to_le_bytes(cs2[i - 1]);
        lemma_commitments_bytes_len(cs1, i - 1);
        lemma_commitments_bytes_len(cs2, i - 1);
        assert(p1 =~= (p1 + e1).subrange(0, p1.len() as int));
        assert(p2 =~= (p2 + e2).subrange(0, p2.len() as int));
        assert(e1 =~= (p1 + e1).subrange(p1.len() as int, (p1 + e1).len() as int));
        assert(e2 =~= (p2 + e2).subrange(p2.len() as int, (p2 + e2).len() as int));
        assert(spec_u64_from_le_bytes(e1) == spec_u64_from_le_bytes(e2));
        lemma_commitments_bytes_inj(cs1, cs2, i - 1);
    }
}

/// The transcript is binding: two transcripts over equally many commitments
/// are byte-for-byte equal only if the commitment sequences and the nonces
/// are equal.  Reordering commitments, substituting one, or swapping the
/// nonce therefore always changes the hashed bytes.
pub proof fn lemma_transcript_binding(cs1: Seq<u64>, n1: u128, cs2: Seq<u64>, n2: u128)
    requires
        cs1.len() == cs2.len(),
        transcript_bytes(cs1, n1) == transcript_bytes(cs2, n2),
    ensures
        cs1 =~= cs2,
        n1 == n2,
{
    lemma_auto_spec_u128_to_from_le_bytes();
    let len = cs1.len() as int;
    let p1 = commitments_bytes(cs1, len);
    let p2 = commitments_bytes(cs2, len);
    let e1 = spec_u128_to_le_bytes(n1);
    let e2 = spec_u128_to_le_bytes(n2);
    lemma_commitments_bytes_len(cs1, len);
    lemma_commitments_bytes_len(cs2, len);
    assert(p1 =~= (p1 + e1).subrange(0, p1.len() as int));
    assert(p2 =~= (p2 + e2).subrange(0, p2.len() as int));
    assert(e1 =~= (p1 + e1).subrange(p1.len() as int, (p1 + e1).len() as int));
    assert(e2 =~= (p2 + e2).subrange(p2.len() as int, (p2 + e2).len() as int));
    assert(e1 == e2);
    lemma_commitments_bytes_inj(cs1, cs2, len);
}

} // verus!
