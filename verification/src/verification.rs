//! The proof verifier: accumulates one sub-proof request per credential,
//! then verifies a full proof by recomputing every commitment, rebuilding
//! the Fiat–Shamir challenge over all of them and the nonce, and comparing
//! it to the challenge embedded in the proof.
//!
//! The verifier is a two-state machine: it accumulates requests, and once a
//! `verify` call has run to any outcome it is spent; further calls fail
//! with `InvalidState`.

use vstd::prelude::*;
use vstd::arithmetic::mul::lemma_mul_upper_bound;
use vstd::arithmetic::power::pow;
use crate::engine::{
    check_revealed_consistency, lemma_primary_equation_complete, non_revoc_commitments_spec,
    predicate_commitment_spec, primary_commitment_spec, primary_values_wf,
    recompute_non_revocation_commitments, recompute_predicate_commitment,
    recompute_primary_commitment, revealed_consistent, revealed_factors,
};
use crate::transcript::{build_challenge, spec_challenge};
use crate::types::{
    contains_name, effective_threshold, element_valid, find_name, index_of_name,
    lemma_index_of_name, AttrValue, ClaimSchema, CryptoError, IssuerPublicKey, Nonce, Predicate,
    PredicateKind, PredicateSubProof, Proof, SubProof, SubProofRequest,
    RevocationRegistryPublic, MAX_RESPONSE, MAX_THRESHOLD,
};

verus! {

/// Everything accumulated for one credential: the caller's key id, the
/// request, the schema, and the issuer's (and optionally the registry's)
/// public material.
#[derive(Clone, Debug)]
pub struct VerifierEntry {
    pub key_id: String,
    pub request: SubProofRequest,
    pub schema: ClaimSchema,
    pub issuer_key: IssuerPublicKey,
    pub rev_reg: Option<RevocationRegistryPublic>,
}

/// The verifier's lifecycle state.
#[derive(Clone, Copy, Debug, PartialEq, Eq, Structural)]
pub enum VerifierState {
    /// Requests may still be added; `verify` has not run.
    Accumulating,
    /// A verification outcome has been produced; the instance is spent.
    Verified,
}

/// A usable accumulated entry: well-formed key material, one generator per
/// schema attribute, and a request valid against the schema.
pub open spec fn entry_wf(e: VerifierEntry) -> bool {
    &&& e.issuer_key.wf()
    &&& e.issuer_key.matches_schema(e.schema)
    &&& e.request.valid_against(e.schema)
    &&& match e.rev_reg {
        Some(rv) => rv.wf(),
        None => true,
    }
}

/// Whether some accumulated entry already uses this key id.
pub open spec fn contains_key_id(entries: Seq<VerifierEntry>, kid: Seq<char>) -> bool {
    exists|i: int| 0 <= i < entries.len() && (#[trigger] entries[i]).key_id@ == kid
}

/// Shape agreement between one entry and one sub-proof: attribute values
/// aligned with the schema, each position revealed exactly when the request
/// reveals its name, one predicate proof per requested predicate, and the
/// revocation part present exactly when the entry carries registry state.
pub open spec fn sub_shape_matches(e: VerifierEntry, s: SubProof) -> bool {
    &&& s.primary.attr_values@.len() == e.schema.attr_names@.len()
    &&& forall|j: int| 0 <= j < s.primary.attr_values@.len()
        ==> ((#[trigger] s.primary.attr_values@[j]) is Revealed <==> contains_name(
            e.request.revealed_attrs@,
            e.schema.attr_names@[j]@,
        ))
    &&& s.predicate_proofs@.len() == e.request.predicates@.len()
    &&& (s.non_revocation is Some <==> e.rev_reg is Some)
}

/// Shape agreement between the whole proof and the accumulated requests.
pub open spec fn shape_matches(entries: Seq<VerifierEntry>, proof: Proof) -> bool {
    &&& proof.sub_proofs@.len() == entries.len()
    &&& forall|i: int| 0 <= i < entries.len() ==> sub_shape_matches(
        entries[i],
        #[trigger] proof.sub_proofs@[i],
    )
}

/// Well-formed response values of one sub-proof: elements reduced and
/// nonzero, responses inside the protocol width.
pub open spec fn sub_values_wf(e: VerifierEntry, s: SubProof) -> bool {
    &&& primary_values_wf(e.issuer_key, s.primary)
    &&& forall|j: int| 0 <= j < s.predicate_proofs@.len() ==> {
        let pp = #[trigger] s.predicate_proofs@[j];
        &&& element_valid(pp.aux_commitment, e.issuer_key.modulus)
        &&& pp.delta_response < MAX_RESPONSE
    }
    &&& match s.non_revocation {
        Some(nr) => match e.rev_reg {
            Some(rv) => element_valid(nr.witness_commitment, rv.modulus)
                && nr.response < MAX_RESPONSE,
            None => true,
        },
        None => true,
    }
}

/// Well-formed response values across the whole proof.
pub open spec fn proof_values_wf(entries: Seq<VerifierEntry>, proof: Proof) -> bool {
    forall|i: int| 0 <= i < entries.len() && i < proof.sub_proofs@.len() ==> sub_values_wf(
        entries[i],
        #[trigger] proof.sub_proofs@[i],
    )
}

/// The attribute response at position `k`, or 0 at a revealed position.
pub open spec fn attr_response_at(s: SubProof, k: int) -> u128 {
    match s.primary.attr_values@[k] {
        AttrValue::Hidden(m) => m,
        AttrValue::Revealed(_) => 0,
    }
}

/// The response-level equation one predicate demands: the delta response
/// equals the hidden attribute's response plus challenge times the
/// effective lower bound.
pub open spec fn predicate_linkage_holds(
    p: Predicate,
    m_hat: u128,
    pp: PredicateSubProof,
    c: u64,
) -> bool {
    pp.delta_response as int == m_hat as int + c as int * effective_threshold(p)
}

/// All predicate linkage equations of one sub-proof.
pub open spec fn sub_linkage_holds(e: VerifierEntry, s: SubProof, c: u64) -> bool {
    forall|j: int| 0 <= j < e.request.predicates@.len() ==> {
        let p = #[trigger] e.request.predicates@[j];
        predicate_linkage_holds(
            p,
            attr_response_at(s, index_of_name(e.schema.attr_names@, p.attr_name@)),
            s.predicate_proofs@[j],
            c,
        )
    }
}

/// The challenge-independent algebraic checks over the first `i`
/// sub-proofs: revealed-divisor consistency and predicate linkage.
pub open spec fn algebra_holds_prefix(
    entries: Seq<VerifierEntry>,
    subs: Seq<SubProof>,
    c: u64,
    i: int,
) -> bool {
    forall|k: int| 0 <= k < i ==> {
        &&& revealed_consistent((#[trigger] entries[k]).issuer_key, subs[k].primary)
        &&& sub_linkage_holds(entries[k], subs[k], c)
    }
}

/// The challenge-independent algebraic checks over the whole proof.
pub open spec fn algebra_holds(entries: Seq<VerifierEntry>, subs: Seq<SubProof>, c: u64) -> bool {
    algebra_holds_prefix(entries, subs, c, entries.len() as int)
}

/// The ordered commitments of one predicate list, first `j` entries.
pub open spec fn predicate_commitments(e: VerifierEntry, s: SubProof, c: u64, j: int) -> Seq<u64>
    decreases j,
{
    if j <= 0 {
        Seq::empty()
    } else {
        predicate_commitments(e, s, c, j - 1).push(
            ({
                let p = e.request.predicates@[j - 1];
                let k = index_of_name(e.schema.attr_names@, p.attr_name@);
                predicate_commitment_spec(
                    e.issuer_key.attr_generators@[k],
                    s.predicate_proofs@[j - 1],
                    c,
                    e.issuer_key.modulus,
                ) as u64
            }),
        )
    }
}

/// The ordered commitments one sub-proof contributes to the transcript:
/// the primary commitment, each predicate commitment, then the
/// non-revocation pair when present.
pub open spec fn sub_commitments(e: VerifierEntry, s: SubProof, c: u64) -> Seq<u64> {
    seq![primary_commitment_spec(e.issuer_key, s.primary, c) as u64]
        + predicate_commitments(e, s, c, e.request.predicates@.len() as int) + (match (
        e.rev_reg,
        s.non_revocation,
    ) {
        (Some(rv), Some(nr)) => seq![
            non_revoc_commitments_spec(rv, nr, c).0 as u64,
            non_revoc_commitments_spec(rv, nr, c).1 as u64,
        ],
        _ => Seq::empty(),
    })
}

/// The full ordered commitment sequence of the first `i` sub-proofs.
pub open spec fn all_commitments(
    entries: Seq<VerifierEntry>,
    subs: Seq<SubProof>,
    c: u64,
    i: int,
) -> Seq<u64>
    decreases i,
{
    if i <= 0 {
        Seq::empty()
    } else {
        all_commitments(entries, subs, c, i - 1) + sub_commitments(entries[i - 1], subs[i - 1], c)
    }
}

/// The cryptographic validity of a proof against accumulated entries and a
/// nonce: every challenge-independent check holds, and the challenge
/// rebuilt from the recomputed commitments and the nonce equals the one the
/// proof embeds.
pub open spec fn verdict(entries: Seq<VerifierEntry>, proof: Proof, nonce: Nonce) -> bool {
    &&& algebra_holds(entries, proof.sub_proofs@, proof.aggregated_challenge)
    &&& spec_challenge(
        all_commitments(
            entries,
            proof.sub_proofs@,
            proof.aggregated_challenge,
            entries.len() as int,
        ),
        nonce.value,
    ) == proof.aggregated_challenge
}

/// Accumulates one sub-proof request per credential, then verifies a full
/// proof exactly once.
#[derive(Clone, Debug)]
pub struct ProofVerifier {
    pub state: VerifierState,
    pub entries: Vec<VerifierEntry>,
}

impl ProofVerifier {
    /// Invariant: every accumulated entry is well formed, and key ids are
    /// pairwise distinct.
    pub open spec fn wf(self) -> bool {
        &&& forall|i: int| 0 <= i < self.entries@.len() ==> entry_wf(#[trigger] self.entries@[i])
        &&& forall|i: int, j: int|
            0 <= i < j < self.entries@.len() ==> (#[trigger] self.entries@[i]).key_id@ != (
            #[trigger] self.entries@[j]).key_id@
    }

    /// Creates an empty verifier, ready to accumulate requests.
    pub fn new() -> (r: ProofVerifier)
        ensures
            r.wf(),
            r.state == VerifierState::Accumulating,
            r.entries@ == Seq::<VerifierEntry>::empty(),
    {
        ProofVerifier { state: VerifierState::Accumulating, entries: Vec::new() }
    }

    /// Appends one credential's request and public material.
    ///
    /// Fails with `InvalidState` after `verify` has run, with
    /// `DuplicateKeyId` when the key id is already present, and with
    /// `InvalidStructure` when the key material or the request is not well
    /// formed against the schema; otherwise appends and succeeds.
    #[verifier::loop_isolation(false)]
    pub fn add_sub_proof_request(
        &mut self,
        key_id: String,
        sub_proof_request: SubProofRequest,
        claim_schema: ClaimSchema,
        issuer_pub_key: IssuerPublicKey,
        rev_reg_pub: Option<RevocationRegistryPublic>,
    ) -> (r: Result<(), CryptoError>)
        requires
            old(self).wf(),
        ensures
            final(self).wf(),
            r == (if old(self).state == VerifierState::Verified {
                Err::<(), CryptoError>(CryptoError::InvalidState)
            } else if contains_key_id(old(self).entries@, key_id@) {
                Err::<(), CryptoError>(CryptoError::DuplicateKeyId)
            } else if !entry_wf(
                (VerifierEntry {
                    key_id: key_id,
                    request: sub_proof_request,
                    schema: claim_schema,
                    issuer_key: issuer_pub_key,
                    rev_reg: rev_reg_pub,
                }),
            ) {
                Err::<(), CryptoError>(CryptoError::InvalidStructure)
            } else {
                Ok::<(), CryptoError>(())
            }),
            r is Ok ==> final(self).entries@ == old(self).entries@.push(
                (VerifierEntry {
                    key_id: key_id,
                    request: sub_proof_request,
                    schema: claim_schema,
                    issuer_key: issuer_pub_key,
                    rev_reg: rev_reg_pub,
                }),
            ) && final(self).state == old(self).state,
            !(r is Ok) ==> *final(self) == *old(self),
    {
        match self.state {
            VerifierState::Verified => {
                return Err(CryptoError::InvalidState);
            },
            VerifierState::Accumulating => {},
        }
        let mut i: usize = 0;
        while i < self.entries.len()
            invariant
                i <= self.entries@.len(),
                forall|k: int| 0 <= k < i ==> (#[trigger] self.entries@[k]).key_id@ != key_id@,
            decreases self.entries@.len() - i,
        {
            if self.entries[i].key_id == key_id {
                proof {
                    assert(contains_key_id(self.entries@, key_id@));
                }
                return Err(CryptoError::DuplicateKeyId);
            }
            i += 1;
        }
        if !check_issuer_key(&issuer_pub_key) {
            return Err(CryptoError::InvalidStructure);
        }
        if issuer_pub_key.attr_generators.len() != claim_schema.attr_names.len() {
            return Err(CryptoError::InvalidStructure);
        }
        if sub_proof_request.validate_against(&claim_schema).is_err() {
            return Err(CryptoError::InvalidStructure);
        }
        match &rev_reg_pub {
            Some(rv) => {
                if !(rv.modulus >= 2 && rv.g >= 1 && rv.g < rv.modulus && rv.h >= 1 && rv.h
                    < rv.modulus && rv.accumulator >= 1 && rv.accumulator < rv.modulus) {
                    return Err(CryptoError::InvalidStructure);
                }
            },
            None => {},
        }
        let entry = VerifierEntry {
            key_id,
            request: sub_proof_request,
            schema: claim_schema,
            issuer_key: issuer_pub_key,
            rev_reg: rev_reg_pub,
        };
        self.entries.push(entry);
        Ok(())
    }

    /// Verifies a proof against every accumulated request, in insertion
    /// order, and spends the verifier.
    ///
    /// Fails with `InvalidState` on a spent verifier and leaves it
    /// unchanged.  Otherwise the verifier is spent whatever the outcome:
    /// a shape mismatch between proof and requests fails with
    /// `ProofRejected`, malformed response values fail with
    /// `InvalidStructure` before any arithmetic, and otherwise the
    /// cryptographic verdict is returned as a plain boolean — an invalid
    /// proof is `Ok(false)`, never an error.
    #[verifier::loop_isolation(false)]
    pub fn verify(&mut self, proof: &Proof, nonce: &Nonce) -> (r: Result<bool, CryptoError>)
        requires
            old(self).wf(),
        ensures
            final(self).wf(),
            final(self).entries@ == old(self).entries@,
            r == (if old(self).state == VerifierState::Verified {
                Err::<bool, CryptoError>(CryptoError::InvalidState)
            } else if !shape_matches(old(self).entries@, *proof) {
                Err::<bool, CryptoError>(CryptoError::ProofRejected)
            } else if !proof_values_wf(old(self).entries@, *proof) {
                Err::<bool, CryptoError>(CryptoError::InvalidStructure)
            } else {
                Ok::<bool, CryptoError>(verdict(old(self).entries@, *proof, *nonce))
            }),
            final(self).state == VerifierState::Verified,
    {
        match self.state {
            VerifierState::Verified => {
                return Err(CryptoError::InvalidState);
            },
            VerifierState::Accumulating => {},
        }
        self.state = VerifierState::Verified;
        if !check_shape(&self.entries, proof) {
            return Err(CryptoError::ProofRejected);
        }
        if !check_values(&self.entries, proof) {
            return Err(CryptoError::InvalidStructure);
        }
        let c = proof.aggregated_challenge;
        let mut commitments: Vec<u64> = Vec::new();
        let mut algebra_ok = true;
        let mut i: usize = 0;
        while i < self.entries.len()
            invariant
                self.wf(),
                shape_matches(self.entries@, *proof),
                proof_values_wf(self.entries@, *proof),
                c == proof.aggregated_challenge,
                i <= self.entries@.len(),
                commitments@ == all_commitments(self.entries@, proof.sub_proofs@, c, i as int),
                algebra_ok == algebra_holds_prefix(self.entries@, proof.sub_proofs@, c, i as int),
            decreases self.entries@.len() - i,
        {
            let ok = process_sub_proof(&self.entries[i], &proof.sub_proofs[i], c, &mut commitments);
            proof {
                assert(commitments@ == all_commitments(
                    self.entries@,
                    proof.sub_proofs@,
                    c,
                    i + 1,
                ));
            }
            algebra_ok = algebra_ok && ok;
            i += 1;
        }
        let rebuilt = build_challenge(&commitments, nonce);
        Ok(algebra_ok && rebuilt == c)
    }
}

/// Whether issuer key material is well formed.
fn check_issuer_key(key: &IssuerPublicKey) -> (ok: bool)
    ensures
        ok == key.wf(),
{
    if key.modulus < 2 {
        return false;
    }
    if !(key.s >= 1 && key.s < key.modulus) {
        return false;
    }
    let mut i: usize = 0;
    while i < key.attr_generators.len()
        invariant
            key.modulus >= 2,
            i <= key.attr_generators@.len(),
            forall|k: int| 0 <= k < i ==> element_valid(
                #[trigger] key.attr_generators@[k],
                key.modulus,
            ),
        decreases key.attr_generators@.len() - i,
    {
        let g = key.attr_generators[i];
        if !(g >= 1 && g < key.modulus) {
            return false;
        }
        i += 1;
    }
    true
}

/// Whether the proof's shape agrees with the accumulated entries.
#[verifier::loop_isolation(false)]
fn check_shape(entries: &Vec<VerifierEntry>, proof: &Proof) -> (ok: bool)
    ensures
        ok == shape_matches(entries@, *proof),
{
    if proof.sub_proofs.len() != entries.len() {
        return false;
    }
    let mut i: usize = 0;
    while i < entries.len()
        invariant
            proof.sub_proofs@.len() == entries@.len(),
            i <= entries@.len(),
            forall|k: int| 0 <= k < i ==> sub_shape_matches(
                entries@[k],
                #[trigger] proof.sub_proofs@[k],
            ),
        decreases entries@.len() - i,
    {
        let e = &entries[i];
        let s = &proof.sub_proofs[i];
        if s.primary.attr_values.len() != e.schema.attr_names.len() {
            return false;
        }
        if s.predicate_proofs.len() != e.request.predicates.len() {
            return false;
        }
        if s.non_revocation.is_some() != e.rev_reg.is_some() {
            return false;
        }
        let mut j: usize = 0;
        while j < s.primary.attr_values.len()
            invariant
                s.primary.attr_values@.len() == e.schema.attr_names@.len(),
                j <= s.primary.attr_values@.len(),
                forall|q: int| 0 <= q < j ==> ((#[trigger] s.primary.attr_values@[q])
                    is Revealed <==> contains_name(
                    e.request.revealed_attrs@,
                    e.schema.attr_names@[q]@,
                )),
            decreases s.primary.attr_values@.len() - j,
        {
            let revealed_here = match s.primary.attr_values[j] {
                AttrValue::Revealed(_) => true,
                AttrValue::Hidden(_) => false,
            };
            let requested = find_name(&e.request.revealed_attrs, &e.schema.attr_names[j]).is_some();
            if revealed_here != requested {
                proof {
                    if shape_matches(entries@, *proof) {
                        assert(sub_shape_matches(entries@[i as int], proof.sub_proofs@[i as int]));
                        assert((proof.sub_proofs@[i as int].primary.attr_values@[j as int])
                            is Revealed <==> contains_name(
                            entries@[i as int].request.revealed_attrs@,
                            entries@[i as int].schema.attr_names@[j as int]@,
                        ));
                    }
                }
                return false;
            }
            j += 1;
        }
        i += 1;
    }
    true
}

/// Whether every response value in the proof is well formed, given that
/// the shape already matches.
#[verifier::loop_isolation(false)]
fn check_values(entries: &Vec<VerifierEntry>, proof: &Proof) -> (ok: bool)
    requires
        forall|i: int| 0 <= i < entries@.len() ==> entry_wf(#[trigger] entries@[i]),
        shape_matches(entries@, *proof),
    ensures
        ok == proof_values_wf(entries@, *proof),
{
    let mut i: usize = 0;
    while i < entries.len()
        invariant
            forall|k: int| 0 <= k < entries@.len() ==> entry_wf(#[trigger] entries@[k]),
            shape_matches(entries@, *proof),
            i <= entries@.len(),
            forall|k: int| 0 <= k < i ==> sub_values_wf(
                entries@[k],
                #[trigger] proof.sub_proofs@[k],
            ),
        decreases entries@.len() - i,
    {
        let e = &entries[i];
        let s = &proof.sub_proofs[i];
        let n = e.issuer_key.modulus;
        if !(s.primary.a_prime >= 1 && s.primary.a_prime < n) {
            return false;
        }
        if !(s.primary.revealed_inv >= 1 && s.primary.revealed_inv < n) {
            return false;
        }
        if s.primary.master_response >= MAX_RESPONSE {
            return false;
        }
        let mut j: usize = 0;
        while j < s.primary.attr_values.len()
            invariant
                j <= s.primary.attr_values@.len(),
                forall|q: int| 0 <= q < j ==> (match #[trigger] s.primary.attr_values@[q] {
                    AttrValue::Hidden(m) => m < MAX_RESPONSE,
                    AttrValue::Revealed(_) => true,
                }),
            decreases s.primary.attr_values@.len() - j,
        {
            match s.primary.attr_values[j] {
                AttrValue::Hidden(m) => {
                    if m >= MAX_RESPONSE {
                        proof {
                            if proof_values_wf(entries@, *proof) {
                                assert(sub_values_wf(
                                    entries@[i as int],
                                    proof.sub_proofs@[i as int],
                                ));
                                assert(match proof.sub_proofs@[i as int].primary.attr_values@[
                                    j as int] {
                                    AttrValue::Hidden(mm) => mm < MAX_RESPONSE,
                                    AttrValue::Revealed(_) => true,
                                });
                            }
                        }
                        return false;
                    }
                },
                AttrValue::Revealed(_) => {},
            }
            j += 1;
        }
        let mut q: usize = 0;
        while q < s.predicate_proofs.len()
            invariant
                n == e.issuer_key.modulus,
                q <= s.predicate_proofs@.len(),
                forall|t: int| 0 <= t < q ==> {
                    let pp = #[trigger] s.predicate_proofs@[t];
                    &&& element_valid(pp.aux_commitment, e.issuer_key.modulus)
                    &&& pp.delta_response < MAX_RESPONSE
                },
            decreases s.predicate_proofs@.len() - q,
        {
            let pp = &s.predicate_proofs[q];
            if !(pp.aux_commitment >= 1 && pp.aux_commitment < n) || pp.delta_response
                >= MAX_RESPONSE {
                proof {
                    if proof_values_wf(entries@, *proof) {
                        assert(sub_values_wf(entries@[i as int], proof.sub_proofs@[i as int]));
                        assert(({
                            let pq = proof.sub_proofs@[i as int].predicate_proofs@[q as int];
                            element_valid(pq.aux_commitment, entries@[i as int].issuer_key.modulus)
                                && pq.delta_response < MAX_RESPONSE
                        }));
                    }
                }
                return false;
            }
            q += 1;
        }
        match (&s.non_revocation, &e.rev_reg) {
            (Some(nr), Some(rv)) => {
                if !(nr.witness_commitment >= 1 && nr.witness_commitment < rv.modulus) {
                    return false;
                }
                if nr.response >= MAX_RESPONSE {
                    return false;
                }
            },
            _ => {},
        }
        i += 1;
    }
    true
}

/// Recomputes one sub-proof's commitments, appends them to the transcript
/// order, and evaluates its challenge-independent checks.
#[verifier::loop_isolation(false)]
fn process_sub_proof(e: &VerifierEntry, s: &SubProof, c: u64, commitments: &mut Vec<u64>) -> (ok:
    bool)
    requires
        entry_wf(*e),
        sub_shape_matches(*e, *s),
        sub_values_wf(*e, *s),
    ensures
        final(commitments)@ == old(commitments)@ + sub_commitments(*e, *s, c),
        ok == (revealed_consistent(e.issuer_key, s.primary) && sub_linkage_holds(*e, *s, c)),
{
    let n = e.issuer_key.modulus;
    let primary = recompute_primary_commitment(&e.issuer_key, &s.primary, c);
    commitments.push(primary);
    let consistent = check_revealed_consistency(&e.issuer_key, &s.primary);
    let mut linked = true;
    let mut j: usize = 0;
    while j < e.request.predicates.len()
        invariant
            entry_wf(*e),
            sub_shape_matches(*e, *s),
            sub_values_wf(*e, *s),
            n == e.issuer_key.modulus,
            j <= e.request.predicates@.len(),
            commitments@ == old(commitments)@ + seq![
                primary_commitment_spec(e.issuer_key, s.primary, c) as u64,
            ] + predicate_commitments(*e, *s, c, j as int),
            linked == (forall|q: int| 0 <= q < j ==> {
                let p = #[trigger] e.request.predicates@[q];
                predicate_linkage_holds(
                    p,
                    attr_response_at(*s, index_of_name(e.schema.attr_names@, p.attr_name@)),
                    s.predicate_proofs@[q],
                    c,
                )
            }),
        decreases e.request.predicates@.len() - j,
    {
        let p = &e.request.predicates[j];
        proof {
            lemma_index_of_name(e.schema.attr_names@, p.attr_name@);
        }
        let k = match find_name(&e.schema.attr_names, &p.attr_name) {
            Some(k) => k,
            None => {
                proof {
                    assert(contains_name(e.schema.attr_names@, p.attr_name@));
                    assert(false);
                }
                return false;
            },
        };
        let gen = e.issuer_key.attr_generators[k];
        let pp = &s.predicate_proofs[j];
        let t = recompute_predicate_commitment(gen, pp, c, n);
        commitments.push(t);
        proof {
            assert(e.request.predicates@[j as int].threshold < MAX_THRESHOLD);
        }
        let t_eff: u64 = match p.kind {
            PredicateKind::GE => p.threshold,
            PredicateKind::GT => p.threshold + 1,
        };
        let m_hat: u128 = match s.primary.attr_values[k] {
            AttrValue::Hidden(m) => m,
            AttrValue::Revealed(_) => 0,
        };
        proof {
            assert(match s.primary.attr_values@[k as int] {
                AttrValue::Hidden(mm) => mm < MAX_RESPONSE,
                AttrValue::Revealed(_) => true,
            });
            lemma_mul_upper_bound(
                c as int,
                0xffff_ffff_ffff_ffff,
                t_eff as int,
                0x1_0000_0000,
            );
        }
        if pp.delta_response != m_hat + (c as u128) * (t_eff as u128) {
            linked = false;
        }
        j += 1;
    }
    match (&e.rev_reg, &s.non_revocation) {
        (Some(rv), Some(nr)) => {
            let pair = recompute_non_revocation_commitments(rv, nr, c);
            commitments.push(pair.0);
            commitments.push(pair.1);
        },
        _ => {},
    }
    proof {
        assert(commitments@ == old(commitments)@ + sub_commitments(*e, *s, c));
    }
    consistent && linked
}

/// Soundness: a proof whose embedded challenge does not match the one its
/// own recomputed commitments and the nonce hash to is never accepted.
pub proof fn lemma_challenge_mismatch_not_accepted(
    entries: Seq<VerifierEntry>,
    proof: Proof,
    nonce: Nonce,
)
    requires
        spec_challenge(
            all_commitments(
                entries,
                proof.sub_proofs@,
                proof.aggregated_challenge,
                entries.len() as int,
            ),
            nonce.value,
        ) != proof.aggregated_challenge,
    ensures
        !verdict(entries, proof, nonce),
{
}

/// Completeness: a proof whose challenge-independent checks all hold and
/// whose embedded challenge equals the recomputed one is accepted.
pub proof fn lemma_consistent_proof_accepted(
    entries: Seq<VerifierEntry>,
    proof: Proof,
    nonce: Nonce,
)
    requires
        algebra_holds(entries, proof.sub_proofs@, proof.aggregated_challenge),
        spec_challenge(
            all_commitments(
                entries,
                proof.sub_proofs@,
                proof.aggregated_challenge,
                entries.len() as int,
            ),
            nonce.value,
        ) == proof.aggregated_challenge,
    ensures
        verdict(entries, proof, nonce),
{
}

/// Reveal/request consistency: a sub-proof that reveals an attribute the
/// request keeps hidden, or hides one it requires revealed, fails the
/// shape check, so `verify` reports `ProofRejected` rather than accepting.
pub proof fn lemma_reveal_mismatch_rejected(
    entries: Seq<VerifierEntry>,
    proof: Proof,
    i: int,
    j: int,
)
    requires
        0 <= i < entries.len(),
        proof.sub_proofs@.len() == entries.len(),
        0 <= j < proof.sub_proofs@[i].primary.attr_values@.len(),
        (proof.sub_proofs@[i].primary.attr_values@[j] is Revealed) != contains_name(
            entries[i].request.revealed_attrs@,
            entries[i].schema.attr_names@[j]@,
        ),
    ensures
        !shape_matches(entries, proof),
{
    if shape_matches(entries, proof) {
        assert(sub_shape_matches(entries[i], proof.sub_proofs@[i]));
    }
}

/// Completeness, end to end, for one credential with one hidden attribute,
/// no predicates and no revocation part: a proof assembled from honest
/// responses, whose embedded challenge is the hash of the prover's own
/// commitment `s^rho · r^tau mod n` and the nonce, satisfies the verdict.
pub proof fn lemma_honest_single_credential_accepted(
    entry: VerifierEntry,
    proof: Proof,
    nonce: Nonce,
    x: nat,
    m: nat,
    rho: nat,
    tau: nat,
)
    requires
        entry_wf(entry),
        entry.issuer_key.attr_generators@.len() == 1,
        entry.request.predicates@.len() == 0,
        entry.rev_reg is None,
        proof.sub_proofs@.len() == 1,
        proof.sub_proofs@[0].predicate_proofs@.len() == 0,
        proof.sub_proofs@[0].non_revocation is None,
        proof.sub_proofs@[0].primary.attr_values@.len() == 1,
        proof.sub_proofs@[0].primary.attr_values@[0] matches AttrValue::Hidden(mh)
            && mh as int == tau - proof.aggregated_challenge * m,
        proof.sub_proofs@[0].primary.revealed_inv == 1,
        rho >= proof.aggregated_challenge * x,
        tau >= proof.aggregated_challenge * m,
        proof.sub_proofs@[0].primary.a_prime as int == (pow(entry.issuer_key.s as int, x) * pow(
            entry.issuer_key.attr_generators@[0] as int,
            m,
        )) % (entry.issuer_key.modulus as int),
        proof.sub_proofs@[0].primary.master_response as int == rho - proof.aggregated_challenge
            * x,
        spec_challenge(
            seq![
                (((pow(entry.issuer_key.s as int, rho) * pow(
                    entry.issuer_key.attr_generators@[0] as int,
                    tau,
                )) % (entry.issuer_key.modulus as int)) as u64),
            ],
            nonce.value,
        ) == proof.aggregated_challenge,
    ensures
        verdict(seq![entry], proof, nonce),
{
    let c = proof.aggregated_challenge;
    let sub = proof.sub_proofs@[0];
    let key = entry.issuer_key;
    let ni = key.modulus as int;
    let t = (pow(key.s as int, rho) * pow(key.attr_generators@[0] as int, tau)) % ni;
    lemma_primary_equation_complete(key, sub.primary, c, x, m, rho, tau);
    assert(primary_commitment_spec(key, sub.primary, c) == t);
    // Revealed-divisor consistency: nothing is revealed, so the divisor and
    // the carried inverse are both 1.
    assert(revealed_factors(key.attr_generators@, sub.primary.attr_values@, 0) == 1);
    assert(revealed_factors(key.attr_generators@, sub.primary.attr_values@, 1) == 1);
    vstd::arithmetic::div_mod::lemma_small_mod(1nat, key.modulus as nat);
    assert(revealed_consistent(key, sub.primary));
    // No predicates: linkage is vacuous.
    assert(sub_linkage_holds(entry, sub, c));
    assert(algebra_holds_prefix(seq![entry], proof.sub_proofs@, c, 1)) by {
        assert(seq![entry][0] == entry);
    };
    // The whole transcript is the one primary commitment.
    assert(predicate_commitments(entry, sub, c, 0) == Seq::<u64>::empty());
    assert(all_commitments(seq![entry], proof.sub_proofs@, c, 0) == Seq::<u64>::empty());
    assert(all_commitments(seq![entry], proof.sub_proofs@, c, 1) =~= sub_commitments(
        entry,
        sub,
        c,
    ));
    assert(sub_commitments(entry, sub, c) =~= seq![t as u64]);
}

} // verus!
