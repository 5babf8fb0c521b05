use cl_verifier::arith::mod_exp;
use cl_verifier::arith::mod_mul;
use cl_verifier::transcript::build_challenge;
use cl_verifier::types::AttrValue;
use cl_verifier::types::ClaimSchema;
use cl_verifier::types::CryptoError;
use cl_verifier::types::IssuerPublicKey;
use cl_verifier::types::Nonce;
use cl_verifier::types::NonRevocSubProof;
use cl_verifier::types::Predicate;
use cl_verifier::types::PredicateKind;
use cl_verifier::types::PredicateSubProof;
use cl_verifier::types::PrimarySubProof;
use cl_verifier::types::Proof;
use cl_verifier::types::SubProof;
use cl_verifier::types::SubProofRequest;
use cl_verifier::verification::ProofVerifier;
use cl_verifier::verification::VerifierState;

/// A prime modulus: every nonzero residue is invertible.
const N: u64 = 1_000_000_007;
const S: u64 = 2;
const R_AGE: u64 = 3;

/// Credential secrets for the scenario: master secret and the age value.
const X: u128 = 42;
const M_AGE: u128 = 25;

/// Prover-side commitment randomness, far above any challenge product.
const RHO: u128 = 1 << 100;
const TAU: u128 = 3 << 99;
const RHO_NR: u128 = 5 << 99;

fn issuer_key() -> IssuerPublicKey {
    IssuerPublicKey { modulus: N, s: S, attr_generators: vec![R_AGE] }
}

fn schema_age() -> ClaimSchema {
    ClaimSchema { attr_names: vec!["age".to_string()] }
}

fn request_hidden() -> SubProofRequest {
    SubProofRequest { revealed_attrs: vec![], predicates: vec![] }
}

/// Modular inverse in the prime field, by extended Euclid.
fn modinv(a: u64, n: u64) -> u64 {
    let (mut r0, mut r1) = (n as i128, a as i128);
    let (mut t0, mut t1) = (0i128, 1i128);
    while r1 != 0 {
        let q = r0 / r1;
        let r2 = r0 - q * r1;
        let t2 = t0 - q * t1;
        r0 = r1;
        r1 = r2;
        t0 = t1;
        t1 = t2;
    }
    assert_eq!(r0, 1, "element not invertible");
    (t0.rem_euclid(n as i128)) as u64
}

/// Honest proof for one credential with a hidden age, no predicates, no
/// revocation part.
fn honest_proof_hidden(nonce: &Nonce) -> Proof {
    let a_prime = mod_mul(mod_exp(S, X, N), mod_exp(R_AGE, M_AGE, N), N);
    let t = mod_mul(mod_exp(S, RHO, N), mod_exp(R_AGE, TAU, N), N);
    let c = build_challenge(&vec![t], nonce);
    let master_response = RHO - (c as u128) * X;
    let m_hat = TAU - (c as u128) * M_AGE;
    Proof {
        sub_proofs: vec![SubProof {
            primary: PrimarySubProof {
                a_prime,
                revealed_inv: 1,
                master_response,
                attr_values: vec![AttrValue::Hidden(m_hat)],
            },
            predicate_proofs: vec![],
            non_revocation: None,
        }],
        aggregated_challenge: c,
    }
}

fn fresh_verifier_hidden() -> ProofVerifier {
    let mut pv = ProofVerifier::new();
    let r = pv.add_sub_proof_request(
        "cred1".to_string(),
        request_hidden(),
        schema_age(),
        issuer_key(),
        None,
    );
    assert_eq!(r, Ok(()));
    pv
}

#[test]
fn verifier_new_works() {
    let pv = ProofVerifier::new();
    assert_eq!(pv.state, VerifierState::Accumulating);
    assert_eq!(pv.entries.len(), 0);
}

#[test]
fn nonce_new_works() {
    let n1 = Nonce::new();
    let n2 = Nonce::new();
    // 128 random bits: a collision would point at a broken source.
    assert_ne!(n1.value, n2.value);
}

#[test]
fn add_sub_proof_request_works() {
    let mut pv = ProofVerifier::new();
    let r = pv.add_sub_proof_request(
        "cred1".to_string(),
        request_hidden(),
        schema_age(),
        issuer_key(),
        None,
    );
    assert_eq!(r, Ok(()));
    assert_eq!(pv.entries.len(), 1);
}

#[test]
fn add_duplicate_key_id_fails() {
    let mut pv = fresh_verifier_hidden();
    let r = pv.add_sub_proof_request(
        "cred1".to_string(),
        request_hidden(),
        schema_age(),
        issuer_key(),
        None,
    );
    assert_eq!(r, Err(CryptoError::DuplicateKeyId));
}

#[test]
fn add_revealed_attr_not_in_schema_fails() {
    let mut pv = ProofVerifier::new();
    let req = SubProofRequest {
        revealed_attrs: vec!["height".to_string()],
        predicates: vec![],
    };
    let r = pv.add_sub_proof_request(
        "cred1".to_string(),
        req,
        schema_age(),
        issuer_key(),
        None,
    );
    assert_eq!(r, Err(CryptoError::InvalidStructure));
}

#[test]
fn add_predicate_on_revealed_attr_fails() {
    let mut pv = ProofVerifier::new();
    let req = SubProofRequest {
        revealed_attrs: vec!["age".to_string()],
        predicates: vec![Predicate {
            attr_name: "age".to_string(),
            kind: PredicateKind::GE,
            threshold: 18,
        }],
    };
    let r = pv.add_sub_proof_request(
        "cred1".to_string(),
        req,
        schema_age(),
        issuer_key(),
        None,
    );
    assert_eq!(r, Err(CryptoError::InvalidStructure));
}

#[test]
fn add_bad_issuer_key_fails() {
    let mut pv = ProofVerifier::new();
    let key = IssuerPublicKey { modulus: N, s: 0, attr_generators: vec![R_AGE] };
    let r = pv.add_sub_proof_request(
        "cred1".to_string(),
        request_hidden(),
        schema_age(),
        key,
        None,
    );
    assert_eq!(r, Err(CryptoError::InvalidStructure));
}

#[test]
fn scenario_single_credential_age() {
    // Accumulate one request with key id "cred1", nothing revealed, no
    // predicates, schema {age}; an honest proof for age = 25 under a fresh
    // nonce verifies; the same proof under another nonce does not; a
    // tampered response does not.
    let n1 = Nonce { value: 0x1111_2222_3333_4444 };
    let n2 = Nonce { value: 0x5555_6666_7777_8888 };
    let proof = honest_proof_hidden(&n1);

    let mut pv = fresh_verifier_hidden();
    assert_eq!(pv.verify(&proof, &n1), Ok(true));

    let mut pv2 = fresh_verifier_hidden();
    assert_eq!(pv2.verify(&proof, &n2), Ok(false));

    let mut tampered = honest_proof_hidden(&n1);
    tampered.sub_proofs[0].primary.master_response ^= 1;
    let mut pv3 = fresh_verifier_hidden();
    assert_eq!(pv3.verify(&tampered, &n1), Ok(false));
}

#[test]
fn embedded_challenge_mismatch_is_rejected() {
    // A proof whose embedded challenge does not match the transcript
    // recomputed from its own commitments is invalid.
    let nonce = Nonce { value: 99 };
    let mut proof = honest_proof_hidden(&nonce);
    proof.aggregated_challenge = proof.aggregated_challenge.wrapping_add(1);
    let mut pv = fresh_verifier_hidden();
    assert_eq!(pv.verify(&proof, &nonce), Ok(false));
}

#[test]
fn verify_twice_fails_with_invalid_state() {
    let nonce = Nonce { value: 7 };
    let proof = honest_proof_hidden(&nonce);
    let mut pv = fresh_verifier_hidden();
    assert_eq!(pv.verify(&proof, &nonce), Ok(true));
    assert_eq!(pv.verify(&proof, &nonce), Err(CryptoError::InvalidState));
    // The outcome of the first call does not matter.
    let mut pv2 = fresh_verifier_hidden();
    let other = Nonce { value: 8 };
    assert_eq!(pv2.verify(&proof, &other), Ok(false));
    assert_eq!(pv2.verify(&proof, &other), Err(CryptoError::InvalidState));
}

#[test]
fn add_after_verify_fails_with_invalid_state() {
    let nonce = Nonce { value: 7 };
    let proof = honest_proof_hidden(&nonce);
    let mut pv = fresh_verifier_hidden();
    assert_eq!(pv.verify(&proof, &nonce), Ok(true));
    let r = pv.add_sub_proof_request(
        "cred2".to_string(),
        request_hidden(),
        schema_age(),
        issuer_key(),
        None,
    );
    assert_eq!(r, Err(CryptoError::InvalidState));
}

#[test]
fn sub_proof_count_mismatch_is_proof_rejected() {
    let nonce = Nonce { value: 7 };
    let proof = Proof { sub_proofs: vec![], aggregated_challenge: 0 };
    let mut pv = fresh_verifier_hidden();
    assert_eq!(pv.verify(&proof, &nonce), Err(CryptoError::ProofRejected));
}

#[test]
fn reveal_mismatch_is_proof_rejected() {
    // The request reveals "age" but the proof keeps it hidden.
    let nonce = Nonce { value: 7 };
    let proof = honest_proof_hidden(&nonce);
    let mut pv = ProofVerifier::new();
    let req = SubProofRequest { revealed_attrs: vec!["age".to_string()], predicates: vec![] };
    let r = pv.add_sub_proof_request(
        "cred1".to_string(),
        req,
        schema_age(),
        issuer_key(),
        None,
    );
    assert_eq!(r, Ok(()));
    assert_eq!(pv.verify(&proof, &nonce), Err(CryptoError::ProofRejected));
}

#[test]
fn revocation_flag_mismatch_is_proof_rejected() {
    let nonce = Nonce { value: 7 };
    let mut proof = honest_proof_hidden(&nonce);
    proof.sub_proofs[0].non_revocation = Some(NonRevocSubProof {
        witness_commitment: 5,
        response: 1,
    });
    let mut pv = fresh_verifier_hidden();
    assert_eq!(pv.verify(&proof, &nonce), Err(CryptoError::ProofRejected));
}

#[test]
fn malformed_element_is_invalid_structure() {
    let nonce = Nonce { value: 7 };
    let mut proof = honest_proof_hidden(&nonce);
    proof.sub_proofs[0].primary.a_prime = 0;
    let mut pv = fresh_verifier_hidden();
    assert_eq!(pv.verify(&proof, &nonce), Err(CryptoError::InvalidStructure));
}

#[test]
fn oversized_response_is_invalid_structure() {
    let nonce = Nonce { value: 7 };
    let mut proof = honest_proof_hidden(&nonce);
    proof.sub_proofs[0].primary.master_response = u128::MAX;
    let mut pv = fresh_verifier_hidden();
    assert_eq!(pv.verify(&proof, &nonce), Err(CryptoError::InvalidStructure));
}

#[test]
fn revealed_attribute_verifies_and_binds_value() {
    // Honest proof revealing age = 25: nothing hidden but the master
    // secret; the revealed divisor's inverse joins the equation.
    let nonce = Nonce { value: 0xabcdef };
    let a_prime = mod_mul(mod_exp(S, X, N), mod_exp(R_AGE, M_AGE, N), N);
    let divisor = mod_exp(R_AGE, M_AGE, N);
    let t = mod_exp(S, RHO, N);
    let c = build_challenge(&vec![t], &nonce);
    let proof = Proof {
        sub_proofs: vec![SubProof {
            primary: PrimarySubProof {
                a_prime,
                revealed_inv: modinv(divisor, N),
                master_response: RHO - (c as u128) * X,
                attr_values: vec![AttrValue::Revealed(M_AGE as u64)],
            },
            predicate_proofs: vec![],
            non_revocation: None,
        }],
        aggregated_challenge: c,
    };

    let make_verifier = || {
        let mut pv = ProofVerifier::new();
        let req = SubProofRequest {
            revealed_attrs: vec!["age".to_string()],
            predicates: vec![],
        };
        let r = pv.add_sub_proof_request(
            "cred1".to_string(),
            req,
            schema_age(),
            issuer_key(),
            None,
        );
        assert_eq!(r, Ok(()));
        pv
    };

    let mut pv = make_verifier();
    assert_eq!(pv.verify(&proof, &nonce), Ok(true));

    // A different claimed value fails: the revealed value is bound into
    // the equation, not taken on trust.
    let mut lying = proof.clone();
    lying.sub_proofs[0].primary.attr_values = vec![AttrValue::Revealed(26)];
    let mut pv2 = make_verifier();
    assert_eq!(pv2.verify(&lying, &nonce), Ok(false));

    // A stale inverse fails the challenge-independent consistency check.
    let mut stale = proof.clone();
    stale.sub_proofs[0].primary.revealed_inv = 12345;
    let mut pv3 = make_verifier();
    assert_eq!(pv3.verify(&stale, &nonce), Ok(false));
}

#[test]
fn predicate_proof_verifies() {
    // Honest proof that the hidden age (25) is at least 18.
    let nonce = Nonce { value: 0x1234 };
    let threshold: u64 = 18;
    let delta = M_AGE - threshold as u128;
    let a_prime = mod_mul(mod_exp(S, X, N), mod_exp(R_AGE, M_AGE, N), N);
    let t = mod_mul(mod_exp(S, RHO, N), mod_exp(R_AGE, TAU, N), N);
    let t_pred = mod_exp(R_AGE, TAU, N);
    let aux = mod_exp(R_AGE, delta, N);
    let c = build_challenge(&vec![t, t_pred], &nonce);
    let m_hat = TAU - (c as u128) * M_AGE;
    let proof = Proof {
        sub_proofs: vec![SubProof {
            primary: PrimarySubProof {
                a_prime,
                revealed_inv: 1,
                master_response: RHO - (c as u128) * X,
                attr_values: vec![AttrValue::Hidden(m_hat)],
            },
            predicate_proofs: vec![PredicateSubProof {
                aux_commitment: aux,
                delta_response: m_hat + (c as u128) * threshold as u128,
            }],
            non_revocation: None,
        }],
        aggregated_challenge: c,
    };

    let make_verifier = || {
        let mut pv = ProofVerifier::new();
        let req = SubProofRequest {
            revealed_attrs: vec![],
            predicates: vec![Predicate {
                attr_name: "age".to_string(),
                kind: PredicateKind::GE,
                threshold,
            }],
        };
        let r = pv.add_sub_proof_request(
            "cred1".to_string(),
            req,
            schema_age(),
            issuer_key(),
            None,
        );
        assert_eq!(r, Ok(()));
        pv
    };

    let mut pv = make_verifier();
    assert_eq!(pv.verify(&proof, &nonce), Ok(true));

    // A broken linkage response is a deterministic failure.
    let mut broken = proof.clone();
    broken.sub_proofs[0].predicate_proofs[0].delta_response += 1;
    let mut pv2 = make_verifier();
    assert_eq!(pv2.verify(&broken, &nonce), Ok(false));
}

#[test]
fn non_revocation_proof_verifies() {
    // The same response exponentiates both registry bases: accumulator
    // membership and witness binding under one challenge.
    let nonce = Nonce { value: 0x777 };
    let w: u128 = 9;
    let g: u64 = 5;
    let h: u64 = 11;
    let rev = cl_verifier::types::RevocationRegistryPublic {
        modulus: N,
        g,
        h,
        accumulator: mod_exp(g, w, N),
    };
    let wit = mod_exp(h, w, N);
    let a_prime = mod_mul(mod_exp(S, X, N), mod_exp(R_AGE, M_AGE, N), N);
    let t = mod_mul(mod_exp(S, RHO, N), mod_exp(R_AGE, TAU, N), N);
    let t1 = mod_exp(g, RHO_NR, N);
    let t2 = mod_exp(h, RHO_NR, N);
    let c = build_challenge(&vec![t, t1, t2], &nonce);
    let proof = Proof {
        sub_proofs: vec![SubProof {
            primary: PrimarySubProof {
                a_prime,
                revealed_inv: 1,
                master_response: RHO - (c as u128) * X,
                attr_values: vec![AttrValue::Hidden(TAU - (c as u128) * M_AGE)],
            },
            predicate_proofs: vec![],
            non_revocation: Some(NonRevocSubProof {
                witness_commitment: wit,
                response: RHO_NR - (c as u128) * w,
            }),
        }],
        aggregated_challenge: c,
    };

    let make_verifier = || {
        let mut pv = ProofVerifier::new();
        let r = pv.add_sub_proof_request(
            "cred1".to_string(),
            request_hidden(),
            schema_age(),
            issuer_key(),
            Some(rev),
        );
        assert_eq!(r, Ok(()));
        pv
    };

    let mut pv = make_verifier();
    assert_eq!(pv.verify(&proof, &nonce), Ok(true));

    // A witness for a different element fails.
    let mut wrong = proof.clone();
    wrong.sub_proofs[0].non_revocation = Some(NonRevocSubProof {
        witness_commitment: mod_exp(h, w + 1, N),
        response: RHO_NR - (c as u128) * w,
    });
    let mut pv2 = make_verifier();
    assert_eq!(pv2.verify(&wrong, &nonce), Ok(false));
}

#[test]
fn request_order_is_binding() {
    // An honest proof built for accumulation order (cred1, cred2) fails
    // against a verifier that accumulated the same requests the other way
    // round: order is part of the transcript binding.
    let nonce = Nonce { value: 0x4242 };
    let key2 = IssuerPublicKey { modulus: N, s: 7, attr_generators: vec![13] };
    let schema2 = ClaimSchema { attr_names: vec!["height".to_string()] };
    let x2: u128 = 55;
    let m2: u128 = 170;

    let a1 = mod_mul(mod_exp(S, X, N), mod_exp(R_AGE, M_AGE, N), N);
    let t1 = mod_mul(mod_exp(S, RHO, N), mod_exp(R_AGE, TAU, N), N);
    let a2 = mod_mul(mod_exp(7, x2, N), mod_exp(13, m2, N), N);
    let t2 = mod_mul(mod_exp(7, RHO, N), mod_exp(13, TAU, N), N);
    let c = build_challenge(&vec![t1, t2], &nonce);
    let sub = |a_prime: u64, x: u128, m: u128| SubProof {
        primary: PrimarySubProof {
            a_prime,
            revealed_inv: 1,
            master_response: RHO - (c as u128) * x,
            attr_values: vec![AttrValue::Hidden(TAU - (c as u128) * m)],
        },
        predicate_proofs: vec![],
        non_revocation: None,
    };
    let proof = Proof {
        sub_proofs: vec![sub(a1, X, M_AGE), sub(a2, x2, m2)],
        aggregated_challenge: c,
    };

    let mut forward = ProofVerifier::new();
    assert_eq!(
        forward.add_sub_proof_request(
            "cred1".to_string(),
            request_hidden(),
            schema_age(),
            issuer_key(),
            None
        ),
        Ok(())
    );
    assert_eq!(
        forward.add_sub_proof_request(
            "cred2".to_string(),
            request_hidden(),
            schema2.clone(),
            key2.clone(),
            None
        ),
        Ok(())
    );
    assert_eq!(forward.verify(&proof, &nonce), Ok(true));

    let mut reversed = ProofVerifier::new();
    assert_eq!(
        reversed.add_sub_proof_request(
            "cred2".to_string(),
            request_hidden(),
            schema2,
            key2,
            None
        ),
        Ok(())
    );
    assert_eq!(
        reversed.add_sub_proof_request(
            "cred1".to_string(),
            request_hidden(),
            schema_age(),
            issuer_key(),
            None
        ),
        Ok(())
    );
    assert_eq!(reversed.verify(&proof, &nonce), Ok(false));
}

#[test]
fn gt_predicate_verifies() {
    // "age > 18" is a GE bound at threshold + 1.
    let nonce = Nonce { value: 0x9999 };
    let threshold: u64 = 18;
    let effective = threshold as u128 + 1;
    let delta = M_AGE - effective;
    let a_prime = mod_mul(mod_exp(S, X, N), mod_exp(R_AGE, M_AGE, N), N);
    let t = mod_mul(mod_exp(S, RHO, N), mod_exp(R_AGE, TAU, N), N);
    let t_pred = mod_exp(R_AGE, TAU, N);
    let aux = mod_exp(R_AGE, delta, N);
    let c = build_challenge(&vec![t, t_pred], &nonce);
    let m_hat = TAU - (c as u128) * M_AGE;
    let proof = Proof {
        sub_proofs: vec![SubProof {
            primary: PrimarySubProof {
                a_prime,
                revealed_inv: 1,
                master_response: RHO - (c as u128) * X,
                attr_values: vec![AttrValue::Hidden(m_hat)],
            },
            predicate_proofs: vec![PredicateSubProof {
                aux_commitment: aux,
                delta_response: m_hat + (c as u128) * effective,
            }],
            non_revocation: None,
        }],
        aggregated_challenge: c,
    };
    let mut pv = ProofVerifier::new();
    let req = SubProofRequest {
        revealed_attrs: vec![],
        predicates: vec![Predicate {
            attr_name: "age".to_string(),
            kind: PredicateKind::GT,
            threshold,
        }],
    };
    assert_eq!(
        pv.add_sub_proof_request("cred1".to_string(), req, schema_age(), issuer_key(), None),
        Ok(())
    );
    assert_eq!(pv.verify(&proof, &nonce), Ok(true));
}

#[test]
fn mixed_revealed_hidden_with_predicate_verifies() {
    // Schema {age, height}; height revealed as 170, age hidden with a GE
    // predicate at 18.
    let nonce = Nonce { value: 0xbeef };
    let r_height: u64 = 10;
    let m_height: u128 = 170;
    let key = IssuerPublicKey { modulus: N, s: S, attr_generators: vec![R_AGE, r_height] };
    let schema = ClaimSchema {
        attr_names: vec!["age".to_string(), "height".to_string()],
    };
    let threshold: u64 = 18;
    let delta = M_AGE - threshold as u128;
    let a_prime = mod_mul(
        mod_mul(mod_exp(S, X, N), mod_exp(R_AGE, M_AGE, N), N),
        mod_exp(r_height, m_height, N),
        N,
    );
    let divisor = mod_exp(r_height, m_height, N);
    let t = mod_mul(mod_exp(S, RHO, N), mod_exp(R_AGE, TAU, N), N);
    let t_pred = mod_exp(R_AGE, TAU, N);
    let aux = mod_exp(R_AGE, delta, N);
    let c = build_challenge(&vec![t, t_pred], &nonce);
    let m_hat = TAU - (c as u128) * M_AGE;
    let proof = Proof {
        sub_proofs: vec![SubProof {
            primary: PrimarySubProof {
                a_prime,
                revealed_inv: modinv(divisor, N),
                master_response: RHO - (c as u128) * X,
                attr_values: vec![
                    AttrValue::Hidden(m_hat),
                    AttrValue::Revealed(m_height as u64),
                ],
            },
            predicate_proofs: vec![PredicateSubProof {
                aux_commitment: aux,
                delta_response: m_hat + (c as u128) * threshold as u128,
            }],
            non_revocation: None,
        }],
        aggregated_challenge: c,
    };
    let mut pv = ProofVerifier::new();
    let req = SubProofRequest {
        revealed_attrs: vec!["height".to_string()],
        predicates: vec![Predicate {
            attr_name: "age".to_string(),
            kind: PredicateKind::GE,
            threshold,
        }],
    };
    assert_eq!(
        pv.add_sub_proof_request("cred1".to_string(), req, schema, key, None),
        Ok(())
    );
    assert_eq!(pv.verify(&proof, &nonce), Ok(true));
}

#[test]
fn empty_verifier_accepts_only_matching_challenge() {
    // With nothing accumulated, an empty proof is well shaped; its verdict
    // reduces to the challenge comparison over a bare-nonce transcript.
    let nonce = Nonce { value: 0xfeed };
    let c = build_challenge(&vec![], &nonce);
    let mut pv = ProofVerifier::new();
    let honest = Proof { sub_proofs: vec![], aggregated_challenge: c };
    assert_eq!(pv.verify(&honest, &nonce), Ok(true));

    let mut pv2 = ProofVerifier::new();
    let stale = Proof { sub_proofs: vec![], aggregated_challenge: c.wrapping_add(1) };
    assert_eq!(pv2.verify(&stale, &nonce), Ok(false));
}
