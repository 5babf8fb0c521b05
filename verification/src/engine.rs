//! The verification equation engine: pure arithmetic recomputing the
//! prover's commitment values from the responses, the public key material
//! and the challenge, plus the challenge-independent consistency checks.
//!
//! Every routine is a deterministic function of its arguments; the spec
//! functions state each equation over the mathematical `pow`, and the
//! executable routines are proved equal to them.

use vstd::prelude::*;
use vstd::arithmetic::power::{
    lemma1_pow, lemma_pow_adds, lemma_pow_distributes, lemma_pow_mod_noop, lemma_pow_multiplies,
    pow,
};
use vstd::arithmetic::div_mod::{lemma_mul_mod_noop_general, lemma_small_mod};
use vstd::arithmetic::mul::lemma_mul_is_associative;
use crate::arith::{lemma_mod_mul_congruent, mod_exp, mod_mul, pow_mod};
use crate::types::{
    element_valid, AttrValue, IssuerPublicKey, NonRevocSubProof, PredicateSubProof,
    PrimarySubProof, RevocationRegistryPublic, MAX_RESPONSE,
};

verus! {

/// Unreduced product of the hidden-attribute factors over the first `i`
/// attribute positions: `gen_j ^ response_j` where position `j` is hidden,
/// 1 where it is revealed.
pub open spec fn hidden_factors(gens: Seq<u64>, avs: Seq<AttrValue>, i: int) -> int
    decreases i,
{
    if i <= 0 {
        1
    } else {
        hidden_factors(gens, avs, i - 1) * (match avs[i - 1] {
            AttrValue::Hidden(m) => pow(gens[i - 1] as int, m as nat),
            AttrValue::Revealed(_) => 1,
        })
    }
}

/// Unreduced product of `gen_j ^ value_j` over the first `i` positions that
/// are revealed: the divisor the revealed attribute values define.
pub open spec fn revealed_factors(gens: Seq<u64>, avs: Seq<AttrValue>, i: int) -> int
    decreases i,
{
    if i <= 0 {
        1
    } else {
        revealed_factors(gens, avs, i - 1) * (match avs[i - 1] {
            AttrValue::Revealed(v) => pow(gens[i - 1] as int, v as nat),
            AttrValue::Hidden(_) => 1,
        })
    }
}

/// The primary verification equation: the recomputed commitment
/// `s^master · Π hidden r_j^m̂_j · inv^c · a'^c  mod n`.
pub open spec fn primary_commitment_spec(key: IssuerPublicKey, sub: PrimarySubProof, c: u64) -> int {
    (pow(key.s as int, sub.master_response as nat)
        * hidden_factors(key.attr_generators@, sub.attr_values@, key.attr_generators@.len() as int)
        * pow(sub.revealed_inv as int, c as nat) * pow(sub.a_prime as int, c as nat))
        % (key.modulus as int)
}

/// The challenge-independent consistency the revealed attributes demand:
/// the carried inverse really inverts the revealed divisor.
pub open spec fn revealed_consistent(key: IssuerPublicKey, sub: PrimarySubProof) -> bool {
    (revealed_factors(key.attr_generators@, sub.attr_values@, key.attr_generators@.len() as int)
        * sub.revealed_inv as int) % (key.modulus as int) == 1
}

/// A predicate's recomputed range commitment: `gen^δ̂ · D^c  mod n`, where
/// `gen` is the generator of the predicate's attribute and `D` the carried
/// difference commitment.
pub open spec fn predicate_commitment_spec(gen: u64, pp: PredicateSubProof, c: u64, n: u64) -> int {
    (pow(gen as int, pp.delta_response as nat) * pow(pp.aux_commitment as int, c as nat))
        % (n as int)
}

/// The non-revocation commitment pair: the same response exponentiates both
/// registry bases, tied to the accumulator and to the witness commitment.
pub open spec fn non_revoc_commitments_spec(
    rev: RevocationRegistryPublic,
    nr: NonRevocSubProof,
    c: u64,
) -> (int, int) {
    (
        (pow(rev.g as int, nr.response as nat) * pow(rev.accumulator as int, c as nat))
            % (rev.modulus as int),
        (pow(rev.h as int, nr.response as nat) * pow(nr.witness_commitment as int, c as nat))
            % (rev.modulus as int),
    )
}

/// Well-formed response material for one primary sub-proof against a key:
/// aligned with the generators, elements reduced and nonzero, responses
/// inside the protocol width.
pub open spec fn primary_values_wf(key: IssuerPublicKey, sub: PrimarySubProof) -> bool {
    &&& sub.attr_values@.len() == key.attr_generators@.len()
    &&& element_valid(sub.a_prime, key.modulus)
    &&& element_valid(sub.revealed_inv, key.modulus)
    &&& sub.master_response < MAX_RESPONSE
    &&& forall|j: int| 0 <= j < sub.attr_values@.len() ==> (match #[trigger] sub.attr_values@[j] {
        AttrValue::Hidden(m) => m < MAX_RESPONSE,
        AttrValue::Revealed(_) => true,
    })
}

/// Recomputes the primary commitment of one sub-proof.
pub fn recompute_primary_commitment(
    key: &IssuerPublicKey,
    sub: &PrimarySubProof,
    challenge: u64,
) -> (r: u64)
    requires
        key.wf(),
        primary_values_wf(*key, *sub),
    ensures
        r as int == primary_commitment_spec(*key, *sub, challenge),
        r < key.modulus,
{
    let n = key.modulus;
    let ghost gens = key.attr_generators@;
    let ghost avs = sub.attr_values@;
    let ghost s_pow = pow(key.s as int, sub.master_response as nat);
    let mut acc = mod_exp(key.s, sub.master_response, n);
    let mut i: usize = 0;
    while i < key.attr_generators.len()
        invariant
            key.wf(),
            primary_values_wf(*key, *sub),
            n == key.modulus,
            gens == key.attr_generators@,
            avs == sub.attr_values@,
            s_pow == pow(key.s as int, sub.master_response as nat),
            i <= gens.len(),
            acc < n,
            acc as int == (s_pow * hidden_factors(gens, avs, i as int)) % (n as int),
        decreases gens.len() - i,
    {
        match sub.attr_values[i] {
            AttrValue::Hidden(m) => {
                let factor = mod_exp(key.attr_generators[i], m, n);
                let ghost acc0 = acc as int;
                acc = mod_mul(acc, factor, n);
                proof {
                    let p = s_pow * hidden_factors(gens, avs, i as int);
                    let f = pow(gens[i as int] as int, m as nat);
                    lemma_mul_mod_noop_general(p, f, n as int);
                    lemma_mul_is_associative(s_pow, hidden_factors(gens, avs, i as int), f);
                }
            },
            AttrValue::Revealed(_) => {
                proof {
                    assert(hidden_factors(gens, avs, i + 1) == hidden_factors(gens, avs, i as int));
                }
            },
        }
        i += 1;
    }
    let inv_pow = mod_exp(sub.revealed_inv, challenge as u128, n);
    let ghost p1 = s_pow * hidden_factors(gens, avs, gens.len() as int);
    proof {
        lemma_mul_mod_noop_general(p1, pow(sub.revealed_inv as int, challenge as nat), n as int);
    }
    let acc2 = mod_mul(acc, inv_pow, n);
    let a_pow = mod_exp(sub.a_prime, challenge as u128, n);
    proof {
        lemma_mul_mod_noop_general(
            p1 * pow(sub.revealed_inv as int, challenge as nat),
            pow(sub.a_prime as int, challenge as nat),
            n as int,
        );
    }
    mod_mul(acc2, a_pow, n)
}

/// Recomputes the revealed-attribute divisor `Π revealed r_j^v_j mod n`.
pub fn recompute_revealed_divisor(key: &IssuerPublicKey, sub: &PrimarySubProof) -> (r: u64)
    requires
        key.wf(),
        primary_values_wf(*key, *sub),
    ensures
        r as int == revealed_factors(key.attr_generators@, sub.attr_values@, key.attr_generators@.len() as int)
            % (key.modulus as int),
        r < key.modulus,
{
    let n = key.modulus;
    let ghost gens = key.attr_generators@;
    let ghost avs = sub.attr_values@;
    let mut acc: u64 = 1;
    let mut i: usize = 0;
    proof {
        lemma_small_mod(1nat, n as nat);
    }
    while i < key.attr_generators.len()
        invariant
            key.wf(),
            primary_values_wf(*key, *sub),
            n == key.modulus,
            gens == key.attr_generators@,
            avs == sub.attr_values@,
            i <= gens.len(),
            acc < n,
            acc as int == revealed_factors(gens, avs, i as int) % (n as int),
        decreases gens.len() - i,
    {
        match sub.attr_values[i] {
            AttrValue::Revealed(v) => {
                let factor = mod_exp(key.attr_generators[i], v as u128, n);
                proof {
                    lemma_mul_mod_noop_general(
                        revealed_factors(gens, avs, i as int),
                        pow(gens[i as int] as int, v as nat),
                        n as int,
                    );
                }
                acc = mod_mul(acc, factor, n);
            },
            AttrValue::Hidden(_) => {
                proof {
                    assert(revealed_factors(gens, avs, i + 1) == revealed_factors(gens, avs, i as int));
                }
            },
        }
        i += 1;
    }
    acc
}

/// Checks the revealed-attribute consistency condition: the carried inverse
/// times the recomputed divisor is 1 in the ring.
pub fn check_revealed_consistency(key: &IssuerPublicKey, sub: &PrimarySubProof) -> (ok: bool)
    requires
        key.wf(),
        primary_values_wf(*key, *sub),
    ensures
        ok == revealed_consistent(*key, *sub),
{
    let n = key.modulus;
    let divisor = recompute_revealed_divisor(key, sub);
    let product = mod_mul(divisor, sub.revealed_inv, n);
    proof {
        lemma_mul_mod_noop_general(
            revealed_factors(key.attr_generators@, sub.attr_values@, key.attr_generators@.len() as int),
            sub.revealed_inv as int,
            n as int,
        );
    }
    product == 1
}

/// Recomputes one predicate's range commitment.
pub fn recompute_predicate_commitment(
    gen: u64,
    pp: &PredicateSubProof,
    challenge: u64,
    n: u64,
) -> (r: u64)
    requires
        n >= 2,
        element_valid(gen, n),
        element_valid(pp.aux_commitment, n),
    ensures
        r as int == predicate_commitment_spec(gen, *pp, challenge, n),
        r < n,
{
    let base = mod_exp(gen, pp.delta_response, n);
    let aux = mod_exp(pp.aux_commitment, challenge as u128, n);
    proof {
        lemma_mul_mod_noop_general(
            pow(gen as int, pp.delta_response as nat),
            pow(pp.aux_commitment as int, challenge as nat),
            n as int,
        );
    }
    mod_mul(base, aux, n)
}

/// Recomputes the non-revocation commitment pair of one sub-proof.
pub fn recompute_non_revocation_commitments(
    rev: &RevocationRegistryPublic,
    nr: &NonRevocSubProof,
    challenge: u64,
) -> (r: (u64, u64))
    requires
        rev.wf(),
        element_valid(nr.witness_commitment, rev.modulus),
    ensures
        r.0 as int == non_revoc_commitments_spec(*rev, *nr, challenge).0,
        r.1 as int == non_revoc_commitments_spec(*rev, *nr, challenge).1,
        r.0 < rev.modulus,
        r.1 < rev.modulus,
{
    let n = rev.modulus;
    let g_pow = mod_exp(rev.g, nr.response, n);
    let acc_pow = mod_exp(rev.accumulator, challenge as u128, n);
    proof {
        lemma_mul_mod_noop_general(
            pow(rev.g as int, nr.response as nat),
            pow(rev.accumulator as int, challenge as nat),
            n as int,
        );
    }
    let first = mod_mul(g_pow, acc_pow, n);
    let h_pow = mod_exp(rev.h, nr.response, n);
    let wit_pow = mod_exp(nr.witness_commitment, challenge as u128, n);
    proof {
        lemma_mul_mod_noop_general(
            pow(rev.h as int, nr.response as nat),
            pow(nr.witness_commitment as int, challenge as nat),
            n as int,
        );
    }
    let second = mod_mul(h_pow, wit_pow, n);
    (first, second)
}

/// The cancellation at the heart of completeness: a response formed as
/// commitment randomness minus challenge times the secret, multiplied by
/// the challenge power of the reduced public value, recomposes the power
/// of the original randomness.
pub proof fn lemma_response_cancels(g: int, w: nat, rho: nat, c: nat, n: int)
    requires
        n >= 2,
        rho >= c * w,
    ensures
        (pow(g, (rho - c * w) as nat) * pow(pow(g, w) % n, c)) % n == pow_mod(g, rho, n),
{
    let s_hat = (rho - c * w) as nat;
    lemma_pow_mod_noop(pow(g, w), c, n);
    lemma_pow_multiplies(g, w, c);
    lemma_mod_mul_congruent(
        pow(g, s_hat),
        pow(g, s_hat),
        pow(pow(g, w) % n, c),
        pow(pow(g, w), c),
        n,
    );
    lemma_pow_adds(g, s_hat, (w * c) as nat);
    assert(w * c == c * w) by (nonlinear_arith);
    assert(s_hat + w * c == rho);
}

/// Completeness of the primary equation for a one-attribute credential
/// whose attribute stays hidden: honest responses recompose exactly the
/// prover's original commitment `s^rho · r^tau  mod n`.
pub proof fn lemma_primary_equation_complete(
    key: IssuerPublicKey,
    sub: PrimarySubProof,
    c: u64,
    x: nat,
    m: nat,
    rho: nat,
    tau: nat,
)
    requires
        key.wf(),
        key.attr_generators@.len() == 1,
        sub.attr_values@.len() == 1,
        rho >= c * x,
        tau >= c * m,
        sub.a_prime as int == (pow(key.s as int, x) * pow(key.attr_generators@[0] as int, m)) % (
        key.modulus as int),
        sub.revealed_inv == 1,
        sub.master_response as int == rho - c * x,
        sub.attr_values@[0] matches AttrValue::Hidden(mh) && mh as int == tau - c * m,
    ensures
        primary_commitment_spec(key, sub, c) == (pow(key.s as int, rho) * pow(
            key.attr_generators@[0] as int,
            tau,
        )) % (key.modulus as int),
{
    let ni = key.modulus as int;
    let s = key.s as int;
    let r = key.attr_generators@[0] as int;
    let s_hat = (rho - c * x) as nat;
    let m_hat = (tau - c * m) as nat;
    let p = pow(s, x) * pow(r, m);
    let t1 = pow(s, s_hat);
    let t2 = pow(r, m_hat);
    assert(hidden_factors(key.attr_generators@, sub.attr_values@, 0) == 1);
    assert(match sub.attr_values@[0] {
        AttrValue::Hidden(mh) => mh as nat == m_hat,
        AttrValue::Revealed(_) => false,
    });
    assert(hidden_factors(key.attr_generators@, sub.attr_values@, 1) == 1 * t2);
    lemma1_pow(c as nat);
    assert(pow(sub.revealed_inv as int, c as nat) == 1);
    // The challenge power of the reduced a_prime is congruent to that of
    // the unreduced product.
    lemma_pow_mod_noop(p, c as nat, ni);
    lemma_mod_mul_congruent(
        t1 * t2,
        t1 * t2,
        pow(sub.a_prime as int, c as nat),
        pow(p, c as nat),
        ni,
    );
    assert(t1 * (1 * t2) * 1 * pow(sub.a_prime as int, c as nat)
        == (t1 * t2) * pow(sub.a_prime as int, c as nat)) by (nonlinear_arith);
    // Distribute the challenge over the two bases and recombine exponents.
    lemma_pow_distributes(pow(s, x), pow(r, m), c as nat);
    lemma_pow_multiplies(s, x, c as nat);
    lemma_pow_multiplies(r, m, c as nat);
    assert((t1 * t2) * (pow(s, (x * c as nat) as nat) * pow(r, (m * c as nat) as nat))
        == (t1 * pow(s, (x * c as nat) as nat)) * (t2 * pow(r, (m * c as nat) as nat)))
        by (nonlinear_arith);
    lemma_pow_adds(s, s_hat, (x * c as nat) as nat);
    lemma_pow_adds(r, m_hat, (m * c as nat) as nat);
    assert(x * c as nat == c as nat * x) by (nonlinear_arith);
    assert(m * c as nat == c as nat * m) by (nonlinear_arith);
    assert(s_hat + x * c as nat == rho);
    assert(m_hat + m * c as nat == tau);
}

/// Completeness of a predicate's range commitment: an honest difference
/// commitment and response recompose the prover's original `gen^tau mod n`.
pub proof fn lemma_predicate_equation_complete(
    gen: u64,
    pp: PredicateSubProof,
    c: u64,
    n: u64,
    delta: nat,
    tau: nat,
)
    requires
        n >= 2,
        tau >= c * delta,
        pp.aux_commitment as int == pow(gen as int, delta) % (n as int),
        pp.delta_response as int == tau - c * delta,
    ensures
        predicate_commitment_spec(gen, pp, c, n) == pow_mod(gen as int, tau, n as int),
{
    lemma_response_cancels(gen as int, delta, tau, c as nat, n as int);
}

/// Completeness of the non-revocation pair: an honest witness and response
/// recompose the prover's original commitments to the shared randomness
/// under both registry bases.
pub proof fn lemma_non_revocation_equation_complete(
    rev: RevocationRegistryPublic,
    nr: NonRevocSubProof,
    c: u64,
    w: nat,
    rho: nat,
)
    requires
        rev.wf(),
        rho >= c * w,
        rev.accumulator as int == pow(rev.g as int, w) % (rev.modulus as int),
        nr.witness_commitment as int == pow(rev.h as int, w) % (rev.modulus as int),
        nr.response as int == rho - c * w,
    ensures
        non_revoc_commitments_spec(rev, nr, c).0 == pow_mod(rev.g as int, rho, rev.modulus as int),
        non_revoc_commitments_spec(rev, nr, c).1 == pow_mod(rev.h as int, rho, rev.modulus as int),
{
    lemma_response_cancels(rev.g as int, w, rho, c as nat, rev.modulus as int);
    lemma_response_cancels(rev.h as int, w, rho, c as nat, rev.modulus as int);
}

} // verus!
