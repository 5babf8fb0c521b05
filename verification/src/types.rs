//! Data model of the verifier: nonce, schema, sub-proof request, issuer and
//! revocation-registry public material, and the proof structures the holder
//! supplies.
//!
//! Group elements are residues below the issuer's (or registry's) modulus;
//! responses are non-negative integers below a fixed protocol bit width.

use vstd::prelude::*;

verus! {

/// Upper bound (exclusive) on every response value a proof may carry: the
/// protocol's 120-bit response width.  A response at or above it is
/// malformed.
pub const MAX_RESPONSE: u128 = 0x100_0000_0000_0000_0000_0000_0000_0000;

/// Upper bound (exclusive) on a predicate threshold: 32 bits, which keeps
/// every linkage equation within the response width.
pub const MAX_THRESHOLD: u64 = 0x1_0000_0000;

/// Taxonomy of caller-recoverable failures.  Cryptographic invalidity is a
/// normal `false` result of `verify`, never an error.
#[derive(Clone, Copy, Debug, PartialEq, Eq, Structural)]
pub enum CryptoError {
    /// Malformed or semantically inconsistent input.
    InvalidStructure,
    /// A key id was reused within one verifier.
    DuplicateKeyId,
    /// An operation was invoked outside its allowed state.
    InvalidState,
    /// The proof's shape does not match the accumulated requests.
    ProofRejected,
}

/// Single-use random value bound into the challenge transcript to prevent
/// replay.  Equality compares the integer value.
#[derive(Clone, Copy, Debug, PartialEq, Eq, Structural)]
pub struct Nonce {
    pub value: u128,
}

/// Relies on `rand::random`: a value drawn from the thread-local CSPRNG.
/// Nothing can be promised of the value itself.
#[verifier::external_body]
fn random_u128() -> u128 {
    rand::random()
}

impl Nonce {
    /// Draws a fresh random nonce of the full 128-bit width.
    pub fn new() -> Nonce {
        Nonce { value: random_u128() }
    }
}

/// Whether a sequence of names holds one with the given characters.
pub open spec fn contains_name(names: Seq<String>, name: Seq<char>) -> bool {
    exists|k: int| 0 <= k < names.len() && (#[trigger] names[k])@ == name
}

/// First position of `name` in `names`, or -1 when absent.
pub open spec fn index_of_name(names: Seq<String>, name: Seq<char>) -> int
    decreases names.len(),
{
    if names.len() == 0 {
        -1
    } else if names[0]@ == name {
        0
    } else {
        let r = index_of_name(names.drop_first(), name);
        if r < 0 {
            -1
        } else {
            r + 1
        }
    }
}

/// The position `index_of_name` returns is a real occurrence, and it is -1
/// exactly when the name is absent.
pub proof fn lemma_index_of_name(names: Seq<String>, name: Seq<char>)
    ensures
        -1 <= index_of_name(names, name) < names.len(),
        contains_name(names, name) <==> 0 <= index_of_name(names, name),
        0 <= index_of_name(names, name) ==> names[index_of_name(names, name)]@ == name,
    decreases names.len(),
{
    if names.len() == 0 {
    } else if names[0]@ == name {
        assert(contains_name(names, name));
    } else {
        let rest = names.drop_first();
        lemma_index_of_name(rest, name);
        assert(forall|k: int| 1 <= k < names.len() ==> #[trigger] names[k] == rest[k - 1]);
        let r = index_of_name(rest, name);
        if contains_name(names, name) {
            let k = choose|k: int| 0 <= k < names.len() && (#[trigger] names[k])@ == name;
            assert(rest[k - 1]@ == name);
            assert(contains_name(rest, name));
        }
        if contains_name(rest, name) {
            let k2 = choose|k: int| 0 <= k < rest.len() && (#[trigger] rest[k])@ == name;
            assert(names[k2 + 1] == rest[k2]);
            assert(contains_name(names, name));
        }
        if 0 <= r {
            assert(names[r + 1] == rest[r]);
        }
    }
}

/// Whether `names` holds an entry equal to `name`.
pub fn find_name(names: &Vec<String>, name: &String) -> (r: Option<usize>)
    ensures
        match r {
            Some(k) => k == index_of_name(names@, name@) && k < names@.len()
                && names@[k as int]@ == name@,
            None => !contains_name(names@, name@),
        },
{
    proof {
        lemma_index_of_name(names@, name@);
    }
    let mut i: usize = 0;
    while i < names.len()
        invariant
            i <= names@.len(),
            forall|k: int| 0 <= k < i ==> (#[trigger] names@[k])@ != name@,
        decreases names@.len() - i,
    {
        if names[i] == *name {
            proof {
                lemma_index_of_name_prefix(names@, name@, i as int);
            }
            return Some(i);
        }
        i += 1;
    }
    None
}

/// A first occurrence at `i` with none before it pins `index_of_name` to `i`.
pub proof fn lemma_index_of_name_prefix(names: Seq<String>, name: Seq<char>, i: int)
    requires
        0 <= i < names.len(),
        names[i]@ == name,
        forall|k: int| 0 <= k < i ==> (#[trigger] names[k])@ != name,
    ensures
        index_of_name(names, name) == i,
    decreases names.len(),
{
    if i > 0 {
        lemma_index_of_name_prefix(names.drop_first(), name, i - 1);
        assert(forall|k: int| 0 <= k < names.len() - 1
            ==> #[trigger] names.drop_first()[k] == names[k + 1]);
    } else {
        assert(names[0]@ == name);
    }
}

/// A group element of the ring the modulus `n` defines: nonzero and reduced.
pub open spec fn element_valid(x: u64, n: u64) -> bool {
    1 <= x < n
}

/// Comparison kind of a predicate over a hidden attribute.
#[derive(Clone, Copy, Debug, PartialEq, Eq, Structural)]
pub enum PredicateKind {
    /// The hidden value is at least the threshold.
    GE,
    /// The hidden value exceeds the threshold.
    GT,
}

/// A predicate descriptor: a lower-bound claim over a hidden attribute.
#[derive(Clone, Debug)]
pub struct Predicate {
    pub attr_name: String,
    pub kind: PredicateKind,
    pub threshold: u64,
}

/// The lower bound a predicate effectively demands of the hidden value.
pub open spec fn effective_threshold(p: Predicate) -> int {
    match p.kind {
        PredicateKind::GE => p.threshold as int,
        PredicateKind::GT => p.threshold as int + 1,
    }
}

/// Per-credential specification of which attributes must be revealed and
/// which predicates must hold.
#[derive(Clone, Debug)]
pub struct SubProofRequest {
    pub revealed_attrs: Vec<String>,
    pub predicates: Vec<Predicate>,
}

/// Ordered list of the attribute names one credential schema defines.
#[derive(Clone, Debug)]
pub struct ClaimSchema {
    pub attr_names: Vec<String>,
}

impl SubProofRequest {
    /// What `validate_against` checks: every revealed name is in the schema,
    /// and every predicate references a schema attribute that is not
    /// revealed, with a threshold inside the protocol width.
    pub open spec fn valid_against(self, schema: ClaimSchema) -> bool {
        &&& forall|i: int| 0 <= i < self.revealed_attrs@.len()
            ==> contains_name(schema.attr_names@, (#[trigger] self.revealed_attrs@[i])@)
        &&& forall|j: int| 0 <= j < self.predicates@.len() ==> {
            let p = #[trigger] self.predicates@[j];
            &&& contains_name(schema.attr_names@, p.attr_name@)
            &&& !contains_name(self.revealed_attrs@, p.attr_name@)
            &&& p.threshold < MAX_THRESHOLD
        }
    }

    /// Checks this request against a schema: fails with `InvalidStructure`
    /// if a revealed attribute is absent from the schema, or a predicate
    /// references a revealed or unknown attribute, or a threshold is out of
    /// width.
    pub fn validate_against(&self, schema: &ClaimSchema) -> (r: Result<(), CryptoError>)
        ensures
            r == if self.valid_against(*schema) {
                Ok::<(), CryptoError>(())
            } else {
                Err::<(), CryptoError>(CryptoError::InvalidStructure)
            },
    {
        let mut i: usize = 0;
        while i < self.revealed_attrs.len()
            invariant
                i <= self.revealed_attrs@.len(),
                forall|k: int| 0 <= k < i
                    ==> contains_name(schema.attr_names@, (#[trigger] self.revealed_attrs@[k])@),
            decreases self.revealed_attrs@.len() - i,
        {
            if find_name(&schema.attr_names, &self.revealed_attrs[i]).is_none() {
                return Err(CryptoError::InvalidStructure);
            }
            i += 1;
        }
        let mut j: usize = 0;
        while j < self.predicates.len()
            invariant
                j <= self.predicates@.len(),
                forall|i: int| 0 <= i < self.revealed_attrs@.len()
                    ==> contains_name(schema.attr_names@, (#[trigger] self.revealed_attrs@[i])@),
                forall|k: int| 0 <= k < j ==> {
                    let p = #[trigger] self.predicates@[k];
                    &&& contains_name(schema.attr_names@, p.attr_name@)
                    &&& !contains_name(self.revealed_attrs@, p.attr_name@)
                    &&& p.threshold < MAX_THRESHOLD
                },
            decreases self.predicates@.len() - j,
        {
            let p = &self.predicates[j];
            if find_name(&schema.attr_names, &p.attr_name).is_none() {
                return Err(CryptoError::InvalidStructure);
            }
            if find_name(&self.revealed_attrs, &p.attr_name).is_some() {
                return Err(CryptoError::InvalidStructure);
            }
            if p.threshold >= MAX_THRESHOLD {
                return Err(CryptoError::InvalidStructure);
            }
            j += 1;
        }
        Ok(())
    }
}

/// Issuer public key material: the ring modulus, the master generator `s`,
/// and one generator per schema attribute.
#[derive(Clone, Debug)]
pub struct IssuerPublicKey {
    pub modulus: u64,
    pub s: u64,
    pub attr_generators: Vec<u64>,
}

impl IssuerPublicKey {
    /// A usable key: modulus at least 2, every generator a valid element.
    pub open spec fn wf(self) -> bool {
        &&& self.modulus >= 2
        &&& element_valid(self.s, self.modulus)
        &&& forall|i: int| 0 <= i < self.attr_generators@.len()
            ==> element_valid(#[trigger] self.attr_generators@[i], self.modulus)
    }

    /// Whether the key carries exactly one generator per schema attribute.
    pub open spec fn matches_schema(self, schema: ClaimSchema) -> bool {
        self.attr_generators@.len() == schema.attr_names@.len()
    }
}

/// Public state of a revocation registry: its own ring, a commitment pair of
/// bases, and the current accumulator value.
#[derive(Clone, Copy, Debug)]
pub struct RevocationRegistryPublic {
    pub modulus: u64,
    pub g: u64,
    pub h: u64,
    pub accumulator: u64,
}

impl RevocationRegistryPublic {
    /// A usable registry: modulus at least 2, bases and accumulator valid.
    pub open spec fn wf(self) -> bool {
        &&& self.modulus >= 2
        &&& element_valid(self.g, self.modulus)
        &&& element_valid(self.h, self.modulus)
        &&& element_valid(self.accumulator, self.modulus)
    }
}

/// One attribute position of a primary sub-proof: a revealed value, or the
/// response for a hidden one.
#[derive(Clone, Copy, Debug)]
pub enum AttrValue {
    Revealed(u64),
    Hidden(u128),
}

/// The signature-possession part of one sub-proof.
#[derive(Clone, Debug)]
pub struct PrimarySubProof {
    /// The blinded signature component the equation exponentiates by the
    /// challenge.
    pub a_prime: u64,
    /// Inverse of the revealed-attribute divisor; checked against the
    /// revealed values before any challenge-dependent arithmetic.
    pub revealed_inv: u64,
    /// Response for the master-secret exponent.
    pub master_response: u128,
    /// One entry per schema attribute, aligned with the schema order.
    pub attr_values: Vec<AttrValue>,
}

/// Auxiliary values of one predicate's range proof.
#[derive(Clone, Copy, Debug)]
pub struct PredicateSubProof {
    /// Commitment to the non-negative difference the predicate claims.
    pub aux_commitment: u64,
    /// Response for the difference exponent.
    pub delta_response: u128,
}

/// The non-revocation part of one sub-proof: a witness commitment and the
/// shared response proving equal discrete logs under both registry bases.
#[derive(Clone, Copy, Debug)]
pub struct NonRevocSubProof {
    pub witness_commitment: u64,
    pub response: u128,
}

/// The portion of an aggregate proof corresponding to one credential.
#[derive(Clone, Debug)]
pub struct SubProof {
    pub primary: PrimarySubProof,
    pub predicate_proofs: Vec<PredicateSubProof>,
    pub non_revocation: Option<NonRevocSubProof>,
}

/// An aggregate proof: one sub-proof per credential, and the single
/// Fiat–Shamir challenge that binds them all.
#[derive(Clone, Debug)]
pub struct Proof {
    pub sub_proofs: Vec<SubProof>,
    pub aggregated_challenge: u64,
}

} // verus!
