//! Verifier side of a Camenisch–Lysyanskaya-style anonymous-credential
//! proof scheme.
//!
//! A holder proves possession of issuer-signed credentials, revealing some
//! attributes and proving predicates over hidden ones.  This crate accumulates
//! per-credential verification requests into a [`verification::ProofVerifier`] and
//! checks a full proof by recomputing the Fiat–Shamir challenge over every
//! sub-proof's commitments and the session nonce.

pub mod arith;
pub mod transcript;
pub mod types;
pub mod engine;
pub mod verification;
