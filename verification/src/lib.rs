//! Batches of ML-DSA-44 signatures proved in a zkVM, with the decisions of
//! both sides verified.
//!
//! - `cases`: test cases (public key, message, signature), valid or broken,
//!   and batches of them with distinct labels and messages.
//! - `input`: the frames that the host writes for a guest.
//! - `verify_guest`: the signature-verification guest's relation, which
//!   accepts a batch exactly when every signature in it verifies.
//! - `aggregate_guest`: the aggregating guests, which ask for sub-proofs to be
//!   checked and commit their public values or the Merkle root over them.
//! - `merkle`: the Merkle root, level by level, and its equality with the
//!   half-by-half tree root.
//! - `report`: the JSON fixture of a Groth16 proof and the count of recorded
//!   benchmark repetitions.
//! - `encoding`, `digest`, `mldsa`: little-endian words and decimal numbers,
//!   SHA-256, and the ML-DSA-44 operations taken from `fips204`.
pub mod aggregate_guest;
pub mod cases;
pub mod digest;
pub mod encoding;
pub mod input;
pub mod merkle;
pub mod mldsa;
pub mod report;
pub mod verify_guest;
