//! Threshold-issued anonymous credentials over the BLS12-381 pairing,
//! in the coconut style: Shamir-shared issuing keys, per-attribute Pedersen
//! commitments with Schnorr openings, partial signatures aggregated by
//! Lagrange interpolation, randomizable presentations checked by pairings,
//! and a pairing-free private VRF used as a nullifier.
//!
//! Group and field values are carried in their canonical compressed byte
//! form; the arkworks curve arithmetic behind them is reached only through
//! a small set of trusted wrappers.

pub mod bytes;
pub mod commitment;
pub mod credential;
pub mod errors;
pub mod group;
pub mod keygen;
pub mod nullifier;
pub mod pairing;
pub mod protocol;
pub mod rng;
pub mod scalar;
pub mod schnorr;
pub mod schnorr_batch;
pub mod shamir;
pub mod signature;
pub mod signer;
pub mod symmetric_commitment;
pub mod user;
