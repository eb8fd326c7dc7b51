//! Signed aggregation envelopes for sync-committee contributions.
//!
//! The central type, [`ContributionAndProof`], packages the index of the
//! validator acting as aggregator, the aggregate contribution it collected,
//! and a selection proof binding the validator to that duty. Construction
//! either reuses a proof the caller already holds or derives one from the
//! contribution's own slot and subcommittee index. The crate also provides
//! the canonical byte encoding, the structural digest used as a signing
//! root, and the quoted decimal form of 64-bit indices used by
//! human-readable encodings.

pub mod crypto;
pub mod envelope;
pub mod merkle;
pub mod quoted;
pub mod selection;
pub mod ssz;
pub mod tree_hash;
pub mod types;
