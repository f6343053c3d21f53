//! On-chain record store: one mutable record per owning identity, kept in a
//! fixed-capacity storage slot at an address derived deterministically from
//! the owner's identity.
//!
//! The crate is organised leaves-first:
//! - [`error`]: the error surface of every operation;
//! - [`utf8`]: a verified UTF-8 validity check for the text fields;
//! - [`state`]: the stored record and its binary codec;
//! - [`instruction`]: the instruction envelope and its codec;
//! - [`address`]: deterministic storage-address derivation;
//! - [`processor`]: the lifecycle controller (create / update gates).

pub mod address;
pub mod error;
pub mod instruction;
pub mod processor;
pub mod state;
pub mod utf8;
