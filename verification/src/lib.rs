//! Core of an escrow-capable compute node: attestation quotes, key
//! derivation, authenticated encryption of opaque payloads, zero-on-exit
//! secret buffers, and a ledger of hold-invoice contracts driven by a
//! validated state machine.

pub mod attestation;
pub mod cipher;
pub mod digest;
pub mod encoding;
pub mod errors;
pub mod escrow;
pub mod keys;
pub mod rng;
pub mod secure_memory;
pub mod tpm_binding;
