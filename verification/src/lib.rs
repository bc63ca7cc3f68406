//! A private "secret gift exchange" assignment protocol.
//!
//! Participants are paired by a blind-shuffle protocol over homomorphic
//! ElGamal-style ciphertexts: a shared ledger of hidden key components is
//! re-randomized and permuted once by every participant, after which each
//! participant recovers its own slot by trial decryption, learning nothing
//! about the rest of the mapping.

pub mod bigint;
pub mod cipher;
pub mod models;
