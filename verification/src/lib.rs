//! Transaction construction and signing core for a timed Bitcoin CTF
//! challenge: building an unsigned transaction from selected unspent
//! outputs, computing taproot key-path signature digests, signing with a
//! deliberately weak per-signature randomness source, and sequencing the
//! challenge through its linear state machine.

pub mod challenge;
pub mod cli;
pub mod encode;
pub mod engine;
pub mod errors;
pub mod keys;
pub mod select;
pub mod state;
pub mod tx;
