//! Masked public instances for a regex zero-knowledge circuit.
//!
//! A prover shows that a secret message contains substrings picked out by
//! chains of regular expressions.  Only two arrays become public: the message
//! with every byte outside the picked substrings blanked, and for each byte
//! the number of the chain that picked it.  This crate computes those arrays,
//! fixes the shape of the circuit that consumes them, and sequences a proof
//! request from sanity check to verification.

pub mod search;
pub mod narrowing;
pub mod circuit;
pub mod instance;
pub mod lifecycle;
pub mod regex_circuit;
