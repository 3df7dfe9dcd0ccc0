//! Composition of an oblivious PRF with an oblivious encode/decode structure
//! into an oblivious *programmable* PRF (OPPRF).
//!
//! A Sender programs a pseudorandom function so that it takes chosen values on
//! chosen inputs, while a Receiver obliviously evaluates the function on its
//! own queries.  This crate holds the composition layer: the residual algebra
//! over a prime field, the bounded encode-retry policy, and the contracts of
//! the solver and base-OPRF collaborators it is built from.

pub mod field;
pub mod oprf;
pub mod preprocessed;
pub mod solver;
