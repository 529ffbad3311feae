//! Verified core of a chain-agnostic escrow: the binding proof journal, release
//! conditions, assets, and the settlement rules of the on-chain program.
pub mod accounts;
pub mod asset;
pub mod be;
pub mod bignum;
pub mod client;
pub mod commitment;
pub mod condition;
pub mod e2e;
pub mod error;
pub mod interface;
pub mod mock_verifier;
pub mod outside;
pub mod program;
pub mod prover;
