//! An append-only, hash-linked ledger whose blocks are sealed by a
//! proof-of-work search over a nonce.
pub mod block;
pub mod decimal;
pub mod hashing;
pub mod laws;
pub mod ledger;
