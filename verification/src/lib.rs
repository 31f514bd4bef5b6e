//! Authenticated state and transaction validity for a shielded ledger.
//!
//! * [`merkle_trie`] recomputes the root of a Merkle trie along a path and so
//!   authenticates one leaf against a root.
//! * [`dpc`] holds records, the transaction kernel and the predicate that a
//!   valid shielded transaction satisfies, with one function per conjunct.
//! * [`marlin`] holds the proof object of the proof system: its parts, their
//!   written order and the check of its batch sizes.
//! * [`future`] holds calls that a program has yet to make.
//! * [`traits`] declares the cryptographic primitives that all of this is
//!   stated over, and [`devnet`] implements them for development.
//!
//! Every function states what it returns over the mathematical functions of
//! the primitives in use, and the laws of each module are proved from those
//! statements.

pub mod bytes;
pub mod devnet;
pub mod dpc;
pub mod errors;
pub mod future;
pub mod marlin;
pub mod merkle_trie;
pub mod traits;
