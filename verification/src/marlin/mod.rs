//! The proof object of the proof system: what it holds, in which order its
//! parts are written, and when its batch sizes fit its contents.

pub mod circuit_id;
pub mod commitments;
pub mod evaluations;
pub mod groups;
pub mod label;
pub mod snark_proof;
