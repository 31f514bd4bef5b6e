//! Shielded transactions: records, the transaction kernel and the predicate
//! that a valid transaction satisfies.

pub mod balance;
pub mod checks;
pub mod inner_circuit;
pub mod kernel;
pub mod program_id;
pub mod record;
pub mod variables;
