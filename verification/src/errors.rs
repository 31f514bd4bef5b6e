//! Error types of the library.

use vstd::prelude::*;

verus! {

/// Why a collision-resistant hash could not be evaluated.
#[derive(Debug, Clone, Copy, PartialEq, Eq)]
#[non_exhaustive]
pub enum CRHError {
    /// The input has `length` bytes and the function takes at most `max`.
    IncorrectInputLength { length: usize, max: usize },
}

/// Why a commitment could not be computed.
#[derive(Debug, Clone, Copy, PartialEq, Eq)]
#[non_exhaustive]
pub enum CommitmentError {
    /// The input has `length` bytes and the scheme takes at most `max`.
    IncorrectInputLength { length: usize, max: usize },
    /// The randomness is not of the form that the scheme asks for.
    InvalidRandomness,
}

/// Why a pseudorandom function could not be evaluated.
#[derive(Debug, Clone, Copy, PartialEq, Eq)]
#[non_exhaustive]
pub enum PRFError {
    /// The seed is not of the form that the function asks for.
    InvalidSeed,
    /// The input has `length` bytes and the function takes at most `max`.
    IncorrectInputLength { length: usize, max: usize },
}

/// Why a message could not be encrypted.
#[derive(Debug, Clone, Copy, PartialEq, Eq)]
#[non_exhaustive]
pub enum EncryptionError {
    /// The message has `length` bytes and the scheme takes at most `max`.
    IncorrectInputLength { length: usize, max: usize },
    /// The randomness is not of the form that the scheme asks for.
    InvalidRandomness,
}

/// Why a signature could not be checked, or no spend key be derived from it.
#[derive(Debug, Clone, Copy, PartialEq, Eq)]
#[non_exhaustive]
pub enum SignatureError {
    /// The signature is not of the form that the scheme asks for.
    InvalidSignature,
}

/// Why a trie path could not be evaluated.
#[derive(Debug, Clone, Copy, PartialEq, Eq)]
pub enum MerkleTrieError {
    /// `path`, `parents` and `traversal` do not have one entry per level each.
    LengthMismatch,
    /// At this level the traversal index lies beyond the end of the sibling list.
    TraversalOutOfBounds(usize),
    /// The hash function failed on a node.
    CRHError(CRHError),
}

/// Why a proof object was refused.
#[derive(Debug, Clone, Copy, PartialEq, Eq)]
pub enum SNARKError {
    /// The batch sizes that the proof declares do not fit the commitments and
    /// evaluations that it holds.
    BatchSizeMismatch,
    /// The parts of a written proof are not those of a proof with the
    /// declared batch size.
    InvalidLayout,
    /// A label of a polynomial names no circuit.
    InvalidLabel,
    /// A polynomial belongs to a circuit that has no batch size.
    UnknownCircuit,
    /// There is no evaluation under the label `g_1`.
    MissingEvaluation,
}

/// Why the transaction predicate could not be evaluated. A predicate that
/// was evaluated and does not hold is no error.
#[derive(Debug, Clone, Copy, PartialEq, Eq)]
pub enum CircuitError {
    /// The lists of the witness do not fit each other or the capacity of the
    /// network.
    MalformedWitness,
    /// The public variables name no executable program.
    MissingProgramId,
    /// A ledger membership witness is malformed, or its hash failed.
    MerkleTrie(MerkleTrieError),
    /// A hash failed.
    CRH(CRHError),
    /// A commitment failed.
    Commitment(CommitmentError),
    /// The serial number function failed.
    PRF(PRFError),
    /// An encryption failed.
    Encryption(EncryptionError),
    /// A signature could not be checked, or gave no spend key.
    Signature(SignatureError),
}

} // verus!
