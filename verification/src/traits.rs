//! The cryptographic primitives that the library consumes.
//!
//! Each trait pairs an executable operation with the mathematical function
//! that it computes. The library states everything it proves over those
//! functions, so an implementation has to be deterministic: the same inputs
//! give the same output, or the same error.

use vstd::prelude::*;
use crate::bytes::Digest;
use crate::errors::{CRHError, CommitmentError, EncryptionError, PRFError, SignatureError};
use std::sync::Arc;

verus! {

/// The content of an encryption's result.
pub open spec fn ciphertext_view(ciphertext: Result<Vec<u8>, EncryptionError>) -> Result<
    Seq<u8>,
    EncryptionError,
> {
    match ciphertext {
        Ok(bytes) => Ok(bytes@),
        Err(e) => Err(e),
    }
}

/// The content of a derived key.
pub open spec fn key_view(key: Result<Vec<u8>, SignatureError>) -> Result<Seq<u8>, SignatureError> {
    match key {
        Ok(bytes) => Ok(bytes@),
        Err(e) => Err(e),
    }
}

/// A collision-resistant hash from byte strings to digests.
pub trait CRH {
    /// The digest of `input`, or the reason why it has none.
    spec fn hash_spec(&self, input: Seq<u8>) -> Result<Digest, CRHError>;

    /// Evaluates the hash on `input`.
    fn hash(&self, input: &[u8]) -> (output: Result<Digest, CRHError>)
        ensures
            output == self.hash_spec(input@),
    ;
}

/// A commitment scheme: binds a byte string under explicit randomness.
pub trait CommitmentScheme {
    /// The commitment to `input` under `randomness`, or the reason why there
    /// is none.
    spec fn commit_spec(&self, input: Seq<u8>, randomness: Seq<u8>) -> Result<Digest, CommitmentError>;

    /// Commits to `input` under `randomness`.
    fn commit(&self, input: &[u8], randomness: &[u8]) -> (output: Result<Digest, CommitmentError>)
        ensures
            output == self.commit_spec(input@, randomness@),
    ;
}

/// A keyed pseudorandom function.
pub trait PRF {
    /// The value of the function keyed by `seed` at `input`, or the reason
    /// why it has none.
    spec fn evaluate_spec(&self, seed: Seq<u8>, input: Seq<u8>) -> Result<Digest, PRFError>;

    /// Evaluates the function keyed by `seed` at `input`.
    fn evaluate(&self, seed: &[u8], input: &[u8]) -> (output: Result<Digest, PRFError>)
        ensures
            output == self.evaluate_spec(seed@, input@),
    ;
}

/// A public-key encryption scheme with explicit randomness.
pub trait EncryptionScheme {
    /// The ciphertext of `message` for `public_key` under `randomness`, or
    /// the reason why there is none.
    spec fn encrypt_spec(&self, public_key: Seq<u8>, randomness: Seq<u8>, message: Seq<u8>) -> Result<
        Seq<u8>,
        EncryptionError,
    >;

    /// Encrypts `message` for `public_key` under `randomness`.
    fn encrypt(&self, public_key: &[u8], randomness: &[u8], message: &[u8]) -> (ciphertext: Result<
        Vec<u8>,
        EncryptionError,
    >)
        ensures
            ciphertext_view(ciphertext) == self.encrypt_spec(public_key@, randomness@, message@),
    ;
}

/// A signature scheme whose signatures also yield the signer's spend key for
/// the serial number function.
pub trait SignatureScheme {
    /// Whether `signature` is one of `public_key` on `message`, or the reason
    /// why that cannot be told.
    spec fn verify_spec(&self, public_key: Seq<u8>, message: Seq<u8>, signature: Seq<u8>) -> Result<
        bool,
        SignatureError,
    >;

    /// The spend key that goes with `signature`, or the reason why there is
    /// none.
    spec fn spend_key_spec(&self, signature: Seq<u8>) -> Result<Seq<u8>, SignatureError>;

    /// Checks `signature` on `message` against `public_key`.
    fn verify(&self, public_key: &[u8], message: &[u8], signature: &[u8]) -> (valid: Result<
        bool,
        SignatureError,
    >)
        ensures
            valid == self.verify_spec(public_key@, message@, signature@),
    ;

    /// Derives the spend key that goes with `signature`.
    fn spend_key(&self, signature: &[u8]) -> (key: Result<Vec<u8>, SignatureError>)
        ensures
            key_view(key) == self.spend_key_spec(signature@),
    ;
}

/// The parameters of one network: its primitives, its record capacity and
/// its reserved program id.
pub trait Network {
    /// The scheme that encrypts records for their owners.
    type AccountEncryptionScheme: EncryptionScheme;

    /// The scheme by which owners sign transactions.
    type AccountSignatureScheme: SignatureScheme;

    /// The scheme that commits to records.
    type CommitmentScheme: CommitmentScheme;

    /// The hash that gives encrypted records their ids.
    type EncryptedRecordCRH: CRH;

    /// The hash that gives transactions their ids.
    type TransactionIDCRH: CRH;

    /// The hash of the ledger's trie of commitments.
    type CommitmentsTreeCRH: CRH;

    /// The function that derives serial numbers.
    type SerialNumberPRF: PRF;

    /// The number of input records of a transaction.
    spec fn num_input_records_spec() -> usize;

    /// The number of output records of a transaction.
    spec fn num_output_records_spec() -> usize;

    /// The program id of records that belong to no program.
    spec fn noop_program_id_spec() -> Seq<u8>;

    /// The parameters of the account encryption scheme.
    spec fn account_encryption_scheme_spec() -> Self::AccountEncryptionScheme;

    /// The parameters of the account signature scheme.
    spec fn account_signature_scheme_spec() -> Self::AccountSignatureScheme;

    /// The parameters of the record commitment scheme.
    spec fn commitment_scheme_spec() -> Self::CommitmentScheme;

    /// The parameters of the hash of encrypted records.
    spec fn encrypted_record_crh_spec() -> Self::EncryptedRecordCRH;

    /// The parameters of the hash of transactions.
    spec fn transaction_id_crh_spec() -> Self::TransactionIDCRH;

    /// The parameters of the hash of the ledger's trie.
    spec fn commitments_tree_crh_spec() -> Self::CommitmentsTreeCRH;

    /// The parameters of the serial number function.
    spec fn serial_number_prf_spec() -> Self::SerialNumberPRF;

    /// Returns the number of input records of a transaction.
    fn num_input_records() -> (n: usize)
        ensures
            n == Self::num_input_records_spec(),
    ;

    /// Returns the number of output records of a transaction.
    fn num_output_records() -> (n: usize)
        ensures
            n == Self::num_output_records_spec(),
    ;

    /// Returns the program id of records that belong to no program.
    fn noop_program_id() -> (id: Vec<u8>)
        ensures
            id@ == Self::noop_program_id_spec(),
    ;

    /// Returns the account encryption scheme.
    fn account_encryption_scheme() -> (scheme: Arc<Self::AccountEncryptionScheme>)
        ensures
            *scheme == Self::account_encryption_scheme_spec(),
    ;

    /// Returns the account signature scheme.
    fn account_signature_scheme() -> (scheme: Arc<Self::AccountSignatureScheme>)
        ensures
            *scheme == Self::account_signature_scheme_spec(),
    ;

    /// Returns the record commitment scheme.
    fn commitment_scheme() -> (scheme: Arc<Self::CommitmentScheme>)
        ensures
            *scheme == Self::commitment_scheme_spec(),
    ;

    /// Returns the hash of encrypted records.
    fn encrypted_record_crh() -> (crh: Arc<Self::EncryptedRecordCRH>)
        ensures
            *crh == Self::encrypted_record_crh_spec(),
    ;

    /// Returns the hash of transactions.
    fn transaction_id_crh() -> (crh: Arc<Self::TransactionIDCRH>)
        ensures
            *crh == Self::transaction_id_crh_spec(),
    ;

    /// Returns the hash of the ledger's trie.
    fn commitments_tree_crh() -> (crh: Arc<Self::CommitmentsTreeCRH>)
        ensures
            *crh == Self::commitments_tree_crh_spec(),
    ;

    /// Returns the serial number function.
    fn serial_number_prf() -> (prf: Arc<Self::SerialNumberPRF>)
        ensures
            *prf == Self::serial_number_prf_spec(),
    ;
}

} // verus!
