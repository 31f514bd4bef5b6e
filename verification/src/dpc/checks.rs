//! The conjuncts of the transaction predicate, one function each.
//!
//! A check returns `Ok(true)` where its conjunct holds, `Ok(false)` where it
//! does not, and an error where a primitive failed or a witness is malformed.

use vstd::prelude::*;
use crate::bytes::{digest_eq, Digest};
use crate::dpc::kernel::TransactionKernel;
use crate::dpc::record::Record;
use crate::dpc::variables::LedgerWitness;
use crate::errors::CircuitError;
use crate::merkle_trie::merkle_path::verify_levels;
use crate::traits::{Network, SignatureScheme};

verus! {

/// The conjuncts of the predicate.
#[derive(Debug, Clone, Copy, PartialEq, Eq)]
pub enum Check {
    /// The commitment of a spent record is on the ledger.
    LedgerMembership,
    /// The serial number in the kernel is the one derived for the record.
    SerialNumber,
    /// A record obeys the rules for dummies and carries its own commitment.
    RecordWellFormed,
    /// The commitment in the kernel is the one of the output record.
    PublicCommitment,
    /// The nonce of an output record is the serial number of the input
    /// record in the same place.
    SerialNumberNonce,
    /// The public id of an encrypted record is the one of the output record.
    RecordEncryption,
    /// The program ids fit the executable, and its counts the capacity.
    ProgramId,
    /// The value balance is the inputs less the outputs.
    ValueBalance,
    /// The public transaction id is the one of the kernel.
    TransactionId,
    /// The owner of a spent record signed the kernel.
    Signature,
}

/// What evaluating the predicate says of a transaction.
#[derive(Debug, Clone, Copy, PartialEq, Eq)]
pub enum Verdict {
    /// Every conjunct holds.
    Accepted,
    /// This conjunct is the first, in the order of evaluation, that does not
    /// hold.
    Rejected(Check),
}

/// The verdict on one conjunct `check` with the given outcome.
pub open spec fn verdict_of(outcome: Result<bool, CircuitError>, check: Check) -> Result<
    Verdict,
    CircuitError,
> {
    match outcome {
        Ok(true) => Ok(Verdict::Accepted),
        Ok(false) => Ok(Verdict::Rejected(check)),
        Err(e) => Err(e),
    }
}

/// The verdict on two parts evaluated in turn: that on the second where the
/// first was accepted, else that on the first.
pub open spec fn and_then(
    first: Result<Verdict, CircuitError>,
    second: Result<Verdict, CircuitError>,
) -> Result<Verdict, CircuitError> {
    match first {
        Ok(Verdict::Accepted) => second,
        _ => first,
    }
}

/// Whether a verdict is the accepting one.
pub open spec fn accepted(verdict: Result<Verdict, CircuitError>) -> bool {
    verdict == Ok::<Verdict, CircuitError>(Verdict::Accepted)
}

/// Whether the outcome of a check is that its conjunct holds.
pub open spec fn holds(outcome: Result<bool, CircuitError>) -> bool {
    outcome == Ok::<bool, CircuitError>(true)
}

/// Whether `record` is on the ledger with root `ledger_digest`, by `witness`.
/// Nothing is asked of a dummy, and its witness is not looked at.
pub open spec fn ledger_membership_spec<N: Network>(
    record: Record,
    witness: LedgerWitness,
    ledger_digest: Digest,
) -> Result<bool, CircuitError> {
    if record.is_dummy {
        Ok(true)
    } else {
        match witness.levels().verify_spec(
            N::commitments_tree_crh_spec(),
            ledger_digest,
            witness.key@,
            record.commitment@,
        ) {
            Ok(member) => Ok(member),
            Err(e) => Err(CircuitError::MerkleTrie(e)),
        }
    }
}

/// Whether `declared` is the serial number of `record` for the signer of
/// `signature`.
pub open spec fn serial_number_matches_spec<N: Network>(
    record: Record,
    signature: Seq<u8>,
    declared: Digest,
) -> Result<bool, CircuitError> {
    match record.serial_number_spec::<N>(signature) {
        Ok(serial_number) => Ok(serial_number == declared),
        Err(e) => Err(e),
    }
}

/// Whether `declared` is the id of the encryption of `record` under
/// `randomizer`.
pub open spec fn encryption_matches_spec<N: Network>(
    record: Record,
    randomizer: Seq<u8>,
    declared: Digest,
) -> Result<bool, CircuitError> {
    match record.encrypted_record_id_spec::<N>(randomizer) {
        Ok(id) => Ok(id == declared),
        Err(e) => Err(e),
    }
}

/// Whether `declared` is the id of the transaction with kernel `kernel`.
pub open spec fn transaction_id_matches_spec<N: Network>(
    kernel: TransactionKernel,
    declared: Digest,
) -> Result<bool, CircuitError> {
    match kernel.transaction_id_spec::<N>() {
        Ok(id) => Ok(id == declared),
        Err(e) => Err(CircuitError::CRH(e)),
    }
}

/// Whether `signature` is one of `owner` on `message`.
pub open spec fn signature_valid_spec<N: Network>(
    owner: Seq<u8>,
    message: Seq<u8>,
    signature: Seq<u8>,
) -> Result<bool, CircuitError> {
    match N::account_signature_scheme_spec().verify_spec(owner, message, signature) {
        Ok(valid) => Ok(valid),
        Err(e) => Err(CircuitError::Signature(e)),
    }
}

/// A serial number is a function of the signature and the nonce alone: two
/// records with one nonce have one serial number for one signer.
pub proof fn lemma_serial_number_deterministic<N: Network>(
    first: Record,
    second: Record,
    signature: Seq<u8>,
)
    requires
        first.serial_number_nonce == second.serial_number_nonce,
    ensures
        first.serial_number_spec::<N>(signature) == second.serial_number_spec::<N>(signature),
{
}

/// A declared serial number that is not the derived one is not accepted.
pub proof fn lemma_wrong_serial_number_rejected<N: Network>(
    record: Record,
    signature: Seq<u8>,
    declared: Digest,
)
    requires
        record.serial_number_spec::<N>(signature) is Ok,
        record.serial_number_spec::<N>(signature)->Ok_0 != declared,
    ensures
        serial_number_matches_spec::<N>(record, signature, declared) == Ok::<bool, CircuitError>(false),
{
}

/// Checks that the commitment of `record` is on the ledger with root
/// `ledger_digest`, unless the record is a dummy.
pub fn check_ledger_membership<N: Network>(
    record: &Record,
    witness: &LedgerWitness,
    ledger_digest: &Digest,
) -> (outcome: Result<bool, CircuitError>)
    ensures
        outcome == ledger_membership_spec::<N>(*record, *witness, *ledger_digest),
{
    if record.is_dummy {
        return Ok(true);
    }
    let parameters = N::commitments_tree_crh();
    match verify_levels(
        &parameters,
        &witness.path,
        &witness.parents,
        &witness.traversal,
        ledger_digest,
        witness.key.as_slice(),
        record.commitment.as_slice(),
    ) {
        Ok(member) => Ok(member),
        Err(e) => Err(CircuitError::MerkleTrie(e)),
    }
}

/// Checks that `declared` is the serial number of `record` for the signer of
/// `signature`.
pub fn check_serial_number<N: Network>(record: &Record, signature: &[u8], declared: &Digest) -> (outcome:
    Result<bool, CircuitError>)
    ensures
        outcome == serial_number_matches_spec::<N>(*record, signature@, *declared),
{
    match record.serial_number::<N>(signature) {
        Ok(serial_number) => Ok(digest_eq(&serial_number, declared)),
        Err(e) => Err(e),
    }
}

/// Checks that `declared` is the id of the encryption of `record` under
/// `randomizer`.
pub fn check_record_encryption<N: Network>(record: &Record, randomizer: &[u8], declared: &Digest) -> (outcome:
    Result<bool, CircuitError>)
    ensures
        outcome == encryption_matches_spec::<N>(*record, randomizer@, *declared),
{
    match record.encrypted_record_id::<N>(randomizer) {
        Ok(id) => Ok(digest_eq(&id, declared)),
        Err(e) => Err(e),
    }
}

/// Checks that `declared` is the id of the transaction with kernel `kernel`.
pub fn check_transaction_id<N: Network>(kernel: &TransactionKernel, declared: &Digest) -> (outcome: Result<
    bool,
    CircuitError,
>)
    ensures
        outcome == transaction_id_matches_spec::<N>(*kernel, *declared),
{
    match kernel.to_transaction_id::<N>() {
        Ok(id) => Ok(digest_eq(&id, declared)),
        Err(e) => Err(CircuitError::CRH(e)),
    }
}

/// Checks that `signature` is one of `owner` on `message`.
pub fn check_signature<N: Network>(owner: &[u8], message: &[u8], signature: &[u8]) -> (outcome: Result<
    bool,
    CircuitError,
>)
    ensures
        outcome == signature_valid_spec::<N>(owner@, message@, signature@),
{
    match N::account_signature_scheme().verify(owner, message, signature) {
        Ok(valid) => Ok(valid),
        Err(e) => Err(CircuitError::Signature(e)),
    }
}

} // verus!
