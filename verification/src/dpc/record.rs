//! Records: the notes that a transaction spends and creates.

use vstd::prelude::*;
use crate::bytes::{
    amount_bytes,
    append_amount,
    append_bytes,
    field_elements,
    flag_byte,
    same_field_elements,
    digest_eq,
    is_zero_digest,
    zero_digest,
    Digest,
};
use crate::errors::{CircuitError, CommitmentError};
use crate::traits::{CRH, CommitmentScheme, EncryptionScheme, Network, PRF, SignatureScheme};

verus! {

/// A record.
///
/// `commitment` is meant to commit to all the other fields but the
/// randomness, under that randomness; `check_well_formed` says whether it
/// does. A dummy record pads a transaction and carries nothing.
#[derive(Clone, Debug, PartialEq, Eq)]
pub struct Record {
    /// The public key of the owner.
    pub owner: Vec<u8>,
    /// Whether the record is a placeholder.
    pub is_dummy: bool,
    /// The amount that the record holds.
    pub value: u64,
    /// Data for the program that governs the record.
    pub payload: Vec<u8>,
    /// The program that governs the record.
    pub program_id: Vec<u8>,
    /// The nonce from which the serial number is derived.
    pub serial_number_nonce: Digest,
    /// The commitment to the record.
    pub commitment: Digest,
    /// The randomness of the commitment.
    pub commitment_randomness: Vec<u8>,
}

/// The bytes that a record with these fields commits to: the owner, the dummy
/// flag, the value, the payload, the program id and the nonce, in this order.
pub open spec fn commitment_input_of(
    owner: Seq<u8>,
    is_dummy: bool,
    value: u64,
    payload: Seq<u8>,
    program_id: Seq<u8>,
    serial_number_nonce: Digest,
) -> Seq<u8> {
    owner + seq![flag_byte(is_dummy)] + amount_bytes(value) + payload + program_id
        + serial_number_nonce@
}

/// The commitment of a record with these fields under `randomness`.
pub open spec fn commitment_of<N: Network>(
    owner: Seq<u8>,
    is_dummy: bool,
    value: u64,
    payload: Seq<u8>,
    program_id: Seq<u8>,
    serial_number_nonce: Digest,
    randomness: Seq<u8>,
) -> Result<Digest, CommitmentError> {
    N::commitment_scheme_spec().commit_spec(
        commitment_input_of(owner, is_dummy, value, payload, program_id, serial_number_nonce),
        randomness,
    )
}

/// Whether a value, a payload and a program id are those of a dummy record:
/// zero, empty and the reserved id. They are compared as field elements.
pub open spec fn carries_nothing<N: Network>(value: u64, payload: Seq<u8>, program_id: Seq<u8>) -> bool {
    &&& field_elements(amount_bytes(value)) == field_elements(amount_bytes(0))
    &&& field_elements(payload) == field_elements(Seq::empty())
    &&& field_elements(program_id) == field_elements(N::noop_program_id_spec())
}

/// Lifts the outcome of one conjunct into the error type of the predicate.
pub open spec fn commitment_outcome(
    computed: Result<Digest, CommitmentError>,
    declared: Digest,
) -> Result<bool, CircuitError> {
    match computed {
        Ok(commitment) => Ok(commitment == declared),
        Err(e) => Err(CircuitError::Commitment(e)),
    }
}

impl Record {
    /// The bytes that the record commits to.
    pub open spec fn commitment_input(&self) -> Seq<u8> {
        commitment_input_of(
            self.owner@,
            self.is_dummy,
            self.value,
            self.payload@,
            self.program_id@,
            self.serial_number_nonce,
        )
    }

    /// The commitment that belongs to the record's fields and randomness.
    pub open spec fn commitment_spec<N: Network>(&self) -> Result<Digest, CommitmentError> {
        N::commitment_scheme_spec().commit_spec(self.commitment_input(), self.commitment_randomness@)
    }

    /// Whether the record obeys the rules for dummies: a dummy has the value
    /// zero, an empty payload and the reserved program id.
    pub open spec fn dummy_rules_hold<N: Network>(&self) -> bool {
        self.is_dummy ==> carries_nothing::<N>(self.value, self.payload@, self.program_id@)
    }

    /// Whether the record is well formed: it obeys the rules for dummies and
    /// its commitment is the one that belongs to its fields. An error where
    /// the commitment cannot be computed for a record that obeys the rules.
    pub open spec fn well_formed_spec<N: Network>(&self) -> Result<bool, CircuitError> {
        if !self.dummy_rules_hold::<N>() {
            Ok(false)
        } else {
            commitment_outcome(self.commitment_spec::<N>(), self.commitment)
        }
    }

    /// The bytes that are encrypted for the owner: the value, the payload,
    /// the program id, the nonce and the commitment randomness.
    pub open spec fn plaintext(&self) -> Seq<u8> {
        amount_bytes(self.value) + self.payload@ + self.program_id@ + self.serial_number_nonce@
            + self.commitment_randomness@
    }

    /// The id of the record's encryption under `randomizer`: the digest of
    /// the ciphertext.
    pub open spec fn encrypted_record_id_spec<N: Network>(&self, randomizer: Seq<u8>) -> Result<
        Digest,
        CircuitError,
    > {
        match N::account_encryption_scheme_spec().encrypt_spec(self.owner@, randomizer, self.plaintext()) {
            Ok(ciphertext) => match N::encrypted_record_crh_spec().hash_spec(ciphertext) {
                Ok(id) => Ok(id),
                Err(e) => Err(CircuitError::CRH(e)),
            },
            Err(e) => Err(CircuitError::Encryption(e)),
        }
    }

    /// The serial number of the record for the signer of `signature`: the
    /// serial number function keyed by the signer's spend key, at the
    /// record's nonce.
    pub open spec fn serial_number_spec<N: Network>(&self, signature: Seq<u8>) -> Result<
        Digest,
        CircuitError,
    > {
        match N::account_signature_scheme_spec().spend_key_spec(signature) {
            Ok(spend_key) => match N::serial_number_prf_spec().evaluate_spec(
                spend_key,
                self.serial_number_nonce@,
            ) {
                Ok(serial_number) => Ok(serial_number),
                Err(e) => Err(CircuitError::PRF(e)),
            },
            Err(e) => Err(CircuitError::Signature(e)),
        }
    }

    /// Makes the record with the given fields and computes its commitment.
    pub fn new<N: Network>(
        owner: Vec<u8>,
        is_dummy: bool,
        value: u64,
        payload: Vec<u8>,
        program_id: Vec<u8>,
        serial_number_nonce: Digest,
        commitment_randomness: Vec<u8>,
    ) -> (record: Result<Record, CommitmentError>)
        ensures
            match record {
                Ok(r) => {
                    &&& r.owner == owner
                    &&& r.is_dummy == is_dummy
                    &&& r.value == value
                    &&& r.payload == payload
                    &&& r.program_id == program_id
                    &&& r.serial_number_nonce == serial_number_nonce
                    &&& r.commitment_randomness == commitment_randomness
                    &&& r.commitment_spec::<N>() == Ok::<Digest, CommitmentError>(r.commitment)
                    &&& r.dummy_rules_hold::<N>() ==> r.well_formed_spec::<N>() == Ok::<
                        bool,
                        CircuitError,
                    >(true)
                },
                Err(e) => commitment_of::<N>(
                    owner@,
                    is_dummy,
                    value,
                    payload@,
                    program_id@,
                    serial_number_nonce,
                    commitment_randomness@,
                ) == Err::<Digest, CommitmentError>(e),
            },
    {
        let mut record = Record {
            owner,
            is_dummy,
            value,
            payload,
            program_id,
            serial_number_nonce,
            commitment: [0u8; 32],
            commitment_randomness,
        };
        match record.compute_commitment::<N>() {
            Ok(commitment) => {
                record.commitment = commitment;
                Ok(record)
            },
            Err(e) => Err(e),
        }
    }

    /// Makes a dummy record: no value, no payload, the reserved program id.
    pub fn new_dummy<N: Network>(
        owner: Vec<u8>,
        serial_number_nonce: Digest,
        commitment_randomness: Vec<u8>,
    ) -> (record: Result<Record, CommitmentError>)
        ensures
            match record {
                Ok(r) => {
                    &&& r.owner == owner
                    &&& r.is_dummy
                    &&& r.value == 0
                    &&& r.payload@ == Seq::<u8>::empty()
                    &&& r.program_id@ == N::noop_program_id_spec()
                    &&& r.serial_number_nonce == serial_number_nonce
                    &&& r.commitment_randomness == commitment_randomness
                    &&& r.well_formed_spec::<N>() == Ok::<bool, CircuitError>(true)
                },
                Err(e) => commitment_of::<N>(
                    owner@,
                    true,
                    0,
                    Seq::empty(),
                    N::noop_program_id_spec(),
                    serial_number_nonce,
                    commitment_randomness@,
                ) == Err::<Digest, CommitmentError>(e),
            },
    {
        Record::new::<N>(
            owner,
            true,
            0,
            Vec::new(),
            N::noop_program_id(),
            serial_number_nonce,
            commitment_randomness,
        )
    }

    /// Whether the record is the blank one of the network: a dummy of no
    /// owner, with zero nonce and commitment and no randomness.
    pub open spec fn is_blank<N: Network>(&self) -> bool {
        &&& self.owner@.len() == 0
        &&& self.is_dummy
        &&& self.value == 0
        &&& self.payload@.len() == 0
        &&& self.program_id@ == N::noop_program_id_spec()
        &&& is_zero_digest(self.serial_number_nonce)
        &&& is_zero_digest(self.commitment)
        &&& self.commitment_randomness@.len() == 0
    }

    /// The blank record of the network.
    pub fn blank<N: Network>() -> (record: Record)
        ensures
            record.is_blank::<N>(),
    {
        Record {
            owner: Vec::new(),
            is_dummy: true,
            value: 0,
            payload: Vec::new(),
            program_id: N::noop_program_id(),
            serial_number_nonce: zero_digest(),
            commitment: zero_digest(),
            commitment_randomness: Vec::new(),
        }
    }

    /// Writes out the bytes that the record commits to.
    pub fn commitment_input_bytes(&self) -> (input: Vec<u8>)
        ensures
            input@ == self.commitment_input(),
    {
        let mut input: Vec<u8> = Vec::new();
        append_bytes(&mut input, self.owner.as_slice());
        input.push(if self.is_dummy { 1u8 } else { 0u8 });
        assert(input@ == self.owner@ + seq![flag_byte(self.is_dummy)]);
        append_amount(&mut input, self.value);
        append_bytes(&mut input, self.payload.as_slice());
        append_bytes(&mut input, self.program_id.as_slice());
        append_bytes(&mut input, self.serial_number_nonce.as_slice());
        input
    }

    /// Computes the commitment that belongs to the record's fields and
    /// randomness.
    pub fn compute_commitment<N: Network>(&self) -> (commitment: Result<Digest, CommitmentError>)
        ensures
            commitment == self.commitment_spec::<N>(),
    {
        let input = self.commitment_input_bytes();
        N::commitment_scheme().commit(input.as_slice(), self.commitment_randomness.as_slice())
    }

    /// Checks the rules for dummies.
    pub fn check_dummy_rules<N: Network>(&self) -> (holds: bool)
        ensures
            holds == self.dummy_rules_hold::<N>(),
    {
        if !self.is_dummy {
            return true;
        }
        let mut value_bytes: Vec<u8> = Vec::new();
        append_amount(&mut value_bytes, self.value);
        let mut zero_bytes: Vec<u8> = Vec::new();
        append_amount(&mut zero_bytes, 0);
        assert(value_bytes@ == amount_bytes(self.value));
        assert(zero_bytes@ == amount_bytes(0));
        let empty_payload: Vec<u8> = Vec::new();
        assert(empty_payload@ == Seq::<u8>::empty());
        let noop_program_id = N::noop_program_id();
        same_field_elements(value_bytes.as_slice(), zero_bytes.as_slice()) && same_field_elements(
            self.payload.as_slice(),
            empty_payload.as_slice(),
        ) && same_field_elements(self.program_id.as_slice(), noop_program_id.as_slice())
    }

    /// Checks that the record is well formed.
    pub fn check_well_formed<N: Network>(&self) -> (outcome: Result<bool, CircuitError>)
        ensures
            outcome == self.well_formed_spec::<N>(),
    {
        if !self.check_dummy_rules::<N>() {
            return Ok(false);
        }
        match self.compute_commitment::<N>() {
            Ok(commitment) => Ok(digest_eq(&commitment, &self.commitment)),
            Err(e) => Err(CircuitError::Commitment(e)),
        }
    }

    /// Writes out the bytes that are encrypted for the owner.
    pub fn plaintext_bytes(&self) -> (plaintext: Vec<u8>)
        ensures
            plaintext@ == self.plaintext(),
    {
        let mut plaintext: Vec<u8> = Vec::new();
        append_amount(&mut plaintext, self.value);
        append_bytes(&mut plaintext, self.payload.as_slice());
        append_bytes(&mut plaintext, self.program_id.as_slice());
        append_bytes(&mut plaintext, self.serial_number_nonce.as_slice());
        append_bytes(&mut plaintext, self.commitment_randomness.as_slice());
        plaintext
    }

    /// Encrypts the record for its owner under `randomizer` and computes the
    /// id of the encryption.
    pub fn encrypted_record_id<N: Network>(&self, randomizer: &[u8]) -> (id: Result<Digest, CircuitError>)
        ensures
            id == self.encrypted_record_id_spec::<N>(randomizer@),
    {
        let plaintext = self.plaintext_bytes();
        let ciphertext = match N::account_encryption_scheme().encrypt(
            self.owner.as_slice(),
            randomizer,
            plaintext.as_slice(),
        ) {
            Ok(ciphertext) => ciphertext,
            Err(e) => {
                return Err(CircuitError::Encryption(e));
            },
        };
        match N::encrypted_record_crh().hash(ciphertext.as_slice()) {
            Ok(id) => Ok(id),
            Err(e) => Err(CircuitError::CRH(e)),
        }
    }

    /// Derives the serial number of the record for the signer of `signature`.
    pub fn serial_number<N: Network>(&self, signature: &[u8]) -> (serial_number: Result<
        Digest,
        CircuitError,
    >)
        ensures
            serial_number == self.serial_number_spec::<N>(signature@),
    {
        let spend_key = match N::account_signature_scheme().spend_key(signature) {
            Ok(spend_key) => spend_key,
            Err(e) => {
                return Err(CircuitError::Signature(e));
            },
        };
        match N::serial_number_prf().evaluate(spend_key.as_slice(), self.serial_number_nonce.as_slice()) {
            Ok(serial_number) => Ok(serial_number),
            Err(e) => Err(CircuitError::PRF(e)),
        }
    }
}

} // verus!
