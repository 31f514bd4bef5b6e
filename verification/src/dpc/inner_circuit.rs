//! The transaction predicate: everything that has to hold of a shielded
//! transaction, evaluated on plain values in one pass.

use vstd::prelude::*;
use crate::dpc::balance::{check_value_balance, record_values, value_balance_holds};
use crate::dpc::checks::{
    accepted,
    and_then,
    check_ledger_membership,
    check_record_encryption,
    check_serial_number,
    check_signature,
    check_transaction_id,
    encryption_matches_spec,
    holds,
    ledger_membership_spec,
    serial_number_matches_spec,
    signature_valid_spec,
    transaction_id_matches_spec,
    verdict_of,
    Check,
    Verdict,
};
use crate::bytes::{digest_eq, field_elements};
use crate::dpc::program_id::{
    check_program_ids,
    lemma_padding_must_be_noop,
    lemma_used_must_be_executable,
    program_ids_consistent,
    record_program_ids,
};
use crate::dpc::variables::{InnerPrivateVariables, InnerPublicVariables};
use crate::errors::CircuitError;
use crate::traits::Network;
use std::marker::PhantomData;

verus! {

/// The transaction predicate of network `N` on given public and private
/// variables.
pub struct InnerCircuit<N: Network> {
    public: InnerPublicVariables,
    private: InnerPrivateVariables,
    network: PhantomData<N>,
}

impl<N: Network> InnerCircuit<N> {
    /// The public variables.
    pub closed spec fn public_spec(&self) -> InnerPublicVariables {
        self.public
    }

    /// The private variables.
    pub closed spec fn private_spec(&self) -> InnerPrivateVariables {
        self.private
    }

    /// The predicate on the blank variables of the network.
    pub fn blank() -> (circuit: Self)
        ensures
            circuit.public_spec().is_blank::<N>(),
            circuit.private_spec().is_blank::<N>(),
    {
        Self {
            public: InnerPublicVariables::blank::<N>(),
            private: InnerPrivateVariables::blank::<N>(),
            network: PhantomData,
        }
    }

    /// The predicate on the given variables.
    pub fn new(public: InnerPublicVariables, private: InnerPrivateVariables) -> (circuit: Self)
        ensures
            circuit.public_spec() == public,
            circuit.private_spec() == private,
    {
        Self { public, private, network: PhantomData }
    }

    /// The public variables.
    pub fn public(&self) -> (public: &InnerPublicVariables)
        ensures
            *public == self.public_spec(),
    {
        &self.public
    }

    /// The private variables.
    pub fn private(&self) -> (private: &InnerPrivateVariables)
        ensures
            *private == self.private_spec(),
    {
        &self.private
    }

    /// The number of input records.
    pub open spec fn num_inputs(&self) -> int {
        self.private_spec().input_records@.len() as int
    }

    /// The number of output records.
    pub open spec fn num_outputs(&self) -> int {
        self.private_spec().output_records@.len() as int
    }

    /// Whether the lists of the variables fit each other and the network:
    /// one witness, one signature and one serial number per input record;
    /// one commitment, one randomizer and one public id per output record;
    /// no more records than the network has places for; and no more output
    /// records than input records, since each output takes its nonce from
    /// the input in its place.
    pub open spec fn lists_fit(&self) -> bool {
        let private = self.private_spec();
        let public = self.public_spec();
        &&& private.input_witnesses@.len() == self.num_inputs()
        &&& private.signatures@.len() == self.num_inputs()
        &&& private.kernel.serial_numbers@.len() == self.num_inputs()
        &&& private.kernel.commitments@.len() == self.num_outputs()
        &&& private.encrypted_record_randomizers@.len() == self.num_outputs()
        &&& public.encrypted_record_ids@.len() == self.num_outputs()
        &&& self.num_inputs() <= N::num_input_records_spec()
        &&& self.num_outputs() <= N::num_output_records_spec()
        &&& self.num_outputs() <= self.num_inputs()
    }

    /// Why the predicate cannot be evaluated on these variables at all, if
    /// that is so.
    pub open spec fn structure_fault(&self) -> Option<CircuitError> {
        if !self.lists_fit() {
            Some(CircuitError::MalformedWitness)
        } else if self.public_spec().program_id is None {
            Some(CircuitError::MissingProgramId)
        } else {
            None
        }
    }

    /// The outcome of the ledger membership check of input `i`.
    pub open spec fn input_membership(&self, i: int) -> Result<bool, CircuitError> {
        ledger_membership_spec::<N>(
            self.private_spec().input_records@[i],
            self.private_spec().input_witnesses@[i],
            self.public_spec().ledger_digest,
        )
    }

    /// The outcome of the serial number check of input `i`.
    pub open spec fn input_serial_number(&self, i: int) -> Result<bool, CircuitError> {
        serial_number_matches_spec::<N>(
            self.private_spec().input_records@[i],
            self.private_spec().signatures@[i]@,
            self.private_spec().kernel.serial_numbers@[i],
        )
    }

    /// The outcome of the well-formedness check of input `i`.
    pub open spec fn input_well_formed(&self, i: int) -> Result<bool, CircuitError> {
        self.private_spec().input_records@[i].well_formed_spec::<N>()
    }

    /// The verdict on input `i`: well-formedness, then membership, then the
    /// serial number.
    pub open spec fn input_verdict(&self, i: int) -> Result<Verdict, CircuitError> {
        and_then(
            verdict_of(self.input_well_formed(i), Check::RecordWellFormed),
            and_then(
                verdict_of(self.input_membership(i), Check::LedgerMembership),
                verdict_of(self.input_serial_number(i), Check::SerialNumber),
            ),
        )
    }

    /// The verdict on the inputs from `from` on, in their order.
    pub open spec fn inputs_verdict(&self, from: int) -> Result<Verdict, CircuitError>
        decreases self.num_inputs() - from,
    {
        if from < 0 || from >= self.num_inputs() {
            Ok(Verdict::Accepted)
        } else {
            and_then(self.input_verdict(from), self.inputs_verdict(from + 1))
        }
    }

    /// Whether output `j` carries the commitment that the kernel publishes
    /// in its place.
    pub open spec fn output_public_commitment(&self, j: int) -> bool {
        self.private_spec().output_records@[j].commitment == self.private_spec().kernel.commitments@[j]
    }

    /// Whether the nonce of output `j` is the serial number of the input in
    /// the same place.
    pub open spec fn output_nonce(&self, j: int) -> bool {
        self.private_spec().output_records@[j].serial_number_nonce
            == self.private_spec().kernel.serial_numbers@[j]
    }

    /// The outcome of the well-formedness check of output `j`.
    pub open spec fn output_well_formed(&self, j: int) -> Result<bool, CircuitError> {
        self.private_spec().output_records@[j].well_formed_spec::<N>()
    }

    /// The outcome of the encryption check of output `j`.
    pub open spec fn output_encryption(&self, j: int) -> Result<bool, CircuitError> {
        encryption_matches_spec::<N>(
            self.private_spec().output_records@[j],
            self.private_spec().encrypted_record_randomizers@[j]@,
            self.public_spec().encrypted_record_ids@[j],
        )
    }

    /// The verdict on output `j`: well-formedness, then the public
    /// commitment, then the nonce, then the encryption.
    pub open spec fn output_verdict(&self, j: int) -> Result<Verdict, CircuitError> {
        and_then(
            verdict_of(self.output_well_formed(j), Check::RecordWellFormed),
            and_then(
                verdict_of(Ok(self.output_public_commitment(j)), Check::PublicCommitment),
                and_then(
                    verdict_of(Ok(self.output_nonce(j)), Check::SerialNumberNonce),
                    verdict_of(self.output_encryption(j), Check::RecordEncryption),
                ),
            ),
        )
    }

    /// The verdict on the outputs from `from` on, in their order.
    pub open spec fn outputs_verdict(&self, from: int) -> Result<Verdict, CircuitError>
        decreases self.num_outputs() - from,
    {
        if from < 0 || from >= self.num_outputs() {
            Ok(Verdict::Accepted)
        } else {
            and_then(self.output_verdict(from), self.outputs_verdict(from + 1))
        }
    }

    /// Whether the program ids of the input and of the output records fit
    /// the executable and its counts.
    pub open spec fn program_ids_hold(&self) -> bool {
        let executable = self.public_spec().program_id->Some_0@;
        let noop = N::noop_program_id_spec();
        &&& program_ids_consistent(
            record_program_ids(self.private_spec().input_records@),
            executable,
            noop,
            self.private_spec().number_of_inputs as int,
            N::num_input_records_spec() as int,
        )
        &&& program_ids_consistent(
            record_program_ids(self.private_spec().output_records@),
            executable,
            noop,
            self.private_spec().number_of_outputs as int,
            N::num_output_records_spec() as int,
        )
    }

    /// Whether the value balance of the kernel is the inputs less the
    /// outputs.
    pub open spec fn value_balance_holds(&self) -> bool {
        value_balance_holds(
            record_values(self.private_spec().input_records@),
            record_values(self.private_spec().output_records@),
            self.private_spec().kernel.value_balance,
        )
    }

    /// The outcome of the transaction id check.
    pub open spec fn transaction_id_matches(&self) -> Result<bool, CircuitError> {
        transaction_id_matches_spec::<N>(self.private_spec().kernel, self.public_spec().transaction_id)
    }

    /// The outcome of the signature check of input `i`. Every input is
    /// asked for a signature of its owner on the kernel, dummies too.
    pub open spec fn input_signature(&self, i: int) -> Result<bool, CircuitError> {
        signature_valid_spec::<N>(
            self.private_spec().input_records@[i].owner@,
            self.private_spec().kernel.message(),
            self.private_spec().signatures@[i]@,
        )
    }

    /// The verdict on the signatures of the inputs from `from` on, in their
    /// order.
    pub open spec fn signatures_verdict(&self, from: int) -> Result<Verdict, CircuitError>
        decreases self.num_inputs() - from,
    {
        if from < 0 || from >= self.num_inputs() {
            Ok(Verdict::Accepted)
        } else {
            and_then(
                verdict_of(self.input_signature(from), Check::Signature),
                self.signatures_verdict(from + 1),
            )
        }
    }

    /// The verdict on the conjuncts that speak of the transaction as a
    /// whole: the program ids, then the value balance, then the transaction
    /// id, then the signatures.
    pub open spec fn transaction_verdict(&self) -> Result<Verdict, CircuitError> {
        and_then(
            verdict_of(Ok(self.program_ids_hold()), Check::ProgramId),
            and_then(
                verdict_of(Ok(self.value_balance_holds()), Check::ValueBalance),
                and_then(
                    verdict_of(self.transaction_id_matches(), Check::TransactionId),
                    self.signatures_verdict(0),
                ),
            ),
        )
    }

    /// What `evaluate` returns: an error where the variables do not fit
    /// together; else the first thing, in the order of evaluation, that is
    /// an error or a conjunct that does not hold; else acceptance. The order
    /// is: the inputs, the outputs, the program ids, the value balance, the
    /// transaction id, the signatures.
    pub open spec fn evaluate_spec(&self) -> Result<Verdict, CircuitError> {
        match self.structure_fault() {
            Some(e) => Err(e),
            None => and_then(
                self.inputs_verdict(0),
                and_then(self.outputs_verdict(0), self.transaction_verdict()),
            ),
        }
    }

    /// Whether every conjunct of the predicate holds.
    pub open spec fn satisfied(&self) -> bool {
        &&& self.structure_fault() is None
        &&& forall|i: int|
            0 <= i < self.num_inputs() ==> holds(#[trigger] self.input_membership(i)) && holds(
                self.input_serial_number(i),
            ) && holds(self.input_well_formed(i)) && holds(self.input_signature(i))
        &&& forall|j: int|
            0 <= j < self.num_outputs() ==> (#[trigger] self.output_public_commitment(j))
                && self.output_nonce(j) && holds(self.output_well_formed(j)) && holds(
                self.output_encryption(j),
            )
        &&& self.program_ids_hold()
        &&& self.value_balance_holds()
        &&& holds(self.transaction_id_matches())
    }

    /// The inputs from `from` on are accepted exactly when each of them is on
    /// the ledger, has its serial number in the kernel and is well formed.
    pub proof fn lemma_inputs_accepted(&self, from: int)
        requires
            0 <= from,
        ensures
            accepted(self.inputs_verdict(from)) <==> forall|i: int|
                from <= i < self.num_inputs() ==> holds(#[trigger] self.input_membership(i)) && holds(
                    self.input_serial_number(i),
                ) && holds(self.input_well_formed(i)),
        decreases self.num_inputs() - from,
    {
        if from < self.num_inputs() {
            self.lemma_inputs_accepted(from + 1);
            if accepted(self.inputs_verdict(from)) {
                assert forall|i: int| from <= i < self.num_inputs() implies holds(
                    #[trigger] self.input_membership(i),
                ) && holds(self.input_serial_number(i)) && holds(self.input_well_formed(i)) by {
                    if i > from {
                        assert(accepted(self.inputs_verdict(from + 1)));
                    }
                }
            } else if accepted(self.input_verdict(from)) {
                assert(!accepted(self.inputs_verdict(from + 1)));
            } else {
                assert(!(holds(self.input_membership(from)) && holds(self.input_serial_number(from))
                    && holds(self.input_well_formed(from))));
            }
        }
    }

    /// The outputs from `from` on are accepted exactly when each of them
    /// carries the public commitment and the nonce of its place, is well
    /// formed and has the public id as the id of its encryption.
    pub proof fn lemma_outputs_accepted(&self, from: int)
        requires
            0 <= from,
        ensures
            accepted(self.outputs_verdict(from)) <==> forall|j: int|
                from <= j < self.num_outputs() ==> (#[trigger] self.output_public_commitment(j))
                    && self.output_nonce(j) && holds(self.output_well_formed(j)) && holds(
                    self.output_encryption(j),
                ),
        decreases self.num_outputs() - from,
    {
        if from < self.num_outputs() {
            self.lemma_outputs_accepted(from + 1);
            if accepted(self.outputs_verdict(from)) {
                assert forall|j: int| from <= j < self.num_outputs() implies (
                #[trigger] self.output_public_commitment(j)) && self.output_nonce(j) && holds(
                    self.output_well_formed(j),
                ) && holds(self.output_encryption(j)) by {
                    if j > from {
                        assert(accepted(self.outputs_verdict(from + 1)));
                    }
                }
            } else if accepted(self.output_verdict(from)) {
                assert(!accepted(self.outputs_verdict(from + 1)));
            } else {
                assert(!(self.output_public_commitment(from) && self.output_nonce(from) && holds(
                    self.output_well_formed(from),
                ) && holds(self.output_encryption(from))));
            }
        }
    }

    /// The signatures from `from` on are accepted exactly when each of them
    /// is one of the owner of its record on the kernel.
    pub proof fn lemma_signatures_accepted(&self, from: int)
        requires
            0 <= from,
        ensures
            accepted(self.signatures_verdict(from)) <==> forall|i: int|
                from <= i < self.num_inputs() ==> holds(#[trigger] self.input_signature(i)),
        decreases self.num_inputs() - from,
    {
        if from < self.num_inputs() {
            self.lemma_signatures_accepted(from + 1);
            if accepted(self.signatures_verdict(from)) {
                assert forall|i: int| from <= i < self.num_inputs() implies holds(
                    #[trigger] self.input_signature(i),
                ) by {
                    if i > from {
                        assert(accepted(self.signatures_verdict(from + 1)));
                    }
                }
            } else if holds(self.input_signature(from)) {
                assert(!accepted(self.signatures_verdict(from + 1)));
            }
        }
    }

    /// The predicate accepts exactly the transactions that satisfy every
    /// conjunct: there is no acceptance in part.
    pub proof fn lemma_accepted_iff_satisfied(&self)
        ensures
            accepted(self.evaluate_spec()) <==> self.satisfied(),
    {
        self.lemma_inputs_accepted(0);
        self.lemma_outputs_accepted(0);
        self.lemma_signatures_accepted(0);
        if self.satisfied() {
            assert forall|i: int| 0 <= i < self.num_inputs() implies holds(
                #[trigger] self.input_signature(i),
            ) by {
                assert(holds(self.input_membership(i)));
            }
        }
        if accepted(self.evaluate_spec()) {
            assert forall|i: int| 0 <= i < self.num_inputs() implies holds(
                #[trigger] self.input_membership(i),
            ) && holds(self.input_serial_number(i)) && holds(self.input_well_formed(i)) && holds(
                self.input_signature(i),
            ) by {}
        }
    }

    /// A transaction with a serial number in its kernel that is not the one
    /// derived for the input in its place is not accepted.
    pub proof fn lemma_other_serial_number_not_accepted(&self, i: int)
        requires
            0 <= i < self.num_inputs(),
            !holds(self.input_serial_number(i)),
        ensures
            !accepted(self.evaluate_spec()),
    {
        self.lemma_accepted_iff_satisfied();
        if self.satisfied() {
            assert(holds(self.input_membership(i)));
        }
    }

    /// A transaction whose declared value balance is not the inputs less the
    /// outputs is not accepted.
    pub proof fn lemma_unbalanced_not_accepted(&self)
        requires
            !self.value_balance_holds(),
        ensures
            !accepted(self.evaluate_spec()),
    {
        self.lemma_accepted_iff_satisfied();
    }

    /// A transaction that is sound in every record and in its program ids
    /// but does not balance is rejected at the value balance.
    pub proof fn lemma_rejected_at_the_balance(&self)
        requires
            self.structure_fault() is None,
            accepted(self.inputs_verdict(0)),
            accepted(self.outputs_verdict(0)),
            self.program_ids_hold(),
            !self.value_balance_holds(),
        ensures
            self.evaluate_spec() == Ok::<Verdict, CircuitError>(Verdict::Rejected(Check::ValueBalance)),
    {
    }

    /// A transaction with an input record behind the number of inputs that
    /// does not carry the reserved program id is not accepted.
    pub proof fn lemma_padding_input_not_accepted(&self, i: int)
        requires
            self.private_spec().number_of_inputs <= i < self.num_inputs(),
            field_elements(self.private_spec().input_records@[i].program_id@) != field_elements(
                N::noop_program_id_spec(),
            ),
        ensures
            !accepted(self.evaluate_spec()),
    {
        self.lemma_accepted_iff_satisfied();
        if self.structure_fault() is None {
            lemma_padding_must_be_noop(
                record_program_ids(self.private_spec().input_records@),
                self.public_spec().program_id->Some_0@,
                N::noop_program_id_spec(),
                self.private_spec().number_of_inputs as int,
                N::num_input_records_spec() as int,
                i,
            );
        }
    }

    /// A transaction with an input record within the number of inputs that
    /// does not carry the program id of the executable is not accepted.
    pub proof fn lemma_foreign_input_not_accepted(&self, i: int)
        requires
            0 <= i < self.num_inputs(),
            i < self.private_spec().number_of_inputs,
            self.public_spec().program_id matches Some(executable) && field_elements(
                self.private_spec().input_records@[i].program_id@,
            ) != field_elements(executable@),
        ensures
            !accepted(self.evaluate_spec()),
    {
        self.lemma_accepted_iff_satisfied();
        if self.structure_fault() is None {
            lemma_used_must_be_executable(
                record_program_ids(self.private_spec().input_records@),
                self.public_spec().program_id->Some_0@,
                N::noop_program_id_spec(),
                self.private_spec().number_of_inputs as int,
                N::num_input_records_spec() as int,
                i,
            );
        }
    }

    /// Evaluates the conjuncts of input `i`.
    fn evaluate_input(&self, i: usize) -> (verdict: Result<Verdict, CircuitError>)
        requires
            self.lists_fit(),
            i < self.num_inputs(),
        ensures
            verdict == self.input_verdict(i as int),
    {
        let record = &self.private.input_records[i];
        match record.check_well_formed::<N>() {
            Ok(true) => {},
            Ok(false) => {
                return Ok(Verdict::Rejected(Check::RecordWellFormed));
            },
            Err(e) => {
                return Err(e);
            },
        }
        match check_ledger_membership::<N>(record, &self.private.input_witnesses[i], &self.public.ledger_digest) {
            Ok(true) => {},
            Ok(false) => {
                return Ok(Verdict::Rejected(Check::LedgerMembership));
            },
            Err(e) => {
                return Err(e);
            },
        }
        match check_serial_number::<N>(
            record,
            self.private.signatures[i].as_slice(),
            &self.private.kernel.serial_numbers[i],
        ) {
            Ok(true) => Ok(Verdict::Accepted),
            Ok(false) => Ok(Verdict::Rejected(Check::SerialNumber)),
            Err(e) => Err(e),
        }
    }

    /// Evaluates the conjuncts of output `j`.
    fn evaluate_output(&self, j: usize) -> (verdict: Result<Verdict, CircuitError>)
        requires
            self.lists_fit(),
            j < self.num_outputs(),
        ensures
            verdict == self.output_verdict(j as int),
    {
        let record = &self.private.output_records[j];
        match record.check_well_formed::<N>() {
            Ok(true) => {},
            Ok(false) => {
                return Ok(Verdict::Rejected(Check::RecordWellFormed));
            },
            Err(e) => {
                return Err(e);
            },
        }
        if !digest_eq(&record.commitment, &self.private.kernel.commitments[j]) {
            return Ok(Verdict::Rejected(Check::PublicCommitment));
        }
        if !digest_eq(&record.serial_number_nonce, &self.private.kernel.serial_numbers[j]) {
            return Ok(Verdict::Rejected(Check::SerialNumberNonce));
        }
        match check_record_encryption::<N>(
            record,
            self.private.encrypted_record_randomizers[j].as_slice(),
            &self.public.encrypted_record_ids[j],
        ) {
            Ok(true) => Ok(Verdict::Accepted),
            Ok(false) => Ok(Verdict::Rejected(Check::RecordEncryption)),
            Err(e) => Err(e),
        }
    }

    /// Checks that the lists of the variables fit each other and the network
    /// and that an executable is named.
    fn check_structure(&self) -> (fault: Option<CircuitError>)
        ensures
            fault == self.structure_fault(),
    {
        let inputs = self.private.input_records.len();
        let outputs = self.private.output_records.len();
        if self.private.input_witnesses.len() != inputs || self.private.signatures.len() != inputs
            || self.private.kernel.serial_numbers.len() != inputs
            || self.private.kernel.commitments.len() != outputs
            || self.private.encrypted_record_randomizers.len() != outputs
            || self.public.encrypted_record_ids.len() != outputs || inputs > N::num_input_records()
            || outputs > N::num_output_records() || outputs > inputs {
            return Some(CircuitError::MalformedWitness);
        }
        if self.public.program_id.is_none() {
            return Some(CircuitError::MissingProgramId);
        }
        None
    }

    /// Evaluates the conjuncts that speak of the transaction as a whole.
    fn evaluate_transaction(&self) -> (verdict: Result<Verdict, CircuitError>)
        requires
            self.structure_fault() is None,
        ensures
            verdict == self.transaction_verdict(),
    {
        let noop = N::noop_program_id();
        let executable = match &self.public.program_id {
            Some(id) => id,
            None => {
                return Err(CircuitError::MissingProgramId);
            },
        };
        if !check_program_ids(
            &self.private.input_records,
            executable.as_slice(),
            noop.as_slice(),
            self.private.number_of_inputs,
            N::num_input_records(),
        ) || !check_program_ids(
            &self.private.output_records,
            executable.as_slice(),
            noop.as_slice(),
            self.private.number_of_outputs,
            N::num_output_records(),
        ) {
            return Ok(Verdict::Rejected(Check::ProgramId));
        }
        if !check_value_balance(
            &self.private.input_records,
            &self.private.output_records,
            self.private.kernel.value_balance,
        ) {
            return Ok(Verdict::Rejected(Check::ValueBalance));
        }
        match check_transaction_id::<N>(&self.private.kernel, &self.public.transaction_id) {
            Ok(true) => {},
            Ok(false) => {
                return Ok(Verdict::Rejected(Check::TransactionId));
            },
            Err(e) => {
                return Err(e);
            },
        }
        let message = self.private.kernel.to_bytes();
        let mut i: usize = 0;
        while i < self.private.input_records.len()
            invariant
                i <= self.num_inputs(),
                self.lists_fit(),
                message@ == self.private_spec().kernel.message(),
                self.program_ids_hold(),
                self.value_balance_holds(),
                holds(self.transaction_id_matches()),
                self.signatures_verdict(0) == self.signatures_verdict(i as int),
            decreases self.num_inputs() - i,
        {
            match check_signature::<N>(
                self.private.input_records[i].owner.as_slice(),
                message.as_slice(),
                self.private.signatures[i].as_slice(),
            ) {
                Ok(true) => {},
                Ok(false) => {
                    return Ok(Verdict::Rejected(Check::Signature));
                },
                Err(e) => {
                    return Err(e);
                },
            }
            i += 1;
        }
        Ok(Verdict::Accepted)
    }

    /// Evaluates the predicate: says whether the transaction is valid, and
    /// if not, which conjunct is the first that does not hold.
    ///
    /// An error is returned where the variables do not fit together or a
    /// primitive fails; a transaction that is merely invalid is no error.
    pub fn evaluate(&self) -> (verdict: Result<Verdict, CircuitError>)
        ensures
            verdict == self.evaluate_spec(),
            accepted(verdict) <==> self.satisfied(),
    {
        proof {
            self.lemma_accepted_iff_satisfied();
        }
        if let Some(fault) = self.check_structure() {
            return Err(fault);
        }
        let mut i: usize = 0;
        while i < self.private.input_records.len()
            invariant
                i <= self.num_inputs(),
                self.structure_fault() is None,
                self.inputs_verdict(0) == self.inputs_verdict(i as int),
            decreases self.num_inputs() - i,
        {
            match self.evaluate_input(i) {
                Ok(Verdict::Accepted) => {},
                other => {
                    return other;
                },
            }
            i += 1;
        }
        let mut j: usize = 0;
        while j < self.private.output_records.len()
            invariant
                j <= self.num_outputs(),
                self.structure_fault() is None,
                accepted(self.inputs_verdict(0)),
                self.outputs_verdict(0) == self.outputs_verdict(j as int),
            decreases self.num_outputs() - j,
        {
            match self.evaluate_output(j) {
                Ok(Verdict::Accepted) => {},
                other => {
                    return other;
                },
            }
            j += 1;
        }
        self.evaluate_transaction()
    }

    /// Whether the transaction is valid: whether every conjunct holds.
    pub fn is_satisfied(&self) -> (satisfied: Result<bool, CircuitError>)
        ensures
            match satisfied {
                Ok(valid) => self.evaluate_spec() is Ok && valid == self.satisfied(),
                Err(e) => self.evaluate_spec() == Err::<Verdict, CircuitError>(e),
            },
    {
        proof {
            self.lemma_accepted_iff_satisfied();
        }
        match self.evaluate() {
            Ok(Verdict::Accepted) => Ok(true),
            Ok(Verdict::Rejected(_)) => Ok(false),
            Err(e) => Err(e),
        }
    }
}

} // verus!
