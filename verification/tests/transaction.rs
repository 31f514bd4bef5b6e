use shielded_ledger::bytes::Digest;
use shielded_ledger::devnet::{Devnet, FnvCRH, FnvSignature};
use shielded_ledger::dpc::balance::check_value_balance;
use shielded_ledger::dpc::checks::{
    check_ledger_membership, check_record_encryption, check_serial_number, check_signature,
    check_transaction_id, Check, Verdict,
};
use shielded_ledger::dpc::inner_circuit::InnerCircuit;
use shielded_ledger::dpc::kernel::TransactionKernel;
use shielded_ledger::dpc::program_id::check_program_ids;
use shielded_ledger::dpc::record::Record;
use shielded_ledger::dpc::variables::{InnerPrivateVariables, InnerPublicVariables, LedgerWitness};
use shielded_ledger::errors::{
    CRHError, CircuitError, CommitmentError, EncryptionError, MerkleTrieError, PRFError, SignatureError,
};
use shielded_ledger::merkle_trie::{calculate_root, hash_leaf};
use shielded_ledger::traits::Network;
use std::sync::Arc;

const ALICE: &[u8] = b"the spend key of alice";
const BOB: &[u8] = b"the spend key of bob";
const CAROL: &[u8] = b"the spend key of carol";

fn program() -> Vec<u8> {
    vec![7u8; 48]
}

fn noop() -> Vec<u8> {
    Devnet::noop_program_id()
}

/// What goes into a transaction before anything is derived.
struct Plan {
    inputs: Vec<(&'static [u8], bool, u64, Vec<u8>)>,
    outputs: Vec<(&'static [u8], bool, u64, Vec<u8>)>,
    value_balance: i64,
    number_of_inputs: u8,
    number_of_outputs: u8,
}

/// One real input of 10 and one dummy input, one real output of 10.
fn plan() -> Plan {
    Plan {
        inputs: vec![(ALICE, false, 10, program()), (BOB, true, 0, noop())],
        outputs: vec![(CAROL, false, 10, program())],
        value_balance: 0,
        number_of_inputs: 1,
        number_of_outputs: 1,
    }
}

/// Derives everything honestly from the plan: records, ledger, witnesses,
/// kernel, ids and signatures.
fn assemble(plan: &Plan) -> (InnerPublicVariables, InnerPrivateVariables) {
    let tree = Arc::new(FnvCRH);
    let mut input_records = Vec::new();
    let mut serial_numbers = Vec::new();
    for (i, (spend_key, is_dummy, value, program_id)) in plan.inputs.iter().enumerate() {
        let payload = if *is_dummy { Vec::new() } else { vec![i as u8; 5] };
        let record = Record::new::<Devnet>(
            FnvSignature::public_key(spend_key),
            *is_dummy,
            *value,
            payload,
            program_id.clone(),
            [i as u8 + 1; 32],
            vec![i as u8 + 100; 16],
        )
        .unwrap();
        let any_signature = FnvSignature::sign(spend_key, b"");
        serial_numbers.push(record.serial_number::<Devnet>(&any_signature).unwrap());
        input_records.push(record);
    }
    // The ledger: one node above the commitments of the real inputs.
    let leaves: Vec<Digest> = input_records
        .iter()
        .enumerate()
        .map(|(i, r)| hash_leaf(&tree, format!("commitment/{}", i).as_bytes(), &r.commitment).unwrap())
        .collect();
    let ledger_digest = calculate_root(&tree, b"ledger", None, &leaves).unwrap();
    let input_witnesses: Vec<LedgerWitness> = (0..input_records.len())
        .map(|i| {
            let mut siblings = leaves.clone();
            siblings.remove(i);
            LedgerWitness {
                key: format!("commitment/{}", i).into_bytes(),
                path: vec![siblings],
                parents: vec![(b"ledger".to_vec(), None)],
                traversal: vec![i],
            }
        })
        .collect();
    let mut output_records = Vec::new();
    for (j, (spend_key, is_dummy, value, program_id)) in plan.outputs.iter().enumerate() {
        let payload = if *is_dummy { Vec::new() } else { vec![j as u8 + 50; 3] };
        output_records.push(
            Record::new::<Devnet>(
                FnvSignature::public_key(spend_key),
                *is_dummy,
                *value,
                payload,
                program_id.clone(),
                serial_numbers[j],
                vec![j as u8 + 200; 16],
            )
            .unwrap(),
        );
    }
    let commitments: Vec<Digest> = output_records.iter().map(|r| r.commitment).collect();
    let kernel = TransactionKernel::new(1, serial_numbers, commitments, plan.value_balance, b"memo".to_vec());
    let message = kernel.to_bytes();
    let signatures: Vec<Vec<u8>> =
        plan.inputs.iter().map(|(spend_key, _, _, _)| FnvSignature::sign(spend_key, &message)).collect();
    let encrypted_record_randomizers: Vec<Vec<u8>> =
        (0..output_records.len()).map(|j| vec![j as u8 + 9; 8]).collect();
    let encrypted_record_ids: Vec<Digest> = output_records
        .iter()
        .zip(&encrypted_record_randomizers)
        .map(|(r, randomizer)| r.encrypted_record_id::<Devnet>(randomizer).unwrap())
        .collect();
    let public = InnerPublicVariables {
        transaction_id: kernel.to_transaction_id::<Devnet>().unwrap(),
        ledger_digest,
        encrypted_record_ids,
        program_id: Some(program()),
    };
    let private = InnerPrivateVariables {
        kernel,
        input_records,
        input_witnesses,
        signatures,
        output_records,
        encrypted_record_randomizers,
        number_of_inputs: plan.number_of_inputs,
        number_of_outputs: plan.number_of_outputs,
    };
    (public, private)
}

fn evaluate(public: InnerPublicVariables, private: InnerPrivateVariables) -> Result<Verdict, CircuitError> {
    InnerCircuit::<Devnet>::new(public, private).evaluate()
}

#[test]
fn honest_transaction_is_accepted() {
    let (public, private) = assemble(&plan());
    let circuit = InnerCircuit::<Devnet>::new(public, private);
    assert_eq!(circuit.evaluate(), Ok(Verdict::Accepted));
    assert_eq!(circuit.is_satisfied(), Ok(true));
}

#[test]
fn every_conjunct_of_the_honest_transaction_holds() {
    let (public, private) = assemble(&plan());
    for i in 0..2 {
        let record = &private.input_records[i];
        assert_eq!(
            check_ledger_membership::<Devnet>(record, &private.input_witnesses[i], &public.ledger_digest),
            Ok(true)
        );
        assert_eq!(
            check_serial_number::<Devnet>(record, &private.signatures[i], &private.kernel.serial_numbers[i]),
            Ok(true)
        );
        assert_eq!(record.check_well_formed::<Devnet>(), Ok(true));
        assert_eq!(
            check_signature::<Devnet>(&record.owner, &private.kernel.to_bytes(), &private.signatures[i]),
            Ok(true)
        );
    }
    let output = &private.output_records[0];
    assert_eq!(output.check_well_formed::<Devnet>(), Ok(true));
    assert_eq!(
        check_record_encryption::<Devnet>(
            output,
            &private.encrypted_record_randomizers[0],
            &public.encrypted_record_ids[0]
        ),
        Ok(true)
    );
    assert!(check_program_ids(&private.input_records, &program(), &noop(), 1, 2));
    assert!(check_program_ids(&private.output_records, &program(), &noop(), 1, 2));
    assert!(check_value_balance(&private.input_records, &private.output_records, 0));
    assert_eq!(check_transaction_id::<Devnet>(&private.kernel, &public.transaction_id), Ok(true));
}

#[test]
fn output_of_eleven_fails_the_balance_and_nothing_else() {
    let mut plan = plan();
    plan.outputs[0].2 = 11;
    let (public, private) = assemble(&plan);
    assert!(!check_value_balance(&private.input_records, &private.output_records, 0));
    assert!(check_value_balance(&private.input_records, &private.output_records, -1));
    assert_eq!(private.output_records[0].check_well_formed::<Devnet>(), Ok(true));
    assert_eq!(check_transaction_id::<Devnet>(&private.kernel, &public.transaction_id), Ok(true));
    assert!(check_program_ids(&private.output_records, &program(), &noop(), 1, 2));
    let circuit = InnerCircuit::<Devnet>::new(public, private);
    assert_eq!(circuit.evaluate(), Ok(Verdict::Rejected(Check::ValueBalance)));
    assert_eq!(circuit.is_satisfied(), Ok(false));
}

#[test]
fn declared_balance_off_by_one_is_rejected() {
    for declared in [1i64, -1] {
        let mut plan = plan();
        plan.value_balance = declared;
        let (public, private) = assemble(&plan);
        assert_eq!(evaluate(public, private), Ok(Verdict::Rejected(Check::ValueBalance)));
    }
}

#[test]
fn declared_balance_is_inputs_less_outputs() {
    let mut plan = plan();
    plan.inputs[0].2 = 25;
    plan.outputs[0].2 = 4;
    plan.value_balance = 21;
    let (public, private) = assemble(&plan);
    assert_eq!(evaluate(public, private), Ok(Verdict::Accepted));
    let mut plan = self::plan();
    plan.inputs[0].2 = 4;
    plan.outputs[0].2 = 25;
    plan.value_balance = -21;
    let (public, private) = assemble(&plan);
    assert_eq!(evaluate(public, private), Ok(Verdict::Accepted));
}

#[test]
fn all_dummies_balance_at_zero() {
    let plan = Plan {
        inputs: vec![(ALICE, true, 0, noop()), (BOB, true, 0, noop())],
        outputs: vec![(CAROL, true, 0, noop()), (ALICE, true, 0, noop())],
        value_balance: 0,
        number_of_inputs: 0,
        number_of_outputs: 0,
    };
    let (public, private) = assemble(&plan);
    assert!(check_value_balance(&private.input_records, &private.output_records, 0));
    assert_eq!(evaluate(public, private), Ok(Verdict::Accepted));
}

#[test]
fn balance_does_not_wrap_around() {
    let record = |value: u64| {
        Record::new::<Devnet>(vec![1], false, value, vec![], program(), [0; 32], vec![]).unwrap()
    };
    let half = 1u64 << 62;
    // The inputs sum to 2^63, which no signed 64-bit integer holds.
    assert!(!check_value_balance(&vec![record(half), record(half)], &vec![record(half), record(half)], 0));
    assert!(check_value_balance(&vec![record(half), record(half - 1)], &vec![record(half), record(half - 1)], 0));
    assert!(check_value_balance(&vec![record(i64::MAX as u64)], &vec![], i64::MAX));
    assert!(!check_value_balance(&vec![record(i64::MAX as u64 + 1)], &vec![], i64::MIN));
    assert!(!check_value_balance(&vec![record(u64::MAX)], &vec![], -1));
    assert!(!check_value_balance(&vec![], &vec![record(i64::MAX as u64 + 1)], i64::MIN));
    assert!(check_value_balance(&vec![], &vec![record(i64::MAX as u64)], -i64::MAX));
    assert!(check_value_balance(&vec![], &vec![record(i64::MAX as u64), record(1)], i64::MIN));
    assert!(!check_value_balance(&vec![], &vec![record(i64::MAX as u64), record(2)], i64::MAX));
    assert!(check_value_balance(&vec![], &vec![], 0));
}

#[test]
fn wrong_serial_number_is_rejected() {
    let (public, mut private) = assemble(&plan());
    private.kernel.serial_numbers[0][3] ^= 1;
    assert_eq!(
        check_serial_number::<Devnet>(
            &private.input_records[0],
            &private.signatures[0],
            &private.kernel.serial_numbers[0]
        ),
        Ok(false)
    );
    assert_eq!(evaluate(public, private), Ok(Verdict::Rejected(Check::SerialNumber)));
}

#[test]
fn serial_number_is_a_function_of_spend_key_and_nonce() {
    let (_, private) = assemble(&plan());
    let record = &private.input_records[0];
    let first = record.serial_number::<Devnet>(&FnvSignature::sign(ALICE, b"one message")).unwrap();
    let second = record.serial_number::<Devnet>(&FnvSignature::sign(ALICE, b"another message")).unwrap();
    assert_eq!(first, second);
    assert_eq!(first, private.kernel.serial_numbers[0]);
    let other_key = record.serial_number::<Devnet>(&FnvSignature::sign(BOB, b"one message")).unwrap();
    assert_ne!(first, other_key);
    let mut other_nonce = record.clone();
    other_nonce.serial_number_nonce[0] ^= 1;
    assert_ne!(other_nonce.serial_number::<Devnet>(&FnvSignature::sign(ALICE, b"")).unwrap(), first);
}

#[test]
fn padding_input_with_a_program_id_is_rejected() {
    let mut plan = plan();
    plan.inputs[1].3 = program();
    plan.inputs[1].1 = false;
    let (public, private) = assemble(&plan);
    assert!(!check_program_ids(&private.input_records, &program(), &noop(), 1, 2));
    assert_eq!(evaluate(public, private), Ok(Verdict::Rejected(Check::ProgramId)));
}

#[test]
fn used_input_with_another_program_id_is_rejected() {
    let mut plan = plan();
    plan.inputs[0].3 = vec![8u8; 48];
    let (public, private) = assemble(&plan);
    assert!(!check_program_ids(&private.input_records, &program(), &noop(), 1, 2));
    assert_eq!(evaluate(public, private), Ok(Verdict::Rejected(Check::ProgramId)));
    let mut plan = self::plan();
    plan.inputs[0].3 = noop();
    let (public, private) = assemble(&plan);
    assert_eq!(evaluate(public, private), Ok(Verdict::Rejected(Check::ProgramId)));
}

#[test]
fn used_output_with_another_program_id_is_rejected() {
    let mut plan = plan();
    plan.outputs[0].3 = vec![8u8; 48];
    let (public, private) = assemble(&plan);
    assert!(check_program_ids(&private.input_records, &program(), &noop(), 1, 2));
    assert!(!check_program_ids(&private.output_records, &program(), &noop(), 1, 2));
    assert_eq!(evaluate(public, private), Ok(Verdict::Rejected(Check::ProgramId)));
}

#[test]
fn counts_beyond_the_capacity_are_rejected() {
    let mut plan = plan();
    plan.number_of_inputs = 3;
    plan.inputs[1] = (BOB, false, 0, program());
    let (public, private) = assemble(&plan);
    assert!(!check_program_ids(&private.input_records, &program(), &noop(), 3, 2));
    assert!(check_program_ids(&private.input_records, &program(), &noop(), 2, 2));
    assert_eq!(evaluate(public, private), Ok(Verdict::Rejected(Check::ProgramId)));
}

#[test]
fn program_ids_are_compared_as_field_elements() {
    let record = |program_id: Vec<u8>| {
        Record::new::<Devnet>(vec![1], false, 1, vec![], program_id, [0; 32], vec![]).unwrap()
    };
    // 48 bytes fill two field elements; a zero byte more in the second changes neither.
    let mut longer = program();
    longer.push(0);
    assert!(check_program_ids(&vec![record(longer)], &program(), &noop(), 1, 2));
    let mut other = program();
    other.push(1);
    assert!(!check_program_ids(&vec![record(other)], &program(), &noop(), 1, 2));
    assert!(!check_program_ids(&vec![record(vec![7u8; 63])], &program(), &noop(), 1, 2));
}

#[test]
fn spent_record_off_the_ledger_is_rejected() {
    let (mut public, private) = assemble(&plan());
    public.ledger_digest[0] ^= 1;
    assert_eq!(
        check_ledger_membership::<Devnet>(
            &private.input_records[0],
            &private.input_witnesses[0],
            &public.ledger_digest
        ),
        Ok(false)
    );
    assert_eq!(evaluate(public, private), Ok(Verdict::Rejected(Check::LedgerMembership)));
}

#[test]
fn dummy_needs_no_ledger_membership() {
    let (public, mut private) = assemble(&plan());
    private.input_witnesses[1] = LedgerWitness::blank();
    assert_eq!(
        check_ledger_membership::<Devnet>(
            &private.input_records[1],
            &private.input_witnesses[1],
            &public.ledger_digest
        ),
        Ok(true)
    );
    private.input_witnesses[1].traversal = vec![5];
    assert_eq!(evaluate(public, private), Ok(Verdict::Accepted));
}

#[test]
fn malformed_witness_of_a_real_input_is_an_error() {
    let (public, mut private) = assemble(&plan());
    private.input_witnesses[0].traversal = vec![2];
    assert_eq!(
        evaluate(public.clone(), private.clone()),
        Err(CircuitError::MerkleTrie(MerkleTrieError::TraversalOutOfBounds(0)))
    );
    private.input_witnesses[0].traversal = vec![];
    assert_eq!(evaluate(public, private), Err(CircuitError::MerkleTrie(MerkleTrieError::LengthMismatch)));
}

#[test]
fn empty_witness_of_a_real_input_is_rejected() {
    let (public, mut private) = assemble(&plan());
    private.input_witnesses[0] = LedgerWitness::blank();
    assert_eq!(evaluate(public, private), Ok(Verdict::Rejected(Check::LedgerMembership)));
}

#[test]
fn tampered_commitment_is_rejected() {
    let (public, mut private) = assemble(&plan());
    private.input_records[1].commitment[0] ^= 1;
    assert_eq!(private.input_records[1].check_well_formed::<Devnet>(), Ok(false));
    assert_eq!(evaluate(public, private), Ok(Verdict::Rejected(Check::RecordWellFormed)));
}

#[test]
fn dummy_with_value_payload_or_program_is_rejected() {
    let dummy = |value: u64, payload: Vec<u8>, program_id: Vec<u8>| {
        Record::new::<Devnet>(vec![1], true, value, payload, program_id, [0; 32], vec![2]).unwrap()
    };
    assert_eq!(dummy(0, vec![], noop()).check_well_formed::<Devnet>(), Ok(true));
    assert_eq!(dummy(1, vec![], noop()).check_well_formed::<Devnet>(), Ok(false));
    assert_eq!(dummy(0, vec![0], noop()).check_well_formed::<Devnet>(), Ok(false));
    assert_eq!(dummy(0, vec![], program()).check_well_formed::<Devnet>(), Ok(false));
    assert!(dummy(0, vec![], noop()).check_dummy_rules::<Devnet>());
    assert!(!dummy(0, vec![3], noop()).check_dummy_rules::<Devnet>());
    let mut plan = plan();
    plan.inputs[1].2 = 1;
    plan.value_balance = 1;
    let (public, private) = assemble(&plan);
    assert_eq!(evaluate(public, private), Ok(Verdict::Rejected(Check::RecordWellFormed)));
}

#[test]
fn new_dummy_is_well_formed() {
    let record = Record::new_dummy::<Devnet>(vec![4; 32], [9; 32], vec![1, 2, 3]).unwrap();
    assert!(record.is_dummy);
    assert_eq!(record.value, 0);
    assert!(record.payload.is_empty());
    assert_eq!(record.program_id, noop());
    assert_eq!(record.check_well_formed::<Devnet>(), Ok(true));
}

#[test]
fn commitment_round_trip() {
    let record = Record::new::<Devnet>(vec![1, 2], false, 77, vec![3], program(), [4; 32], vec![5, 6]).unwrap();
    assert_eq!(record.compute_commitment::<Devnet>(), Ok(record.commitment));
    assert_eq!(record.check_well_formed::<Devnet>(), Ok(true));
    let again = Record::new::<Devnet>(vec![1, 2], false, 77, vec![3], program(), [4; 32], vec![5, 6]).unwrap();
    assert_eq!(again.commitment, record.commitment);
}

#[test]
fn commitment_depends_on_randomness_and_fields() {
    let commit = |owner: Vec<u8>, value: u64, payload: Vec<u8>, nonce: u8, randomness: Vec<u8>| {
        Record::new::<Devnet>(owner, false, value, payload, program(), [nonce; 32], randomness).unwrap().commitment
    };
    let base = commit(vec![1, 2], 77, vec![3], 4, vec![5, 6]);
    assert_ne!(commit(vec![1, 2], 77, vec![3], 4, vec![5, 7]), base);
    assert_ne!(commit(vec![1, 2], 77, vec![3], 4, vec![5, 6, 0]), base);
    assert_ne!(commit(vec![1, 2], 78, vec![3], 4, vec![5, 6]), base);
    assert_ne!(commit(vec![1, 3], 77, vec![3], 4, vec![5, 6]), base);
    assert_ne!(commit(vec![1, 2], 77, vec![4], 4, vec![5, 6]), base);
    assert_ne!(commit(vec![1, 2], 77, vec![3], 5, vec![5, 6]), base);
}

#[test]
fn commitment_input_lists_the_fields_in_order() {
    let record = Record::new::<Devnet>(vec![0xaa, 0xbb], true, 0x0102, vec![0xcc], vec![0xdd, 0xee], [0x11; 32], vec![9])
        .unwrap();
    let mut expected = vec![0xaa, 0xbb, 1, 0x02, 0x01, 0, 0, 0, 0, 0, 0, 0xcc, 0xdd, 0xee];
    expected.extend([0x11; 32]);
    assert_eq!(record.commitment_input_bytes(), expected);
    let mut plaintext = vec![0x02, 0x01, 0, 0, 0, 0, 0, 0, 0xcc, 0xdd, 0xee];
    plaintext.extend([0x11; 32]);
    plaintext.push(9);
    assert_eq!(record.plaintext_bytes(), plaintext);
}

#[test]
fn output_with_another_public_commitment_is_rejected() {
    let (mut public, mut private) = assemble(&plan());
    private.kernel.commitments[0][0] ^= 1;
    public.transaction_id = private.kernel.to_transaction_id::<Devnet>().unwrap();
    assert_eq!(evaluate(public, private), Ok(Verdict::Rejected(Check::PublicCommitment)));
}

#[test]
fn output_with_a_nonce_of_its_own_is_rejected() {
    let (public, mut private) = assemble(&plan());
    let old = private.output_records[0].clone();
    let mut nonce = old.serial_number_nonce;
    nonce[0] ^= 1;
    let record = Record::new::<Devnet>(
        old.owner,
        old.is_dummy,
        old.value,
        old.payload,
        old.program_id,
        nonce,
        old.commitment_randomness,
    )
    .unwrap();
    private.kernel.commitments[0] = record.commitment;
    private.output_records[0] = record;
    assert_eq!(evaluate(public, private), Ok(Verdict::Rejected(Check::SerialNumberNonce)));
}

#[test]
fn output_nonce_pairs_with_the_input_in_the_same_place() {
    let plan = Plan {
        inputs: vec![(ALICE, false, 10, program()), (BOB, false, 5, program())],
        outputs: vec![(CAROL, false, 8, program()), (ALICE, false, 7, program())],
        value_balance: 0,
        number_of_inputs: 2,
        number_of_outputs: 2,
    };
    let (public, private) = assemble(&plan);
    assert_eq!(private.output_records[0].serial_number_nonce, private.kernel.serial_numbers[0]);
    assert_eq!(private.output_records[1].serial_number_nonce, private.kernel.serial_numbers[1]);
    assert_eq!(evaluate(public.clone(), private.clone()), Ok(Verdict::Accepted));
    // The same outputs in the other order: each now has the nonce of the other's place.
    let mut swapped = private;
    swapped.output_records.swap(0, 1);
    swapped.kernel.commitments.swap(0, 1);
    assert_eq!(evaluate(public, swapped), Ok(Verdict::Rejected(Check::SerialNumberNonce)));
}

#[test]
fn wrong_encrypted_record_id_is_rejected() {
    let (mut public, private) = assemble(&plan());
    public.encrypted_record_ids[0][0] ^= 1;
    assert_eq!(evaluate(public, private), Ok(Verdict::Rejected(Check::RecordEncryption)));
    let (public, mut private) = assemble(&self::plan());
    private.encrypted_record_randomizers[0][0] ^= 1;
    assert_eq!(evaluate(public, private), Ok(Verdict::Rejected(Check::RecordEncryption)));
}

#[test]
fn wrong_transaction_id_is_rejected() {
    let (mut public, private) = assemble(&plan());
    public.transaction_id[31] ^= 1;
    assert_eq!(check_transaction_id::<Devnet>(&private.kernel, &public.transaction_id), Ok(false));
    assert_eq!(evaluate(public, private), Ok(Verdict::Rejected(Check::TransactionId)));
}

#[test]
fn changed_memo_changes_the_transaction_id() {
    let (public, mut private) = assemble(&plan());
    private.kernel.memo = b"other".to_vec();
    assert_eq!(evaluate(public, private), Ok(Verdict::Rejected(Check::TransactionId)));
    let (public, mut private) = assemble(&self::plan());
    private.kernel.network_id = 2;
    assert_eq!(evaluate(public, private), Ok(Verdict::Rejected(Check::TransactionId)));
}

#[test]
fn kernel_bytes_list_the_fields_in_order() {
    let kernel = TransactionKernel::new(0x0102, vec![[0xaa; 32]], vec![[0xbb; 32], [0xcc; 32]], -2, vec![0xdd]);
    let mut expected = vec![0x02, 0x01];
    expected.extend([0xaa; 32]);
    expected.extend([0xbb; 32]);
    expected.extend([0xcc; 32]);
    expected.extend([0xfe, 0xff, 0xff, 0xff, 0xff, 0xff, 0xff, 0xff]);
    expected.push(0xdd);
    assert_eq!(kernel.to_bytes(), expected);
}

#[test]
fn signature_of_another_key_is_rejected() {
    let (public, mut private) = assemble(&plan());
    let message = private.kernel.to_bytes();
    let mut forged = private.signatures[0].clone();
    let last = forged.len() - 1;
    forged[last] ^= 1;
    private.signatures[0] = forged;
    assert_eq!(
        check_signature::<Devnet>(&private.input_records[0].owner, &message, &private.signatures[0]),
        Ok(false)
    );
    assert_eq!(evaluate(public, private), Ok(Verdict::Rejected(Check::Signature)));
}

#[test]
fn signature_on_another_message_is_rejected() {
    let (public, mut private) = assemble(&plan());
    private.signatures[0] = FnvSignature::sign(ALICE, b"another message");
    assert_eq!(evaluate(public, private), Ok(Verdict::Rejected(Check::Signature)));
}

#[test]
fn dummy_input_with_a_valid_signature_is_accepted() {
    let (public, private) = assemble(&plan());
    assert!(private.input_records[1].is_dummy);
    assert_eq!(
        check_signature::<Devnet>(&private.input_records[1].owner, &private.kernel.to_bytes(), &private.signatures[1]),
        Ok(true)
    );
    assert_eq!(evaluate(public, private), Ok(Verdict::Accepted));
}

#[test]
fn dummy_input_with_an_invalid_signature_is_rejected() {
    let (public, mut private) = assemble(&plan());
    private.signatures[1] = FnvSignature::sign(BOB, b"another message");
    assert_eq!(evaluate(public, private), Ok(Verdict::Rejected(Check::Signature)));
}

#[test]
fn signature_too_short_for_a_spend_key_is_an_error() {
    let (public, mut private) = assemble(&plan());
    private.signatures[0] = vec![1, 2, 3];
    assert_eq!(evaluate(public, private), Err(CircuitError::Signature(SignatureError::InvalidSignature)));
}

#[test]
fn lists_that_do_not_fit_are_an_error() {
    let (public, mut private) = assemble(&plan());
    private.signatures.pop();
    assert_eq!(evaluate(public, private), Err(CircuitError::MalformedWitness));
    let (public, mut private) = assemble(&plan());
    private.input_witnesses.push(LedgerWitness::blank());
    assert_eq!(evaluate(public, private), Err(CircuitError::MalformedWitness));
    let (public, mut private) = assemble(&plan());
    private.kernel.serial_numbers.pop();
    assert_eq!(evaluate(public, private), Err(CircuitError::MalformedWitness));
    let (public, mut private) = assemble(&plan());
    private.kernel.commitments.push([0; 32]);
    assert_eq!(evaluate(public, private), Err(CircuitError::MalformedWitness));
    let (public, mut private) = assemble(&plan());
    private.encrypted_record_randomizers.clear();
    assert_eq!(evaluate(public, private), Err(CircuitError::MalformedWitness));
    let (mut public, private) = assemble(&plan());
    public.encrypted_record_ids.push([0; 32]);
    assert_eq!(evaluate(public, private), Err(CircuitError::MalformedWitness));
}

#[test]
fn more_records_than_the_network_has_places_for_are_an_error() {
    let plan = Plan {
        inputs: vec![(ALICE, false, 1, program()), (BOB, false, 1, program()), (CAROL, false, 1, program())],
        outputs: vec![(CAROL, false, 3, program())],
        value_balance: 0,
        number_of_inputs: 2,
        number_of_outputs: 1,
    };
    let (public, private) = assemble(&plan);
    assert_eq!(evaluate(public, private), Err(CircuitError::MalformedWitness));
}

#[test]
fn missing_program_id_is_an_error() {
    let (mut public, private) = assemble(&plan());
    public.program_id = None;
    assert_eq!(evaluate(public, private), Err(CircuitError::MissingProgramId));
}

#[test]
fn first_failing_conjunct_is_reported() {
    let mut plan = plan();
    plan.value_balance = 5;
    let (mut public, mut private) = assemble(&plan);
    public.transaction_id[0] ^= 1;
    private.signatures[0] = FnvSignature::sign(ALICE, b"another message");
    assert_eq!(evaluate(public.clone(), private.clone()), Ok(Verdict::Rejected(Check::ValueBalance)));
    private.kernel.serial_numbers[1][0] ^= 1;
    assert_eq!(evaluate(public, private), Ok(Verdict::Rejected(Check::SerialNumber)));
}

#[test]
fn blank_circuit_has_the_shape_of_the_network() {
    let circuit = InnerCircuit::<Devnet>::blank();
    let public = circuit.public();
    let private = circuit.private();
    assert_eq!(public.transaction_id, [0u8; 32]);
    assert_eq!(public.ledger_digest, [0u8; 32]);
    assert_eq!(public.encrypted_record_ids, vec![[0u8; 32]; 2]);
    assert_eq!(public.program_id, Some(noop()));
    assert_eq!(private.input_records.len(), 2);
    assert_eq!(private.output_records.len(), 2);
    assert_eq!(private.input_witnesses.len(), 2);
    assert_eq!(private.signatures, vec![Vec::<u8>::new(); 2]);
    assert_eq!(private.encrypted_record_randomizers, vec![Vec::<u8>::new(); 2]);
    assert_eq!(private.kernel.serial_numbers, vec![[0u8; 32]; 2]);
    assert_eq!(private.kernel.commitments, vec![[0u8; 32]; 2]);
    assert_eq!(private.kernel.value_balance, 0);
    assert_eq!(private.number_of_inputs, 0);
    assert_eq!(private.number_of_outputs, 0);
    for record in private.input_records.iter().chain(&private.output_records) {
        assert!(record.is_dummy);
        assert_eq!(record.value, 0);
        assert_eq!(record.program_id, noop());
        assert_eq!(record.commitment, [0u8; 32]);
    }
    // A blank record carries a zero commitment, which is not its own.
    assert_eq!(circuit.evaluate(), Ok(Verdict::Rejected(Check::RecordWellFormed)));
}

#[test]
fn new_keeps_the_variables() {
    let (public, private) = assemble(&plan());
    let circuit = InnerCircuit::<Devnet>::new(public.clone(), private.clone());
    assert_eq!(circuit.public(), &public);
    assert_eq!(circuit.private(), &private);
}

fn rebuilt(old: &Record, payload: Vec<u8>, randomness: Vec<u8>) -> Record {
    Record::new::<Devnet>(
        old.owner.clone(),
        old.is_dummy,
        old.value,
        payload,
        old.program_id.clone(),
        old.serial_number_nonce,
        randomness,
    )
    .unwrap()
}

#[test]
fn failing_commitment_is_an_error() {
    let (public, mut private) = assemble(&plan());
    private.input_records[0].payload = vec![0; 5000];
    let length = private.input_records[0].commitment_input_bytes().len();
    let error = CommitmentError::IncorrectInputLength { length, max: 4096 };
    assert_eq!(private.input_records[0].compute_commitment::<Devnet>(), Err(error));
    assert_eq!(private.input_records[0].check_well_formed::<Devnet>(), Err(CircuitError::Commitment(error)));
    assert_eq!(evaluate(public, private), Err(CircuitError::Commitment(error)));
    let made = Record::new::<Devnet>(vec![], false, 0, vec![], vec![], [0; 32], vec![0; 257]);
    assert_eq!(made, Err(CommitmentError::InvalidRandomness));
    let made = Record::new_dummy::<Devnet>(vec![], [0; 32], vec![0; 257]);
    assert_eq!(made, Err(CommitmentError::InvalidRandomness));
}

#[test]
fn dummy_that_breaks_the_rules_is_rejected_before_it_is_committed_to() {
    let (public, mut private) = assemble(&plan());
    private.input_records[1].payload = vec![0; 5000];
    assert_eq!(private.input_records[1].check_well_formed::<Devnet>(), Ok(false));
    assert_eq!(evaluate(public, private), Ok(Verdict::Rejected(Check::RecordWellFormed)));
}

#[test]
fn failing_serial_number_function_is_an_error() {
    let (public, mut private) = assemble(&plan());
    private.signatures[0] = FnvSignature::sign(&[1; 300], &private.kernel.to_bytes());
    assert_eq!(
        private.input_records[0].serial_number::<Devnet>(&private.signatures[0]),
        Err(CircuitError::PRF(PRFError::InvalidSeed))
    );
    assert_eq!(evaluate(public, private), Err(CircuitError::PRF(PRFError::InvalidSeed)));
}

#[test]
fn failing_encryption_is_an_error() {
    let (public, mut private) = assemble(&plan());
    let record = rebuilt(&private.output_records[0], vec![1; 2100], vec![2; 16]);
    private.kernel.commitments[0] = record.commitment;
    private.output_records[0] = record;
    let length = private.output_records[0].plaintext_bytes().len();
    assert_eq!(length, 8 + 2100 + 48 + 32 + 16);
    let error = CircuitError::Encryption(EncryptionError::IncorrectInputLength { length, max: 2048 });
    assert_eq!(private.output_records[0].encrypted_record_id::<Devnet>(&[1]), Err(error));
    assert_eq!(evaluate(public, private), Err(error));
    let (public, mut private) = assemble(&plan());
    private.encrypted_record_randomizers[0] = vec![0; 257];
    assert_eq!(evaluate(public, private), Err(CircuitError::Encryption(EncryptionError::InvalidRandomness)));
}

#[test]
fn failing_transaction_id_hash_is_an_error() {
    let (public, mut private) = assemble(&plan());
    private.kernel.memo = vec![0; 70000];
    let length = private.kernel.to_bytes().len();
    let error = CRHError::IncorrectInputLength { length, max: 65536 };
    assert_eq!(private.kernel.to_transaction_id::<Devnet>(), Err(error));
    assert_eq!(check_transaction_id::<Devnet>(&private.kernel, &public.transaction_id), Err(CircuitError::CRH(error)));
    assert_eq!(evaluate(public, private), Err(CircuitError::CRH(error)));
}

#[test]
fn failing_ledger_hash_is_an_error() {
    let (public, mut private) = assemble(&plan());
    private.input_witnesses[0].key = vec![0; 70000];
    let error = CRHError::IncorrectInputLength { length: 8 + 70000 + 1 + 8 + 32, max: 65536 };
    assert_eq!(evaluate(public, private), Err(CircuitError::MerkleTrie(MerkleTrieError::CRHError(error))));
}
