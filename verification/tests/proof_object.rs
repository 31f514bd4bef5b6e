use shielded_ledger::errors::SNARKError;
use shielded_ledger::marlin::circuit_id::CircuitId;
use shielded_ledger::marlin::commitments::{part_kind, CommitmentPart, Commitments, PartKind, WitnessCommitments};
use shielded_ledger::marlin::evaluations::{evaluation_part_kind, EvaluationPart, EvaluationPartKind, Evaluations};
use shielded_ledger::marlin::label::{contains, find, parse_usize};
use shielded_ledger::marlin::snark_proof::{check_batch_sizes, total_batch_size, Proof};

type TestProof = Proof<u32, u64, String, Vec<u8>>;

fn witness(n: u32) -> WitnessCommitments<u32> {
    WitnessCommitments { w: n, z_a: n + 1, z_b: n + 2 }
}

/// Commitments for three instances in all.
fn commitments() -> Commitments<u32> {
    Commitments {
        witness_commitments: vec![witness(10), witness(20), witness(30)],
        mask_poly: Some(1),
        g_1: 2,
        h_1: 3,
        g_a_commitments: vec![40, 41, 42],
        g_b_commitments: vec![50, 51, 52],
        g_c_commitments: vec![60, 61, 62],
        h_2: 4,
    }
}

/// Evaluations for a circuit with two instances and one with one.
fn evaluations() -> Evaluations<u64> {
    Evaluations {
        z_b_evals: vec![vec![100, 101], vec![200]],
        g_1_eval: 7,
        g_a_evals: vec![300, 301],
        g_b_evals: vec![400, 401],
        g_c_evals: vec![500, 501],
    }
}

fn new_proof(batch_sizes: Vec<usize>, total: usize, evaluations: Evaluations<u64>) -> Result<TestProof, SNARKError> {
    Proof::new(batch_sizes, total, commitments(), evaluations, "message".to_string(), vec![9, 9])
}

#[test]
fn new_accepts_sizes_that_fit() {
    let proof = new_proof(vec![2, 1], 3, evaluations()).unwrap();
    assert_eq!(proof.batch_sizes(), Ok(&vec![2, 1]));
    assert_eq!(proof.commitments, commitments());
    assert_eq!(proof.evaluations, evaluations());
    assert_eq!(proof.msg, "message");
    assert_eq!(proof.pc_proof, vec![9, 9]);
}

#[test]
fn new_refuses_another_number_of_witness_commitments() {
    assert_eq!(new_proof(vec![2, 1], 2, evaluations()), Err(SNARKError::BatchSizeMismatch));
    assert_eq!(new_proof(vec![2, 1], 4, evaluations()), Err(SNARKError::BatchSizeMismatch));
}

#[test]
fn new_refuses_a_list_of_another_length() {
    assert_eq!(new_proof(vec![2, 2], 3, evaluations()), Err(SNARKError::BatchSizeMismatch));
    assert_eq!(new_proof(vec![1, 1], 3, evaluations()), Err(SNARKError::BatchSizeMismatch));
    let mut longer = evaluations();
    longer.z_b_evals[1].push(201);
    assert_eq!(new_proof(vec![2, 1], 3, longer), Err(SNARKError::BatchSizeMismatch));
}

#[test]
fn new_refuses_more_lists_than_batch_sizes() {
    assert_eq!(new_proof(vec![2], 3, evaluations()), Err(SNARKError::BatchSizeMismatch));
    assert_eq!(new_proof(vec![3], 3, evaluations()), Err(SNARKError::BatchSizeMismatch));
    assert_eq!(new_proof(vec![], 3, evaluations()), Err(SNARKError::BatchSizeMismatch));
}

#[test]
fn new_refuses_batch_sizes_without_a_list() {
    assert_eq!(new_proof(vec![2, 1, 5], 3, evaluations()), Err(SNARKError::BatchSizeMismatch));
    assert_eq!(new_proof(vec![2, 1, 0], 3, evaluations()), Err(SNARKError::BatchSizeMismatch));
    let mut fewer = evaluations();
    fewer.z_b_evals.pop();
    assert_eq!(new_proof(vec![2, 1], 3, fewer.clone()), Err(SNARKError::BatchSizeMismatch));
    assert_eq!(new_proof(vec![2], 3, fewer), Err(SNARKError::BatchSizeMismatch));
}

#[test]
fn new_refuses_batch_sizes_that_do_not_sum_to_the_instances() {
    let two = Evaluations { z_b_evals: vec![vec![100, 101], vec![]], ..evaluations() };
    // The lists fit the sizes, but 2 + 0 is not the number of instances.
    assert_eq!(new_proof(vec![2, 0], 3, two), Err(SNARKError::BatchSizeMismatch));
    let four = Evaluations { z_b_evals: vec![vec![100, 101], vec![200, 201]], ..evaluations() };
    assert_eq!(new_proof(vec![2, 2], 3, four), Err(SNARKError::BatchSizeMismatch));
    let huge = Evaluations { z_b_evals: vec![vec![], vec![]], ..evaluations() };
    assert_eq!(new_proof(vec![0, 0], 3, huge), Err(SNARKError::BatchSizeMismatch));
    let three = Evaluations { z_b_evals: vec![vec![100, 101, 102]], ..evaluations() };
    assert!(new_proof(vec![3], 3, three).is_ok());
}

#[test]
fn batch_sizes_are_checked_again() {
    let mut proof = new_proof(vec![2, 1], 3, evaluations()).unwrap();
    proof.evaluations.z_b_evals[0].pop();
    assert_eq!(proof.batch_sizes(), Err(SNARKError::BatchSizeMismatch));
    let mut proof = new_proof(vec![2, 1], 3, evaluations()).unwrap();
    proof.commitments.witness_commitments.pop();
    assert_eq!(proof.batch_sizes(), Err(SNARKError::BatchSizeMismatch));
    let mut proof = new_proof(vec![2, 1], 3, evaluations()).unwrap();
    proof.commitments.witness_commitments.push(witness(40));
    assert_eq!(proof.batch_sizes(), Err(SNARKError::BatchSizeMismatch));
}

#[test]
fn batch_sizes_refuse_surplus_lists_and_surplus_sizes() {
    // One list less than there are sizes.
    let mut proof = new_proof(vec![2, 1], 3, evaluations()).unwrap();
    proof.evaluations.z_b_evals.pop();
    assert_eq!(proof.batch_sizes(), Err(SNARKError::BatchSizeMismatch));
    // It stays refused where the witness commitments number the sizes that still have a list.
    proof.commitments.witness_commitments.pop();
    assert_eq!(proof.batch_sizes(), Err(SNARKError::BatchSizeMismatch));
    // One list more than there are sizes.
    let mut proof = new_proof(vec![2, 1], 3, evaluations()).unwrap();
    proof.evaluations.z_b_evals.push(vec![]);
    assert_eq!(proof.batch_sizes(), Err(SNARKError::BatchSizeMismatch));
    proof.evaluations.z_b_evals.pop();
    assert_eq!(proof.batch_sizes(), Ok(&vec![2, 1]));
}

#[test]
fn sums_of_batch_sizes_do_not_wrap_around() {
    assert_eq!(total_batch_size(&vec![usize::MAX, 1]), None);
    assert_eq!(total_batch_size(&vec![usize::MAX - 1, 1]), Some(usize::MAX));
    assert_eq!(total_batch_size(&vec![]), Some(0));
    assert_eq!(total_batch_size(&vec![3, 4, 5]), Some(12));
    let lists: Vec<Vec<u64>> = vec![vec![], vec![1]];
    assert!(!check_batch_sizes(&vec![usize::MAX, 1], &lists, 0));
    assert!(check_batch_sizes(&vec![0, 1], &lists, 1));
    assert!(!check_batch_sizes(&vec![0, 1], &lists, 2));
    assert!(!check_batch_sizes(&vec![1, 0], &lists, 1));
    assert!(!check_batch_sizes(&vec![0], &lists, 0));
    assert!(!check_batch_sizes(&vec![0, 1, 0], &lists, 1));
    assert!(check_batch_sizes::<u64>(&vec![], &vec![], 0));
    assert!(!check_batch_sizes::<u64>(&vec![], &vec![], 1));
}

#[test]
fn proof_without_instances() {
    let none = Commitments {
        witness_commitments: vec![],
        g_a_commitments: vec![],
        g_b_commitments: vec![],
        g_c_commitments: vec![],
        ..commitments()
    };
    let evaluations = Evaluations { z_b_evals: vec![vec![]], g_1_eval: 0u64, g_a_evals: vec![], g_b_evals: vec![], g_c_evals: vec![] };
    let proof: TestProof =
        Proof::from_parts(vec![0], none.clone().into_parts(), evaluations.clone(), String::new(), vec![]).unwrap();
    assert_eq!(proof.batch_sizes(), Ok(&vec![0]));
    let bare = Evaluations { z_b_evals: vec![], ..evaluations };
    let made: Result<TestProof, _> = Proof::from_parts(vec![], none.into_parts(), bare, String::new(), vec![]);
    assert_eq!(made.unwrap().batch_sizes(), Ok(&vec![]));
}

#[test]
fn commitments_are_written_in_order() {
    let parts = commitments().into_parts();
    let single = |c: u32| CommitmentPart::Single(c);
    assert_eq!(
        parts,
        vec![
            CommitmentPart::Witness(witness(10)),
            CommitmentPart::Witness(witness(20)),
            CommitmentPart::Witness(witness(30)),
            CommitmentPart::MaskPoly(Some(1)),
            single(2),
            single(3),
            single(40),
            single(41),
            single(42),
            single(50),
            single(51),
            single(52),
            single(60),
            single(61),
            single(62),
            single(4),
        ]
    );
}

#[test]
fn commitments_round_trip_through_their_parts() {
    assert_eq!(Commitments::from_parts(3, commitments().into_parts()), Ok(commitments()));
    let without_mask = Commitments { mask_poly: None, ..commitments() };
    assert_eq!(Commitments::from_parts(3, without_mask.clone().into_parts()), Ok(without_mask));
    let none = Commitments::<u32> {
        witness_commitments: vec![],
        mask_poly: None,
        g_1: 1,
        h_1: 2,
        g_a_commitments: vec![],
        g_b_commitments: vec![],
        g_c_commitments: vec![],
        h_2: 3,
    };
    assert_eq!(none.clone().into_parts().len(), 4);
    assert_eq!(Commitments::from_parts(0, none.clone().into_parts()), Ok(none));
}

#[test]
fn parts_of_another_shape_are_refused() {
    assert_eq!(Commitments::from_parts(2, commitments().into_parts()), Err(SNARKError::InvalidLayout));
    assert_eq!(Commitments::from_parts(4, commitments().into_parts()), Err(SNARKError::InvalidLayout));
    assert_eq!(Commitments::<u32>::from_parts(0, vec![]), Err(SNARKError::InvalidLayout));
    assert_eq!(Commitments::<u32>::from_parts(usize::MAX, vec![]), Err(SNARKError::InvalidLayout));
    let mut parts = commitments().into_parts();
    parts.swap(3, 4);
    assert_eq!(Commitments::from_parts(3, parts), Err(SNARKError::InvalidLayout));
    let mut parts = commitments().into_parts();
    parts[0] = CommitmentPart::Single(1);
    assert_eq!(Commitments::from_parts(3, parts), Err(SNARKError::InvalidLayout));
    let mut parts = commitments().into_parts();
    parts[15] = CommitmentPart::MaskPoly(None);
    assert_eq!(Commitments::from_parts(3, parts), Err(SNARKError::InvalidLayout));
}

#[test]
fn serialized_size_adds_up_the_parts() {
    // 3 * 30 + 11 + 10 + 10 + 3 * 10 + 3 * 10 + 3 * 10 + 10
    assert_eq!(commitments().serialized_size(30, 11, 10), Some(221));
    assert_eq!(commitments().serialized_size(0, 0, 0), Some(0));
    assert_eq!(commitments().serialized_size(1, 1, 1), Some(16));
    assert_eq!(commitments().serialized_size(usize::MAX, 1, 1), None);
    assert_eq!(commitments().serialized_size(1, usize::MAX, 1), None);
    assert_eq!(commitments().serialized_size(1, 1, usize::MAX / 2), None);
}

#[test]
fn proof_round_trips_through_its_parts() {
    let mut commitments = commitments();
    commitments.witness_commitments = vec![witness(1), witness(2), witness(3)];
    let proof: TestProof =
        Proof::new(vec![2, 1], 3, commitments.clone(), evaluations(), "m".to_string(), vec![1]).unwrap();
    let (batch_sizes, parts, evaluations_out, msg, pc_proof) = proof.clone().into_parts();
    assert_eq!(batch_sizes, vec![2, 1]);
    assert_eq!(parts, commitments.into_parts());
    assert_eq!(evaluations_out, evaluations());
    let again: TestProof = Proof::from_parts(batch_sizes, parts, evaluations_out, msg, pc_proof).unwrap();
    assert_eq!(again, proof);
}

#[test]
fn proof_parts_with_evaluations_that_do_not_fit_are_refused() {
    let parts = commitments().into_parts();
    let from = |batch_sizes: Vec<usize>, evaluations: Evaluations<u64>| -> Result<TestProof, SNARKError> {
        Proof::from_parts(batch_sizes, parts.clone(), evaluations, String::new(), vec![])
    };
    assert!(from(vec![2, 1], evaluations()).is_ok());
    assert_eq!(from(vec![1, 2], evaluations()), Err(SNARKError::BatchSizeMismatch));
    assert_eq!(from(vec![2, 1, 0], evaluations()), Err(SNARKError::BatchSizeMismatch));
    assert_eq!(from(vec![3], evaluations()), Err(SNARKError::BatchSizeMismatch));
    let mut fewer = evaluations();
    fewer.z_b_evals.pop();
    assert_eq!(from(vec![2, 1], fewer), Err(SNARKError::BatchSizeMismatch));
    // The shape of the commitments is looked at first.
    assert_eq!(from(vec![1, 1], evaluations()), Err(SNARKError::InvalidLayout));
}

#[test]
fn proof_parts_for_another_total_are_refused() {
    let parts = commitments().into_parts();
    let made: Result<TestProof, _> = Proof::from_parts(vec![2, 2], parts.clone(), evaluations(), String::new(), vec![]);
    assert_eq!(made, Err(SNARKError::InvalidLayout));
    let made: Result<TestProof, _> =
        Proof::from_parts(vec![usize::MAX, 2], parts, evaluations(), String::new(), vec![]);
    assert_eq!(made, Err(SNARKError::InvalidLayout));
}

#[test]
fn field_elements_are_listed_in_order() {
    assert_eq!(evaluations().to_field_elements(), vec![100, 101, 200, 7, 300, 301, 400, 401, 500, 501]);
    let bare = Evaluations { z_b_evals: vec![], g_1_eval: 5u64, g_a_evals: vec![], g_b_evals: vec![], g_c_evals: vec![] };
    assert_eq!(bare.to_field_elements(), vec![5]);
}

#[test]
fn get_finds_evaluations_by_label() {
    let evaluations = evaluations();
    assert_eq!(evaluations.get(0, "g_1"), Some(7));
    assert_eq!(evaluations.get(9, "g_1"), Some(7));
    assert_eq!(evaluations.get(0, "circuit_00_z_b_00000001"), Some(101));
    assert_eq!(evaluations.get(0, "circuit_00_z_b_00000000"), Some(100));
    assert_eq!(evaluations.get(1, "circuit_01_z_b_0"), Some(200));
    assert_eq!(evaluations.get(1, "z_b_+0"), Some(200));
    assert_eq!(evaluations.get(0, "circuit_00_g_a"), Some(300));
    assert_eq!(evaluations.get(1, "circuit_01_g_a"), Some(301));
    assert_eq!(evaluations.get(1, "circuit_01_g_b"), Some(401));
    assert_eq!(evaluations.get(0, "circuit_00_g_c"), Some(500));
}

#[test]
fn get_finds_nothing_beyond_the_lists() {
    let evaluations = evaluations();
    assert_eq!(evaluations.get(0, "circuit_00_z_b_00000002"), None);
    assert_eq!(evaluations.get(1, "circuit_01_z_b_00000001"), None);
    assert_eq!(evaluations.get(2, "circuit_02_z_b_00000000"), None);
    assert_eq!(evaluations.get(2, "circuit_02_g_a"), None);
    assert_eq!(evaluations.get(2, "circuit_02_g_b"), None);
    assert_eq!(evaluations.get(2, "circuit_02_g_c"), None);
    assert_eq!(evaluations.get(0, "circuit_00_h_1"), None);
    assert_eq!(evaluations.get(0, ""), None);
    assert_eq!(evaluations.get(0, "g_1 "), None);
}

#[test]
fn get_finds_nothing_for_an_instance_that_is_no_number() {
    let evaluations = evaluations();
    assert_eq!(evaluations.get(0, "circuit_00_z_b_"), None);
    assert_eq!(evaluations.get(0, "circuit_00_z_b_x"), None);
    assert_eq!(evaluations.get(0, "circuit_00_z_b_-1"), None);
    assert_eq!(evaluations.get(0, "circuit_00_z_b_1 "), None);
    assert_eq!(evaluations.get(0, "circuit_00_z_b_99999999999999999999999999"), None);
}

#[test]
fn get_prefers_z_b_over_the_other_names() {
    let evaluations = evaluations();
    assert_eq!(evaluations.get(0, "g_a_z_b_1"), Some(101));
    assert_eq!(evaluations.get(0, "g_c_g_b_g_a"), Some(300));
    assert_eq!(evaluations.get(0, "g_c_g_b"), Some(400));
}

fn id(fill: u8) -> CircuitId {
    CircuitId([fill; 32])
}

fn label(fill: u8, rest: &str) -> String {
    let hex: String = [fill; 32].iter().map(|b| format!("{:02x}", b)).collect();
    format!("circuit_{}_{}", hex, rest)
}

#[test]
fn from_map_gathers_the_evaluations() {
    let map = vec![
        (label(0x0a, "g_a"), 300u64),
        (label(0x0a, "g_b"), 400),
        (label(0x0a, "g_c"), 500),
        (label(0x0a, "z_b_00000000"), 100),
        (label(0x0a, "z_b_00000001"), 101),
        (label(0x0b, "g_a"), 301),
        (label(0x0b, "g_b"), 401),
        (label(0x0b, "g_c"), 501),
        (label(0x0b, "z_b_00000000"), 200),
        ("g_1".to_string(), 7),
    ];
    let batch_sizes = vec![(id(0x0a), 2), (id(0x0b), 1)];
    assert_eq!(Evaluations::from_map(&map, &batch_sizes), Ok(evaluations()));
}

#[test]
fn from_map_orders_the_groups_by_circuit() {
    let map = vec![
        (label(0xff, "z_b_0"), 1u64),
        (label(0x01, "z_b_0"), 2),
        (label(0x80, "z_b_0"), 3),
        (label(0x01, "z_b_1"), 4),
        (label(0xff, "z_b_1"), 5),
        ("g_1".to_string(), 6),
    ];
    let batch_sizes = vec![(id(0x80), 1), (id(0xff), 2), (id(0x01), 2)];
    let evaluations = Evaluations::from_map(&map, &batch_sizes).unwrap();
    assert_eq!(evaluations.z_b_evals, vec![vec![2, 4], vec![3], vec![1, 5]]);
    assert_eq!(evaluations.g_1_eval, 6);
}

#[test]
fn from_map_stops_at_g_1() {
    let map = vec![
        (label(0x01, "g_a"), 1u64),
        ("g_1".to_string(), 2),
        (label(0x01, "g_a"), 3),
        ("not a label".to_string(), 4),
        ("g_1".to_string(), 5),
    ];
    let evaluations = Evaluations::from_map(&map, &vec![]).unwrap();
    assert_eq!(evaluations.g_a_evals, vec![1]);
    assert_eq!(evaluations.g_1_eval, 2);
    assert!(evaluations.z_b_evals.is_empty());
}

#[test]
fn from_map_passes_over_other_polynomials() {
    let map = vec![(label(0x01, "h_0"), 1u64), (label(0x01, "w_00000000"), 2), ("g_1".to_string(), 3)];
    let evaluations = Evaluations::from_map(&map, &vec![]).unwrap();
    assert_eq!(evaluations.to_field_elements(), vec![3]);
}

#[test]
fn from_map_refuses_a_label_without_circuit() {
    let short = "circuit_0a0b_g_a".to_string();
    assert_eq!(Evaluations::from_map(&vec![(short, 1u64), ("g_1".to_string(), 2)], &vec![]), Err(SNARKError::InvalidLabel));
    let no_separator = "circuit".to_string();
    assert_eq!(Evaluations::from_map(&vec![(no_separator, 1u64), ("g_1".to_string(), 2)], &vec![]), Err(SNARKError::InvalidLabel));
    let not_hex = format!("circuit_{}_g_a", "xy".repeat(32));
    assert_eq!(Evaluations::from_map(&vec![(not_hex, 1u64), ("g_1".to_string(), 2)], &vec![]), Err(SNARKError::InvalidLabel));
}

#[test]
fn from_map_refuses_a_circuit_without_batch_size() {
    let map = vec![(label(0x0a, "z_b_0"), 1u64), ("g_1".to_string(), 2)];
    assert_eq!(Evaluations::from_map(&map, &vec![(id(0x0b), 1)]), Err(SNARKError::UnknownCircuit));
    assert_eq!(Evaluations::from_map(&map, &vec![(id(0x0b), 1), (id(0x0a), 1)]).map(|e| e.z_b_evals), Ok(vec![vec![1]]));
}

#[test]
fn from_map_needs_g_1() {
    let map = vec![(label(0x0a, "g_a"), 1u64)];
    assert_eq!(Evaluations::from_map(&map, &vec![]), Err(SNARKError::MissingEvaluation));
    assert_eq!(Evaluations::<u64>::from_map(&vec![], &vec![]), Err(SNARKError::MissingEvaluation));
}

#[test]
fn circuit_id_is_read_from_the_second_piece() {
    assert_eq!(CircuitId::from_witness_label(label(0xab, "z_b_1").as_bytes()), Some(id(0xab)));
    let upper = format!("x_{}", "AB".repeat(32));
    assert_eq!(CircuitId::from_witness_label(upper.as_bytes()), Some(id(0xab)));
    let mixed = format!("_{}_", "0f".repeat(31) + "F0");
    let mut expected = [0x0f; 32];
    expected[31] = 0xf0;
    assert_eq!(CircuitId::from_witness_label(mixed.as_bytes()), Some(CircuitId(expected)));
    assert_eq!(CircuitId::from_witness_label(b"g_1"), None);
    assert_eq!(CircuitId::from_witness_label(b""), None);
    assert_eq!(CircuitId::from_witness_label(format!("circuit_{}", "0".repeat(63)).as_bytes()), None);
    assert_eq!(CircuitId::from_witness_label(format!("circuit_{}", "0".repeat(65)).as_bytes()), None);
    assert_eq!(CircuitId::from_witness_label(format!("circuit_{}g", "0".repeat(63)).as_bytes()), None);
}

#[test]
fn circuit_ids_are_ordered_byte_by_byte() {
    let mut low = [0u8; 32];
    low[31] = 0xff;
    let mut high = [0u8; 32];
    high[0] = 1;
    assert!(CircuitId(low).lt(&CircuitId(high)));
    assert!(!CircuitId(high).lt(&CircuitId(low)));
    assert!(!id(3).lt(&id(3)));
    assert!(id(3).same(&id(3)));
    assert!(!id(3).same(&id(4)));
    assert_eq!(CircuitId(low).lt(&CircuitId(high)), CircuitId(low) < CircuitId(high));
    assert_eq!(id(0x7f).lt(&id(0x80)), id(0x7f) < id(0x80));
}

#[test]
fn find_gives_the_first_place() {
    assert_eq!(find(b"abcabc", b"bc"), Some(1));
    assert_eq!(find(b"abcabc", b"abc"), Some(0));
    assert_eq!(find(b"abcabc", b"cab"), Some(2));
    assert_eq!(find(b"abcabc", b"abcabc"), Some(0));
    assert_eq!(find(b"abcabc", b"abcabcd"), None);
    assert_eq!(find(b"abcabc", b"x"), None);
    assert_eq!(find(b"abcabc", b""), Some(0));
    assert_eq!(find(b"", b""), Some(0));
    assert_eq!(find(b"", b"a"), None);
    assert_eq!(find(b"aab", b"ab"), Some(1));
    assert!(contains(b"xg_ay", b"g_a"));
    assert!(!contains(b"xg_y", b"g_a"));
}

#[test]
fn parse_usize_reads_decimal_numbers() {
    assert_eq!(parse_usize(b"0"), Some(0));
    assert_eq!(parse_usize(b"00000012"), Some(12));
    assert_eq!(parse_usize(b"+7"), Some(7));
    assert_eq!(parse_usize(usize::MAX.to_string().as_bytes()), Some(usize::MAX));
    assert_eq!(parse_usize(b"18446744073709551616"), "18446744073709551616".parse::<usize>().ok());
    assert_eq!(parse_usize(b""), None);
    assert_eq!(parse_usize(b"+"), None);
    assert_eq!(parse_usize(b"++1"), None);
    assert_eq!(parse_usize(b"-1"), None);
    assert_eq!(parse_usize(b"1a"), None);
    assert_eq!(parse_usize(b" 1"), None);
    for text in ["12", "+12", "012", "", "+", "-0", "1_000", "99999999999999999999999"] {
        assert_eq!(parse_usize(text.as_bytes()), text.parse::<usize>().ok(), "{:?}", text);
    }
}

#[test]
fn part_kinds_follow_the_written_order() {
    let kinds: Vec<_> = (0..18).map(|i| part_kind(3, i)).collect();
    let mut expected = vec![Some(PartKind::Witness); 3];
    expected.push(Some(PartKind::MaskPoly));
    expected.extend(vec![Some(PartKind::Single); 12]);
    expected.extend(vec![None; 2]);
    assert_eq!(kinds, expected);
    assert_eq!(part_kind(0, 0), Some(PartKind::MaskPoly));
    assert_eq!(part_kind(0, 3), Some(PartKind::Single));
    assert_eq!(part_kind(0, 4), None);
    assert_eq!(part_kind(usize::MAX, usize::MAX - 1), Some(PartKind::Witness));
    assert_eq!(part_kind(usize::MAX, usize::MAX), Some(PartKind::MaskPoly));
    assert_eq!(part_kind(usize::MAX / 2, usize::MAX), Some(PartKind::Single));
    assert_eq!(part_kind(usize::MAX / 4 - 1, usize::MAX), None);
    assert_eq!(part_kind(usize::MAX / 4, usize::MAX), Some(PartKind::Single));
    for (i, part) in commitments().into_parts().iter().enumerate() {
        let kind = match part {
            CommitmentPart::Witness(_) => PartKind::Witness,
            CommitmentPart::MaskPoly(_) => PartKind::MaskPoly,
            CommitmentPart::Single(_) => PartKind::Single,
        };
        assert_eq!(part_kind(3, i), Some(kind));
    }
}

#[test]
fn evaluations_are_written_in_order() {
    let parts = evaluations().into_parts();
    assert_eq!(
        parts,
        vec![
            EvaluationPart::Lists(vec![vec![100, 101], vec![200]]),
            EvaluationPart::Single(7),
            EvaluationPart::List(vec![300, 301]),
            EvaluationPart::List(vec![400, 401]),
            EvaluationPart::List(vec![500, 501]),
        ]
    );
    assert_eq!(Evaluations::from_parts(parts), Ok(evaluations()));
    let kinds: Vec<_> = (0..7).map(evaluation_part_kind).collect();
    assert_eq!(
        kinds,
        vec![
            Some(EvaluationPartKind::Lists),
            Some(EvaluationPartKind::Single),
            Some(EvaluationPartKind::List),
            Some(EvaluationPartKind::List),
            Some(EvaluationPartKind::List),
            None,
            None,
        ]
    );
    assert_eq!(evaluation_part_kind(usize::MAX), None);
}

#[test]
fn evaluation_parts_of_another_shape_are_refused() {
    let refused = |parts: Vec<EvaluationPart<u64>>| {
        assert_eq!(Evaluations::from_parts(parts), Err(SNARKError::InvalidLayout));
    };
    refused(vec![]);
    let mut parts = evaluations().into_parts();
    parts.pop();
    refused(parts);
    let mut parts = evaluations().into_parts();
    parts.push(EvaluationPart::List(vec![]));
    refused(parts);
    let mut parts = evaluations().into_parts();
    parts.swap(0, 1);
    refused(parts);
    let mut parts = evaluations().into_parts();
    parts.swap(1, 2);
    refused(parts);
    let mut parts = evaluations().into_parts();
    parts[4] = EvaluationPart::Single(1);
    refused(parts);
    let mut parts = evaluations().into_parts();
    parts[0] = EvaluationPart::List(vec![]);
    refused(parts);
    // The lists of the `g_a`, the `g_b` and the `g_c` are told apart by their places alone.
    let mut parts = evaluations().into_parts();
    parts.swap(2, 4);
    let swapped = Evaluations::from_parts(parts).unwrap();
    assert_eq!(swapped.g_a_evals, vec![500, 501]);
    assert_eq!(swapped.g_c_evals, vec![300, 301]);
}

#[test]
fn get_finds_what_from_map_gathered() {
    let map = vec![
        (label(0x0a, "g_a"), 300u64),
        (label(0x0a, "g_b"), 400),
        (label(0x0a, "g_c"), 500),
        (label(0x0a, "z_b_00000000"), 100),
        (label(0x0a, "z_b_00000001"), 101),
        (label(0x0b, "g_a"), 301),
        (label(0x0b, "g_b"), 401),
        (label(0x0b, "g_c"), 501),
        (label(0x0b, "z_b_00000000"), 200),
        ("g_1".to_string(), 7),
    ];
    let batch_sizes = vec![(id(0x0a), 2), (id(0x0b), 1)];
    let evaluations = Evaluations::from_map(&map, &batch_sizes).unwrap();
    for (entry, value) in &map {
        let circuit_index = if entry.contains(&"0b".repeat(32)) { 1 } else { 0 };
        assert_eq!(evaluations.get(circuit_index, entry), Some(*value), "{}", entry);
    }
}
