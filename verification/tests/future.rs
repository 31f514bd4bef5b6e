use shielded_ledger::future::Future;

#[test]
fn future_keeps_what_it_is_made_of() {
    let future = Future::new("token.program".to_string(), "transfer".to_string(), vec![1u64, 2, 3]);
    assert_eq!(future.program_id(), "token.program");
    assert_eq!(future.function_name(), "transfer");
    assert_eq!(future.inputs(), &[1, 2, 3]);
}

#[test]
fn future_without_inputs() {
    let future: Future<u8, u8, Vec<u8>> = Future::new(1, 2, vec![]);
    assert_eq!(*future.program_id(), 1);
    assert_eq!(*future.function_name(), 2);
    assert!(future.inputs().is_empty());
}

#[test]
fn future_is_cloned_with_its_inputs() {
    let future = Future::new(7u32, "f", vec![vec![1u8], vec![2, 3]]);
    let copy = future.clone();
    assert_eq!(copy.program_id(), future.program_id());
    assert_eq!(copy.function_name(), future.function_name());
    assert_eq!(copy.inputs(), future.inputs());
}
