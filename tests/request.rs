use snarkify_prover::circuit::{Finality, Network};
use snarkify_prover::encode::encode_proof;
use snarkify_prover::request::{
    failed_receipt, header_circuit, plan_tasks, proved_receipt, respond, validate_range, Input,
    RequestError,
};

#[test]
fn request_within_four_blocks_is_one_task() {
    let tasks = plan_tasks(&Input::new(100, 103)).unwrap();
    assert_eq!(tasks.len(), 1);
    assert_eq!((tasks[0].start, tasks[0].end), (100, 103));
    assert_eq!(tasks[0].circuit_type, header_circuit());
}

#[test]
fn single_block_request() {
    let tasks = plan_tasks(&Input::new(5, 5)).unwrap();
    assert_eq!((tasks.len(), tasks[0].start, tasks[0].end), (1, 5, 5));
}

#[test]
fn request_ending_before_start_is_refused() {
    assert!(matches!(plan_tasks(&Input::new(10, 9)), Err(RequestError::EndBeforeStart)));
}

#[test]
fn request_over_four_blocks_is_refused() {
    assert!(matches!(plan_tasks(&Input::new(100, 104)), Err(RequestError::SpanTooLarge)));
}

#[test]
fn request_at_the_top_of_the_block_range() {
    let tasks = plan_tasks(&Input::new(u32::MAX - 3, u32::MAX)).unwrap();
    assert_eq!((tasks[0].start, tasks[0].end), (u32::MAX - 3, u32::MAX));
}

#[test]
fn span_bound_follows_depth() {
    assert_eq!(validate_range(0, 7, 3), Ok(()));
    assert_eq!(validate_range(0, 8, 3), Err(RequestError::SpanTooLarge));
    assert_eq!(validate_range(0, u32::MAX, 32), Ok(()));
    assert_eq!(validate_range(0, u32::MAX, 31), Err(RequestError::SpanTooLarge));
}

#[test]
fn header_circuit_settings() {
    let c = header_circuit();
    assert_eq!((c.depth, c.initial_depth), (2, 2));
    assert_eq!(c.finality, Finality::Unfinalized);
    assert_eq!(c.network, Network::Goerli);
}

#[test]
fn proofs_are_standard_base64() {
    assert_eq!(encode_proof(&b"hello".to_vec()), "aGVsbG8=");
    assert_eq!(encode_proof(&vec![0xffu8, 0xfe, 0xfd]), "//79");
    assert_eq!(encode_proof(&vec![]), "");
}

#[test]
fn receipts_carry_encoded_proofs() {
    let r = proved_receipt(3, &vec![1u8, 2]);
    assert_eq!(r.index, 3);
    assert_eq!(r.payload.as_deref(), Some("AQI="));
    let f = failed_receipt(4);
    assert_eq!((f.index, f.payload), (4, None));
}

#[test]
fn response_is_the_last_tasks_proof() {
    let out = respond(vec!["first".to_string(), "last".to_string()]).unwrap();
    assert_eq!(out.proof, "last");
    assert!(respond(vec![]).is_none());
}
