use zkm_sdk::prover::{copy_bytes, deadline_passed, finish_result, ProverInput, ProverResult};

fn full() -> ProverResult {
    ProverResult {
        total_steps: 42,
        output_stream: vec![1],
        proof_with_public_inputs: vec![2],
        stark_proof: vec![3],
        solidity_verifier: vec![4],
        public_values: vec![5],
    }
}

#[test]
fn default_result_is_empty() {
    let r = ProverResult::default();
    assert_eq!(r.total_steps, 0);
    assert!(r.output_stream.is_empty());
    assert!(r.proof_with_public_inputs.is_empty());
    assert!(r.stark_proof.is_empty());
    assert!(r.solidity_verifier.is_empty());
    assert!(r.public_values.is_empty());
}

#[test]
fn execute_only_clears_the_three_proof_fields() {
    let r = finish_result(true, full());
    assert_eq!(r.total_steps, 42);
    assert_eq!(r.output_stream, vec![1]);
    assert!(r.proof_with_public_inputs.is_empty());
    assert!(r.stark_proof.is_empty());
    assert!(r.solidity_verifier.is_empty());
    assert_eq!(r.public_values, vec![5]);
    let kept = finish_result(false, full());
    assert_eq!(kept.stark_proof, vec![3]);
}

#[test]
fn clear_proof_keeps_output() {
    let mut r = full();
    r.clear_proof();
    assert!(r.stark_proof.is_empty());
    assert_eq!(r.output_stream, vec![1]);
}

#[test]
fn deadline_is_strictly_exceeded() {
    assert!(!deadline_passed(10, None));
    assert!(!deadline_passed(u64::MAX, None));
    assert!(!deadline_passed(10, Some(10)));
    assert!(deadline_passed(11, Some(10)));
    assert!(deadline_passed(1, Some(0)));
}

#[test]
fn copies_are_equal() {
    assert_eq!(copy_bytes(&vec![3, 1, 4]), vec![3, 1, 4]);
    let i = ProverInput {
        elf: vec![1],
        public_inputstream: vec![2],
        private_inputstream: vec![3],
        seg_size: 8,
        execute_only: true,
    };
    let d = i.duplicate();
    assert_eq!(d.elf, vec![1]);
    assert_eq!(d.private_inputstream, vec![3]);
    assert_eq!(d.seg_size, 8);
    assert!(d.execute_only);
    assert_eq!(full().duplicate().solidity_verifier, vec![4]);
}
