use zkm_sdk::local::{LocalProver, ProverTask, WaitPoll};
use zkm_sdk::prover::{ProverError, ProverInput, ProverResult};

fn input(elf: &[u8], execute_only: bool) -> ProverInput {
    ProverInput {
        elf: elf.to_vec(),
        public_inputstream: vec![1, 2],
        private_inputstream: vec![3],
        seg_size: 65536,
        execute_only,
    }
}

fn computed(tag: u8) -> ProverResult {
    ProverResult {
        total_steps: 100 + tag as u64,
        output_stream: vec![tag, tag],
        proof_with_public_inputs: vec![7, tag],
        stark_proof: vec![8, tag],
        solidity_verifier: vec![9, tag],
        public_values: vec![tag],
    }
}

fn ready(r: Result<WaitPoll, ProverError>) -> ProverResult {
    match r {
        Ok(WaitPoll::Ready(res)) => res,
        Ok(WaitPoll::Pending) => panic!("job still pending"),
        Err(e) => panic!("wait failed: {:?}", e),
    }
}

#[test]
fn execute_only_job_returns_output_without_proof() {
    let mut p = LocalProver::new();
    let id = p.request_proof(&input(&[0x7f, 0x45], true)).unwrap();
    assert!(matches!(p.poll_proof(&id, 0, None), Ok(WaitPoll::Pending)));
    assert_eq!(p.complete(&id, computed(5)), Ok(()));
    let res = ready(p.poll_proof(&id, 10, None));
    assert!(!res.output_stream.is_empty());
    assert_eq!(res.output_stream, vec![5, 5]);
    assert!(res.proof_with_public_inputs.is_empty());
    assert!(res.stark_proof.is_empty());
    assert!(res.solidity_verifier.is_empty());
    assert_eq!(res.total_steps, 105);
    assert_eq!(res.public_values, vec![5]);
}

#[test]
fn proving_job_keeps_its_proof() {
    let mut p = LocalProver::new();
    let id = p.request_proof(&input(&[1], false)).unwrap();
    p.complete(&id, computed(3)).unwrap();
    let res = ready(p.poll_proof(&id, 0, Some(1000)));
    assert_eq!(res.proof_with_public_inputs, vec![7, 3]);
    assert_eq!(res.stark_proof, vec![8, 3]);
    assert_eq!(res.solidity_verifier, vec![9, 3]);
}

#[test]
fn harvested_job_is_unknown_afterwards() {
    let mut p = LocalProver::new();
    let id = p.request_proof(&input(&[1], true)).unwrap();
    p.complete(&id, computed(1)).unwrap();
    ready(p.poll_proof(&id, 0, None));
    assert!(matches!(p.poll_proof(&id, 0, None), Err(ProverError::UnknownJob)));
    assert_eq!(p.complete(&id, computed(2)), Err(ProverError::UnknownJob));
}

#[test]
fn unknown_identifier_is_refused() {
    let mut p = LocalProver::new();
    let id = String::from("no-such-job");
    assert!(matches!(p.poll_proof(&id, 0, None), Err(ProverError::UnknownJob)));
    assert_eq!(p.complete(&id, computed(1)), Err(ProverError::UnknownJob));
}

#[test]
fn timeout_leaves_the_job_intact() {
    let mut p = LocalProver::new();
    let id = p.request_proof(&input(&[1], false)).unwrap();
    assert!(matches!(p.poll_proof(&id, 501, Some(500)), Err(ProverError::Timeout)));
    assert!(matches!(p.poll_proof(&id, 500, Some(500)), Ok(WaitPoll::Pending)));
    p.complete(&id, computed(4)).unwrap();
    assert!(matches!(p.poll_proof(&id, 900, Some(500)), Err(ProverError::Timeout)));
    let res = ready(p.poll_proof(&id, 0, None));
    assert_eq!(res.stark_proof, vec![8, 4]);
}

#[test]
fn identifiers_are_distinct_uuids() {
    let mut p = LocalProver::new();
    let mut ids: Vec<String> = Vec::new();
    for _ in 0..50 {
        let id = p.request_proof(&input(&[1], true)).unwrap();
        assert_eq!(id.len(), 36);
        assert_eq!(id.matches('-').count(), 4);
        assert!(!ids.contains(&id));
        ids.push(id);
    }
}

#[test]
fn identifier_is_never_issued_twice() {
    let mut p = LocalProver::new();
    let id = String::from("job-a");
    assert_eq!(p.register(id.clone(), &input(&[1], true)), Ok(()));
    assert_eq!(p.register(id.clone(), &input(&[2], true)), Err(ProverError::DuplicateId));
    p.complete(&id, computed(1)).unwrap();
    ready(p.poll_proof(&id, 0, None));
    assert_eq!(p.register(id.clone(), &input(&[3], true)), Err(ProverError::DuplicateId));
    assert_eq!(p.register(String::from("job-b"), &input(&[3], true)), Ok(()));
}

#[test]
fn many_jobs_keep_their_own_results() {
    let mut p = LocalProver::new();
    let n: u8 = 8;
    let mut ids: Vec<String> = Vec::new();
    for k in 0..n {
        ids.push(p.request_proof(&input(&[k], k % 2 == 0)).unwrap());
    }
    for k in (0..n).rev() {
        p.complete(&ids[k as usize], computed(k)).unwrap();
    }
    for k in [3u8, 0, 7, 1, 6, 2, 5, 4] {
        let res = ready(p.poll_proof(&ids[k as usize], 0, None));
        assert_eq!(res.output_stream, vec![k, k]);
        assert_eq!(res.total_steps, 100 + k as u64);
        if k % 2 == 0 {
            assert!(res.stark_proof.is_empty());
        } else {
            assert_eq!(res.stark_proof, vec![8, k]);
        }
    }
    for id in &ids {
        assert!(matches!(p.poll_proof(id, 0, None), Err(ProverError::UnknownJob)));
    }
}

#[test]
fn task_runs_once() {
    let inp = input(&[9, 9], false);
    let mut t = ProverTask::new(&inp);
    assert!(!t.is_done());
    assert_eq!(t.input().elf, vec![9, 9]);
    t.run(computed(1));
    assert!(t.is_done());
    t.run(computed(2));
    assert!(t.is_done());
    let mut p = LocalProver::new();
    let id = p.request_proof(&inp).unwrap();
    p.complete(&id, computed(1)).unwrap();
    p.complete(&id, computed(2)).unwrap();
    let res = ready(p.poll_proof(&id, 0, None));
    assert_eq!(res.output_stream, vec![1, 1]);
}
