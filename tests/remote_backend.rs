use zkm_sdk::remote::{assemble_result, next_step, RemoteStatus, RemoteStep, StatusReport, POLL_INTERVAL_MS};

fn report(status: RemoteStatus, step: u64) -> StatusReport {
    StatusReport {
        status,
        step,
        stark_proof_url: String::from("https://store/A"),
        solidity_verifier_url: String::from("https://store/B"),
        output_stream: vec![1, 2, 3],
        proof_with_public_inputs: vec![4, 5],
        public_values: vec![6],
    }
}

fn serve(url: &str) -> Vec<u8> {
    match url {
        "https://store/A" => vec![0xaa, 0xab],
        "https://store/B" => vec![0xbb],
        _ => panic!("unexpected url {}", url),
    }
}

#[test]
fn computing_then_success_fetches_both_artifacts() {
    let polls = vec![
        report(RemoteStatus::Computing, 1),
        report(RemoteStatus::Computing, 2),
        report(RemoteStatus::Success, 3),
    ];
    let mut steps_seen: Vec<u64> = Vec::new();
    let mut result = None;
    for r in &polls {
        match next_step(r) {
            RemoteStep::Retry { step } => steps_seen.push(step),
            RemoteStep::Fetch { stark_proof_url, solidity_verifier_url } => {
                assert_eq!(stark_proof_url, "https://store/A");
                assert_eq!(solidity_verifier_url, "https://store/B");
                result = Some(assemble_result(r, serve(&stark_proof_url), serve(&solidity_verifier_url)));
                break;
            }
            RemoteStep::NoResult => panic!("gave up"),
        }
    }
    assert_eq!(steps_seen, vec![1, 2]);
    let res = result.unwrap();
    assert_eq!(res.stark_proof, vec![0xaa, 0xab]);
    assert_eq!(res.solidity_verifier, vec![0xbb]);
    assert_eq!(res.output_stream, vec![1, 2, 3]);
    assert_eq!(res.proof_with_public_inputs, vec![4, 5]);
    assert_eq!(res.public_values, vec![6]);
    assert_eq!(res.total_steps, 3);
}

#[test]
fn failure_status_gives_no_result() {
    assert!(matches!(next_step(&report(RemoteStatus::Failure, 4)), RemoteStep::NoResult));
}

#[test]
fn unrecognized_status_gives_no_result() {
    assert!(matches!(next_step(&report(RemoteStatus::Unrecognized(17), 4)), RemoteStep::NoResult));
}

#[test]
fn poll_interval_is_two_seconds() {
    assert_eq!(POLL_INTERVAL_MS, 2000);
}
