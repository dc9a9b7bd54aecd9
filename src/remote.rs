use crate::prover::{copy_bytes, ProverResult, ProverResultView};
use vstd::prelude::*;

verus! {

/// Time units a waiting caller sleeps between two status queries.
pub const POLL_INTERVAL_MS: u64 = 2000;

/// A job's status as the remote service reports it.
#[derive(Debug, Clone, Copy, PartialEq, Eq, Structural)]
pub enum RemoteStatus {
    Computing,
    Success,
    Failure,
    /// A status code this client does not know.
    Unrecognized(i32),
}

/// The answer to one status query.
pub struct StatusReport {
    pub status: RemoteStatus,
    pub step: u64,
    pub stark_proof_url: String,
    pub solidity_verifier_url: String,
    pub output_stream: Vec<u8>,
    pub proof_with_public_inputs: Vec<u8>,
    pub public_values: Vec<u8>,
}

pub ghost struct StatusReportView {
    pub status: RemoteStatus,
    pub step: u64,
    pub stark_proof_url: Seq<char>,
    pub solidity_verifier_url: Seq<char>,
    pub output_stream: Seq<u8>,
    pub proof_with_public_inputs: Seq<u8>,
    pub public_values: Seq<u8>,
}

impl View for StatusReport {
    type V = StatusReportView;

    open spec fn view(&self) -> StatusReportView {
        StatusReportView {
            status: self.status,
            step: self.step,
            stark_proof_url: self.stark_proof_url@,
            solidity_verifier_url: self.solidity_verifier_url@,
            output_stream: self.output_stream@,
            proof_with_public_inputs: self.proof_with_public_inputs@,
            public_values: self.public_values@,
        }
    }
}

/// What a waiting caller does after a status query.
pub enum RemoteStep {
    /// Still computing, at this step: sleep and query again.
    Retry { step: u64 },
    /// Finished: fetch the two artifacts from these URLs.
    Fetch { stark_proof_url: String, solidity_verifier_url: String },
    /// Finished without a proof: the wait returns no result.
    NoResult,
}

pub ghost enum RemoteStepView {
    Retry { step: u64 },
    Fetch { stark_proof_url: Seq<char>, solidity_verifier_url: Seq<char> },
    NoResult,
}

impl View for RemoteStep {
    type V = RemoteStepView;

    open spec fn view(&self) -> RemoteStepView {
        match self {
            RemoteStep::Retry { step } => RemoteStepView::Retry { step: *step },
            RemoteStep::Fetch { stark_proof_url, solidity_verifier_url } => RemoteStepView::Fetch {
                stark_proof_url: stark_proof_url@,
                solidity_verifier_url: solidity_verifier_url@,
            },
            RemoteStep::NoResult => RemoteStepView::NoResult,
        }
    }
}

/// The step that a report calls for: keep polling while computing, fetch
/// the artifacts on success, and give up without a result on any other
/// status.
pub open spec fn step_for(r: StatusReportView) -> RemoteStepView {
    match r.status {
        RemoteStatus::Computing => RemoteStepView::Retry { step: r.step },
        RemoteStatus::Success => RemoteStepView::Fetch {
            stark_proof_url: r.stark_proof_url,
            solidity_verifier_url: r.solidity_verifier_url,
        },
        _ => RemoteStepView::NoResult,
    }
}

/// The result of a successful job: the report's own fields with the two
/// fetched artifacts.
pub open spec fn assembled(
    r: StatusReportView,
    stark_proof: Seq<u8>,
    solidity_verifier: Seq<u8>,
) -> ProverResultView {
    ProverResultView {
        total_steps: r.step,
        output_stream: r.output_stream,
        proof_with_public_inputs: r.proof_with_public_inputs,
        stark_proof,
        solidity_verifier,
        public_values: r.public_values,
    }
}

/// Decides what a waiting caller does after receiving `report`.
pub fn next_step(report: &StatusReport) -> (r: RemoteStep)
    ensures
        r@ == step_for(report@),
{
    match report.status {
        RemoteStatus::Computing => RemoteStep::Retry { step: report.step },
        RemoteStatus::Success => RemoteStep::Fetch {
            stark_proof_url: report.stark_proof_url.clone(),
            solidity_verifier_url: report.solidity_verifier_url.clone(),
        },
        _ => RemoteStep::NoResult,
    }
}

/// Builds the result of a successful job from its final report and the
/// bytes fetched from its two artifact URLs.
pub fn assemble_result(report: &StatusReport, stark_proof: Vec<u8>, solidity_verifier: Vec<u8>) -> (r:
    ProverResult)
    ensures
        r@ == assembled(report@, stark_proof@, solidity_verifier@),
{
    ProverResult {
        total_steps: report.step,
        output_stream: copy_bytes(&report.output_stream),
        proof_with_public_inputs: copy_bytes(&report.proof_with_public_inputs),
        stark_proof,
        solidity_verifier,
        public_values: copy_bytes(&report.public_values),
    }
}

} // verus!
