use vstd::prelude::*;

verus! {

/// Settings a backend is built from: which prover to use, where the
/// verification key lives, and how to reach a remote service.
#[derive(Debug, Default, Clone)]
pub struct ClientCfg {
    pub zkm_prover: String,
    pub vk_path: String,
    pub endpoint: Option<String>,
    pub ca_cert_path: Option<String>,
    pub cert_path: Option<String>,
    pub key_path: Option<String>,
    pub domain_name: Option<String>,
    pub private_key: Option<String>,
}

/// What a job is asked to run.
#[derive(Debug, Clone)]
pub struct ProverInput {
    pub elf: Vec<u8>,
    pub public_inputstream: Vec<u8>,
    pub private_inputstream: Vec<u8>,
    pub seg_size: u32,
    pub execute_only: bool,
}

pub ghost struct ProverInputView {
    pub elf: Seq<u8>,
    pub public_inputstream: Seq<u8>,
    pub private_inputstream: Seq<u8>,
    pub seg_size: u32,
    pub execute_only: bool,
}

impl View for ProverInput {
    type V = ProverInputView;

    open spec fn view(&self) -> ProverInputView {
        ProverInputView {
            elf: self.elf@,
            public_inputstream: self.public_inputstream@,
            private_inputstream: self.private_inputstream@,
            seg_size: self.seg_size,
            execute_only: self.execute_only,
        }
    }
}

/// What a finished job produced.
#[derive(Debug, Clone)]
pub struct ProverResult {
    pub total_steps: u64,
    pub output_stream: Vec<u8>,
    pub proof_with_public_inputs: Vec<u8>,
    pub stark_proof: Vec<u8>,
    pub solidity_verifier: Vec<u8>,
    pub public_values: Vec<u8>,
}

pub ghost struct ProverResultView {
    pub total_steps: u64,
    pub output_stream: Seq<u8>,
    pub proof_with_public_inputs: Seq<u8>,
    pub stark_proof: Seq<u8>,
    pub solidity_verifier: Seq<u8>,
    pub public_values: Seq<u8>,
}

impl View for ProverResult {
    type V = ProverResultView;

    open spec fn view(&self) -> ProverResultView {
        ProverResultView {
            total_steps: self.total_steps,
            output_stream: self.output_stream@,
            proof_with_public_inputs: self.proof_with_public_inputs@,
            stark_proof: self.stark_proof@,
            solidity_verifier: self.solidity_verifier@,
            public_values: self.public_values@,
        }
    }
}

/// The result with all three proof artifacts emptied: a trace without a proof.
pub open spec fn without_proof(r: ProverResultView) -> ProverResultView {
    ProverResultView {
        proof_with_public_inputs: Seq::empty(),
        stark_proof: Seq::empty(),
        solidity_verifier: Seq::empty(),
        ..r
    }
}

/// What a job stores once its computation has produced `computed`.
pub open spec fn stored_result(execute_only: bool, computed: ProverResultView) -> ProverResultView {
    if execute_only {
        without_proof(computed)
    } else {
        computed
    }
}

/// A result with no steps and every byte field empty.
pub open spec fn empty_result() -> ProverResultView {
    ProverResultView {
        total_steps: 0,
        output_stream: Seq::empty(),
        proof_with_public_inputs: Seq::empty(),
        stark_proof: Seq::empty(),
        solidity_verifier: Seq::empty(),
        public_values: Seq::empty(),
    }
}

/// Copies a byte vector element by element.
pub fn copy_bytes(v: &Vec<u8>) -> (r: Vec<u8>)
    ensures
        r@ == v@,
{
    let mut r: Vec<u8> = Vec::with_capacity(v.len());
    let mut i: usize = 0;
    while i < v.len()
        invariant
            i <= v@.len(),
            r@ == v@.subrange(0, i as int),
        decreases v@.len() - i,
    {
        r.push(v[i]);
        i = i + 1;
    }
    assert(r@ =~= v@);
    r
}

impl ProverInput {
    /// A copy of this input with the same contents.
    pub fn duplicate(&self) -> (r: ProverInput)
        ensures
            r@ == self@,
    {
        ProverInput {
            elf: copy_bytes(&self.elf),
            public_inputstream: copy_bytes(&self.public_inputstream),
            private_inputstream: copy_bytes(&self.private_inputstream),
            seg_size: self.seg_size,
            execute_only: self.execute_only,
        }
    }
}

impl ProverResult {
    /// A copy of this result with the same contents.
    pub fn duplicate(&self) -> (r: ProverResult)
        ensures
            r@ == self@,
    {
        ProverResult {
            total_steps: self.total_steps,
            output_stream: copy_bytes(&self.output_stream),
            proof_with_public_inputs: copy_bytes(&self.proof_with_public_inputs),
            stark_proof: copy_bytes(&self.stark_proof),
            solidity_verifier: copy_bytes(&self.solidity_verifier),
            public_values: copy_bytes(&self.public_values),
        }
    }

    /// Empties the three proof artifacts, keeping steps, output and public values.
    pub fn clear_proof(&mut self)
        ensures
            final(self)@ == without_proof(old(self)@),
    {
        self.proof_with_public_inputs = Vec::new();
        self.stark_proof = Vec::new();
        self.solidity_verifier = Vec::new();
        assert(self@.proof_with_public_inputs =~= Seq::<u8>::empty());
        assert(self@.stark_proof =~= Seq::<u8>::empty());
        assert(self@.solidity_verifier =~= Seq::<u8>::empty());
    }
}

impl Default for ProverResult {
    fn default() -> (r: ProverResult)
        ensures
            r@ == empty_result(),
    {
        let r = ProverResult {
            total_steps: 0,
            output_stream: Vec::new(),
            proof_with_public_inputs: Vec::new(),
            stark_proof: Vec::new(),
            solidity_verifier: Vec::new(),
            public_values: Vec::new(),
        };
        assert(r@ =~= empty_result());
        r
    }
}

/// Turns what the computation produced into what the job stores: with
/// `execute_only` the proof artifacts are dropped, whatever was computed.
pub fn finish_result(execute_only: bool, computed: ProverResult) -> (r: ProverResult)
    ensures
        r@ == stored_result(execute_only, computed@),
{
    let mut r = computed;
    if execute_only {
        r.clear_proof();
    }
    r
}

/// The ways a request or a wait can fail.
#[derive(Debug, Clone, Copy, PartialEq, Eq, Structural)]
pub enum ProverError {
    /// The deadline passed before the job reached a terminal state.
    Timeout,
    /// No job is registered under the identifier.
    UnknownJob,
    /// The identifier drawn for a new job had already been issued.
    DuplicateId,
}

} // verus!

verus! {

/// Whether `elapsed` time units are past an optional deadline.
pub open spec fn past_deadline(elapsed: u64, timeout: Option<u64>) -> bool {
    match timeout {
        Some(t) => elapsed > t,
        None => false,
    }
}

/// Tells whether a wait that began `elapsed` time units ago has run past
/// its deadline; without a deadline it never has.
pub fn deadline_passed(elapsed: u64, timeout: Option<u64>) -> (r: bool)
    ensures
        r == past_deadline(elapsed, timeout),
{
    match timeout {
        Some(t) => elapsed > t,
        None => false,
    }
}

} // verus!
