use crate::prover::{
    deadline_passed, finish_result, past_deadline, stored_result, ProverError, ProverInput, ProverInputView,
    ProverResult, ProverResultView,
};
use vstd::prelude::*;

verus! {

/// The observable state of one job: what it was asked to run, what it
/// produced, and whether it has finished.
pub ghost struct TaskView {
    pub input: ProverInputView,
    pub result: Option<ProverResultView>,
    pub done: bool,
}

/// A freshly registered job for `input`: nothing produced yet.
pub open spec fn created(input: ProverInputView) -> TaskView {
    TaskView { input, result: None, done: false }
}

/// The job after its computation produced `computed`. Completion happens
/// once: a finished job stays as it was.
pub open spec fn ran(t: TaskView, computed: ProverResultView) -> TaskView {
    if t.done {
        t
    } else {
        TaskView {
            input: t.input,
            result: Some(stored_result(t.input.execute_only, computed)),
            done: true,
        }
    }
}

/// A job state that its operations can reach: a finished job holds a
/// result and an unfinished one holds none, and a finished execute-only job
/// holds no proof artifact.
pub open spec fn task_valid(t: TaskView) -> bool {
    &&& t.done <==> t.result.is_some()
    &&& t.done && t.input.execute_only ==> {
        &&& t.result.unwrap().proof_with_public_inputs.len() == 0
        &&& t.result.unwrap().stark_proof.len() == 0
        &&& t.result.unwrap().solidity_verifier.len() == 0
    }
}

/// One job: its input, its result once there is one, and its completion flag.
pub struct ProverTask {
    input: ProverInput,
    result: Option<ProverResult>,
    is_done: bool,
}

impl View for ProverTask {
    type V = TaskView;

    closed spec fn view(&self) -> TaskView {
        TaskView {
            input: self.input@,
            result: match self.result {
                Some(r) => Some(r@),
                None => None,
            },
            done: self.is_done,
        }
    }
}

impl ProverTask {
    pub open spec fn wf(&self) -> bool {
        task_valid(self@)
    }

    pub fn new(input: &ProverInput) -> (r: ProverTask)
        ensures
            r.wf(),
            r@ == created(input@),
    {
        ProverTask { input: input.duplicate(), result: None, is_done: false }
    }

    /// Records what the computation produced for this job and marks it
    /// done. With `execute_only` the proof artifacts are emptied first. A
    /// job that is already done is left as it is.
    pub fn run(&mut self, computed: ProverResult)
        requires
            old(self).wf(),
        ensures
            final(self).wf(),
            final(self)@ == ran(old(self)@, computed@),
    {
        if !self.is_done {
            self.result = Some(finish_result(self.input.execute_only, computed));
            self.is_done = true;
        }
    }

    pub fn is_done(&self) -> (r: bool)
        ensures
            r == self@.done,
    {
        self.is_done
    }

    /// The input this job was created from.
    pub fn input(&self) -> (r: &ProverInput)
        ensures
            r@ == self@.input,
    {
        &self.input
    }
}

} // verus!

verus! {

/// What a registry holds: the live jobs by identifier, and every
/// identifier it has ever issued.
pub ghost struct LocalView {
    pub jobs: Map<Seq<char>, TaskView>,
    pub issued: Set<Seq<char>>,
}

/// A registry state that its operations can reach: every live job was
/// issued by it, and every live job is in a reachable state.
pub open spec fn valid(v: LocalView) -> bool {
    &&& forall|k: Seq<char>| #[trigger] v.jobs.contains_key(k) ==> v.issued.contains(k)
    &&& forall|k: Seq<char>| #[trigger] v.jobs.contains_key(k) ==> task_valid(v.jobs[k])
}

/// Registering a job under `id`, which is refused if `id` was issued before.
pub open spec fn issue(v: LocalView, id: Seq<char>, input: ProverInputView) -> (
    Result<(), ProverError>,
    LocalView,
) {
    if v.issued.contains(id) {
        (Err(ProverError::DuplicateId), v)
    } else {
        (Ok(()), LocalView { jobs: v.jobs.insert(id, created(input)), issued: v.issued.insert(id) })
    }
}

/// Storing what the computation of job `id` produced.
pub open spec fn complete_step(v: LocalView, id: Seq<char>, computed: ProverResultView) -> (
    Result<(), ProverError>,
    LocalView,
) {
    if !v.jobs.contains_key(id) {
        (Err(ProverError::UnknownJob), v)
    } else {
        (Ok(()), LocalView { jobs: v.jobs.insert(id, ran(v.jobs[id], computed)), issued: v.issued })
    }
}

/// What one check of a waiting caller sees.
pub ghost enum PollView {
    Pending,
    Ready(ProverResultView),
}

/// One check on job `id` by a caller that began waiting `elapsed` time
/// units ago: an unknown job fails, a passed deadline times out, an
/// unfinished job is still pending, and a finished one is harvested and
/// leaves the registry.
pub open spec fn poll_step(v: LocalView, id: Seq<char>, elapsed: u64, timeout: Option<u64>) -> (
    Result<PollView, ProverError>,
    LocalView,
) {
    if !v.jobs.contains_key(id) {
        (Err(ProverError::UnknownJob), v)
    } else if past_deadline(elapsed, timeout) {
        (Err(ProverError::Timeout), v)
    } else if !v.jobs[id].done {
        (Ok(PollView::Pending), v)
    } else {
        (
            Ok(PollView::Ready(v.jobs[id].result.unwrap())),
            LocalView { jobs: v.jobs.remove(id), issued: v.issued },
        )
    }
}

/// What one check of a waiting caller returns.
pub enum WaitPoll {
    /// The job has not finished yet.
    Pending,
    /// The job finished with this result and has left the registry.
    Ready(ProverResult),
}

pub open spec fn poll_view(r: Result<WaitPoll, ProverError>) -> Result<PollView, ProverError> {
    match r {
        Ok(WaitPoll::Pending) => Ok(PollView::Pending),
        Ok(WaitPoll::Ready(res)) => Ok(PollView::Ready(res@)),
        Err(e) => Err(e),
    }
}

/// Relies on uuid::Uuid::new_v4 and its Display impl: a random identifier,
/// written in the 36-character hyphenated form.
#[verifier::external_body]
fn fresh_job_id() -> (r: String)
    ensures
        r@.len() == 36,
{
    uuid::Uuid::new_v4().to_string()
}

/// The registry of a local backend: live jobs under their identifiers, and
/// the identifiers issued so far, so that none is handed out twice.
pub struct LocalProver {
    ids: Vec<String>,
    tasks: Vec<ProverTask>,
    issued: Vec<String>,
    jobs: Ghost<Map<Seq<char>, TaskView>>,
}

impl View for LocalProver {
    type V = LocalView;

    closed spec fn view(&self) -> LocalView {
        LocalView {
            jobs: self.jobs@,
            issued: Set::new(|k: Seq<char>| exists|i: int| 0 <= i < self.issued@.len() && #[trigger] self.issued@[i]@ == k),
        }
    }
}

impl LocalProver {
    pub closed spec fn wf(&self) -> bool {
        &&& self.ids@.len() == self.tasks@.len()
        &&& forall|i: int, j: int|
            0 <= i < self.ids@.len() && 0 <= j < self.ids@.len() && i != j
                ==> #[trigger] self.ids@[i]@ != #[trigger] self.ids@[j]@
        &&& forall|i: int| #![trigger self.ids@[i]]
            0 <= i < self.ids@.len() ==> {
                &&& self.jobs@.contains_key(self.ids@[i]@)
                &&& self.jobs@[self.ids@[i]@] == self.tasks@[i]@
                &&& self.tasks@[i].wf()
            }
        &&& forall|k: Seq<char>| #[trigger]
            self.jobs@.contains_key(k) ==> exists|i: int| 0 <= i < self.ids@.len() && #[trigger] self.ids@[i]@ == k
        &&& forall|k: Seq<char>| #[trigger]
            self.jobs@.contains_key(k) ==> self@.issued.contains(k)
    }

    pub proof fn lemma_valid(&self)
        requires
            self.wf(),
        ensures
            valid(self@),
    {
        assert forall|k: Seq<char>| #[trigger] self@.jobs.contains_key(k) implies task_valid(
            self@.jobs[k],
        ) by {
            let i = choose|i: int| 0 <= i < self.ids@.len() && #[trigger] self.ids@[i]@ == k;
            assert(self.tasks@[i].wf());
        }
    }

    /// An empty registry that has issued nothing.
    pub fn new() -> (r: LocalProver)
        ensures
            r.wf(),
            r@.jobs == Map::<Seq<char>, TaskView>::empty(),
            r@.issued == Set::<Seq<char>>::empty(),
    {
        let r = LocalProver {
            ids: Vec::new(),
            tasks: Vec::new(),
            issued: Vec::new(),
            jobs: Ghost(Map::empty()),
        };
        assert(r@.issued =~= Set::<Seq<char>>::empty());
        r
    }

    /// The position of `id` among the live jobs.
    fn find(&self, id: &String) -> (r: Option<usize>)
        requires
            self.wf(),
        ensures
            match r {
                Some(i) => i < self.ids@.len() && self.ids@[i as int]@ == id@,
                None => !self@.jobs.contains_key(id@),
            },
    {
        let mut i: usize = 0;
        while i < self.ids.len()
            invariant
                self.wf(),
                i <= self.ids@.len(),
                forall|j: int| 0 <= j < i ==> #[trigger] self.ids@[j]@ != id@,
            decreases self.ids@.len() - i,
        {
            if self.ids[i] == *id {
                return Some(i);
            }
            i = i + 1;
        }
        None
    }

    /// Whether `id` was ever issued by this registry.
    fn was_issued(&self, id: &String) -> (r: bool)
        ensures
            r == self@.issued.contains(id@),
    {
        let mut i: usize = 0;
        while i < self.issued.len()
            invariant
                i <= self.issued@.len(),
                forall|j: int| 0 <= j < i ==> #[trigger] self.issued@[j]@ != id@,
            decreases self.issued@.len() - i,
        {
            if self.issued[i] == *id {
                return true;
            }
            i = i + 1;
        }
        false
    }

    /// Registers a new job for `input` under `id`. An identifier issued
    /// before, whether its job is still live or already harvested, is
    /// refused.
    pub fn register(&mut self, id: String, input: &ProverInput) -> (r: Result<(), ProverError>)
        requires
            old(self).wf(),
        ensures
            final(self).wf(),
            (r, final(self)@) == issue(old(self)@, id@, input@),
    {
        if self.was_issued(&id) {
            return Err(ProverError::DuplicateId);
        }
        let ghost old_self = *self;
        let task = ProverTask::new(input);
        self.jobs = Ghost(self.jobs@.insert(id@, task@));
        self.issued.push(id.clone());
        self.ids.push(id);
        self.tasks.push(task);
        assert(self@.issued =~= old_self@.issued.insert(id@)) by {
            assert(self.issued@[self.issued@.len() - 1]@ == id@);
            assert forall|k: Seq<char>| old_self@.issued.contains(k) implies self@.issued.contains(k) by {
                let j = choose|j: int| 0 <= j < old_self.issued@.len() && #[trigger] old_self.issued@[j]@ == k;
                assert(self.issued@[j]@ == k);
            }
        }
        assert forall|k: Seq<char>| #[trigger] self.jobs@.contains_key(k) implies exists|i: int|
            0 <= i < self.ids@.len() && #[trigger] self.ids@[i]@ == k by {
            if k == id@ {
                assert(self.ids@[self.ids@.len() - 1]@ == k);
            } else {
                let j = choose|j: int| 0 <= j < old_self.ids@.len() && #[trigger] old_self.ids@[j]@ == k;
                assert(self.ids@[j]@ == k);
            }
        }
        Ok(())
    }

    /// Registers a new job for `input` under a freshly drawn random
    /// identifier and returns that identifier. Should the draw hit an
    /// identifier issued before, nothing is registered; that cannot happen
    /// while the registry has issued no identifier of the drawn length.
    pub fn request_proof(&mut self, input: &ProverInput) -> (r: Result<String, ProverError>)
        requires
            old(self).wf(),
        ensures
            final(self).wf(),
            match r {
                Ok(id) => {
                    &&& !old(self)@.issued.contains(id@)
                    &&& final(self)@ == issue(old(self)@, id@, input@).1
                },
                Err(e) => e == ProverError::DuplicateId && final(self)@ == old(self)@,
            },
            (forall|k: Seq<char>| #[trigger] old(self)@.issued.contains(k) ==> k.len() != 36)
                ==> r is Ok,
    {
        let id = fresh_job_id();
        match self.register(id.clone(), input) {
            Ok(()) => Ok(id),
            Err(e) => Err(e),
        }
    }

    /// Stores what the computation of job `id` produced and marks the job
    /// done; a job that is already done keeps its result.
    pub fn complete(&mut self, id: &String, computed: ProverResult) -> (r: Result<(), ProverError>)
        requires
            old(self).wf(),
        ensures
            final(self).wf(),
            (r, final(self)@) == complete_step(old(self)@, id@, computed@),
    {
        let i = match self.find(id) {
            Some(i) => i,
            None => {
                return Err(ProverError::UnknownJob);
            },
        };
        let ghost old_self = *self;
        let mut task = self.tasks.remove(i);
        task.run(computed);
        self.tasks.insert(i, task);
        self.jobs = Ghost(self.jobs@.insert(id@, self.tasks@[i as int]@));
        assert(self@.issued =~= old_self@.issued);
        assert forall|j: int| #![trigger self.ids@[j]] 0 <= j < self.ids@.len() implies {
            &&& self.jobs@.contains_key(self.ids@[j]@)
            &&& self.jobs@[self.ids@[j]@] == self.tasks@[j]@
            &&& self.tasks@[j].wf()
        } by {
            if j != i {
                assert(old_self.ids@[j]@ != old_self.ids@[i as int]@);
                assert(self.tasks@[j] == old_self.tasks@[j]);
            }
        }
        Ok(())
    }

    /// One check on job `id` by a caller that began waiting `elapsed` time
    /// units ago, with an optional deadline `timeout`. An unknown job is an
    /// error, and so is a passed deadline; a finished job is taken out of
    /// the registry and its result returned. Only that harvest changes the
    /// registry.
    pub fn poll_proof(&mut self, id: &String, elapsed: u64, timeout: Option<u64>) -> (r: Result<
        WaitPoll,
        ProverError,
    >)
        requires
            old(self).wf(),
        ensures
            final(self).wf(),
            (poll_view(r), final(self)@) == poll_step(old(self)@, id@, elapsed, timeout),
    {
        let i = match self.find(id) {
            Some(i) => i,
            None => {
                return Err(ProverError::UnknownJob);
            },
        };
        if deadline_passed(elapsed, timeout) {
            return Err(ProverError::Timeout);
        }
        if !self.tasks[i].is_done() {
            return Ok(WaitPoll::Pending);
        }
        let ghost old_self = *self;
        proof {
            assert(self.tasks@[i as int].wf());
        }
        self.ids.remove(i);
        let task = self.tasks.remove(i);
        self.jobs = Ghost(self.jobs@.remove(id@));
        assert(self@.issued =~= old_self@.issued);
        assert forall|j: int| #![trigger self.ids@[j]] 0 <= j < self.ids@.len() implies {
            &&& self.jobs@.contains_key(self.ids@[j]@)
            &&& self.jobs@[self.ids@[j]@] == self.tasks@[j]@
            &&& self.tasks@[j].wf()
        } by {
            let oj = if j < i { j } else { j + 1 };
            assert(self.ids@[j] == old_self.ids@[oj]);
            assert(self.tasks@[j] == old_self.tasks@[oj]);
            assert(old_self.ids@[oj]@ != old_self.ids@[i as int]@);
        }
        assert forall|k: Seq<char>| #[trigger] self.jobs@.contains_key(k) implies exists|j: int|
            0 <= j < self.ids@.len() && #[trigger] self.ids@[j]@ == k by {
            let oj = choose|oj: int| 0 <= oj < old_self.ids@.len() && #[trigger] old_self.ids@[oj]@ == k;
            if oj < i {
                assert(self.ids@[oj]@ == k);
            } else {
                assert(oj != i);
                assert(self.ids@[oj - 1]@ == k);
            }
        }
        assert forall|a: int, b: int|
            0 <= a < self.ids@.len() && 0 <= b < self.ids@.len() && a != b
                implies #[trigger] self.ids@[a]@ != #[trigger] self.ids@[b]@ by {
            let oa = if a < i { a } else { a + 1 };
            let ob = if b < i { b } else { b + 1 };
            assert(self.ids@[a] == old_self.ids@[oa]);
            assert(self.ids@[b] == old_self.ids@[ob]);
        }
        Ok(WaitPoll::Ready(task.result.unwrap()))
    }
}

} // verus!
