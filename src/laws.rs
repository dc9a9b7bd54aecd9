//! Properties that hold across the operations of the local registry.
use crate::local::{
    complete_step, created, issue, poll_step, ran, task_valid, valid, LocalView, PollView, TaskView,
};
use crate::prover::{past_deadline, stored_result, ProverError, ProverInputView, ProverResultView};
use vstd::prelude::*;

verus! {

/// A job that asked to execute only keeps no proof artifact, whatever its
/// computation produced: every reachable job state of such a job, and the
/// state after it has run, holds an empty proof with public inputs, an
/// empty STARK proof and an empty verifier once it is done. A job that runs
/// for the first time keeps the computed steps, output and public values.
pub proof fn law_execute_only_has_no_proof(t: TaskView, computed: ProverResultView)
    requires
        task_valid(t),
        t.input.execute_only,
    ensures
        task_valid(ran(t, computed)),
        ran(t, computed).done,
        ({
            let r = ran(t, computed).result.unwrap();
            &&& r.proof_with_public_inputs.len() == 0
            &&& r.stark_proof.len() == 0
            &&& r.solidity_verifier.len() == 0
        }),
        !t.done ==> ({
            let r = ran(t, computed).result.unwrap();
            &&& r.output_stream == computed.output_stream
            &&& r.public_values == computed.public_values
            &&& r.total_steps == computed.total_steps
        }),
{
}

/// Every operation of the registry keeps it in a reachable state.
pub proof fn law_steps_keep_valid(
    v: LocalView,
    id: Seq<char>,
    input: ProverInputView,
    computed: ProverResultView,
    elapsed: u64,
    timeout: Option<u64>,
)
    requires
        valid(v),
    ensures
        valid(issue(v, id, input).1),
        valid(complete_step(v, id, computed).1),
        valid(poll_step(v, id, elapsed, timeout).1),
{
}

/// An identifier that the registry accepted is never accepted again: no
/// completion or harvest forgets it, and registering it once more is
/// refused.
pub proof fn law_identifier_issued_once(
    v: LocalView,
    id: Seq<char>,
    input: ProverInputView,
    other: Seq<char>,
    computed: ProverResultView,
    elapsed: u64,
    timeout: Option<u64>,
    later: ProverInputView,
)
    requires
        issue(v, id, input).0 is Ok,
    ensures
        !v.issued.contains(id),
        ({
            let v1 = issue(v, id, input).1;
            &&& v1.issued.contains(id)
            &&& complete_step(v1, other, computed).1.issued == v1.issued
            &&& poll_step(v1, other, elapsed, timeout).1.issued == v1.issued
            &&& issue(v1, other, later).1.issued.contains(id)
            &&& issue(v1, id, later).0 == Err::<(), ProverError>(ProverError::DuplicateId)
        }),
{
}

/// Without a deadline, a wait on a job whose computation has finished
/// returns its result.
pub proof fn law_wait_returns_once_done(
    v: LocalView,
    id: Seq<char>,
    computed: ProverResultView,
    elapsed: u64,
)
    requires
        valid(v),
        v.jobs.contains_key(id),
    ensures
        ({
            let v1 = complete_step(v, id, computed).1;
            &&& v1.jobs[id].done
            &&& poll_step(v1, id, elapsed, None).0 == Ok::<PollView, ProverError>(
                PollView::Ready(v1.jobs[id].result.unwrap()),
            )
        }),
{
}

/// A wait past its deadline times out and leaves the registry as it was,
/// so the job's eventual result is untouched.
pub proof fn law_timeout_changes_nothing(v: LocalView, id: Seq<char>, elapsed: u64, deadline: u64)
    requires
        v.jobs.contains_key(id),
        past_deadline(elapsed, Some(deadline)),
    ensures
        poll_step(v, id, elapsed, Some(deadline)) == (Err::<PollView, ProverError>(ProverError::Timeout), v),
{
}

/// A job is harvested once: after a wait has returned its result, the
/// identifier is unknown to the registry.
pub proof fn law_harvested_once(
    v: LocalView,
    id: Seq<char>,
    elapsed: u64,
    timeout: Option<u64>,
    elapsed2: u64,
    timeout2: Option<u64>,
)
    requires
        poll_step(v, id, elapsed, timeout).0 matches Ok(PollView::Ready(_)),
    ensures
        poll_step(poll_step(v, id, elapsed, timeout).1, id, elapsed2, timeout2).0 == Err::<
            PollView,
            ProverError,
        >(ProverError::UnknownJob),
{
}

/// Two live jobs never swap results: whichever finishes first, each wait
/// returns what that job's own computation produced.
pub proof fn law_jobs_keep_their_results(
    v: LocalView,
    a: Seq<char>,
    b: Seq<char>,
    ca: ProverResultView,
    cb: ProverResultView,
    elapsed: u64,
)
    requires
        valid(v),
        a != b,
        v.jobs.contains_key(a),
        v.jobs.contains_key(b),
        !v.jobs[a].done,
        !v.jobs[b].done,
    ensures
        ({
            let ab = complete_step(complete_step(v, a, ca).1, b, cb).1;
            let ba = complete_step(complete_step(v, b, cb).1, a, ca).1;
            let after_a = poll_step(ab, a, elapsed, None);
            &&& ab == ba
            &&& after_a.0 == Ok::<PollView, ProverError>(
                PollView::Ready(stored_result(v.jobs[a].input.execute_only, ca)),
            )
            &&& poll_step(after_a.1, b, elapsed, None).0 == Ok::<PollView, ProverError>(
                PollView::Ready(stored_result(v.jobs[b].input.execute_only, cb)),
            )
            &&& poll_step(ab, b, elapsed, None).0 == Ok::<PollView, ProverError>(
                PollView::Ready(stored_result(v.jobs[b].input.execute_only, cb)),
            )
        }),
{
    let ab = complete_step(complete_step(v, a, ca).1, b, cb).1;
    let ba = complete_step(complete_step(v, b, cb).1, a, ca).1;
    assert(ab.jobs =~= ba.jobs);
    let after_a = poll_step(ab, a, elapsed, None);
    assert(after_a.1.jobs[b] == ab.jobs[b]);
}

/// Registering `ids[i]` for `inputs[i]`, one after another: what each
/// registration returned, and the registry afterwards.
pub open spec fn issue_all(v: LocalView, ids: Seq<Seq<char>>, inputs: Seq<ProverInputView>) -> (
    Seq<Result<(), ProverError>>,
    LocalView,
)
    decreases ids.len(),
{
    if ids.len() == 0 || inputs.len() == 0 {
        (Seq::empty(), v)
    } else {
        let first = issue(v, ids[0], inputs[0]);
        let rest = issue_all(first.1, ids.drop_first(), inputs.drop_first());
        (seq![first.0] + rest.0, rest.1)
    }
}

/// Storing `computed[i]` for job `ids[i]`, one after another.
pub open spec fn complete_all(v: LocalView, ids: Seq<Seq<char>>, computed: Seq<ProverResultView>) -> LocalView
    decreases ids.len(),
{
    if ids.len() == 0 || computed.len() == 0 {
        v
    } else {
        complete_all(complete_step(v, ids[0], computed[0]).1, ids.drop_first(), computed.drop_first())
    }
}

/// Waiting without a deadline on each job of `ids`, one after another:
/// what each wait returned, and the registry afterwards.
pub open spec fn harvest_all(v: LocalView, ids: Seq<Seq<char>>) -> (
    Seq<Result<PollView, ProverError>>,
    LocalView,
)
    decreases ids.len(),
{
    if ids.len() == 0 {
        (Seq::empty(), v)
    } else {
        let first = poll_step(v, ids[0], 0, None);
        let rest = harvest_all(first.1, ids.drop_first());
        (seq![first.0] + rest.0, rest.1)
    }
}

proof fn lemma_drop_first_keeps_others(s: Seq<Seq<char>>, k: Seq<char>)
    requires
        s.len() > 0,
        s.no_duplicates(),
    ensures
        s.drop_first().no_duplicates(),
        s.drop_first().contains(k) <==> (s.contains(k) && k != s[0]),
{
    assert forall|i: int, j: int|
        0 <= i < s.drop_first().len() && 0 <= j < s.drop_first().len() && i != j implies s.drop_first()[i]
        != s.drop_first()[j] by {
        assert(s.drop_first()[i] == s[i + 1] && s.drop_first()[j] == s[j + 1]);
    }
    if s.drop_first().contains(k) {
        let j = choose|j: int| 0 <= j < s.drop_first().len() && s.drop_first()[j] == k;
        assert(s[j + 1] == k);
    }
    if s.contains(k) && k != s[0] {
        let j = choose|j: int| 0 <= j < s.len() && s[j] == k;
        assert(s.drop_first()[j - 1] == k);
    }
}

/// No identifier is accepted twice: among any number of registrations in a
/// row, the identifiers of those that succeeded are pairwise distinct, and
/// none of them had been issued before.
pub proof fn law_accepted_identifiers_distinct(
    v: LocalView,
    ids: Seq<Seq<char>>,
    inputs: Seq<ProverInputView>,
)
    ensures
        issue_all(v, ids, inputs).0.len() <= ids.len(),
        forall|i: int|
            0 <= i < issue_all(v, ids, inputs).0.len() && (#[trigger] issue_all(v, ids, inputs).0[i]) is Ok
                ==> !v.issued.contains(ids[i]) && issue_all(v, ids, inputs).1.issued.contains(ids[i]),
        forall|i: int, j: int|
            0 <= i < j < issue_all(v, ids, inputs).0.len() && (#[trigger] issue_all(v, ids, inputs).0[i]) is Ok
                && (#[trigger] issue_all(v, ids, inputs).0[j]) is Ok ==> ids[i] != ids[j],
        forall|k: Seq<char>| v.issued.contains(k) ==> #[trigger] issue_all(v, ids, inputs).1.issued.contains(k),
    decreases ids.len(),
{
    if ids.len() > 0 && inputs.len() > 0 {
        let first = issue(v, ids[0], inputs[0]);
        let v1 = first.1;
        law_accepted_identifiers_distinct(v1, ids.drop_first(), inputs.drop_first());
        let rest = issue_all(v1, ids.drop_first(), inputs.drop_first());
        let r = issue_all(v, ids, inputs);
        assert(r.0 == seq![first.0] + rest.0);
        assert forall|i: int| 0 <= i < r.0.len() && (#[trigger] r.0[i]) is Ok implies !v.issued.contains(ids[i])
            && r.1.issued.contains(ids[i]) by {
            if i > 0 {
                assert(r.0[i] == rest.0[i - 1]);
                assert(ids.drop_first()[i - 1] == ids[i]);
            }
        }
        assert forall|i: int, j: int|
            0 <= i < j < r.0.len() && (#[trigger] r.0[i]) is Ok && (#[trigger] r.0[j]) is Ok implies ids[i]
            != ids[j] by {
            assert(r.0[j] == rest.0[j - 1]);
            assert(ids.drop_first()[j - 1] == ids[j]);
            if i > 0 {
                assert(r.0[i] == rest.0[i - 1]);
                assert(ids.drop_first()[i - 1] == ids[i]);
            }
        }
    }
}

/// Registering distinct identifiers that were never issued succeeds for
/// each, and job `ids[i]` then holds `inputs[i]`; the other jobs stay as
/// they were.
pub proof fn law_registrations(v: LocalView, ids: Seq<Seq<char>>, inputs: Seq<ProverInputView>)
    requires
        ids.len() == inputs.len(),
        ids.no_duplicates(),
        forall|i: int| 0 <= i < ids.len() ==> !v.issued.contains(#[trigger] ids[i]),
    ensures
        issue_all(v, ids, inputs).0.len() == ids.len(),
        forall|i: int| 0 <= i < ids.len() ==> #[trigger] issue_all(v, ids, inputs).0[i] == Ok::<(), ProverError>(()),
        forall|i: int|
            0 <= i < ids.len() ==> issue_all(v, ids, inputs).1.jobs.contains_key(#[trigger] ids[i])
                && issue_all(v, ids, inputs).1.jobs[ids[i]] == created(inputs[i]),
        forall|k: Seq<char>|
            !ids.contains(k) ==> (#[trigger] issue_all(v, ids, inputs).1.jobs.contains_key(k) == v.jobs.contains_key(k))
                && issue_all(v, ids, inputs).1.jobs[k] == v.jobs[k],
    decreases ids.len(),
{
    if ids.len() > 0 {
        let v1 = issue(v, ids[0], inputs[0]).1;
        let ids1 = ids.drop_first();
        lemma_drop_first_keeps_others(ids, ids[0]);
        assert forall|i: int| 0 <= i < ids1.len() implies !v1.issued.contains(#[trigger] ids1[i]) by {
            assert(ids1[i] == ids[i + 1]);
        }
        law_registrations(v1, ids1, inputs.drop_first());
        let rest = issue_all(v1, ids1, inputs.drop_first());
        let r = issue_all(v, ids, inputs);
        assert(r.0 == seq![Ok::<(), ProverError>(())] + rest.0);
        assert forall|i: int| 0 <= i < ids.len() implies #[trigger] r.0[i] == Ok::<(), ProverError>(()) by {
            if i > 0 {
                assert(r.0[i] == rest.0[i - 1]);
            }
        }
        assert forall|i: int| 0 <= i < ids.len() implies r.1.jobs.contains_key(#[trigger] ids[i])
            && r.1.jobs[ids[i]] == created(inputs[i]) by {
            if i > 0 {
                assert(ids1[i - 1] == ids[i]);
                assert(inputs.drop_first()[i - 1] == inputs[i]);
            }
        }
        assert forall|k: Seq<char>| !ids.contains(k) implies (#[trigger] r.1.jobs.contains_key(k)
            == v.jobs.contains_key(k)) && r.1.jobs[k] == v.jobs[k] by {
            lemma_drop_first_keeps_others(ids, k);
            assert(ids[0] != k);
        }
    }
}

/// Completing distinct live jobs one after another, in any order, gives
/// each exactly the effect of its own completion: job `ids[i]` holds what
/// `computed[i]` makes of it, and no other job changes.
pub proof fn law_completions(v: LocalView, ids: Seq<Seq<char>>, computed: Seq<ProverResultView>)
    requires
        ids.len() == computed.len(),
        ids.no_duplicates(),
        forall|i: int| 0 <= i < ids.len() ==> v.jobs.contains_key(#[trigger] ids[i]),
    ensures
        complete_all(v, ids, computed).issued == v.issued,
        forall|k: Seq<char>| #[trigger] complete_all(v, ids, computed).jobs.contains_key(k) == v.jobs.contains_key(k),
        forall|i: int|
            0 <= i < ids.len() ==> complete_all(v, ids, computed).jobs[#[trigger] ids[i]] == ran(
                v.jobs[ids[i]],
                computed[i],
            ),
        forall|k: Seq<char>| !ids.contains(k) ==> #[trigger] complete_all(v, ids, computed).jobs[k] == v.jobs[k],
    decreases ids.len(),
{
    if ids.len() > 0 {
        let v1 = complete_step(v, ids[0], computed[0]).1;
        let ids1 = ids.drop_first();
        lemma_drop_first_keeps_others(ids, ids[0]);
        assert forall|i: int| 0 <= i < ids1.len() implies v1.jobs.contains_key(#[trigger] ids1[i]) by {
            assert(ids1[i] == ids[i + 1]);
        }
        law_completions(v1, ids1, computed.drop_first());
        let r = complete_all(v, ids, computed);
        assert forall|i: int| 0 <= i < ids.len() implies r.jobs[#[trigger] ids[i]] == ran(
            v.jobs[ids[i]],
            computed[i],
        ) by {
            if i > 0 {
                assert(ids1[i - 1] == ids[i]);
                assert(computed.drop_first()[i - 1] == computed[i]);
                assert(ids[i] != ids[0]);
            }
        }
        assert forall|k: Seq<char>| !ids.contains(k) implies #[trigger] r.jobs[k] == v.jobs[k] by {
            lemma_drop_first_keeps_others(ids, k);
            assert(ids[0] != k);
        }
        assert forall|k: Seq<char>| #[trigger] r.jobs.contains_key(k) == v.jobs.contains_key(k) by {
            assert(v1.jobs.contains_key(k) == v.jobs.contains_key(k));
        }
    }
}

/// Waiting without a deadline on distinct finished jobs, one after another,
/// returns to each wait the result of its own job, and takes exactly those
/// jobs out of the registry.
pub proof fn law_harvests(v: LocalView, ids: Seq<Seq<char>>)
    requires
        ids.no_duplicates(),
        forall|i: int| 0 <= i < ids.len() ==> v.jobs.contains_key(#[trigger] ids[i]) && v.jobs[ids[i]].done,
    ensures
        harvest_all(v, ids).0.len() == ids.len(),
        harvest_all(v, ids).1.issued == v.issued,
        forall|i: int|
            0 <= i < ids.len() ==> #[trigger] harvest_all(v, ids).0[i] == Ok::<PollView, ProverError>(
                PollView::Ready(v.jobs[ids[i]].result.unwrap()),
            ),
        forall|k: Seq<char>|
            #[trigger] harvest_all(v, ids).1.jobs.contains_key(k) == (v.jobs.contains_key(k) && !ids.contains(k)),
        forall|k: Seq<char>|
            #[trigger] harvest_all(v, ids).1.jobs.contains_key(k) ==> harvest_all(v, ids).1.jobs[k] == v.jobs[k],
    decreases ids.len(),
{
    if ids.len() > 0 {
        let first = poll_step(v, ids[0], 0, None);
        let v1 = first.1;
        let ids1 = ids.drop_first();
        lemma_drop_first_keeps_others(ids, ids[0]);
        assert forall|i: int| 0 <= i < ids1.len() implies v1.jobs.contains_key(#[trigger] ids1[i])
            && v1.jobs[ids1[i]].done by {
            assert(ids1[i] == ids[i + 1]);
        }
        law_harvests(v1, ids1);
        let rest = harvest_all(v1, ids1);
        let r = harvest_all(v, ids);
        assert(r.0 == seq![first.0] + rest.0);
        assert forall|i: int| 0 <= i < ids.len() implies #[trigger] r.0[i] == Ok::<PollView, ProverError>(
            PollView::Ready(v.jobs[ids[i]].result.unwrap()),
        ) by {
            if i > 0 {
                assert(r.0[i] == rest.0[i - 1]);
                assert(ids1[i - 1] == ids[i]);
            }
        }
        assert forall|k: Seq<char>| #[trigger] r.1.jobs.contains_key(k) == (v.jobs.contains_key(k)
            && !ids.contains(k)) by {
            lemma_drop_first_keeps_others(ids, k);
        }
    }
}

/// Whether `p` lists each of `0..n` exactly once.
pub open spec fn is_permutation(p: Seq<int>, n: int) -> bool {
    &&& p.len() == n
    &&& p.no_duplicates()
    &&& forall|j: int| 0 <= j < n ==> 0 <= #[trigger] p[j] < n
    &&& forall|i: int| 0 <= i < n ==> #[trigger] p.contains(i)
}

/// Many jobs in flight never swap results. Register `ids[i]` for
/// `inputs[i]`, each identifier fresh; let the computations finish in the
/// order `done_order`, job `ids[i]` producing `computed[i]`; then wait on
/// the jobs in the order `wait_order`, without a deadline. Every
/// registration succeeds, the `j`-th wait returns what `computed` makes of
/// the job's own input, and the waited jobs leave the registry.
pub proof fn law_many_jobs_keep_their_results(
    v: LocalView,
    ids: Seq<Seq<char>>,
    inputs: Seq<ProverInputView>,
    computed: Seq<ProverResultView>,
    done_order: Seq<int>,
    wait_order: Seq<int>,
)
    requires
        ids.len() == inputs.len(),
        ids.len() == computed.len(),
        ids.no_duplicates(),
        forall|i: int| 0 <= i < ids.len() ==> !v.issued.contains(#[trigger] ids[i]),
        is_permutation(done_order, ids.len() as int),
        is_permutation(wait_order, ids.len() as int),
    ensures
        ({
            let registered = issue_all(v, ids, inputs);
            let finished = complete_all(
                registered.1,
                done_order.map_values(|x: int| ids[x]),
                done_order.map_values(|x: int| computed[x]),
            );
            let waited = harvest_all(finished, wait_order.map_values(|x: int| ids[x]));
            &&& forall|i: int| 0 <= i < ids.len() ==> #[trigger] registered.0[i] == Ok::<(), ProverError>(())
            &&& waited.0.len() == ids.len()
            &&& forall|j: int|
                0 <= j < ids.len() ==> #[trigger] waited.0[j] == Ok::<PollView, ProverError>(
                    PollView::Ready(
                        stored_result(inputs[wait_order[j]].execute_only, computed[wait_order[j]]),
                    ),
                )
            &&& forall|i: int| 0 <= i < ids.len() ==> !waited.1.jobs.contains_key(#[trigger] ids[i])
        }),
{
    let n = ids.len() as int;
    law_registrations(v, ids, inputs);
    let registered = issue_all(v, ids, inputs);
    let cids = done_order.map_values(|x: int| ids[x]);
    let ccs = done_order.map_values(|x: int| computed[x]);
    assert forall|a: int, b: int| 0 <= a < n && 0 <= b < n && a != b implies cids[a] != cids[b] by {
        assert(done_order[a] != done_order[b]);
    }
    assert forall|j: int| 0 <= j < n implies registered.1.jobs.contains_key(#[trigger] cids[j]) by {
        assert(cids[j] == ids[done_order[j]]);
    }
    law_completions(registered.1, cids, ccs);
    let finished = complete_all(registered.1, cids, ccs);
    assert forall|i: int| 0 <= i < n implies finished.jobs.contains_key(#[trigger] ids[i])
        && finished.jobs[ids[i]] == ran(created(inputs[i]), computed[i]) by {
        assert(done_order.contains(i));
        let j = choose|j: int| 0 <= j < n && #[trigger] done_order[j] == i;
        assert(cids[j] == ids[i]);
        assert(ccs[j] == computed[i]);
    }
    let hids = wait_order.map_values(|x: int| ids[x]);
    assert forall|a: int, b: int| 0 <= a < n && 0 <= b < n && a != b implies hids[a] != hids[b] by {
        assert(wait_order[a] != wait_order[b]);
    }
    assert forall|j: int| 0 <= j < n implies finished.jobs.contains_key(#[trigger] hids[j])
        && finished.jobs[hids[j]].done by {
        assert(hids[j] == ids[wait_order[j]]);
    }
    law_harvests(finished, hids);
    let waited = harvest_all(finished, hids);
    assert forall|j: int| 0 <= j < n implies #[trigger] waited.0[j] == Ok::<PollView, ProverError>(
        PollView::Ready(stored_result(inputs[wait_order[j]].execute_only, computed[wait_order[j]])),
    ) by {
        assert(hids[j] == ids[wait_order[j]]);
    }
    assert forall|i: int| 0 <= i < n implies !waited.1.jobs.contains_key(#[trigger] ids[i]) by {
        assert(wait_order.contains(i));
        let j = choose|j: int| 0 <= j < n && #[trigger] wait_order[j] == i;
        assert(hids[j] == ids[i]);
        assert(hids.contains(ids[i]));
    }
}

} // verus!
