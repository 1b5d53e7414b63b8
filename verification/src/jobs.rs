//! The table of active jobs and their cancellation flags.
use vstd::prelude::*;
use vstd::hash_map::StringHashMap;

verus! {

/// Active jobs, each with a flag that says whether cancellation was asked for.
pub struct PipelineState {
    active_jobs: StringHashMap<bool>,
}

/// The table after a cancellation request for `job_id`: only a job that is active
/// gets its flag set.
pub open spec fn cancelled_table(jobs: Map<Seq<char>, bool>, job_id: Seq<char>) -> Map<
    Seq<char>,
    bool,
> {
    if jobs.contains_key(job_id) {
        jobs.insert(job_id, true)
    } else {
        jobs
    }
}

/// Whether `job_id` is active and was asked to cancel.
pub open spec fn is_cancelled_in(jobs: Map<Seq<char>, bool>, job_id: Seq<char>) -> bool {
    jobs.contains_key(job_id) && jobs[job_id]
}

impl View for PipelineState {
    type V = Map<Seq<char>, bool>;

    closed spec fn view(&self) -> Map<Seq<char>, bool> {
        self.active_jobs@
    }
}

impl PipelineState {
    /// A table with no active job.
    pub fn new() -> (s: Self)
        ensures
            s@ == Map::<Seq<char>, bool>::empty(),
    {
        PipelineState { active_jobs: StringHashMap::new() }
    }

    /// Asks an active job to stop; does nothing for a job that is not active.
    pub fn cancel_job(&mut self, job_id: &str)
        ensures
            final(self)@ == cancelled_table(old(self)@, job_id@),
    {
        if self.active_jobs.contains_key(job_id) {
            self.active_jobs.insert(job_id.to_string(), true);
        }
    }

    /// Whether the job is active and was asked to stop.
    pub fn is_cancelled(&self, job_id: &str) -> (b: bool)
        ensures
            b == is_cancelled_in(self@, job_id@),
    {
        match self.active_jobs.get(job_id) {
            Some(flag) => *flag,
            None => false,
        }
    }

    /// Registers a job as active and not cancelled (a registered job is reset).
    pub fn start_job(&mut self, job_id: String)
        ensures
            final(self)@ == old(self)@.insert(job_id@, false),
    {
        self.active_jobs.insert(job_id, false);
    }

    /// Removes a job from the table.
    pub fn finish_job(&mut self, job_id: &str)
        ensures
            final(self)@ == old(self)@.remove(job_id@),
    {
        self.active_jobs.remove(job_id);
    }
}

/// A started job is not cancelled until someone asks; after a request it is.
pub proof fn started_job_cancels(jobs: Map<Seq<char>, bool>, job_id: Seq<char>)
    ensures
        !is_cancelled_in(jobs.insert(job_id, false), job_id),
        is_cancelled_in(cancelled_table(jobs.insert(job_id, false), job_id), job_id),
{
}

/// Asking a job that is not active to cancel changes nothing, so a job started
/// afterwards runs uncancelled.
pub proof fn cancel_before_start_is_ignored(jobs: Map<Seq<char>, bool>, job_id: Seq<char>)
    requires
        !jobs.contains_key(job_id),
    ensures
        cancelled_table(jobs, job_id) == jobs,
        !is_cancelled_in(cancelled_table(jobs, job_id).insert(job_id, false), job_id),
{
}

/// A finished job is no longer active and reads as not cancelled; cancelling it
/// afterwards changes nothing.
pub proof fn finished_job_is_gone(jobs: Map<Seq<char>, bool>, job_id: Seq<char>)
    ensures
        !jobs.remove(job_id).contains_key(job_id),
        !is_cancelled_in(jobs.remove(job_id), job_id),
        cancelled_table(jobs.remove(job_id), job_id) == jobs.remove(job_id),
{
}

/// Cancelling twice is the same as cancelling once.
pub proof fn cancel_is_idempotent(jobs: Map<Seq<char>, bool>, job_id: Seq<char>)
    ensures
        cancelled_table(cancelled_table(jobs, job_id), job_id) == cancelled_table(jobs, job_id),
{
}

/// Cancelling, starting or finishing one job leaves every other job as it was.
pub proof fn other_jobs_unaffected(jobs: Map<Seq<char>, bool>, job_id: Seq<char>, other: Seq<char>)
    requires
        other != job_id,
    ensures
        is_cancelled_in(cancelled_table(jobs, job_id), other) == is_cancelled_in(jobs, other),
        is_cancelled_in(jobs.insert(job_id, false), other) == is_cancelled_in(jobs, other),
        is_cancelled_in(jobs.remove(job_id), other) == is_cancelled_in(jobs, other),
{
}

/// One operation on the table of active jobs.
pub enum JobOp {
    Start(Seq<char>),
    Cancel(Seq<char>),
    Finish(Seq<char>),
}

/// The table after one operation, as `start_job`, `cancel_job` and `finish_job`
/// leave it.
pub open spec fn apply_op(jobs: Map<Seq<char>, bool>, op: JobOp) -> Map<Seq<char>, bool> {
    match op {
        JobOp::Start(id) => jobs.insert(id, false),
        JobOp::Cancel(id) => cancelled_table(jobs, id),
        JobOp::Finish(id) => jobs.remove(id),
    }
}

/// The table after the operations `ops`, in order.
pub open spec fn apply_ops(jobs: Map<Seq<char>, bool>, ops: Seq<JobOp>) -> Map<Seq<char>, bool>
    decreases ops.len(),
{
    if ops.len() == 0 {
        jobs
    } else {
        apply_op(apply_ops(jobs, ops.drop_last()), ops.last())
    }
}

/// The `k`-th operation starts `id`, and no later one starts or finishes it.
pub open spec fn last_start(ops: Seq<JobOp>, id: Seq<char>, k: int) -> bool {
    &&& 0 <= k < ops.len()
    &&& ops[k] == JobOp::Start(id)
    &&& forall|j: int| k < j < ops.len() ==> ops[j] != JobOp::Start(id) && ops[j] != JobOp::Finish(id)
}

/// For a job that was not in the table at first, after any sequence of operations
/// the job is active exactly when it was started and not finished since, and it
/// reads as cancelled exactly when, in addition, a cancellation was asked for after
/// that start.
pub proof fn table_follows_history(jobs: Map<Seq<char>, bool>, ops: Seq<JobOp>, id: Seq<char>)
    requires
        !jobs.contains_key(id),
    ensures
        apply_ops(jobs, ops).contains_key(id) <==> exists|k: int| last_start(ops, id, k),
        is_cancelled_in(apply_ops(jobs, ops), id) <==> exists|k: int, c: int|
            last_start(ops, id, k) && k < c < ops.len() && ops[c] == JobOp::Cancel(id),
    decreases ops.len(),
{
    if ops.len() > 0 {
        let pre = ops.drop_last();
        let n = ops.len() as int;
        let last = ops.last();
        table_follows_history(jobs, pre, id);
        let before = apply_ops(jobs, pre);
        let after = apply_ops(jobs, ops);
        assert(after == apply_op(before, last));
        assert forall|k: int| 0 <= k < n - 1 && last != JobOp::Start(id) && last != JobOp::Finish(
            id,
        ) implies (last_start(ops, id, k) <==> last_start(pre, id, k)) by {
            if last_start(pre, id, k) {
                assert forall|j: int| k < j < n implies ops[j] != JobOp::Start(id) && ops[j]
                    != JobOp::Finish(id) by {
                    if j < n - 1 {
                        assert(ops[j] == pre[j]);
                    }
                }
            }
            if last_start(ops, id, k) {
                assert forall|j: int| k < j < n - 1 implies pre[j] != JobOp::Start(id) && pre[j]
                    != JobOp::Finish(id) by {
                    assert(ops[j] == pre[j]);
                }
            }
        }
        if last == JobOp::Start(id) {
            assert(last_start(ops, id, n - 1));
            assert forall|k: int| last_start(ops, id, k) implies k == n - 1 by {
                if k < n - 1 {
                    assert(ops[n - 1] != JobOp::Start(id));
                }
            }
        } else if last == JobOp::Finish(id) {
            assert forall|k: int| !last_start(ops, id, k) by {
                if 0 <= k < n - 1 && ops[k] == JobOp::Start(id) {
                    assert(ops[n - 1] == JobOp::Finish(id));
                }
            }
        } else {
            assert(!last_start(ops, id, n - 1));
            if exists|k: int| last_start(pre, id, k) {
                let k = choose|k: int| last_start(pre, id, k);
                assert(last_start(ops, id, k));
            }
            if exists|k: int| last_start(ops, id, k) {
                let k = choose|k: int| last_start(ops, id, k);
                assert(k < n - 1);
                assert(last_start(pre, id, k));
            }
            if last == JobOp::Cancel(id) {
                if after.contains_key(id) {
                    let k = choose|k: int| last_start(ops, id, k);
                    assert(last_start(ops, id, k) && k < n - 1 && ops[n - 1] == JobOp::Cancel(id));
                }
            } else {
                assert(after.contains_key(id) == before.contains_key(id));
                assert(is_cancelled_in(after, id) == is_cancelled_in(before, id));
                if exists|k: int, c: int|
                    last_start(pre, id, k) && k < c < pre.len() && pre[c] == JobOp::Cancel(id) {
                    let (k, c) = choose|k: int, c: int|
                        last_start(pre, id, k) && k < c < pre.len() && pre[c] == JobOp::Cancel(id);
                    assert(last_start(ops, id, k) && ops[c] == JobOp::Cancel(id));
                }
                if exists|k: int, c: int|
                    last_start(ops, id, k) && k < c < ops.len() && ops[c] == JobOp::Cancel(id) {
                    let (k, c) = choose|k: int, c: int|
                        last_start(ops, id, k) && k < c < ops.len() && ops[c] == JobOp::Cancel(id);
                    assert(c < n - 1);
                    assert(last_start(pre, id, k) && pre[c] == JobOp::Cancel(id));
                }
            }
        }
    }
}

} // verus!
