//! Accounting for a batch of concurrently executed operations. Launching the
//! tasks on a runtime is the application's job; this is the verified heart of
//! the executor: it enforces the optional concurrency bound, collects exactly
//! one outcome per task, and says when the batch is complete. An individual
//! failure is recorded like a success and never aborts the batch.

use vstd::prelude::*;

verus! {

/// Per-task outcome: success, or failure with a human-readable cause. A task
/// that aborts abnormally is recorded as a failure too, never re-raised.
pub enum LoadResult {
    Success,
    Failure(String),
}

impl LoadResult {
    pub open spec fn is_success(&self) -> bool {
        self is Success
    }
}

/// Number of successes among a batch of outcomes.
pub open spec fn success_count(s: Seq<LoadResult>) -> nat
    decreases s.len(),
{
    if s.len() == 0 {
        0
    } else {
        success_count(s.drop_last()) + (if s.last() is Success {
            1nat
        } else {
            0nat
        })
    }
}

pub proof fn lemma_success_count_le_len(s: Seq<LoadResult>)
    ensures
        success_count(s) <= s.len(),
    decreases s.len(),
{
    if s.len() > 0 {
        lemma_success_count_le_len(s.drop_last());
    }
}

/// One batch of tasks: how many exist, how many have been started, the
/// optional bound on tasks in flight, and the outcomes settled so far.
pub struct TaskBatch {
    pub total: usize,
    pub launched: usize,
    pub limit: Option<usize>,
    pub outcomes: Vec<LoadResult>,
}

impl TaskBatch {
    /// Tasks that have settled with an outcome.
    pub open spec fn settled(&self) -> nat {
        self.outcomes@.len()
    }

    /// Tasks started but not yet settled.
    pub open spec fn in_flight(&self) -> int {
        self.launched - self.settled()
    }

    /// Every settled task was launched, every launched task exists, and the
    /// concurrency bound is respected.
    pub open spec fn wf(&self) -> bool {
        &&& self.settled() <= self.launched <= self.total
        &&& (self.limit matches Some(l) ==> self.in_flight() <= l)
    }

    pub fn new(total: usize, limit: Option<usize>) -> (r: Self)
        ensures
            r.wf(),
            r.total == total,
            r.launched == 0,
            r.settled() == 0,
            r.limit == limit,
    {
        TaskBatch { total, launched: 0, limit, outcomes: Vec::new() }
    }

    /// Whether another task may start now: some task is still unlaunched and
    /// the bound, if any, leaves room.
    pub fn can_launch(&self) -> (r: bool)
        requires
            self.wf(),
        ensures
            r == (self.launched < self.total && (self.limit matches Some(l) ==> self.in_flight()
                < l)),
    {
        if self.launched >= self.total {
            return false;
        }
        match self.limit {
            Some(l) => self.launched - self.outcomes.len() < l,
            None => true,
        }
    }

    /// Records the start of one task.
    pub fn launch(&mut self)
        requires
            old(self).wf(),
            old(self).launched < old(self).total,
            old(self).limit matches Some(l) ==> old(self).in_flight() < l,
        ensures
            final (self).wf(),
            final (self).launched == old(self).launched + 1,
            final (self).total == old(self).total,
            final (self).limit == old(self).limit,
            final (self).outcomes@ == old(self).outcomes@,
    {
        self.launched = self.launched + 1;
    }

    /// Records one settled task's outcome. Any outcome is accepted — a
    /// failure never short-circuits the batch.
    pub fn record(&mut self, outcome: LoadResult)
        requires
            old(self).wf(),
            old(self).settled() < old(self).launched,
        ensures
            final (self).wf(),
            final (self).outcomes@ == old(self).outcomes@.push(outcome),
            final (self).launched == old(self).launched,
            final (self).total == old(self).total,
            final (self).limit == old(self).limit,
    {
        self.outcomes.push(outcome);
    }

    /// The batch is complete exactly when every task has been launched and
    /// has settled with an outcome.
    pub fn is_done(&self) -> (r: bool)
        ensures
            r == (self.launched == self.total && self.settled() == self.launched),
    {
        self.launched == self.total && self.outcomes.len() == self.launched
    }

    /// Counts the successful outcomes settled so far.
    pub fn successes(&self) -> (r: usize)
        ensures
            r == success_count(self.outcomes@),
    {
        count_successes(&self.outcomes)
    }
}

/// Counts the successes in a sequence of outcomes.
pub fn count_successes(results: &Vec<LoadResult>) -> (r: usize)
    ensures
        r == success_count(results@),
{
    let n = results.len();
    let mut acc: usize = 0;
    let mut i: usize = 0;
    while i < n
        invariant
            n == results@.len(),
            i <= n,
            acc == success_count(results@.take(i as int)),
            acc <= i,
        decreases n - i,
    {
        proof {
            assert(results@.take(i + 1).drop_last() =~= results@.take(i as int));
            assert(results@.take(i + 1).last() == results@[i as int]);
            lemma_success_count_le_len(results@.take(i as int));
        }
        let is_success = match &results[i] {
            LoadResult::Success => true,
            LoadResult::Failure(_) => false,
        };
        if is_success {
            acc = acc + 1;
        }
        i += 1;
    }
    proof {
        assert(results@.take(n as int) =~= results@);
    }
    acc
}

/// A completed batch holds exactly one outcome per task — the full set is
/// returned whatever mix of successes and failures was recorded, and the
/// failures are precisely the outcomes that are not successes.
pub proof fn lemma_done_batch_full_outcome_set(b: &TaskBatch)
    requires
        b.wf(),
        b.launched == b.total,
        b.settled() == b.launched,
    ensures
        b.outcomes@.len() == b.total,
        success_count(b.outcomes@) <= b.total,
{
    lemma_success_count_le_len(b.outcomes@);
}

} // verus!
