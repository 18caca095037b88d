//! A bounded download scheduler. It decides which task starts next and keeps
//! each task's outcome; the caller runs the tasks on a pool of workers and
//! reports each outcome back. A failed task never stops its siblings.

use vstd::prelude::*;

verus! {

/// Why a download task failed.
#[derive(PartialEq, Eq, Structural, Clone, Copy, Debug)]
pub enum FailureKind {
    /// Connection, timeout or a status other than success.
    Network,
    /// A directory or file could not be created or written.
    Io,
    /// A native archive could not be read or holds an unsafe entry.
    Archive,
}

/// Where a task stands.
#[derive(PartialEq, Eq, Structural, Clone, Copy, Debug)]
pub enum TaskState {
    Waiting,
    Running,
    Succeeded,
    Failed(FailureKind),
}

pub open spec fn is_finished(s: TaskState) -> bool {
    s is Succeeded || s is Failed
}

pub open spec fn running_state() -> spec_fn(TaskState) -> bool {
    |t: TaskState| t is Running
}

pub open spec fn waiting_state() -> spec_fn(TaskState) -> bool {
    |t: TaskState| t is Waiting
}

/// How many tasks are in a state that `f` picks.
pub open spec fn count_where(s: Seq<TaskState>, f: spec_fn(TaskState) -> bool) -> nat
    decreases s.len(),
{
    if s.len() == 0 {
        0
    } else {
        count_where(s.drop_last(), f) + if f(s.last()) {
            1nat
        } else {
            0nat
        }
    }
}

proof fn lemma_count_update(s: Seq<TaskState>, i: int, x: TaskState, f: spec_fn(TaskState) -> bool)
    requires
        0 <= i < s.len(),
    ensures
        count_where(s.update(i, x), f) + (if f(s[i]) { 1nat } else { 0nat })
            == count_where(s, f) + (if f(x) { 1nat } else { 0nat }),
    decreases s.len(),
{
    if i < s.len() - 1 {
        assert(s.update(i, x).drop_last() =~= s.drop_last().update(i, x));
        lemma_count_update(s.drop_last(), i, x, f);
    } else {
        assert(s.update(i, x).drop_last() =~= s.drop_last());
    }
}

proof fn lemma_count_le_len(s: Seq<TaskState>, f: spec_fn(TaskState) -> bool)
    ensures
        count_where(s, f) <= s.len(),
    decreases s.len(),
{
    if s.len() > 0 {
        lemma_count_le_len(s.drop_last(), f);
    }
}

proof fn lemma_count_zero(s: Seq<TaskState>, f: spec_fn(TaskState) -> bool)
    requires
        count_where(s, f) == 0,
    ensures
        forall|i: int| 0 <= i < s.len() ==> !f(#[trigger] s[i]),
    decreases s.len(),
{
    if s.len() > 0 {
        lemma_count_zero(s.drop_last(), f);
        assert forall|i: int| 0 <= i < s.len() implies !f(#[trigger] s[i]) by {
            if i < s.len() - 1 {
                assert(s[i] == s.drop_last()[i]);
            }
        }
    }
}

proof fn lemma_count_zero_of_none(s: Seq<TaskState>, f: spec_fn(TaskState) -> bool)
    requires
        forall|i: int| 0 <= i < s.len() ==> !f(#[trigger] s[i]),
    ensures
        count_where(s, f) == 0,
    decreases s.len(),
{
    if s.len() > 0 {
        assert forall|i: int| 0 <= i < s.drop_last().len() implies !f(#[trigger] s.drop_last()[i]) by {
            assert(s.drop_last()[i] == s[i]);
        }
        lemma_count_zero_of_none(s.drop_last(), f);
    }
}

/// What a task's state becomes once an attempt ends: a network failure
/// sends it back to wait while attempts remain; any other outcome is final.
pub open spec fn state_after(outcome: Result<(), FailureKind>, attempts_used: nat, max_attempts: nat) -> TaskState {
    match outcome {
        Ok(()) => TaskState::Succeeded,
        Err(FailureKind::Network) => if attempts_used < max_attempts {
            TaskState::Waiting
        } else {
            TaskState::Failed(FailureKind::Network)
        },
        Err(k) => TaskState::Failed(k),
    }
}

/// The wait before attempt number `attempt` (counted from 1): none before
/// the first, half a second before the second, doubling after that up to
/// half a minute.
pub open spec fn backoff_ms(attempt: nat) -> nat
    decreases attempt,
{
    if attempt <= 1 {
        0
    } else if attempt == 2 {
        500
    } else if 2 * backoff_ms((attempt - 1) as nat) > 30000 {
        30000
    } else {
        2 * backoff_ms((attempt - 1) as nat)
    }
}

proof fn lemma_backoff_bounded(attempt: nat)
    ensures
        backoff_ms(attempt) <= 30000,
    decreases attempt,
{
    if attempt > 2 {
        lemma_backoff_bounded((attempt - 1) as nat);
    }
}

/// How long to wait, in milliseconds, before attempt number `attempt`.
pub fn retry_delay_ms(attempt: usize) -> (r: u64)
    ensures
        r == backoff_ms(attempt as nat),
{
    if attempt <= 1 {
        return 0;
    }
    let mut delay: u64 = 500;
    let mut k: usize = 2;
    while k < attempt
        invariant
            2 <= k <= attempt,
            delay == backoff_ms(k as nat),
        decreases attempt - k,
    {
        proof {
            lemma_backoff_bounded(k as nat);
        }
        delay = if 2 * delay > 30000 {
            30000
        } else {
            2 * delay
        };
        k += 1;
    }
    delay
}

/// The indices, below `n` and in increasing order, of the tasks that succeeded.
pub open spec fn succeeded_upto(s: Seq<TaskState>, n: int) -> Seq<usize>
    decreases n,
{
    if n <= 0 {
        Seq::empty()
    } else if s[n - 1] is Succeeded {
        succeeded_upto(s, n - 1).push((n - 1) as usize)
    } else {
        succeeded_upto(s, n - 1)
    }
}

/// The indices and failures, below `n` and in increasing order, of the tasks that failed.
pub open spec fn failed_upto(s: Seq<TaskState>, n: int) -> Seq<(usize, FailureKind)>
    decreases n,
{
    if n <= 0 {
        Seq::empty()
    } else {
        match s[n - 1] {
            TaskState::Failed(k) => failed_upto(s, n - 1).push(((n - 1) as usize, k)),
            _ => failed_upto(s, n - 1),
        }
    }
}

/// What became of the tasks.
pub struct Report {
    /// Indices of the tasks that succeeded, in increasing order.
    pub succeeded: Vec<usize>,
    /// Indices of the tasks that failed, with the failure, in increasing order.
    pub failed: Vec<(usize, FailureKind)>,
}

/// Keeps the state of every task, the attempts each has had, and the
/// number of busy workers.
pub struct Scheduler {
    pool_size: usize,
    max_attempts: usize,
    running: usize,
    waiting: usize,
    states: Vec<TaskState>,
    attempts: Vec<usize>,
}

impl Scheduler {
    /// The state of each task.
    pub closed spec fn states(&self) -> Seq<TaskState> {
        self.states@
    }

    /// How many attempts each task has had.
    pub closed spec fn attempts(&self) -> Seq<usize> {
        self.attempts@
    }

    /// How many tasks may run at once.
    pub closed spec fn pool(&self) -> nat {
        self.pool_size as nat
    }

    /// How many attempts a task may have.
    pub closed spec fn max_attempts(&self) -> nat {
        self.max_attempts as nat
    }

    /// The counts match the states, the running tasks fit the pool, and a
    /// waiting task has an attempt left.
    pub closed spec fn wf(&self) -> bool {
        &&& self.pool_size > 0
        &&& self.max_attempts > 0
        &&& self.states@.len() == self.attempts@.len()
        &&& self.states@.len() <= usize::MAX
        &&& self.running == count_where(self.states@, running_state())
        &&& self.waiting == count_where(self.states@, waiting_state())
        &&& self.running <= self.pool_size
        &&& forall|i: int| 0 <= i < self.states@.len() ==> #[trigger] self.attempts@[i] <= self.max_attempts
        &&& forall|i: int|
            0 <= i < self.states@.len() && #[trigger] self.states@[i] is Waiting ==> self.attempts@[i] < self.max_attempts
    }

    /// A scheduler for `task_count` tasks, with at most `pool_size` running
    /// at once and at most `max_attempts` attempts for each.
    pub fn new(task_count: usize, pool_size: usize, max_attempts: usize) -> (r: Scheduler)
        requires
            pool_size > 0,
            max_attempts > 0,
        ensures
            r.wf(),
            r.pool() == pool_size,
            r.max_attempts() == max_attempts,
            r.states() == Seq::new(task_count as nat, |i: int| TaskState::Waiting),
            r.attempts() == Seq::new(task_count as nat, |i: int| 0usize),
    {
        let mut states: Vec<TaskState> = Vec::new();
        let mut attempts: Vec<usize> = Vec::new();
        let mut i: usize = 0;
        while i < task_count
            invariant
                i <= task_count,
                states@ == Seq::new(i as nat, |k: int| TaskState::Waiting),
                attempts@ == Seq::new(i as nat, |k: int| 0usize),
                count_where(states@, waiting_state()) == i,
                count_where(states@, running_state()) == 0,
            decreases task_count - i,
        {
            let ghost before = states@;
            states.push(TaskState::Waiting);
            attempts.push(0);
            assert(states@.drop_last() =~= before);
            i += 1;
            assert(states@ =~= Seq::new(i as nat, |k: int| TaskState::Waiting));
            assert(attempts@ =~= Seq::new(i as nat, |k: int| 0usize));
        }
        Scheduler { pool_size, max_attempts, running: 0, waiting: task_count, states, attempts }
    }

    /// Starts the waiting task with the lowest index, where a worker is free:
    /// marks it running, counts the attempt and returns its index. Returns
    /// `None`, changing nothing, where every worker is busy or no task waits.
    pub fn next_task(&mut self) -> (r: Option<usize>)
        requires
            old(self).wf(),
        ensures
            final(self).wf(),
            final(self).pool() == old(self).pool(),
            final(self).max_attempts() == old(self).max_attempts(),
            match r {
                Some(i) => {
                    &&& count_where(old(self).states(), running_state()) < old(self).pool()
                    &&& i < old(self).states().len()
                    &&& old(self).states()[i as int] is Waiting
                    &&& forall|k: int| 0 <= k < i ==> !(#[trigger] old(self).states()[k] is Waiting)
                    &&& final(self).states() == old(self).states().update(i as int, TaskState::Running)
                    &&& final(self).attempts() == old(self).attempts().update(
                        i as int,
                        (old(self).attempts()[i as int] + 1) as usize,
                    )
                },
                None => {
                    &&& final(self).states() == old(self).states()
                    &&& final(self).attempts() == old(self).attempts()
                    &&& (count_where(old(self).states(), running_state()) == old(self).pool()
                        || forall|k: int| 0 <= k < old(self).states().len() ==> !(#[trigger] old(self).states()[k] is Waiting))
                },
            },
    {
        if self.running >= self.pool_size {
            return None;
        }
        if self.waiting == 0 {
            proof {
                lemma_count_zero(self.states@, waiting_state());
            }
            return None;
        }
        let mut i: usize = 0;
        while i < self.states.len() && self.states[i] != TaskState::Waiting
            invariant
                i <= self.states@.len(),
                forall|k: int| 0 <= k < i ==> !(#[trigger] self.states@[k] is Waiting),
            decreases self.states.len() - i,
        {
            i += 1;
        }
        if i == self.states.len() {
            proof {
                assert forall|k: int| 0 <= k < self.states@.len() implies !waiting_state()(#[trigger] self.states@[k]) by {}
                lemma_count_zero_of_none(self.states@, waiting_state());
            }
            return None;
        }
        proof {
            lemma_count_update(self.states@, i as int, TaskState::Running, running_state());
            lemma_count_update(self.states@, i as int, TaskState::Running, waiting_state());
        }
        let ghost old_states = self.states@;
        let ghost old_attempts = self.attempts@;
        self.states.set(i, TaskState::Running);
        let used = self.attempts[i];
        self.attempts.set(i, used + 1);
        self.running = self.running + 1;
        self.waiting = self.waiting - 1;
        proof {
            assert forall|k: int| 0 <= k < self.states@.len() implies #[trigger] self.attempts@[k] <= self.max_attempts by {
                if k != i {
                    assert(self.attempts@[k] == old_attempts[k]);
                }
            }
            assert forall|k: int|
                0 <= k < self.states@.len() && #[trigger] self.states@[k] is Waiting implies self.attempts@[k] < self.max_attempts by {
                assert(k != i);
                assert(self.states@[k] == old_states[k]);
            }
        }
        Some(i)
    }

    /// How many attempts task `index` has had.
    pub fn attempts_of(&self, index: usize) -> (r: usize)
        requires
            index < self.attempts().len(),
        ensures
            r == self.attempts()[index as int],
    {
        self.attempts[index]
    }

    /// Whether task `index` is running.
    pub fn is_running(&self, index: usize) -> (r: bool)
        ensures
            r == (index < self.states().len() && self.states()[index as int] is Running),
    {
        index < self.states.len() && self.states[index] == TaskState::Running
    }

    /// Records how an attempt of a running task ended. Only that task's
    /// state changes: to `Succeeded`, to `Failed`, or back to `Waiting` after
    /// a network failure while it has attempts left.
    pub fn finish(&mut self, index: usize, outcome: Result<(), FailureKind>)
        requires
            old(self).wf(),
            index < old(self).states().len(),
            old(self).states()[index as int] is Running,
        ensures
            final(self).wf(),
            final(self).pool() == old(self).pool(),
            final(self).max_attempts() == old(self).max_attempts(),
            final(self).attempts() == old(self).attempts(),
            final(self).states() == old(self).states().update(
                index as int,
                state_after(outcome, old(self).attempts()[index as int] as nat, old(self).max_attempts()),
            ),
    {
        let s = match outcome {
            Ok(()) => TaskState::Succeeded,
            Err(FailureKind::Network) => if self.attempts[index] < self.max_attempts {
                TaskState::Waiting
            } else {
                TaskState::Failed(FailureKind::Network)
            },
            Err(k) => TaskState::Failed(k),
        };
        proof {
            lemma_count_update(self.states@, index as int, s, running_state());
            lemma_count_update(self.states@, index as int, s, waiting_state());
        }
        let ghost old_states = self.states@;
        self.states.set(index, s);
        proof {
            lemma_count_le_len(self.states@, waiting_state());
        }
        self.running = self.running - 1;
        if s == TaskState::Waiting {
            self.waiting = self.waiting + 1;
        }
        proof {
            assert forall|k: int|
                0 <= k < self.states@.len() && #[trigger] self.states@[k] is Waiting implies self.attempts@[k] < self.max_attempts by {
                if k != index {
                    assert(self.states@[k] == old_states[k]);
                }
            }
        }
    }

    /// Whether every task has finished, well or not.
    pub fn is_drained(&self) -> (r: bool)
        requires
            self.wf(),
        ensures
            r == forall|i: int| 0 <= i < self.states().len() ==> is_finished(#[trigger] self.states()[i]),
    {
        let r = self.waiting == 0 && self.running == 0;
        proof {
            if r {
                lemma_count_zero(self.states@, waiting_state());
                lemma_count_zero(self.states@, running_state());
                assert forall|i: int| 0 <= i < self.states().len() implies is_finished(#[trigger] self.states()[i]) by {
                    assert(!waiting_state()(self.states@[i]));
                    assert(!running_state()(self.states@[i]));
                }
            } else if forall|i: int| 0 <= i < self.states().len() ==> is_finished(#[trigger] self.states()[i]) {
                assert forall|i: int| 0 <= i < self.states@.len() implies !waiting_state()(#[trigger] self.states@[i]) by {
                    assert(is_finished(self.states()[i]));
                }
                assert forall|i: int| 0 <= i < self.states@.len() implies !running_state()(#[trigger] self.states@[i]) by {
                    assert(is_finished(self.states()[i]));
                }
                lemma_count_zero_of_none(self.states@, waiting_state());
                lemma_count_zero_of_none(self.states@, running_state());
            }
        }
        r
    }

    /// The tasks that succeeded and those that failed, each in index order.
    pub fn report(&self) -> (r: Report)
        ensures
            r.succeeded@ == succeeded_upto(self.states(), self.states().len() as int),
            r.failed@ == failed_upto(self.states(), self.states().len() as int),
            forall|j: int|
                0 <= j < self.states().len() ==> (r.succeeded@.contains(j as usize)
                    <==> #[trigger] self.states()[j] is Succeeded),
            forall|j: int, k: FailureKind|
                0 <= j < self.states().len() ==> (#[trigger] r.failed@.contains((j as usize, k))
                    <==> self.states()[j] == TaskState::Failed(k)),
    {
        let n = self.states.len();
        proof {
            lemma_report_by_own_outcome(self.states@);
        }
        let mut succeeded: Vec<usize> = Vec::new();
        let mut failed: Vec<(usize, FailureKind)> = Vec::new();
        let mut i: usize = 0;
        while i < n
            invariant
                n == self.states@.len(),
                i <= self.states@.len(),
                succeeded@ == succeeded_upto(self.states@, i as int),
                failed@ == failed_upto(self.states@, i as int),
            decreases n - i,
        {
            match self.states[i] {
                TaskState::Succeeded => succeeded.push(i),
                TaskState::Failed(k) => failed.push((i, k)),
                _ => {},
            }
            i += 1;
        }
        Report { succeeded, failed }
    }
}

/// A task is reported as succeeded exactly when its own state is
/// `Succeeded`, and as failed with `k` exactly when its own state is
/// `Failed(k)`, whatever became of the other tasks; so a failed download
/// takes nothing away from its siblings.
pub proof fn lemma_report_by_own_outcome(s: Seq<TaskState>)
    requires
        s.len() <= usize::MAX,
    ensures
        forall|j: int|
            0 <= j < s.len() ==> (succeeded_upto(s, s.len() as int).contains(j as usize)
                <==> #[trigger] s[j] is Succeeded),
        forall|j: int, k: FailureKind|
            0 <= j < s.len() ==> (#[trigger] failed_upto(s, s.len() as int).contains((j as usize, k))
                <==> s[j] == TaskState::Failed(k)),
{
    lemma_succeeded_members(s, s.len() as int);
    lemma_failed_members(s, s.len() as int);
}

proof fn lemma_failed_members(s: Seq<TaskState>, n: int)
    requires
        0 <= n <= s.len(),
        s.len() <= usize::MAX,
    ensures
        forall|m: int| 0 <= m < failed_upto(s, n).len() ==> (#[trigger] failed_upto(s, n)[m]).0 < n,
        forall|j: int, k: FailureKind|
            0 <= j < n ==> (#[trigger] failed_upto(s, n).contains((j as usize, k)) <==> s[j] == TaskState::Failed(k)),
    decreases n,
{
    if n > 0 {
        lemma_failed_members(s, n - 1);
        let prev = failed_upto(s, n - 1);
        assert forall|j: int, k: FailureKind| 0 <= j < n implies (#[trigger] failed_upto(s, n).contains((j as usize, k))
            <==> s[j] == TaskState::Failed(k)) by {
            match s[n - 1] {
                TaskState::Failed(k0) => {
                    let cur = prev.push(((n - 1) as usize, k0));
                    assert(failed_upto(s, n) == cur);
                    if j < n - 1 {
                        if prev.contains((j as usize, k)) {
                            let m = choose|m: int| 0 <= m < prev.len() && prev[m] == (j as usize, k);
                            assert(cur[m] == (j as usize, k));
                        }
                        if cur.contains((j as usize, k)) {
                            let m = choose|m: int| 0 <= m < cur.len() && cur[m] == (j as usize, k);
                            if m < prev.len() {
                                assert(prev[m] == (j as usize, k));
                            } else {
                                assert(cur[m].0 == (n - 1) as usize);
                            }
                        }
                    } else {
                        if s[j] == TaskState::Failed(k) {
                            assert(cur[prev.len() as int] == (j as usize, k));
                        }
                        if cur.contains((j as usize, k)) {
                            let m = choose|m: int| 0 <= m < cur.len() && cur[m] == (j as usize, k);
                            if m < prev.len() {
                                assert(prev[m].0 < n - 1);
                            }
                        }
                    }
                },
                _ => {
                    assert(failed_upto(s, n) == prev);
                    if j == n - 1 && prev.contains((j as usize, k)) {
                        let m = choose|m: int| 0 <= m < prev.len() && prev[m] == (j as usize, k);
                        assert(prev[m].0 < n - 1);
                    }
                },
            }
        }
    }
}

proof fn lemma_succeeded_members(s: Seq<TaskState>, n: int)
    requires
        0 <= n <= s.len(),
        s.len() <= usize::MAX,
    ensures
        forall|k: int| 0 <= k < succeeded_upto(s, n).len() ==> (#[trigger] succeeded_upto(s, n)[k]) < n,
        forall|j: int| 0 <= j < n ==> (succeeded_upto(s, n).contains(j as usize) <==> #[trigger] s[j] is Succeeded),
    decreases n,
{
    if n > 0 {
        lemma_succeeded_members(s, n - 1);
        let prev = succeeded_upto(s, n - 1);
        assert forall|j: int| 0 <= j < n implies (succeeded_upto(s, n).contains(j as usize) <==> #[trigger] s[j] is Succeeded) by {
            if s[n - 1] is Succeeded {
                let cur = prev.push((n - 1) as usize);
                if j < n - 1 {
                    if prev.contains(j as usize) {
                        let k = choose|k: int| 0 <= k < prev.len() && prev[k] == j as usize;
                        assert(cur[k] == j as usize);
                    }
                    if cur.contains(j as usize) {
                        let k = choose|k: int| 0 <= k < cur.len() && cur[k] == j as usize;
                        if k < prev.len() {
                            assert(prev[k] == j as usize);
                        }
                    }
                } else {
                    assert(cur[prev.len() as int] == j as usize);
                }
            } else {
                if j == n - 1 && prev.contains(j as usize) {
                    let k = choose|k: int| 0 <= k < prev.len() && prev[k] == j as usize;
                    assert(prev[k] < n - 1);
                }
            }
        }
    }
}

/// Whether a task can be started now.
pub open spec fn can_start(states: Seq<TaskState>, pool: nat) -> bool {
    count_where(states, running_state()) < pool && exists|i: int| 0 <= i < states.len() && #[trigger] states[i] is Waiting
}

/// A scheduler that has not drained can always move: a task can start, or
/// one is running whose outcome will come back. So a caller that starts
/// tasks while it can and otherwise waits for an outcome stops only once
/// every task has finished.
pub proof fn lemma_scheduler_progress(s: Scheduler)
    requires
        s.wf(),
    ensures
        (forall|i: int| 0 <= i < s.states().len() ==> is_finished(#[trigger] s.states()[i]))
            || can_start(s.states(), s.pool())
            || count_where(s.states(), running_state()) > 0,
{
    if count_where(s.states(), running_state()) == 0 {
        lemma_count_zero(s.states(), running_state());
        if exists|i: int| 0 <= i < s.states().len() && #[trigger] s.states()[i] is Waiting {
        } else {
            assert forall|i: int| 0 <= i < s.states().len() implies is_finished(#[trigger] s.states()[i]) by {
                assert(!(s.states()[i] is Waiting));
                assert(!running_state()(s.states()[i]));
            }
        }
    }
}

} // verus!
