//! The task table, the run queue and the round-robin scheduler.
use vstd::prelude::*;
use crate::task::{first_free, FdSlot, FileDescriptor, Pid, Task, TaskState};

verus! {

/// One round-robin decision on a queue `q` and the task `cur` that was
/// running: `cur` goes to the tail, the head is taken.
pub open spec fn rr_next(q: Seq<Pid>, cur: Option<Pid>) -> (Seq<Pid>, Option<Pid>) {
    let q1 = match cur {
        Some(p) => q.push(p),
        None => q,
    };
    if q1.len() == 0 {
        (q1, None)
    } else {
        (q1.drop_first(), Some(q1[0]))
    }
}

/// The run queue and the running task after `k` decisions, starting from the
/// queue `q` and no running task, when no task blocks or exits.
pub open spec fn rr_after(q: Seq<Pid>, k: nat) -> (Seq<Pid>, Option<Pid>)
    decreases k,
{
    if k == 0 {
        (q, None)
    } else {
        let s = rr_after(q, (k - 1) as nat);
        rr_next(s.0, s.1)
    }
}

/// Tasks spawned in order and never blocked run in cyclic order: the `k`-th
/// decision (from 1) picks `q[(k - 1) % n]`, and the rest of the queue follows
/// it in order.
pub proof fn lemma_round_robin(q: Seq<Pid>, k: nat)
    requires
        q.len() >= 1,
        k >= 1,
    ensures
        rr_after(q, k).1 == Some(q[(k - 1) % (q.len() as int)]),
        rr_after(q, k).0 =~= Seq::new(
            (q.len() - 1) as nat,
            |j: int| q[(k + j) % (q.len() as int)],
        ),
    decreases k,
{
    let n = q.len() as int;
    if k == 1 {
        assert(rr_after(q, 0) == (q, None::<Pid>));
        vstd::arithmetic::div_mod::lemma_small_mod(0, n as nat);
        assert forall|j: int| 0 <= j < n - 1 implies #[trigger] ((1 + j) % n) == 1 + j by {
            vstd::arithmetic::div_mod::lemma_small_mod((1 + j) as nat, n as nat);
        }
    } else {
        lemma_round_robin(q, (k - 1) as nat);
        let s = rr_after(q, (k - 1) as nat);
        let q1 = s.0.push(s.1.unwrap());
        vstd::arithmetic::div_mod::lemma_mod_add_multiples_vanish(k - 1, n);
        assert(q1.len() == n);
        if n == 1 {
            assert((k - 1) % n == 0);
            assert(((k - 1) as int - 1) % n == 0);
        } else {
            assert(q1[0] == q[(k - 1 + 0) % n]);
        }
        assert forall|j: int| 0 <= j < n - 1 implies #[trigger] q1.drop_first()[j] == q[(k + j) % n] by {
            if j + 1 < n - 1 {
                assert(q1[j + 1] == q[(k - 1 + (j + 1)) % n]);
            } else {
                assert(k + j == n + (k - 2));
                vstd::arithmetic::div_mod::lemma_mod_add_multiples_vanish(k - 2, n);
            }
        }
    }
}

/// What one `schedule` call does, from `s1` to `s2`, returning `r`.
pub open spec fn scheduled(s1: Scheduler, s2: Scheduler, r: Option<Pid>) -> bool {
    &&& s2.wf()
    &&& (s2.run_queue@, s2.current) == rr_next(s1.ready_queue(), s1.running())
    &&& r == s2.current
    &&& s2.next_pid == s1.next_pid
    &&& s2.tasks@.len() == s1.tasks@.len()
    &&& forall|i: int|
        0 <= i < s1.tasks@.len() ==> #[trigger] s2.tasks@[i] == if Some(s1.tasks@[i].id) == r {
            with_state(s1.tasks@[i], TaskState::Running)
        } else if Some(s1.tasks@[i].id) == s1.running() {
            with_state(s1.tasks@[i], TaskState::Ready)
        } else {
            s1.tasks@[i]
        }
    &&& forall|i: int|
        0 <= i < s1.tasks@.len() && s1.tasks@[i].state == TaskState::Terminated ==> r != Some(
            s1.tasks@[i].id,
        ) && #[trigger] s2.tasks@[i].state == TaskState::Terminated && !s2.run_queue@.contains(
            s1.tasks@[i].id,
        )
}

/// Whether every pid of `q` names a task of `s` that is ready.
pub open spec fn all_ready(s: Scheduler, q: Seq<Pid>) -> bool {
    forall|j: int| 0 <= j < q.len() ==> s.is_ready(#[trigger] q[j])
}

/// A queue whose pids are all ready is its own ready queue.
proof fn lemma_ready_queue_all(s: Scheduler)
    requires
        all_ready(s, s.run_queue@),
    ensures
        s.ready_queue() == s.run_queue@,
{
    let q = s.run_queue@;
    let pred = |p: Pid| s.is_ready(p);
    assert forall|k: int| 0 <= k <= q.len() implies #[trigger] q.subrange(0, k).filter(pred) == q.subrange(0, k) by {
        lemma_filter_prefix(q, pred, k);
    }
    assert(q.subrange(0, q.len() as int) =~= q);
}

proof fn lemma_filter_prefix(q: Seq<Pid>, pred: spec_fn(Pid) -> bool, k: int)
    requires
        0 <= k <= q.len(),
        forall|j: int| 0 <= j < q.len() ==> pred(#[trigger] q[j]),
    ensures
        q.subrange(0, k).filter(pred) == q.subrange(0, k),
    decreases k,
{
    reveal(Seq::filter);
    if k == 0 {
        assert(q.subrange(0, 0).filter(pred) =~= q.subrange(0, 0));
    } else {
        lemma_filter_prefix(q, pred, k - 1);
        assert(q.subrange(0, k).drop_last() =~= q.subrange(0, k - 1));
        assert(q.subrange(0, k - 1).push(q[k - 1]) =~= q.subrange(0, k));
    }
}

/// Round robin across any number of calls: when the scheduler stands where
/// `k` round-robin decisions on the queue `q` of distinct pids of ready tasks
/// lead, one `schedule` call takes `q[k % n]` and leaves it where `k + 1`
/// decisions lead, with every queued pid still ready. Chained from `k = 0`
/// (the tasks spawned in order, none running), the calls return
/// `q[0], q[1], ..., q[n - 1], q[0], ...`.
pub proof fn lemma_schedule_round_robin(s1: Scheduler, s2: Scheduler, r: Option<Pid>, q: Seq<Pid>, k: nat)
    requires
        s1.wf(),
        scheduled(s1, s2, r),
        q.len() >= 1,
        q.no_duplicates(),
        forall|j: int|
            0 <= j < q.len() ==> #[trigger] s1.has_task(q[j]),
        s1.run_queue@ == rr_after(q, k).0,
        s1.running() == rr_after(q, k).1,
        all_ready(s1, s1.run_queue@),
    ensures
        r == Some(q[(k as int) % (q.len() as int)]),
        s2.run_queue@ == rr_after(q, k + 1).0,
        s2.running() == rr_after(q, k + 1).1,
        all_ready(s2, s2.run_queue@),
{
    let n = q.len() as int;
    lemma_ready_queue_all(s1);
    assert(rr_after(q, k + 1) == rr_next(rr_after(q, k).0, rr_after(q, k).1));
    lemma_round_robin(q, k + 1);
    assert(((k as int + 1) - 1) % n == (k as int) % n);
    let rp = q[(k as int) % n];
    assert(r == Some(rp));
    // The task of `rp` is running in `s2`.
    assert(0 <= (k as int) % n < n) by {
        vstd::arithmetic::div_mod::lemma_mod_bound(k as int, n);
    }
    let i0 = choose|i: int| 0 <= i < s1.tasks@.len() && #[trigger] s1.tasks@[i].id == q[(k as int) % n];
    assert(s2.tasks@[i0].id == rp && s2.tasks@[i0].state == TaskState::Running);
    assert(s2.is_running(rp));
    // The rest of the queue is ready in `s2`.
    let q2 = s2.run_queue@;
    let ql = s1.run_queue@;
    let q1 = match s1.running() {
        Some(p) => ql.push(p),
        None => ql,
    };
    assert(q1.len() > 0);
    assert(q2 =~= q1.drop_first());
    assert forall|j: int| 0 <= j < q2.len() implies s2.is_ready(#[trigger] q2[j]) by {
        let a = (k as int) % n;
        let idx = (k + 1 + j) % n;
        assert(q2[j] == q[idx]);
        vstd::arithmetic::div_mod::lemma_add_mod_noop(k as int, 1 + j, n);
        vstd::arithmetic::div_mod::lemma_small_mod((1 + j) as nat, n as nat);
        assert(idx == (a + 1 + j) % n);
        if a + 1 + j < n {
            vstd::arithmetic::div_mod::lemma_small_mod((a + 1 + j) as nat, n as nat);
        } else {
            vstd::arithmetic::div_mod::lemma_mod_sub_multiples_vanish(a + 1 + j, n);
            vstd::arithmetic::div_mod::lemma_small_mod((a + 1 + j - n) as nat, n as nat);
        }
        assert(idx != a);
        vstd::arithmetic::div_mod::lemma_mod_bound(k + 1 + j, n);
        assert(q2[j] != rp);
        assert(q2[j] == q1[j + 1]);
        if Some(q2[j]) == s1.running() {
            let ij = choose|i: int| 0 <= i < s1.tasks@.len() && #[trigger] s1.tasks@[i].id == q2[j];
            assert(s1.has_task(q[idx]));
            assert(s2.tasks@[ij].state == TaskState::Ready);
            assert(s2.tasks@[ij].id == q2[j]);
        } else {
            assert(j + 1 < ql.len());
            assert(q2[j] == ql[j + 1]);
            assert(s1.is_ready(ql[j + 1]));
            let ir = choose|i: int|
                0 <= i < s1.tasks@.len() && #[trigger] s1.tasks@[i].id == q2[j] && s1.tasks@[i].state
                    == TaskState::Ready;
            assert(s2.tasks@[ir] == s1.tasks@[ir]);
            assert(s2.tasks@[ir].id == q2[j] && s2.tasks@[ir].state == TaskState::Ready);
        }
    }
}

/// All tasks, the queue of runnable pids, the running task and the next pid.
pub struct Scheduler {
    pub tasks: Vec<Task>,
    pub run_queue: Vec<Pid>,
    pub current: Option<Pid>,
    pub next_pid: Pid,
}

/// `s2` is `s1` with one new task, of pid `p`, appended to the table and
/// the run queue.
pub open spec fn admitted(s1: Scheduler, s2: Scheduler, p: Pid) -> bool {
    &&& s2.wf()
    &&& p == s1.next_pid
    &&& s2.next_pid == p + 1
    &&& s2.tasks@.len() == s1.tasks@.len() + 1
    &&& s2.tasks@.drop_last() == s1.tasks@
    &&& s2.tasks@.last().id == p
    &&& s2.run_queue@ == s1.run_queue@.push(p)
    &&& s2.current == s1.current
}

/// `a` and `b` agree on everything but their descriptor tables.
pub open spec fn same_but_fds(a: Task, b: Task) -> bool {
    &&& a.id == b.id
    &&& a.parent_id == b.parent_id
    &&& a.state == b.state
    &&& a.stack@ == b.stack@
    &&& a.stack_top == b.stack_top
    &&& a.saved_rsp == b.saved_rsp
    &&& a.saved_rip == b.saved_rip
    &&& a.exit_status == b.exit_status
}

/// The index of the task with pid `p`, if there is one.
pub open spec fn index_of(s: Scheduler, p: Pid) -> Option<int> {
    if exists|i: int| 0 <= i < s.tasks@.len() && #[trigger] s.tasks@[i].id == p {
        Some(choose|i: int| 0 <= i < s.tasks@.len() && #[trigger] s.tasks@[i].id == p)
    } else {
        None
    }
}

/// The index of the current task, if there is one.
pub open spec fn current_index(s: Scheduler) -> Option<int> {
    match s.current {
        Some(p) => index_of(s, p),
        None => None,
    }
}

/// `t` with state `s`.
pub open spec fn with_state(t: Task, s: TaskState) -> Task {
    Task { state: s, ..t }
}

impl Scheduler {
    /// Pids are positive, below `next_pid` and strictly increasing along the
    /// task table.
    pub open spec fn wf(&self) -> bool {
        &&& self.next_pid >= 1
        &&& forall|i: int, j: int|
            0 <= i < j < self.tasks@.len() ==> #[trigger] self.tasks@[i].id < #[trigger] self.tasks@[j].id
        &&& forall|i: int|
            0 <= i < self.tasks@.len() ==> 1 <= #[trigger] self.tasks@[i].id < self.next_pid
    }

    /// Whether the task with pid `p` is running.
    pub open spec fn is_running(&self, p: Pid) -> bool {
        exists|i: int|
            0 <= i < self.tasks@.len() && #[trigger] self.tasks@[i].id == p && self.tasks@[i].state
                == TaskState::Running
    }

    /// The task that was running, if it still is.
    pub open spec fn running(&self) -> Option<Pid> {
        match self.current {
            Some(p) => if self.is_running(p) {
                Some(p)
            } else {
                None
            },
            None => None,
        }
    }

    /// An empty table; the first pid is 1.
    pub fn new() -> (s: Scheduler)
        ensures
            s.wf(),
            s.tasks@.len() == 0,
            s.run_queue@.len() == 0,
            s.current.is_none(),
            s.next_pid == 1,
    {
        Scheduler { tasks: Vec::new(), run_queue: Vec::new(), current: None, next_pid: 1 }
    }

    /// The index of the task with pid `pid`.
    pub fn find(&self, pid: Pid) -> (r: Option<usize>)
        ensures
            r matches Some(i) ==> i < self.tasks@.len() && self.tasks@[i as int].id == pid,
            r is None ==> forall|i: int| 0 <= i < self.tasks@.len() ==> self.tasks@[i].id != pid,
    {
        let mut i: usize = 0;
        while i < self.tasks.len()
            invariant
                i <= self.tasks@.len(),
                forall|j: int| 0 <= j < i ==> self.tasks@[j].id != pid,
            decreases self.tasks@.len() - i,
        {
            if self.tasks[i].id == pid {
                return Some(i);
            }
            i = i + 1;
        }
        None
    }

    /// The task with pid `pid`.
    pub fn get_task_by_pid(&self, pid: Pid) -> (r: Option<&Task>)
        ensures
            r matches Some(t) ==> t.id == pid && self.tasks@.contains(*t),
            r is None ==> forall|i: int| 0 <= i < self.tasks@.len() ==> self.tasks@[i].id != pid,
    {
        match self.find(pid) {
            Some(i) => Some(&self.tasks[i]),
            None => None,
        }
    }

    /// Sets the state of the task at index `i`.
    pub fn set_state_at(&mut self, i: usize, s: TaskState)
        requires
            i < old(self).tasks@.len(),
        ensures
            final(self).tasks@ == old(self).tasks@.update(i as int, with_state(old(self).tasks@[i as int], s)),
            final(self).run_queue@ == old(self).run_queue@,
            final(self).current == old(self).current,
            final(self).next_pid == old(self).next_pid,
    {
        let mut t = self.tasks.remove(i);
        t.state = s;
        self.tasks.insert(i, t);
        assert(self.tasks@ =~= old(self).tasks@.update(i as int, with_state(old(self).tasks@[i as int], s)));
    }

    /// The index of the current task.
    pub fn current_task(&self) -> (r: Option<usize>)
        requires
            self.wf(),
        ensures
            r is None <==> current_index(*self) is None,
            r matches Some(i) ==> current_index(*self) == Some(i as int) && i < self.tasks@.len(),
    {
        match self.current {
            None => None,
            Some(p) => {
                let r = self.find(p);
                proof {
                    if let Some(i) = r {
                        let c = choose|j: int| 0 <= j < self.tasks@.len() && #[trigger] self.tasks@[j].id == p;
                        if c != i {
                            lemma_pids_unique(self, c, i as int);
                        }
                    }
                }
                r
            },
        }
    }

    /// Replaces the descriptor table of the task at index `i` by `fds`.
    pub fn set_fd_table(&mut self, i: usize, fds: Vec<FdSlot>)
        requires
            old(self).wf(),
            i < old(self).tasks@.len(),
        ensures
            final(self).wf(),
            final(self).tasks@.len() == old(self).tasks@.len(),
            same_but_fds(final(self).tasks@[i as int], old(self).tasks@[i as int]),
            final(self).tasks@[i as int].fd_table@ == fds@,
            forall|j: int|
                0 <= j < old(self).tasks@.len() && j != i ==> #[trigger] final(self).tasks@[j] == old(
                    self,
                ).tasks@[j],
            final(self).run_queue@ == old(self).run_queue@,
            final(self).current == old(self).current,
            final(self).next_pid == old(self).next_pid,
    {
        let mut t = self.tasks.remove(i);
        t.fd_table = fds;
        self.tasks.insert(i, t);
        proof {
            assert forall|a: int| 0 <= a < self.tasks@.len() implies #[trigger] self.tasks@[a].id == old(
                self,
            ).tasks@[a].id by {}
        }
    }

    /// Puts `file` in the lowest free slot of the task at index `i`.
    pub fn add_file_at(&mut self, i: usize, file: FileDescriptor) -> (r: usize)
        requires
            old(self).wf(),
            i < old(self).tasks@.len(),
            old(self).tasks@[i as int].fd_table@.len() < usize::MAX,
        ensures
            final(self).wf(),
            r == first_free(old(self).tasks@[i as int].fd_table@),
            final(self).tasks@.len() == old(self).tasks@.len(),
            same_but_fds(final(self).tasks@[i as int], old(self).tasks@[i as int]),
            final(self).tasks@[i as int].fd_table@ == (if r < old(self).tasks@[i as int].fd_table@.len() {
                old(self).tasks@[i as int].fd_table@.update(r as int, FdSlot::Open(file))
            } else {
                old(self).tasks@[i as int].fd_table@.push(FdSlot::Open(file))
            }),
            forall|j: int|
                0 <= j < old(self).tasks@.len() && j != i ==> #[trigger] final(self).tasks@[j] == old(
                    self,
                ).tasks@[j],
            final(self).run_queue@ == old(self).run_queue@,
            final(self).current == old(self).current,
            final(self).next_pid == old(self).next_pid,
    {
        let mut t = self.tasks.remove(i);
        let r = t.add_file(file);
        self.tasks.insert(i, t);
        proof {
            assert forall|a: int| 0 <= a < self.tasks@.len() implies #[trigger] self.tasks@[a].id == old(
                self,
            ).tasks@[a].id by {}
        }
        r
    }

    /// The descriptor table of the task at index `i`.
    pub fn fd_table_of(&self, i: usize) -> (r: Vec<FdSlot>)
        requires
            i < self.tasks@.len(),
        ensures
            r@ == self.tasks@[i as int].fd_table@,
    {
        let src = &self.tasks[i].fd_table;
        let mut out: Vec<FdSlot> = Vec::new();
        let mut k: usize = 0;
        while k < src.len()
            invariant
                k <= src@.len(),
                out@ == src@.subrange(0, k as int),
            decreases src@.len() - k,
        {
            out.push(src[k]);
            k = k + 1;
            assert(out@ =~= src@.subrange(0, k as int));
        }
        assert(out@ =~= src@);
        out
    }

    /// Adds `task`, whose pid must be the next one, to the table and the tail
    /// of the run queue.
    fn enqueue_new(&mut self, task: Task) -> (r: Pid)
        requires
            old(self).wf(),
            task.id == old(self).next_pid,
            old(self).next_pid < usize::MAX,
        ensures
            final(self).wf(),
            r == old(self).next_pid,
            final(self).tasks@ == old(self).tasks@.push(task),
            final(self).run_queue@ == old(self).run_queue@.push(r),
            final(self).current == old(self).current,
            final(self).next_pid == r + 1,
    {
        let pid = task.id;
        self.tasks.push(task);
        self.run_queue.push(pid);
        self.next_pid = pid + 1;
        pid
    }

    /// Creates a ready task with a zeroed stack of `stack_size` bytes under the
    /// next pid and queues it. `None` when the pids are used up.
    pub fn spawn(&mut self, stack_size: usize) -> (r: Option<Pid>)
        requires
            old(self).wf(),
        ensures
            final(self).wf(),
            r == (if old(self).next_pid < usize::MAX {
                Some(old(self).next_pid)
            } else {
                None
            }),
            r is None ==> *final(self) == *old(self),
            r matches Some(p) ==> {
                &&& admitted(*old(self), *final(self), p)
                &&& final(self).tasks@.last().parent_id == 0
                &&& final(self).tasks@.last().state == TaskState::Ready
                &&& final(self).tasks@.last().stack@.len() == stack_size
                &&& final(self).tasks@.last().fd_table@ == seq![
                    FdSlot::Reserved,
                    FdSlot::Reserved,
                    FdSlot::Reserved,
                ]
                &&& final(self).run_queue@ == old(self).run_queue@.push(p)
                &&& final(self).current == old(self).current
                &&& final(self).next_pid == p + 1
            },
    {
        if self.next_pid == usize::MAX {
            return None;
        }
        let t = Task::new(self.next_pid, stack_size);
        let pid = self.enqueue_new(t);
        assert(self.tasks@.drop_last() =~= old(self).tasks@);
        Some(pid)
    }

    /// Creates a ready duplicate of the task `parent` (same stack bytes, same
    /// descriptors, the given saved context) under the next pid and queues it.
    /// `None` when there is no such task or the pids are used up.
    pub fn fork(&mut self, parent: Pid, child_rsp: u64, child_rip: u64) -> (r: Option<Pid>)
        requires
            old(self).wf(),
        ensures
            final(self).wf(),
            r.is_some() <==> (old(self).next_pid < usize::MAX && exists|i: int|
                0 <= i < old(self).tasks@.len() && #[trigger] old(self).tasks@[i].id == parent),
            r is None ==> *final(self) == *old(self),
            r matches Some(p) ==> {
                &&& admitted(*old(self), *final(self), p)
                &&& final(self).tasks@.last().parent_id == parent
                &&& final(self).tasks@.last().state == TaskState::Ready
                &&& final(self).tasks@.last().saved_rsp == child_rsp
                &&& final(self).tasks@.last().saved_rip == child_rip
                &&& forall|i: int|
                    0 <= i < old(self).tasks@.len() && #[trigger] old(self).tasks@[i].id == parent
                        ==> final(self).tasks@.last().stack@ == old(self).tasks@[i].stack@
                        && final(self).tasks@.last().fd_table@ == old(self).tasks@[i].fd_table@
                &&& final(self).run_queue@ == old(self).run_queue@.push(p)
                &&& final(self).current == old(self).current
                &&& final(self).next_pid == p + 1
            },
    {
        if self.next_pid == usize::MAX {
            return None;
        }
        let i = match self.find(parent) {
            Some(i) => i,
            None => {
                return None;
            },
        };
        let child = self.tasks[i].fork(self.next_pid, child_rsp, child_rip);
        let pid = self.enqueue_new(child);
        assert(self.tasks@.drop_last() =~= old(self).tasks@);
        Some(pid)
    }

    /// Terminates the task at index `i`: its state becomes terminated and its
    /// pid leaves the run queue.
    pub fn terminate_at(&mut self, i: usize)
        requires
            old(self).wf(),
            i < old(self).tasks@.len(),
        ensures
            final(self).wf(),
            final(self).tasks@ == old(self).tasks@.update(
                i as int,
                with_state(old(self).tasks@[i as int], TaskState::Terminated),
            ),
            final(self).run_queue@ == old(self).run_queue@.filter(
                |q: Pid| q != old(self).tasks@[i as int].id,
            ),
            final(self).current == old(self).current,
            final(self).next_pid == old(self).next_pid,
    {
        let pid = self.tasks[i].id;
        self.set_state_at(i, TaskState::Terminated);
        proof {
            assert forall|a: int| 0 <= a < self.tasks@.len() implies #[trigger] self.tasks@[a].id
                == old(self).tasks@[a].id by {}
        }
        let ghost q = self.run_queue@;
        let ghost pred = |x: Pid| x != pid;
        let mut kept: Vec<Pid> = Vec::new();
        let mut k: usize = 0;
        proof {
            reveal(Seq::filter);
            assert(q.subrange(0, 0) =~= Seq::<Pid>::empty());
        }
        while k < self.run_queue.len()
            invariant
                q == self.run_queue@,
                pred == (|x: Pid| x != pid),
                k <= q.len(),
                kept@ == q.subrange(0, k as int).filter(pred),
            decreases q.len() - k,
        {
            let x = self.run_queue[k];
            if x != pid {
                kept.push(x);
            }
            proof {
                reveal(Seq::filter);
                assert(q.subrange(0, k + 1).drop_last() =~= q.subrange(0, k as int));
            }
            k = k + 1;
        }
        proof {
            assert(q.subrange(0, q.len() as int) =~= q);
        }
        self.run_queue = kept;
    }

    /// Whether a task has pid `p`.
    pub open spec fn has_task(&self, p: Pid) -> bool {
        exists|i: int| 0 <= i < self.tasks@.len() && #[trigger] self.tasks@[i].id == p
    }

    /// Whether the task with pid `p` is ready.
    pub open spec fn is_ready(&self, p: Pid) -> bool {
        exists|i: int|
            0 <= i < self.tasks@.len() && #[trigger] self.tasks@[i].id == p && self.tasks@[i].state
                == TaskState::Ready
    }

    /// The queued pids whose tasks are ready, in queue order.
    pub open spec fn ready_queue(&self) -> Seq<Pid> {
        self.run_queue@.filter(|p: Pid| self.is_ready(p))
    }

    /// Keeps only the queued pids whose tasks are ready.
    fn drop_unready(&mut self)
        requires
            old(self).wf(),
        ensures
            final(self).run_queue@ == old(self).ready_queue(),
            final(self).tasks@ == old(self).tasks@,
            final(self).current == old(self).current,
            final(self).next_pid == old(self).next_pid,
    {
        let ghost q = self.run_queue@;
        let ghost pred = |p: Pid| self.is_ready(p);
        let mut kept: Vec<Pid> = Vec::new();
        let mut k: usize = 0;
        proof {
            reveal(Seq::filter);
            assert(q.subrange(0, 0) =~= Seq::<Pid>::empty());
        }
        while k < self.run_queue.len()
            invariant
                self.wf(),
                *self == *old(self),
                q == self.run_queue@,
                pred == (|p: Pid| self.is_ready(p)),
                k <= q.len(),
                kept@ == q.subrange(0, k as int).filter(pred),
            decreases q.len() - k,
        {
            let p = self.run_queue[k];
            let found = self.find(p);
            let ready = match found {
                Some(i) => self.tasks[i].state == TaskState::Ready,
                None => false,
            };
            proof {
                if self.is_ready(p) {
                    let j = choose|j: int|
                        0 <= j < self.tasks@.len() && #[trigger] self.tasks@[j].id == p
                            && self.tasks@[j].state == TaskState::Ready;
                    if let Some(i) = found {
                        if i != j {
                            lemma_pids_unique(self, i as int, j);
                        }
                    }
                }
                assert(ready == pred(p));
            }
            if ready {
                kept.push(p);
            }
            proof {
                reveal(Seq::filter);
                assert(q.subrange(0, k + 1).drop_last() =~= q.subrange(0, k as int));
            }
            k = k + 1;
        }
        proof {
            assert(q.subrange(0, q.len() as int) =~= q);
        }
        self.run_queue = kept;
    }

    /// The round-robin decision. Queued tasks that are not ready (blocked or
    /// terminated) leave the queue; the running task, if any, becomes ready
    /// and goes to the tail; the head of the queue is taken, becomes running
    /// and is returned. `None` when the queue is then empty. A terminated task
    /// is never taken and stays terminated.
    pub fn schedule(&mut self) -> (r: Option<Pid>)
        requires
            old(self).wf(),
        ensures
            scheduled(*old(self), *final(self), r),
    {
        let ghost t0 = self.tasks@;
        let ghost rq = old(self).ready_queue();
        self.drop_unready();
        let mut prev: Option<Pid> = None;
        if let Some(p) = self.current {
            if let Some(i) = self.find(p) {
                if self.tasks[i].state == TaskState::Running {
                    self.set_state_at(i, TaskState::Ready);
                    self.run_queue.push(p);
                    prev = Some(p);
                }
            }
        }
        let ghost t1 = self.tasks@;
        let ghost q1 = self.run_queue@;
        proof {
            assert(prev == old(self).running());
        }
        if self.run_queue.len() == 0 {
            self.current = None;
            return None;
        }
        let next = self.run_queue.remove(0);
        if let Some(j) = self.find(next) {
            self.set_state_at(j, TaskState::Running);
        }
        self.current = Some(next);
        proof {
            assert forall|i: int|
                0 <= i < old(self).tasks@.len() implies #[trigger] self.tasks@[i] == if Some(
                old(self).tasks@[i].id,
            ) == Some(next) {
                with_state(t0[i], TaskState::Running)
            } else if Some(t0[i].id) == prev {
                with_state(t0[i], TaskState::Ready)
            } else {
                t0[i]
            } by {
                assert(t1[i].id == t0[i].id);
            }
        }
        Some(next)
    }
}

/// Stack size of the first task.
pub const INIT_STACK_SIZE: usize = 16384;

/// The scheduler at boot: the first task, pid 1, is current and queued.
pub fn init() -> (s: Scheduler)
    ensures
        s.wf(),
        s.tasks@.len() == 1,
        s.tasks@[0].id == 1,
        s.tasks@[0].state == TaskState::Ready,
        s.tasks@[0].stack@.len() == INIT_STACK_SIZE,
        s.current == Some(1usize),
        s.run_queue@ == seq![1usize],
        s.next_pid == 2,
{
    let mut s = Scheduler::new();
    let pid = s.spawn(INIT_STACK_SIZE);
    s.current = pid;
    assert(s.run_queue@ =~= seq![1usize]);
    s
}

/// Every pid that `spawn` or `fork` assigns is larger than all pids already
/// in the table and than every pid assigned before it, so along any sequence
/// of them the assigned pids are strictly increasing and the table's pids
/// stay distinct.
pub proof fn lemma_pids_increase(s1: Scheduler, s2: Scheduler, p: Pid)
    requires
        s1.wf(),
        admitted(s1, s2, p),
    ensures
        forall|i: int| 0 <= i < s1.tasks@.len() ==> #[trigger] s1.tasks@[i].id < p,
        p < s2.next_pid,
        forall|i: int, j: int|
            0 <= i < s2.tasks@.len() && 0 <= j < s2.tasks@.len() && i != j ==> #[trigger] s2.tasks@[i].id
                != #[trigger] s2.tasks@[j].id,
{
    assert forall|i: int, j: int|
        0 <= i < s2.tasks@.len() && 0 <= j < s2.tasks@.len() && i != j implies #[trigger] s2.tasks@[i].id
        != #[trigger] s2.tasks@[j].id by {
        lemma_pids_unique(&s2, i, j);
    }
}

/// Pids in a well-formed table are unique.
pub proof fn lemma_pids_unique(s: &Scheduler, i: int, j: int)
    requires
        s.wf(),
        0 <= i < s.tasks@.len(),
        0 <= j < s.tasks@.len(),
        i != j,
    ensures
        s.tasks@[i].id != s.tasks@[j].id,
{
    if i < j {
        assert(s.tasks@[i].id < s.tasks@[j].id);
    } else {
        assert(s.tasks@[j].id < s.tasks@[i].id);
    }
}

} // verus!
