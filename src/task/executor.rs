use vstd::prelude::*;
use crate::task::TaskId;

verus! {

/// Abstract scheduler state: the live tasks, the ready-queue in poll order, and
/// the next identity to hand out.
pub struct ExecutorView {
    pub tasks: Set<TaskId>,
    pub ready: Seq<TaskId>,
    pub next_id: nat,
}

/// Every queued identity names a live task, at most once; every live task has an
/// identity below the next one.
pub open spec fn executor_wf(v: ExecutorView) -> bool {
    &&& v.tasks.finite()
    &&& forall|i: int| 0 <= i < v.ready.len() ==> v.tasks.contains(#[trigger] v.ready[i])
    &&& v.ready.no_duplicates()
    &&& forall|t: TaskId| #[trigger] v.tasks.contains(t) ==> t.id < v.next_id
}

/// The state after a spawn: a fresh identity, live and queued.
pub open spec fn spawn_next(v: ExecutorView) -> ExecutorView {
    let id = TaskId { id: v.next_id as u64 };
    ExecutorView { tasks: v.tasks.insert(id), ready: v.ready.push(id), next_id: v.next_id + 1 }
}

/// The state after a wake of `id`: queued unless already queued or no longer live.
pub open spec fn wake_next(v: ExecutorView, id: TaskId) -> ExecutorView {
    if v.tasks.contains(id) && !v.ready.contains(id) {
        ExecutorView { ready: v.ready.push(id), ..v }
    } else {
        v
    }
}

/// The identity the next poll is for, if any.
pub open spec fn next_ready_result(v: ExecutorView) -> Option<TaskId> {
    if v.ready.len() > 0 {
        Some(v.ready[0])
    } else {
        None
    }
}

pub open spec fn next_ready_next(v: ExecutorView) -> ExecutorView {
    if v.ready.len() > 0 {
        ExecutorView { ready: v.ready.drop_first(), ..v }
    } else {
        v
    }
}

/// Holds of every identity but `id`.
pub open spec fn not_id(id: TaskId) -> spec_fn(TaskId) -> bool {
    |t: TaskId| t != id
}

/// The state after task `id` completes: it leaves the task set and the queue.
pub open spec fn complete_next(v: ExecutorView, id: TaskId) -> ExecutorView {
    ExecutorView { tasks: v.tasks.remove(id), ready: v.ready.filter(not_id(id)), ..v }
}

/// The scheduling state of the cooperative executor: which tasks are alive and
/// which are due for a poll. The run loop polls the identities it hands out and
/// reports back which ones completed.
pub struct Executor {
    tasks: Vec<TaskId>,
    task_queue: Vec<TaskId>,
    next_id: u64,
}

impl View for Executor {
    type V = ExecutorView;

    closed spec fn view(&self) -> ExecutorView {
        ExecutorView { tasks: self.tasks@.to_set(), ready: self.task_queue@, next_id: self.next_id as nat }
    }
}

fn contains_id(v: &Vec<TaskId>, id: TaskId) -> (r: bool)
    ensures
        r == v@.contains(id),
{
    let mut i: usize = 0;
    while i < v.len()
        invariant
            i <= v.len(),
            forall|j: int| 0 <= j < i ==> v@[j] != id,
        decreases v.len() - i,
    {
        if v[i] == id {
            return true;
        }
        i = i + 1;
    }
    false
}

impl Executor {
    pub closed spec fn wf(&self) -> bool {
        &&& executor_wf(self@)
        &&& self.tasks@.no_duplicates()
    }

    /// An executor with no tasks.
    pub fn new() -> (r: Self)
        ensures
            r.wf(),
            r@.tasks == Set::<TaskId>::empty(),
            r@.ready == Seq::<TaskId>::empty(),
            r@.next_id == 0,
    {
        let r = Executor { tasks: Vec::new(), task_queue: Vec::new(), next_id: 0 };
        proof {
            assert(r.tasks@.to_set() =~= Set::<TaskId>::empty());
        }
        r
    }

    /// Registers a new task under a fresh identity and queues it for its first poll.
    /// Running out of identities is fatal, so the caller keeps below it.
    pub fn spawn(&mut self) -> (r: TaskId)
        requires
            old(self).wf(),
            old(self)@.next_id < u64::MAX,
        ensures
            final(self).wf(),
            r == (TaskId { id: old(self)@.next_id as u64 }),
            final(self)@ == spawn_next(old(self)@),
    {
        let id = TaskId { id: self.next_id };
        proof {
            if self.tasks@.contains(id) {
                assert(self@.tasks.contains(id));
            }
            if self.task_queue@.contains(id) {
                let k = choose|k: int| 0 <= k < self.task_queue@.len() && self.task_queue@[k] == id;
                assert(self@.tasks.contains(self.task_queue@[k]));
            }
        }
        self.tasks.push(id);
        self.task_queue.push(id);
        self.next_id = self.next_id + 1;
        proof {
            old(self).tasks@.lemma_push_to_set_commute(id);
        }
        id
    }

    /// The effect of invoking the wakeup handle of `id`: queue it for a poll unless
    /// it is queued already or has completed, which makes repeated wakes harmless.
    pub fn wake(&mut self, id: TaskId)
        requires
            old(self).wf(),
        ensures
            final(self).wf(),
            final(self)@ == wake_next(old(self)@, id),
    {
        if contains_id(&self.tasks, id) && !contains_id(&self.task_queue, id) {
            self.task_queue.push(id);
        }
    }

    /// Takes the identity at the front of the ready-queue, the next task to poll.
    pub fn next_ready(&mut self) -> (r: Option<TaskId>)
        requires
            old(self).wf(),
        ensures
            final(self).wf(),
            r == next_ready_result(old(self)@),
            final(self)@ == next_ready_next(old(self)@),
            r matches Some(id) ==> final(self)@.tasks.contains(id),
    {
        if self.task_queue.len() > 0 {
            let id = self.task_queue.remove(0);
            proof {
                assert(self.task_queue@ =~= old(self).task_queue@.drop_first());
                assert(old(self).task_queue@[0] == id);
            }
            Some(id)
        } else {
            None
        }
    }

    /// Records that task `id` ran to completion: it leaves the executor for good.
    pub fn complete(&mut self, id: TaskId)
        requires
            old(self).wf(),
        ensures
            final(self).wf(),
            final(self)@ == complete_next(old(self)@, id),
    {
        self.tasks = remove_id(&self.tasks, id);
        self.task_queue = remove_id(&self.task_queue, id);
        proof {
            lemma_filter_out(old(self).tasks@, id);
            lemma_filter_out(old(self).task_queue@, id);
            assert(self.tasks@.to_set() =~= old(self).tasks@.to_set().remove(id));
            assert forall|i: int| 0 <= i < self.task_queue@.len() implies self@.tasks.contains(
                #[trigger] self.task_queue@[i]) by {
                assert(self.task_queue@.contains(self.task_queue@[i]));
                assert(old(self).task_queue@.contains(self.task_queue@[i]));
            }
        }
    }

    /// Whether nothing is due for a poll, so the processor may park.
    pub fn is_idle(&self) -> (r: bool)
        ensures
            r == (self@.ready.len() == 0),
    {
        self.task_queue.len() == 0
    }

    /// Whether task `id` is still alive.
    pub fn contains(&self, id: TaskId) -> (r: bool)
        ensures
            r == self@.tasks.contains(id),
    {
        contains_id(&self.tasks, id)
    }
}

/// Dropping one identity keeps every other one, and keeps them distinct.
proof fn lemma_filter_out(s: Seq<TaskId>, id: TaskId)
    ensures
        forall|t: TaskId|
            s.filter(not_id(id)).contains(t) <==> (s.contains(t) && t != id),
        s.no_duplicates() ==> s.filter(not_id(id)).no_duplicates(),
    decreases s.len(),
{
    let f = s.filter(not_id(id));
    if s.len() > 0 {
        let p = s.drop_last();
        lemma_filter_out(p, id);
        let fp = p.filter(not_id(id));
        assert(s =~= p.push(s.last()));
        p.lemma_filter_push(s.last(), not_id(id));
        assert(f == if s.last() != id { fp.push(s.last()) } else { fp });
        assert forall|t: TaskId| f.contains(t) <==> (s.contains(t) && t != id) by {
            if s.contains(t) {
                let k = choose|k: int| 0 <= k < s.len() && s[k] == t;
                if k < s.len() - 1 {
                    assert(p[k] == t);
                }
            }
            if p.contains(t) {
                let k = choose|k: int| 0 <= k < p.len() && p[k] == t;
                assert(s[k] == t);
            }
            if f.contains(t) && s.last() != id {
                let k = choose|k: int| 0 <= k < f.len() && f[k] == t;
                if k < fp.len() {
                    assert(fp.contains(t));
                }
            }
            if t == s.last() && t != id {
                assert(f[f.len() - 1] == t);
            }
        }
        if s.no_duplicates() {
            assert(p.no_duplicates());
            if s.last() != id {
                assert(!p.contains(s.last())) by {
                    if p.contains(s.last()) {
                        let k = choose|k: int| 0 <= k < p.len() && p[k] == s.last();
                        assert(s[k] == s[s.len() - 1]);
                    }
                }
                assert(!fp.contains(s.last()));
                assert forall|i: int, j: int| 0 <= i < f.len() && 0 <= j < f.len() && i != j implies f[i] != f[j] by {
                    if i < fp.len() && j < fp.len() {
                    } else if i < fp.len() {
                        assert(fp.contains(fp[i]));
                    } else if j < fp.len() {
                        assert(fp.contains(fp[j]));
                    }
                }
            }
        }
    }
}

fn remove_id(v: &Vec<TaskId>, id: TaskId) -> (r: Vec<TaskId>)
    ensures
        r@ == v@.filter(not_id(id)),
{
    let mut r: Vec<TaskId> = Vec::new();
    let mut i: usize = 0;
    while i < v.len()
        invariant
            i <= v.len(),
            r@ == v@.take(i as int).filter(not_id(id)),
        decreases v.len() - i,
    {
        proof {
            assert(v@.take(i as int + 1) =~= v@.take(i as int).push(v@[i as int]));
            v@.take(i as int).lemma_filter_push(v@[i as int], not_id(id));
        }
        if v[i] != id {
            r.push(v[i]);
        }
        i = i + 1;
    }
    proof {
        assert(v@.take(v.len() as int) =~= v@);
    }
    r
}

/// The state after `k` wakes of `id` in a row.
pub open spec fn wake_repeat(v: ExecutorView, id: TaskId, k: nat) -> ExecutorView
    decreases k,
{
    if k == 0 {
        v
    } else {
        wake_next(wake_repeat(v, id, (k - 1) as nat), id)
    }
}

/// Waking a task any number of times queues it at most once: every wake after
/// the first changes nothing, and the queue never holds an identity twice.
pub proof fn lemma_wake_idempotent(v: ExecutorView, id: TaskId, k: nat)
    requires
        executor_wf(v),
        k >= 1,
    ensures
        wake_repeat(v, id, k) == wake_next(v, id),
        executor_wf(wake_next(v, id)),
        wake_next(v, id).ready.no_duplicates(),
    decreases k,
{
    let w = wake_next(v, id);
    if k > 1 {
        lemma_wake_idempotent(v, id, (k - 1) as nat);
    } else {
        assert(wake_repeat(v, id, 0) == v);
    }
    if v.tasks.contains(id) && !v.ready.contains(id) {
        assert(w.ready.contains(id)) by {
            assert(w.ready[w.ready.len() - 1] == id);
        }
        assert(wake_next(w, id) == w);
        assert forall|i: int, j: int| 0 <= i < w.ready.len() && 0 <= j < w.ready.len() && i
            != j implies w.ready[i] != w.ready[j] by {
            if i == v.ready.len() {
                assert(v.ready.contains(v.ready[j]));
            } else if j == v.ready.len() {
                assert(v.ready.contains(v.ready[i]));
            }
        }
        assert forall|i: int| 0 <= i < w.ready.len() implies w.tasks.contains(
            #[trigger] w.ready[i]) by {
            if i < v.ready.len() {
                assert(v.tasks.contains(v.ready[i]));
            }
        }
    }
    assert(wake_next(w, id) == w);
}

/// One pass over two fresh tasks, the first of which completes at once and the
/// second of which stays pending: the first is polled, then the second, the
/// task set is left with the second alone, and nothing is queued, so the
/// executor parks.
pub proof fn lemma_one_pass(v: ExecutorView)
    requires
        v.tasks.is_empty(),
        v.ready.len() == 0,
        v.next_id + 1 < u64::MAX,
    ensures
        ({
            let a = TaskId { id: v.next_id as u64 };
            let b = TaskId { id: (v.next_id + 1) as u64 };
            let spawned = spawn_next(spawn_next(v));
            let after_a = complete_next(next_ready_next(spawned), a);
            let after_b = next_ready_next(after_a);
            &&& next_ready_result(spawned) == Some(a)
            &&& next_ready_result(after_a) == Some(b)
            &&& next_ready_result(after_b) is None
            &&& after_b.tasks == set![b]
            &&& after_b.ready.len() == 0
        }),
{
    let a = TaskId { id: v.next_id as u64 };
    let b = TaskId { id: (v.next_id + 1) as u64 };
    let spawned = spawn_next(spawn_next(v));
    assert(spawned.ready =~= seq![a, b]);
    let popped = next_ready_next(spawned);
    assert(popped.ready =~= seq![b]);
    let after_a = complete_next(popped, a);
    assert(seq![b] =~= Seq::<TaskId>::empty().push(b));
    Seq::<TaskId>::empty().lemma_filter_push(b, not_id(a));
    assert(Seq::<TaskId>::empty().filter(not_id(a)) =~= Seq::<TaskId>::empty()) by {
        reveal(Seq::filter);
    }
    assert(after_a.ready =~= seq![b]);
    assert(after_a.tasks =~= set![b]);
}

} // verus!
