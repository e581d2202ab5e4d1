use vstd::prelude::*;
use crate::task::TaskId;

verus! {

#[verifier::external_type_specification]
#[verifier::external_body]
#[verifier::reject_recursive_types(T)]
pub struct ExArrayQueue<T>(crossbeam_queue::ArrayQueue<T>);

/// The codes held by a bounded queue, oldest first.
pub uninterp spec fn queued_codes(q: crossbeam_queue::ArrayQueue<u8>) -> Seq<u8>;

/// The capacity a bounded queue was created with.
pub uninterp spec fn queue_capacity(q: crossbeam_queue::ArrayQueue<u8>) -> nat;

/// Relies on crossbeam_queue::ArrayQueue::new: an empty queue of capacity `cap`
/// (it panics on a zero capacity).
#[verifier::external_body]
fn new_code_queue(cap: usize) -> (q: crossbeam_queue::ArrayQueue<u8>)
    requires
        cap > 0,
    ensures
        queued_codes(q) == Seq::<u8>::empty(),
        queue_capacity(q) == cap,
{
    crossbeam_queue::ArrayQueue::new(cap)
}

/// Relies on crossbeam_queue::ArrayQueue::push: appends at the back unless the
/// queue is full, in which case it fails and leaves the queue as it was.
#[verifier::external_body]
fn push_code(q: &mut crossbeam_queue::ArrayQueue<u8>, code: u8) -> (ok: bool)
    ensures
        queue_capacity(*final(q)) == queue_capacity(*old(q)),
        ok == (queued_codes(*old(q)).len() < queue_capacity(*old(q))),
        ok ==> queued_codes(*final(q)) == queued_codes(*old(q)).push(code),
        !ok ==> queued_codes(*final(q)) == queued_codes(*old(q)),
{
    q.push(code).is_ok()
}

/// Relies on crossbeam_queue::ArrayQueue::pop: takes the oldest element, or
/// fails on an empty queue and leaves it as it was.
#[verifier::external_body]
fn pop_code(q: &mut crossbeam_queue::ArrayQueue<u8>) -> (r: Option<u8>)
    ensures
        queue_capacity(*final(q)) == queue_capacity(*old(q)),
        queued_codes(*old(q)).len() == 0 ==> r is None && queued_codes(*final(q))
            == queued_codes(*old(q)),
        queued_codes(*old(q)).len() > 0 ==> r == Some(queued_codes(*old(q))[0])
            && queued_codes(*final(q)) == queued_codes(*old(q)).drop_first(),
{
    q.pop().ok()
}

/// Capacity of the scancode queue in the standard configuration.
pub const SCANCODE_QUEUE_CAPACITY: usize = 100;

/// Abstract state of the scancode queue: the codes waiting, oldest first, the
/// capacity, and the task whose wakeup is registered, if any.
pub struct ScancodeStreamView {
    pub codes: Seq<u8>,
    pub capacity: nat,
    pub waker: Option<TaskId>,
}

/// What publishing one code reports.
#[derive(Clone, Copy, Debug, PartialEq, Eq, Structural)]
pub enum AddOutcome {
    /// The code was queued; the registered task, if any, is to be woken.
    Queued(Option<TaskId>),
    /// The queue was full and the code was dropped.
    Full,
}

/// Result of one poll of the consumer.
#[derive(Clone, Copy, Debug, PartialEq, Eq, Structural)]
pub enum ScanPoll {
    Ready(u8),
    Pending,
}

/// The outcome of publishing `code` in state `v`.
pub open spec fn add_outcome(v: ScancodeStreamView, code: u8) -> AddOutcome {
    if v.codes.len() < v.capacity {
        AddOutcome::Queued(v.waker)
    } else {
        AddOutcome::Full
    }
}

/// The state after publishing `code` in state `v`: a queued code takes the
/// registered wakeup with it; a dropped one changes nothing.
pub open spec fn add_next(v: ScancodeStreamView, code: u8) -> ScancodeStreamView {
    if v.codes.len() < v.capacity {
        ScancodeStreamView { codes: v.codes.push(code), capacity: v.capacity, waker: None }
    } else {
        v
    }
}

/// The result of a pop attempt.
pub open spec fn pop_result(v: ScancodeStreamView) -> Option<u8> {
    if v.codes.len() > 0 {
        Some(v.codes[0])
    } else {
        None
    }
}

/// The state after a pop attempt.
pub open spec fn pop_next(v: ScancodeStreamView) -> ScancodeStreamView {
    if v.codes.len() > 0 {
        ScancodeStreamView { codes: v.codes.drop_first(), ..v }
    } else {
        v
    }
}

/// The state after `w` registers for a wakeup (replacing any earlier one).
pub open spec fn register_next(v: ScancodeStreamView, w: TaskId) -> ScancodeStreamView {
    ScancodeStreamView { waker: Some(w), ..v }
}

/// The second half of a poll: register, then pop again; a code found there
/// withdraws the registration.
pub open spec fn recheck_result(v: ScancodeStreamView) -> ScanPoll {
    match pop_result(v) {
        Some(c) => ScanPoll::Ready(c),
        None => ScanPoll::Pending,
    }
}

/// The state after the second half of a poll by task `w`.
pub open spec fn recheck_next(v: ScancodeStreamView, w: TaskId) -> ScancodeStreamView {
    let r = register_next(v, w);
    if r.codes.len() > 0 {
        ScancodeStreamView { waker: None, ..pop_next(r) }
    } else {
        r
    }
}

/// The result of a whole poll in state `v`.
pub open spec fn poll_result(v: ScancodeStreamView) -> ScanPoll {
    match pop_result(v) {
        Some(c) => ScanPoll::Ready(c),
        None => recheck_result(v),
    }
}

/// The state after a whole poll by task `w` in state `v`.
pub open spec fn poll_next(v: ScancodeStreamView, w: TaskId) -> ScancodeStreamView {
    if v.codes.len() > 0 {
        pop_next(v)
    } else {
        recheck_next(v, w)
    }
}

/// The bounded queue of raw keyboard codes that the interrupt handler feeds and
/// a task drains, with the one registered wakeup of its consumer.
pub struct ScancodeStream {
    queue: crossbeam_queue::ArrayQueue<u8>,
    waker: Option<TaskId>,
}

impl View for ScancodeStream {
    type V = ScancodeStreamView;

    closed spec fn view(&self) -> ScancodeStreamView {
        ScancodeStreamView {
            codes: queued_codes(self.queue),
            capacity: queue_capacity(self.queue),
            waker: self.waker,
        }
    }
}

impl ScancodeStream {
    /// An empty queue of the standard capacity with no wakeup registered.
    pub fn new() -> (r: Self)
        ensures
            r@.codes == Seq::<u8>::empty(),
            r@.capacity == SCANCODE_QUEUE_CAPACITY,
            r@.waker is None,
    {
        Self::with_capacity(SCANCODE_QUEUE_CAPACITY)
    }

    /// An empty queue of the given capacity with no wakeup registered.
    pub fn with_capacity(capacity: usize) -> (r: Self)
        requires
            capacity > 0,
        ensures
            r@.codes == Seq::<u8>::empty(),
            r@.capacity == capacity,
            r@.waker is None,
    {
        ScancodeStream { queue: new_code_queue(capacity), waker: None }
    }

    /// Publishes one code, as the interrupt handler does: never blocks, drops the
    /// code when the queue is full, and otherwise hands back the task to wake.
    pub fn add_scancode(&mut self, scancode: u8) -> (r: AddOutcome)
        ensures
            r == add_outcome(old(self)@, scancode),
            final(self)@ == add_next(old(self)@, scancode),
    {
        if push_code(&mut self.queue, scancode) {
            let w = self.waker;
            self.waker = None;
            AddOutcome::Queued(w)
        } else {
            AddOutcome::Full
        }
    }

    /// One non-blocking pop attempt.
    pub fn try_pop(&mut self) -> (r: Option<u8>)
        ensures
            r == pop_result(old(self)@),
            final(self)@ == pop_next(old(self)@),
    {
        pop_code(&mut self.queue)
    }

    /// Registers `w` as the task to wake on the next published code.
    pub fn register(&mut self, w: TaskId)
        ensures
            final(self)@ == register_next(old(self)@, w),
    {
        self.waker = Some(w);
    }

    /// Registers `w`, then pops again; a code found withdraws the registration.
    pub fn register_and_recheck(&mut self, w: TaskId) -> (r: ScanPoll)
        ensures
            r == recheck_result(old(self)@),
            final(self)@ == recheck_next(old(self)@, w),
    {
        self.register(w);
        match self.try_pop() {
            Some(code) => {
                self.waker = None;
                ScanPoll::Ready(code)
            },
            None => ScanPoll::Pending,
        }
    }

    /// One poll of the consumer on behalf of task `w`: a waiting code is returned
    /// at once; otherwise `w` registers before the queue is checked once more, so
    /// that a code published in between is never missed.
    pub fn poll_next(&mut self, w: TaskId) -> (r: ScanPoll)
        ensures
            r == poll_result(old(self)@),
            final(self)@ == poll_next(old(self)@, w),
    {
        match self.try_pop() {
            Some(code) => ScanPoll::Ready(code),
            None => self.register_and_recheck(w),
        }
    }
}

/// The state after publishing the codes `cs` in order.
pub open spec fn publish_all(v: ScancodeStreamView, cs: Seq<u8>) -> ScancodeStreamView
    decreases cs.len(),
{
    if cs.len() == 0 {
        v
    } else {
        add_next(publish_all(v, cs.drop_last()), cs.last())
    }
}

/// What each publication of `cs` in order reports.
pub open spec fn publish_outcomes(v: ScancodeStreamView, cs: Seq<u8>) -> Seq<AddOutcome>
    decreases cs.len(),
{
    if cs.len() == 0 {
        seq![]
    } else {
        publish_outcomes(v, cs.drop_last()).push(add_outcome(publish_all(v, cs.drop_last()), cs.last()))
    }
}

/// The codes that `n` polls by task `w` return, up to the first one that is pending.
pub open spec fn drain(v: ScancodeStreamView, w: TaskId, n: nat) -> Seq<u8>
    decreases n,
{
    if n == 0 {
        seq![]
    } else {
        match poll_result(v) {
            ScanPoll::Ready(c) => seq![c] + drain(poll_next(v, w), w, (n - 1) as nat),
            ScanPoll::Pending => seq![],
        }
    }
}

/// The state after `n` polls by task `w`.
pub open spec fn drain_state(v: ScancodeStreamView, w: TaskId, n: nat) -> ScancodeStreamView
    decreases n,
{
    if n == 0 {
        v
    } else {
        drain_state(poll_next(v, w), w, (n - 1) as nat)
    }
}

proof fn lemma_publish_all(v: ScancodeStreamView, cs: Seq<u8>)
    requires
        v.codes.len() == 0,
    ensures
        publish_all(v, cs).capacity == v.capacity,
        cs.len() <= v.capacity ==> publish_all(v, cs).codes == cs,
        cs.len() > v.capacity ==> publish_all(v, cs).codes == cs.take(v.capacity as int),
        publish_outcomes(v, cs).len() == cs.len(),
        forall|i: int|
            0 <= i < cs.len() ==> (#[trigger] publish_outcomes(v, cs)[i] is Full <==> i
                >= v.capacity),
    decreases cs.len(),
{
    if cs.len() > 0 {
        let p = cs.drop_last();
        lemma_publish_all(v, p);
        if cs.len() <= v.capacity {
            assert(p.push(cs.last()) =~= cs);
        } else if p.len() == v.capacity {
            assert(p =~= cs.take(v.capacity as int));
        } else {
            assert(p.take(v.capacity as int) =~= cs.take(v.capacity as int));
        }
        assert forall|i: int| 0 <= i < cs.len() implies (#[trigger] publish_outcomes(v, cs)[i]
            is Full <==> i >= v.capacity) by {
            if i < p.len() {
                assert(publish_outcomes(v, cs)[i] == publish_outcomes(v, p)[i]);
            }
        }
    }
}

proof fn lemma_drain(v: ScancodeStreamView, w: TaskId, n: nat)
    requires
        n <= v.codes.len(),
    ensures
        drain(v, w, n) == v.codes.take(n as int),
        drain_state(v, w, n).codes == v.codes.skip(n as int),
    decreases n,
{
    if n > 0 {
        lemma_drain(poll_next(v, w), w, (n - 1) as nat);
        assert(v.codes.take(n as int) =~= seq![v.codes[0]] + v.codes.drop_first().take(n - 1));
        assert(v.codes.skip(n as int) =~= v.codes.drop_first().skip(n - 1));
    }
}

/// Codes published into an empty queue, fewer than its capacity, come out of
/// the consumer in the order they went in, and then the consumer waits.
pub proof fn lemma_fifo_delivery(v: ScancodeStreamView, w: TaskId, cs: Seq<u8>)
    requires
        v.codes.len() == 0,
        cs.len() < v.capacity,
    ensures
        drain(publish_all(v, cs), w, cs.len()) == cs,
        poll_result(drain_state(publish_all(v, cs), w, cs.len())) == ScanPoll::Pending,
{
    lemma_publish_all(v, cs);
    lemma_drain(publish_all(v, cs), w, cs.len());
    assert(cs.take(cs.len() as int) =~= cs);
}

/// Publishing more codes than an empty queue holds keeps the oldest ones, as
/// many as the capacity, and reports a drop for each later code, once each.
pub proof fn lemma_overflow_drops_newest(v: ScancodeStreamView, cs: Seq<u8>)
    requires
        v.codes.len() == 0,
        cs.len() >= v.capacity,
    ensures
        publish_all(v, cs).codes == cs.take(v.capacity as int),
        publish_outcomes(v, cs).len() == cs.len(),
        forall|i: int|
            0 <= i < cs.len() ==> (#[trigger] publish_outcomes(v, cs)[i] is Full <==> i
                >= v.capacity),
{
    lemma_publish_all(v, cs);
    if cs.len() == v.capacity {
        assert(cs.take(v.capacity as int) =~= cs);
    }
}

/// A consumer that found the queue empty is never left waiting on a published
/// code: a code published before it registers is found by its second pop; one
/// published after it registers wakes it, and it then finds the code; and a
/// suspended consumer that is woken by a publication gets that code on its next poll.
pub proof fn lemma_no_missed_wakeup(v: ScancodeStreamView, w: TaskId, c: u8)
    requires
        v.codes.len() == 0,
        v.capacity > 0,
    ensures
        pop_result(v) is None,
        recheck_result(add_next(v, c)) == ScanPoll::Ready(c),
        recheck_next(add_next(v, c), w).waker is None,
        add_outcome(register_next(v, w), c) == AddOutcome::Queued(Some(w)),
        pop_result(add_next(register_next(v, w), c)) == Some(c),
        poll_result(v) == ScanPoll::Pending,
        poll_next(v, w).waker == Some(w),
        add_outcome(poll_next(v, w), c) == AddOutcome::Queued(Some(w)),
        poll_result(add_next(poll_next(v, w), c)) == ScanPoll::Ready(c),
{
}

} // verus!
