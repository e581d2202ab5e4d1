use rust_os::task::keyboard::{AddOutcome, ScanPoll, ScancodeStream, SCANCODE_QUEUE_CAPACITY};
use rust_os::task::TaskId;

const CONSUMER: TaskId = TaskId { id: 7 };

#[test]
fn codes_come_out_in_order() {
    let mut q = ScancodeStream::new();
    for c in 1..=10u8 {
        assert_eq!(q.add_scancode(c), AddOutcome::Queued(None));
    }
    for c in 1..=10u8 {
        assert_eq!(q.poll_next(CONSUMER), ScanPoll::Ready(c));
    }
    assert_eq!(q.poll_next(CONSUMER), ScanPoll::Pending);
}

#[test]
fn overflow_drops_the_newest_codes() {
    let mut q = ScancodeStream::new();
    let mut drops = 0;
    for i in 0..(SCANCODE_QUEUE_CAPACITY + 5) {
        let outcome = q.add_scancode(i as u8);
        if i < SCANCODE_QUEUE_CAPACITY {
            assert_eq!(outcome, AddOutcome::Queued(None));
        } else {
            assert_eq!(outcome, AddOutcome::Full);
            drops += 1;
        }
    }
    assert_eq!(drops, 5);
    for i in 0..SCANCODE_QUEUE_CAPACITY {
        assert_eq!(q.poll_next(CONSUMER), ScanPoll::Ready(i as u8));
    }
    assert_eq!(q.poll_next(CONSUMER), ScanPoll::Pending);
}

#[test]
fn suspended_consumer_is_woken_and_gets_the_code() {
    let mut q = ScancodeStream::new();
    assert_eq!(q.poll_next(CONSUMER), ScanPoll::Pending);
    assert_eq!(q.add_scancode(0x1e), AddOutcome::Queued(Some(CONSUMER)));
    assert_eq!(q.poll_next(CONSUMER), ScanPoll::Ready(0x1e));
    assert_eq!(q.add_scancode(0x9e), AddOutcome::Queued(None));
}

#[test]
fn code_published_before_registration_is_found() {
    let mut q = ScancodeStream::new();
    assert_eq!(q.try_pop(), None);
    assert_eq!(q.add_scancode(42), AddOutcome::Queued(None));
    assert_eq!(q.register_and_recheck(CONSUMER), ScanPoll::Ready(42));
    assert_eq!(q.add_scancode(43), AddOutcome::Queued(None));
}

#[test]
fn code_published_after_registration_wakes() {
    let mut q = ScancodeStream::new();
    assert_eq!(q.try_pop(), None);
    q.register(CONSUMER);
    assert_eq!(q.add_scancode(42), AddOutcome::Queued(Some(CONSUMER)));
    assert_eq!(q.try_pop(), Some(42));
}

#[test]
fn registration_is_replaced_not_stacked() {
    let mut q = ScancodeStream::with_capacity(4);
    q.register(TaskId { id: 1 });
    q.register(TaskId { id: 2 });
    assert_eq!(q.add_scancode(5), AddOutcome::Queued(Some(TaskId { id: 2 })));
    assert_eq!(q.add_scancode(6), AddOutcome::Queued(None));
}

#[test]
fn full_queue_keeps_its_registration() {
    let mut q = ScancodeStream::with_capacity(1);
    assert_eq!(q.add_scancode(1), AddOutcome::Queued(None));
    q.register(CONSUMER);
    assert_eq!(q.add_scancode(2), AddOutcome::Full);
    assert_eq!(q.try_pop(), Some(1));
    assert_eq!(q.add_scancode(3), AddOutcome::Queued(Some(CONSUMER)));
}
