use rust_os::task::executor::Executor;
use rust_os::task::TaskId;

#[test]
fn identities_are_fresh_and_increasing() {
    let mut e = Executor::new();
    assert_eq!(e.spawn(), TaskId { id: 0 });
    assert_eq!(e.spawn(), TaskId { id: 1 });
    assert_eq!(e.spawn(), TaskId { id: 2 });
}

#[test]
fn one_pass_keeps_only_the_pending_task() {
    let mut e = Executor::new();
    let a = e.spawn();
    let b = e.spawn();
    assert_eq!(e.next_ready(), Some(a));
    e.complete(a);
    assert_eq!(e.next_ready(), Some(b));
    assert_eq!(e.next_ready(), None);
    assert!(e.is_idle());
    assert!(!e.contains(a));
    assert!(e.contains(b));
}

#[test]
fn repeated_wakes_queue_once() {
    let mut e = Executor::new();
    let a = e.spawn();
    assert_eq!(e.next_ready(), Some(a));
    e.wake(a);
    e.wake(a);
    e.wake(a);
    assert_eq!(e.next_ready(), Some(a));
    assert_eq!(e.next_ready(), None);
}

#[test]
fn wake_of_completed_task_is_ignored() {
    let mut e = Executor::new();
    let a = e.spawn();
    e.complete(a);
    assert!(e.is_idle());
    e.wake(a);
    assert!(e.is_idle());
    assert_eq!(e.next_ready(), None);
}

#[test]
fn wakes_keep_their_order() {
    let mut e = Executor::new();
    let a = e.spawn();
    let b = e.spawn();
    assert_eq!(e.next_ready(), Some(a));
    assert_eq!(e.next_ready(), Some(b));
    e.wake(b);
    e.wake(a);
    assert_eq!(e.next_ready(), Some(b));
    assert_eq!(e.next_ready(), Some(a));
    assert!(e.is_idle());
}
