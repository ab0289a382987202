use ceno::{Message, WorkQueue};

fn job(m: Option<Message<u32>>) -> Option<u32> {
    match m {
        Some(Message::Job(j)) => Some(j),
        _ => None,
    }
}

#[test]
fn jobs_come_out_once_each_in_order() {
    let mut q = WorkQueue::new();
    for j in 0..10u32 {
        q.submit(j);
    }
    assert_eq!(q.len(), 10);
    let mut seen = Vec::new();
    while let Some(j) = job(q.next()) {
        seen.push(j);
    }
    assert_eq!(seen, (0..10).collect::<Vec<_>>());
    assert_eq!(q.len(), 0);
    assert!(q.next().is_none());
}

#[test]
fn empty_queue_hands_out_nothing() {
    let mut q: WorkQueue<u32> = WorkQueue::new();
    assert!(q.next().is_none());
    assert_eq!(q.len(), 0);
}

#[test]
fn terminate_signals_follow_queued_jobs() {
    let mut q = WorkQueue::new();
    q.submit(7u32);
    q.terminate_all(3);
    assert_eq!(q.len(), 4);
    assert_eq!(job(q.next()), Some(7));
    for _ in 0..3 {
        assert!(matches!(q.next(), Some(Message::Terminate)));
    }
    assert!(q.next().is_none());
}

#[test]
fn interleaved_submit_and_take() {
    let mut q = WorkQueue::new();
    q.submit(1u32);
    q.submit(2);
    assert_eq!(job(q.next()), Some(1));
    q.submit(3);
    assert_eq!(job(q.next()), Some(2));
    assert_eq!(job(q.next()), Some(3));
    assert!(q.next().is_none());
}
