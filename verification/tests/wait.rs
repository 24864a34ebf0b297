use lsys::sender::message::MessageStatus;
use lsys::sender::wait::{wait_result, SenderWaitNotify, WaitEvent, WaitOutcome, WaitPoll};

fn event(id: u64, status: MessageStatus, message: &str) -> WaitEvent {
    WaitEvent { message_id: id, outcome: WaitOutcome { status, message: message.to_string() } }
}

#[test]
fn a_wait_ends_with_the_outcome() {
    let mut bridge = SenderWaitNotify::new(30);
    assert!(bridge.wait(7, 100));
    assert!(matches!(bridge.wait_timeout(7, 101), WaitPoll::Waiting));
    assert!(bridge.resolve(event(7, MessageStatus::Completed, "250 ok")));
    match bridge.wait_timeout(7, 102) {
        WaitPoll::Ready(o) => {
            assert_eq!(o.status, MessageStatus::Completed);
            assert_eq!(o.message, "250 ok");
        }
        other => panic!("unexpected: {:?}", other),
    }
    assert_eq!(bridge.len(), 0);
}

#[test]
fn a_wait_ends_at_its_deadline() {
    let mut bridge = SenderWaitNotify::new(30);
    assert!(bridge.wait(7, 100));
    assert!(matches!(bridge.wait_timeout(7, 129), WaitPoll::Waiting));
    assert!(matches!(bridge.wait_timeout(7, 130), WaitPoll::TimedOut));
    assert!(matches!(bridge.wait_timeout(7, 131), WaitPoll::Unregistered));
    assert_eq!(bridge.len(), 0);
}

#[test]
fn an_outcome_that_is_there_at_the_deadline_is_still_handed_out() {
    let mut bridge = SenderWaitNotify::new(5);
    assert!(bridge.wait(1, 0));
    assert!(bridge.resolve(event(1, MessageStatus::FailedFinal, "rejected")));
    assert!(matches!(bridge.wait_timeout(1, 1000), WaitPoll::Ready(_)));
}

#[test]
fn an_outcome_after_the_timeout_is_dropped() {
    let mut bridge = SenderWaitNotify::new(5);
    assert!(bridge.wait(1, 0));
    assert!(matches!(bridge.wait_timeout(1, 5), WaitPoll::TimedOut));
    assert!(!bridge.resolve(event(1, MessageStatus::Completed, "late")));
    assert!(matches!(bridge.wait_timeout(1, 6), WaitPoll::Unregistered));
    assert_eq!(bridge.len(), 0);
}

#[test]
fn resolving_twice_keeps_the_first_outcome() {
    let mut bridge = SenderWaitNotify::new(5);
    assert!(bridge.wait(1, 0));
    assert!(bridge.resolve(event(1, MessageStatus::Completed, "first")));
    assert!(!bridge.resolve(event(1, MessageStatus::FailedFinal, "second")));
    match bridge.wait_timeout(1, 1) {
        WaitPoll::Ready(o) => {
            assert_eq!(o.status, MessageStatus::Completed);
            assert_eq!(o.message, "first");
        }
        other => panic!("unexpected: {:?}", other),
    }
}

#[test]
fn an_outcome_that_nobody_waits_for_is_dropped() {
    let mut bridge = SenderWaitNotify::new(5);
    assert!(!bridge.resolve(event(9, MessageStatus::Completed, "ok")));
    assert_eq!(bridge.len(), 0);
    assert!(matches!(bridge.wait_timeout(9, 0), WaitPoll::Unregistered));
}

#[test]
fn a_second_registration_changes_nothing() {
    let mut bridge = SenderWaitNotify::new(5);
    assert!(bridge.register(1, 50));
    assert!(!bridge.register(1, 10));
    assert!(matches!(bridge.wait_timeout(1, 20), WaitPoll::Waiting));
    assert!(matches!(bridge.wait_timeout(1, 50), WaitPoll::TimedOut));
}

#[test]
fn waits_of_different_records_are_apart() {
    let mut bridge = SenderWaitNotify::new(10);
    assert!(bridge.wait(1, 0));
    assert!(bridge.wait(2, 0));
    assert_eq!(bridge.len(), 2);
    assert!(bridge.resolve(event(2, MessageStatus::Completed, "two")));
    assert!(matches!(bridge.wait_timeout(1, 1), WaitPoll::Waiting));
    assert!(matches!(bridge.wait_timeout(2, 1), WaitPoll::Ready(_)));
    assert_eq!(bridge.len(), 1);
}

#[test]
fn a_deadline_near_the_end_of_time_does_not_wrap() {
    let mut bridge = SenderWaitNotify::new(255);
    assert!(bridge.wait(1, u64::MAX - 3));
    assert!(matches!(bridge.wait_timeout(1, u64::MAX - 1), WaitPoll::Waiting));
    assert!(matches!(bridge.wait_timeout(1, u64::MAX), WaitPoll::TimedOut));
}

#[test]
fn wait_result_tells_success_from_failure() {
    let done = WaitOutcome { status: MessageStatus::Completed, message: "250 ok".to_string() };
    assert_eq!(wait_result(done), Ok(true));
    let failed = WaitOutcome { status: MessageStatus::FailedFinal, message: "rejected".to_string() };
    assert_eq!(wait_result(failed), Err("rejected".to_string()));
    let gone = WaitOutcome { status: MessageStatus::Cancelled, message: "withdrawn".to_string() };
    assert_eq!(wait_result(gone), Err("withdrawn".to_string()));
}

#[test]
fn the_deadline_is_the_timeout_after_now() {
    let bridge = SenderWaitNotify::new(30);
    assert_eq!(bridge.deadline(100), 130);
    assert_eq!(bridge.deadline(u64::MAX - 1), u64::MAX);
}

#[test]
fn an_outcome_that_is_not_terminal_is_dropped() {
    let mut bridge = SenderWaitNotify::new(5);
    assert!(bridge.wait(1, 0));
    assert!(!bridge.resolve(event(1, MessageStatus::Pending, "again")));
    assert!(!bridge.resolve(event(1, MessageStatus::Sending, "busy")));
    assert!(!bridge.resolve(event(1, MessageStatus::FailedRetryable, "busy")));
    assert!(matches!(bridge.wait_timeout(1, 1), WaitPoll::Waiting));
    assert!(bridge.resolve(event(1, MessageStatus::Cancelled, "withdrawn")));
    match bridge.wait_timeout(1, 2) {
        WaitPoll::Ready(o) => assert_eq!(o.status, MessageStatus::Cancelled),
        other => panic!("unexpected: {:?}", other),
    }
}
