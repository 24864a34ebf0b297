use lsys::common::dispatch::{
    DispatchAction, DispatchConfig, DispatchEvent, DispatchLoop, DispatchState,
};
use lsys::common::lease::LeaseCoordinator;
use lsys::sender::message::{Message, MessageStatus, NewMessage};
use lsys::sender::model::{
    SenderExecError, SenderTaskResultItem, SenderTaskStatus, SenderType,
};
use lsys::sender::store::MessageStore;
use lsys::sender::task::{
    deliver, enqueue, exec_outcome, finalize, retry_at, run_batch, run_once, send_one,
    timeout_outcome,
    ConfigSlots, SendCursor, SendStep, SenderTaskExecutor,
};
use lsys::sender::wait::{SenderWaitNotify, WaitPoll};

fn config() -> DispatchConfig {
    DispatchConfig { poll_interval: 60, lease_backoff: 2, error_backoff: 5, batch_size: 20 }
}

fn new_message(channel: SenderType, to: &str, at: u64, max_try: u8) -> NewMessage {
    NewMessage {
        channel,
        app_id: 1,
        recipient: to.to_string(),
        tpl_id: "welcome".to_string(),
        tpl_var: "{}".to_string(),
        scheduled_time: at,
        max_try_num: max_try,
    }
}

fn done(id: u64) -> Result<SenderTaskResultItem, SenderExecError> {
    Ok(SenderTaskResultItem {
        id,
        status: SenderTaskStatus::Completed,
        message: "250 ok".to_string(),
        send_id: String::new(),
    })
}

fn busy(id: u64) -> Result<SenderTaskResultItem, SenderExecError> {
    Ok(SenderTaskResultItem {
        id,
        status: SenderTaskStatus::Failed(true),
        message: "busy".to_string(),
        send_id: String::new(),
    })
}

/// An executor that answers from a script and keeps count.
struct Scripted {
    script: Vec<Result<SenderTaskResultItem, SenderExecError>>,
    calls: Vec<(u64, u64)>,
    limit: u16,
}

impl Scripted {
    fn new(script: Vec<Result<SenderTaskResultItem, SenderExecError>>) -> Self {
        Scripted { script, calls: Vec::new(), limit: 1 }
    }
}

impl SenderTaskExecutor for Scripted {
    fn limit(&self, _config: u64) -> u16 {
        self.limit
    }

    fn exec(&mut self, item: &Message, config: u64) -> Result<SenderTaskResultItem, SenderExecError> {
        self.calls.push((item.id, config));
        if self.script.is_empty() {
            done(item.id)
        } else {
            self.script.remove(0)
        }
    }
}

#[test]
fn the_loop_walks_from_idle_to_idle() {
    let mut l = DispatchLoop::new(config());
    assert_eq!(l.state, DispatchState::Idle);
    assert_eq!(l.idle_timeout(), 60);
    assert!(l.listens());
    assert_eq!(l.step(DispatchEvent::Wake), DispatchAction::Acquire);
    assert_eq!(l.state, DispatchState::Leasing);
    assert_eq!(l.step(DispatchEvent::LeaseGranted), DispatchAction::Fetch { limit: 20, sweep: true });
    assert_eq!(l.state, DispatchState::Fetching);
    assert!(l.holds_lease);
    assert_eq!(l.step(DispatchEvent::Fetched { count: 3 }), DispatchAction::Execute);
    assert_eq!(l.state, DispatchState::Executing);
    assert_eq!(l.step(DispatchEvent::Executed), DispatchAction::Finalize);
    assert_eq!(l.state, DispatchState::Finalizing);
    assert_eq!(l.step(DispatchEvent::Finalized { more_due: false }), DispatchAction::Release);
    assert_eq!(l.state, DispatchState::Idle);
    assert!(!l.holds_lease);
}

#[test]
fn the_timer_wakes_the_loop_like_a_signal() {
    let mut l = DispatchLoop::new(config());
    assert_eq!(l.step(DispatchEvent::Timer), DispatchAction::Acquire);
    assert_eq!(l.state, DispatchState::Leasing);
}

#[test]
fn a_denied_lease_sends_the_loop_back_to_wait() {
    let mut l = DispatchLoop::new(config());
    l.step(DispatchEvent::Wake);
    assert_eq!(l.step(DispatchEvent::LeaseDenied), DispatchAction::Backoff { seconds: 2 });
    assert_eq!(l.state, DispatchState::Idle);
    assert!(!l.holds_lease);
}

#[test]
fn an_empty_fetch_gives_the_lease_back() {
    let mut l = DispatchLoop::new(config());
    l.step(DispatchEvent::Wake);
    l.step(DispatchEvent::LeaseGranted);
    assert_eq!(l.step(DispatchEvent::Fetched { count: 0 }), DispatchAction::Release);
    assert_eq!(l.state, DispatchState::Idle);
}

#[test]
fn more_work_renews_the_lease_and_does_not_sweep_again() {
    let mut l = DispatchLoop::new(config());
    l.step(DispatchEvent::Wake);
    l.step(DispatchEvent::LeaseGranted);
    l.step(DispatchEvent::Fetched { count: 20 });
    l.step(DispatchEvent::Executed);
    assert_eq!(l.step(DispatchEvent::Finalized { more_due: true }), DispatchAction::Renew);
    assert_eq!(l.state, DispatchState::Leasing);
    assert_eq!(l.step(DispatchEvent::LeaseGranted), DispatchAction::Fetch { limit: 20, sweep: false });
}

#[test]
fn a_lost_lease_ends_the_batch_and_is_not_given_back() {
    let mut l = DispatchLoop::new(config());
    l.step(DispatchEvent::Wake);
    l.step(DispatchEvent::LeaseGranted);
    l.step(DispatchEvent::Fetched { count: 5 });
    assert_eq!(l.step(DispatchEvent::LeaseLost), DispatchAction::Finalize);
    assert!(!l.holds_lease);
    assert_eq!(l.state, DispatchState::Finalizing);
    assert_eq!(l.step(DispatchEvent::Finalized { more_due: true }), DispatchAction::Backoff { seconds: 2 });
    assert_eq!(l.state, DispatchState::Idle);
    assert_eq!(l.step(DispatchEvent::Wake), DispatchAction::Acquire);
    assert_eq!(l.step(DispatchEvent::LeaseGranted), DispatchAction::Fetch { limit: 20, sweep: true });
}

#[test]
fn a_failing_store_ends_the_turn_and_frees_the_queue() {
    let mut l = DispatchLoop::new(config());
    assert_eq!(l.step(DispatchEvent::StoreFailed), DispatchAction::Nothing);
    l.step(DispatchEvent::Wake);
    assert_eq!(l.step(DispatchEvent::StoreFailed), DispatchAction::Backoff { seconds: 5 });
    assert_eq!(l.state, DispatchState::Idle);
    l.step(DispatchEvent::Wake);
    l.step(DispatchEvent::LeaseGranted);
    assert_eq!(l.step(DispatchEvent::StoreFailed), DispatchAction::ReleaseAndBackoff { seconds: 5 });
    assert_eq!(l.state, DispatchState::Idle);
    assert!(!l.holds_lease);
}

#[test]
fn a_failing_wake_channel_leaves_the_timer() {
    let mut l = DispatchLoop::new(config());
    assert_eq!(l.step(DispatchEvent::TransportFailed), DispatchAction::Reconnect { seconds: 5 });
    assert!(!l.listens());
    assert_eq!(l.state, DispatchState::Idle);
    assert_eq!(l.step(DispatchEvent::Timer), DispatchAction::Acquire);
    assert_eq!(l.step(DispatchEvent::TransportRestored), DispatchAction::Nothing);
    assert!(l.listens());
    assert_eq!(l.state, DispatchState::Leasing);
}

#[test]
fn events_out_of_place_change_nothing() {
    let mut l = DispatchLoop::new(config());
    let before = l;
    assert_eq!(l.step(DispatchEvent::Executed), DispatchAction::Nothing);
    assert_eq!(l.step(DispatchEvent::LeaseGranted), DispatchAction::Nothing);
    assert_eq!(l.step(DispatchEvent::Fetched { count: 4 }), DispatchAction::Nothing);
    assert_eq!(l.step(DispatchEvent::LeaseLost), DispatchAction::Nothing);
    assert_eq!(l, before);
}

#[test]
fn retry_times_grow_with_the_tries() {
    assert_eq!(retry_at(1000, 30, 0), 1030);
    assert_eq!(retry_at(1000, 30, 1), 1060);
    assert_eq!(retry_at(1000, 30, 4), 1150);
    assert_eq!(retry_at(1000, 0, 4), 1000);
    assert_eq!(retry_at(u64::MAX - 10, 30, 0), u64::MAX);
    assert_eq!(retry_at(5, u64::MAX, 255), u64::MAX);
}

#[test]
fn exec_outcome_reads_an_executors_answer() {
    assert_eq!(exec_outcome(done(1)), (SenderTaskStatus::Completed, "250 ok".to_string()));
    assert_eq!(exec_outcome(busy(1)), (SenderTaskStatus::Failed(true), "busy".to_string()));
    assert_eq!(
        exec_outcome(Err(SenderExecError::Finish("bad template".to_string()))),
        (SenderTaskStatus::Failed(false), "bad template".to_string())
    );
    assert_eq!(
        exec_outcome(Err(SenderExecError::Next("relay down".to_string()))),
        (SenderTaskStatus::Failed(true), "relay down".to_string())
    );
}

#[test]
fn config_slots_hold_back_what_is_over_the_limit() {
    let mut slots = ConfigSlots::new();
    assert_eq!(slots.in_use(1), 0);
    assert!(slots.try_begin(1, 2));
    assert!(slots.try_begin(1, 2));
    assert!(!slots.try_begin(1, 2));
    assert_eq!(slots.in_use(1), 2);
    assert!(slots.try_begin(2, 0));
    assert!(!slots.try_begin(2, 0));
    slots.end(1);
    assert_eq!(slots.in_use(1), 1);
    assert!(slots.try_begin(1, 2));
    slots.end(9);
    slots.end(2);
    slots.end(2);
    assert_eq!(slots.in_use(2), 0);
}

#[test]
fn send_one_goes_on_to_the_next_configuration() {
    let mut store = MessageStore::new();
    store.append(new_message(SenderType::Mailer, "a@example.com", 0, 1)).unwrap();
    let item = store.get(1).unwrap();
    let mut exec = Scripted::new(vec![Err(SenderExecError::Next("relay down".to_string())), done(1)]);
    let mut slots = ConfigSlots::new();
    let out = send_one(&mut exec, &mut slots, &item, &vec![10, 11, 12]);
    assert_eq!(out, (SenderTaskStatus::Completed, "250 ok".to_string()));
    assert_eq!(exec.calls, vec![(1, 10), (1, 11)]);
    assert_eq!(slots.in_use(10), 0);
    assert_eq!(slots.in_use(11), 0);
}

#[test]
fn send_one_without_a_configuration_may_be_tried_again() {
    let mut store = MessageStore::new();
    store.append(new_message(SenderType::Mailer, "a@example.com", 0, 1)).unwrap();
    let item = store.get(1).unwrap();
    let mut exec = Scripted::new(vec![]);
    let mut slots = ConfigSlots::new();
    let out = send_one(&mut exec, &mut slots, &item, &vec![]);
    assert_eq!(out, (SenderTaskStatus::Failed(true), "not find config".to_string()));
    assert!(exec.calls.is_empty());
}

#[test]
fn send_one_skips_a_configuration_that_is_busy() {
    let mut store = MessageStore::new();
    store.append(new_message(SenderType::Mailer, "a@example.com", 0, 1)).unwrap();
    let item = store.get(1).unwrap();
    let mut exec = Scripted::new(vec![]);
    let mut slots = ConfigSlots::new();
    assert!(slots.try_begin(10, 1));
    let out = send_one(&mut exec, &mut slots, &item, &vec![10, 11]);
    assert_eq!(out.0, SenderTaskStatus::Completed);
    assert_eq!(exec.calls, vec![(1, 11)]);
    assert_eq!(slots.in_use(10), 1);
}

#[test]
fn finalize_publishes_only_for_callers_that_may_wait() {
    let mut store = MessageStore::new();
    store.append(new_message(SenderType::Mailer, "a", 0, 0)).unwrap();
    store.append(new_message(SenderType::Mailer, "b", 0, 2)).unwrap();
    assert!(store.claim(1));
    assert!(store.claim(2));
    let e = finalize(&mut store, 1, SenderTaskStatus::Completed, "250 ok".to_string(), 10, 30);
    let e = e.unwrap();
    assert_eq!(e.message_id, 1);
    assert_eq!(e.outcome.status, MessageStatus::Completed);
    assert_eq!(e.outcome.message, "250 ok");
    assert!(finalize(&mut store, 2, SenderTaskStatus::Completed, "250 ok".to_string(), 10, 30).is_none());
    assert!(finalize(&mut store, 2, SenderTaskStatus::Completed, "again".to_string(), 10, 30).is_none());
    assert!(finalize(&mut store, 3, SenderTaskStatus::Completed, "unknown".to_string(), 10, 30).is_none());
}

#[test]
fn finalize_schedules_the_next_try() {
    let mut store = MessageStore::new();
    store.append(new_message(SenderType::Smser, "13800138000", 0, 2)).unwrap();
    assert!(store.claim(1));
    assert!(finalize(&mut store, 1, SenderTaskStatus::Failed(true), "busy".to_string(), 100, 30).is_none());
    let m = store.get(1).unwrap();
    assert_eq!((m.status, m.attempt_count, m.scheduled_time), (MessageStatus::Pending, 1, 130));
    assert!(store.claim(1));
    finalize(&mut store, 1, SenderTaskStatus::Failed(true), "busy".to_string(), 130, 30);
    let m = store.get(1).unwrap();
    assert_eq!((m.status, m.attempt_count, m.scheduled_time), (MessageStatus::Pending, 2, 190));
}

#[test]
fn one_mail_without_retries_completes_within_the_deadline() {
    let mut store = MessageStore::new();
    let mut leases = LeaseCoordinator::new();
    let mut slots = ConfigSlots::new();
    let mut bridge = SenderWaitNotify::new(30);
    let mut exec = Scripted::new(vec![]);
    // The caller registers for the id that the record is about to get,
    // then hands the record in.
    let id = store.next_id();
    assert!(bridge.wait(id, 1000));
    assert_eq!(store.append(new_message(SenderType::Mailer, "a@example.com", 1000, 0)), Ok(id));
    let report = run_once(
        &mut store, &mut leases, "sender-mail--read-lock", "worker-1", 300, &mut exec,
        &mut slots, &vec![1], SenderType::Mailer, 1001, 20, 30,
    );
    assert!(report.granted);
    assert_eq!(report.batch.executed, vec![id]);
    assert_eq!(exec.calls.len(), 1);
    assert_eq!(report.batch.events.len(), 1);
    for e in report.batch.events {
        assert!(bridge.resolve(e));
    }
    match bridge.wait_timeout(id, 1002) {
        WaitPoll::Ready(o) => assert_eq!(o.status, MessageStatus::Completed),
        other => panic!("unexpected: {:?}", other),
    }
    assert_eq!(store.get(id).unwrap().status, MessageStatus::Completed);
}

#[test]
fn one_sms_fails_twice_and_then_completes() {
    let mut store = MessageStore::new();
    let mut leases = LeaseCoordinator::new();
    let mut slots = ConfigSlots::new();
    let mut exec = Scripted::new(vec![busy(1), busy(1), done(1)]);
    store.append(new_message(SenderType::Smser, "13800138000", 0, 2)).unwrap();
    let mut now = 10;
    let mut seen = Vec::new();
    for _ in 0..10 {
        let report = run_once(
            &mut store, &mut leases, "sender-sms--read-lock", "worker-1", 300, &mut exec,
            &mut slots, &vec![1], SenderType::Smser, now, 20, 30,
        );
        assert!(report.granted);
        let m = store.get(1).unwrap();
        assert!(m.attempt_count <= m.max_try_num);
        seen.push(m.attempt_count);
        now += 1000;
    }
    assert_eq!(exec.calls.len(), 3);
    let m = store.get(1).unwrap();
    assert_eq!(m.status, MessageStatus::Completed);
    assert_eq!(m.attempt_count, 2);
    assert_eq!(seen, vec![1, 2, 2, 2, 2, 2, 2, 2, 2, 2]);
}

#[test]
fn a_record_cancelled_while_pending_is_never_executed() {
    let mut store = MessageStore::new();
    let mut leases = LeaseCoordinator::new();
    let mut slots = ConfigSlots::new();
    let mut exec = Scripted::new(vec![]);
    for _ in 0..41 {
        store.append(new_message(SenderType::Smser, "13800138000", 1_000_000, 1)).unwrap();
    }
    assert_eq!(store.append(new_message(SenderType::Mailer, "a@example.com", 0, 1)), Ok(42));
    assert!(store.cancel(42));
    for now in [0u64, 10, 100, 1000] {
        assert!(store.due_pending(SenderType::Mailer, now, 100).iter().all(|m| m.id != 42));
        let report = run_once(
            &mut store, &mut leases, "sender-mail--read-lock", "worker-1", 300, &mut exec,
            &mut slots, &vec![1], SenderType::Mailer, now, 100, 30,
        );
        assert!(report.granted);
        assert!(report.batch.executed.is_empty());
    }
    assert_eq!(store.get(42).unwrap().status, MessageStatus::Cancelled);
    assert!(exec.calls.is_empty());
}

#[test]
fn of_two_loops_only_the_lease_holder_executes() {
    let mut store = MessageStore::new();
    let mut leases = LeaseCoordinator::new();
    let mut slots = ConfigSlots::new();
    let mut first = Scripted::new(vec![]);
    let mut second = Scripted::new(vec![]);
    for i in 0..4 {
        store.append(new_message(SenderType::Mailer, "a@example.com", i, 1)).unwrap();
    }
    // The first loop holds the queue and is at work.
    assert!(leases.try_acquire("sender-mail--read-lock", "worker-1", 300, 100));
    let denied = run_once(
        &mut store, &mut leases, "sender-mail--read-lock", "worker-2", 300, &mut second,
        &mut slots, &vec![1], SenderType::Mailer, 150, 2, 30,
    );
    assert!(!denied.granted);
    assert!(second.calls.is_empty());
    let batch = run_batch(
        &mut store, &mut leases, "sender-mail--read-lock", "worker-1", 300, &mut first,
        &mut slots, &vec![1], SenderType::Mailer, 150, 2, 30,
    );
    assert_eq!(batch.executed, vec![1, 2]);
    assert!(!batch.lease_lost);
    assert_eq!(first.calls.len(), 2);
    // Once the first loop has given the queue back, the second gets it.
    assert!(leases.release("sender-mail--read-lock", "worker-1"));
    let granted = run_once(
        &mut store, &mut leases, "sender-mail--read-lock", "worker-2", 300, &mut second,
        &mut slots, &vec![1], SenderType::Mailer, 151, 10, 30,
    );
    assert!(granted.granted);
    assert_eq!(granted.batch.executed, vec![3, 4]);
    assert_eq!(second.calls, vec![(3, 1), (4, 1)]);
    assert_eq!(first.calls.len(), 2);
}

#[test]
fn a_loop_whose_lease_ran_out_executes_nothing() {
    let mut store = MessageStore::new();
    let mut leases = LeaseCoordinator::new();
    let mut slots = ConfigSlots::new();
    let mut exec = Scripted::new(vec![]);
    store.append(new_message(SenderType::Mailer, "a@example.com", 0, 1)).unwrap();
    assert!(leases.try_acquire("q", "worker-1", 10, 100));
    let batch = run_batch(
        &mut store, &mut leases, "q", "worker-1", 10, &mut exec, &mut slots, &vec![1],
        SenderType::Mailer, 200, 10, 30,
    );
    assert!(batch.lease_lost);
    assert!(batch.executed.is_empty());
    assert!(exec.calls.is_empty());
    assert_eq!(store.get(1).unwrap().status, MessageStatus::Pending);
}

#[test]
fn a_turn_sweeps_what_the_holder_before_left_behind() {
    let mut store = MessageStore::new();
    let mut leases = LeaseCoordinator::new();
    let mut slots = ConfigSlots::new();
    let mut exec = Scripted::new(vec![]);
    store.append(new_message(SenderType::Mailer, "a@example.com", 0, 1)).unwrap();
    assert!(store.claim(1));
    let report = run_once(
        &mut store, &mut leases, "q", "worker-2", 30, &mut exec, &mut slots, &vec![1],
        SenderType::Mailer, 10, 10, 30,
    );
    assert!(report.granted);
    assert_eq!(report.swept, 1);
    assert_eq!(report.batch.executed, vec![1]);
    assert_eq!(store.get(1).unwrap().status, MessageStatus::Completed);
    assert_eq!(leases.holder("q", 10), None);
}

#[test]
fn a_fatal_failure_is_not_tried_again() {
    let mut store = MessageStore::new();
    let mut leases = LeaseCoordinator::new();
    let mut slots = ConfigSlots::new();
    let mut exec = Scripted::new(vec![Err(SenderExecError::Finish("bad template".to_string()))]);
    store.append(new_message(SenderType::Mailer, "a@example.com", 0, 5)).unwrap();
    for now in [1u64, 1000, 100000] {
        run_once(
            &mut store, &mut leases, "q", "w", 30, &mut exec, &mut slots, &vec![1],
            SenderType::Mailer, now, 10, 30,
        );
    }
    assert_eq!(exec.calls.len(), 1);
    let m = store.get(1).unwrap();
    assert_eq!((m.status, m.attempt_count), (MessageStatus::FailedFinal, 0));
}

#[test]
fn enqueue_registers_the_caller_under_the_id_of_the_record() {
    let mut store = MessageStore::new();
    let mut bridge = SenderWaitNotify::new(30);
    let id = enqueue(
        &mut store, &mut bridge, new_message(SenderType::Mailer, "a@example.com", 0, 0), true, 50,
    );
    assert_eq!(id, Ok(1));
    assert_eq!(bridge.len(), 1);
    assert!(matches!(bridge.wait_timeout(1, 49), WaitPoll::Waiting));
    let id = enqueue(
        &mut store, &mut bridge, new_message(SenderType::Mailer, "b@example.com", 0, 1), false, 50,
    );
    assert_eq!(id, Ok(2));
    assert_eq!(bridge.len(), 1);
    assert_eq!(store.len(), 2);
}

#[test]
fn a_send_that_does_not_come_back_may_be_tried_again() {
    assert_eq!(
        timeout_outcome(),
        (SenderTaskStatus::Failed(true), "send timeout".to_string())
    );
}

#[test]
fn the_cursor_walks_the_configurations_and_keeps_the_last_refusal() {
    let configs = vec![10u64, 11];
    let mut cursor = SendCursor::new();
    assert!(matches!(cursor.step(&configs), SendStep::Try { config: 10 }));
    assert!(cursor.answer(Err(SenderExecError::Next("relay down".to_string()))).is_none());
    assert!(matches!(cursor.step(&configs), SendStep::Try { config: 11 }));
    assert!(cursor.answer(Err(SenderExecError::Next("relay busy".to_string()))).is_none());
    match cursor.step(&configs) {
        SendStep::Done { status, message } => {
            assert_eq!(status, SenderTaskStatus::Failed(true));
            assert_eq!(message, "relay busy");
        }
        other => panic!("unexpected: {:?}", other),
    }
    let mut cursor = SendCursor::new();
    assert!(matches!(cursor.step(&configs), SendStep::Try { config: 10 }));
    assert_eq!(
        cursor.answer(Err(SenderExecError::Finish("bad template".to_string()))),
        Some((SenderTaskStatus::Failed(false), "bad template".to_string()))
    );
    let mut cursor = SendCursor::new();
    match cursor.step(&vec![]) {
        SendStep::Done { status, message } => {
            assert_eq!(status, SenderTaskStatus::Failed(true));
            assert_eq!(message, "not find config");
        }
        other => panic!("unexpected: {:?}", other),
    }
}

#[test]
fn deliver_sends_a_record_that_waits_and_no_other() {
    let mut store = MessageStore::new();
    let mut slots = ConfigSlots::new();
    let mut exec = Scripted::new(vec![]);
    store.append(new_message(SenderType::Mailer, "a@example.com", 0, 0)).unwrap();
    store.append(new_message(SenderType::Mailer, "b@example.com", 0, 1)).unwrap();
    assert!(store.cancel(2));
    let first = store.get(1).unwrap();
    let second = store.get(2).unwrap();
    let (sent, event) = deliver(
        &mut store, &mut exec, &mut slots, &first, &vec![1], 10, 30,
    );
    assert!(sent);
    assert_eq!(event.unwrap().outcome.status, MessageStatus::Completed);
    let (sent, event) = deliver(
        &mut store, &mut exec, &mut slots, &second, &vec![1], 10, 30,
    );
    assert!(!sent);
    assert!(event.is_none());
    let (sent, _) = deliver(
        &mut store, &mut exec, &mut slots, &first, &vec![1], 10, 30,
    );
    assert!(!sent);
    assert_eq!(exec.calls, vec![(1, 1)]);
    assert_eq!(store.get(2).unwrap().status, MessageStatus::Cancelled);
}

#[test]
fn a_batch_publishes_what_callers_may_wait_for() {
    let mut store = MessageStore::new();
    let mut leases = LeaseCoordinator::new();
    let mut slots = ConfigSlots::new();
    let mut exec = Scripted::new(vec![done(1), busy(2), done(3), busy(4)]);
    store.append(new_message(SenderType::Mailer, "a@example.com", 0, 0)).unwrap();
    store.append(new_message(SenderType::Mailer, "b@example.com", 0, 0)).unwrap();
    store.append(new_message(SenderType::Mailer, "c@example.com", 0, 2)).unwrap();
    store.append(new_message(SenderType::Mailer, "d@example.com", 0, 2)).unwrap();
    let report = run_once(
        &mut store, &mut leases, "q", "w", 30, &mut exec, &mut slots, &vec![1],
        SenderType::Mailer, 10, 10, 30,
    );
    assert_eq!(report.batch.executed, vec![1, 2, 3, 4]);
    let told: Vec<(u64, MessageStatus)> =
        report.batch.events.iter().map(|e| (e.message_id, e.outcome.status)).collect();
    assert_eq!(told, vec![(1, MessageStatus::Completed), (2, MessageStatus::FailedFinal)]);
    assert_eq!(store.get(3).unwrap().status, MessageStatus::Completed);
    assert_eq!(store.get(4).unwrap().status, MessageStatus::Pending);
}

#[test]
fn enqueue_on_a_full_store_registers_nobody() {
    let mut store = MessageStore::starting_at(u64::MAX);
    let mut bridge = SenderWaitNotify::new(30);
    let out = enqueue(
        &mut store, &mut bridge, new_message(SenderType::Mailer, "a@example.com", 0, 0), true, 50,
    );
    assert!(out.is_err());
    assert_eq!(bridge.len(), 0);
    assert_eq!(store.len(), 0);
}

#[test]
fn a_holder_with_a_lasting_lease_sends_the_whole_batch() {
    let mut store = MessageStore::new();
    let mut leases = LeaseCoordinator::new();
    let mut slots = ConfigSlots::new();
    let mut exec = Scripted::new(vec![]);
    for i in 0..5 {
        store.append(new_message(SenderType::Mailer, "a@example.com", i, 1)).unwrap();
    }
    assert!(leases.try_acquire("q", "w", 30, 100));
    let batch = run_batch(
        &mut store, &mut leases, "q", "w", 30, &mut exec, &mut slots, &vec![1],
        SenderType::Mailer, 110, 10, 30,
    );
    assert!(!batch.lease_lost);
    assert_eq!(batch.executed, vec![1, 2, 3, 4, 5]);
    assert_eq!(exec.calls.len(), 5);
    assert_eq!(leases.holder("q", 139), Some("w".to_string()));
    assert_eq!(leases.holder("q", 140), None);
}

#[test]
fn a_lease_that_is_extended_by_no_time_is_lost_after_one_send() {
    let mut store = MessageStore::new();
    let mut leases = LeaseCoordinator::new();
    let mut slots = ConfigSlots::new();
    let mut exec = Scripted::new(vec![]);
    for i in 0..3 {
        store.append(new_message(SenderType::Mailer, "a@example.com", i, 1)).unwrap();
    }
    assert!(leases.try_acquire("q", "w", 30, 100));
    let batch = run_batch(
        &mut store, &mut leases, "q", "w", 0, &mut exec, &mut slots, &vec![1],
        SenderType::Mailer, 110, 10, 30,
    );
    assert!(batch.lease_lost);
    assert_eq!(batch.executed, vec![1]);
    assert_eq!(leases.holder("q", 110), None);
    assert_eq!(store.get(2).unwrap().status, MessageStatus::Pending);
}

#[test]
fn a_batch_without_work_does_not_touch_the_lease() {
    let mut store = MessageStore::new();
    let mut leases = LeaseCoordinator::new();
    let mut slots = ConfigSlots::new();
    let mut exec = Scripted::new(vec![]);
    assert!(leases.try_acquire("q", "w", 30, 100));
    let batch = run_batch(
        &mut store, &mut leases, "q", "w", 500, &mut exec, &mut slots, &vec![1],
        SenderType::Mailer, 110, 10, 30,
    );
    assert!(!batch.lease_lost);
    assert!(batch.executed.is_empty());
    assert_eq!(leases.holder("q", 129), Some("w".to_string()));
    assert_eq!(leases.holder("q", 130), None);
}

#[test]
fn a_turn_with_a_lease_of_no_time_sends_nothing() {
    let mut store = MessageStore::new();
    let mut leases = LeaseCoordinator::new();
    let mut slots = ConfigSlots::new();
    let mut exec = Scripted::new(vec![]);
    store.append(new_message(SenderType::Mailer, "a@example.com", 0, 1)).unwrap();
    let report = run_once(
        &mut store, &mut leases, "q", "w", 0, &mut exec, &mut slots, &vec![1],
        SenderType::Mailer, 10, 10, 30,
    );
    assert!(report.granted);
    assert!(report.batch.lease_lost);
    assert!(report.batch.executed.is_empty());
    assert!(exec.calls.is_empty());
    assert_eq!(leases.holder("q", 10), None);
    let report = run_once(
        &mut store, &mut leases, "q", "w", 1, &mut exec, &mut slots, &vec![1],
        SenderType::Mailer, 10, 10, 30,
    );
    assert!(report.granted);
    assert!(!report.batch.lease_lost);
    assert_eq!(report.batch.executed, vec![1]);
}

#[test]
fn what_is_written_down_is_what_the_executor_answered() {
    let mut store = MessageStore::new();
    let mut leases = LeaseCoordinator::new();
    let mut slots = ConfigSlots::new();
    let mut exec = Scripted::new(vec![
        Err(SenderExecError::Next("relay down".to_string())),
        Err(SenderExecError::Finish("bad template".to_string())),
        Err(SenderExecError::Next("first busy".to_string())),
        Err(SenderExecError::Next("second busy".to_string())),
    ]);
    store.append(new_message(SenderType::Mailer, "a@example.com", 0, 3)).unwrap();
    store.append(new_message(SenderType::Mailer, "b@example.com", 0, 3)).unwrap();
    let report = run_once(
        &mut store, &mut leases, "q", "w", 30, &mut exec, &mut slots, &vec![7, 8],
        SenderType::Mailer, 10, 10, 30,
    );
    assert_eq!(report.batch.executed, vec![1, 2]);
    assert_eq!(exec.calls, vec![(1, 7), (1, 8), (2, 7), (2, 8)]);
    let first = store.get(1).unwrap();
    assert_eq!((first.status, first.attempt_count), (MessageStatus::FailedFinal, 0));
    let second = store.get(2).unwrap();
    assert_eq!((second.status, second.attempt_count), (MessageStatus::Pending, 1));
    let last = store.log_at(store.log_len() - 1).unwrap();
    assert_eq!((last.message_id, last.status), (2, MessageStatus::FailedRetryable));
    assert_eq!(last.result, "second busy");
}
