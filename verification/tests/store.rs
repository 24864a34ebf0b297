use lsys::sender::message::{Message, MessageStatus, NewMessage};
use lsys::sender::model::SenderType;
use lsys::sender::store::{MessageStore, StoreError};

fn new_message(channel: SenderType, to: &str, at: u64, max_try: u8) -> NewMessage {
    NewMessage {
        channel,
        app_id: 1,
        recipient: to.to_string(),
        tpl_id: "welcome".to_string(),
        tpl_var: "{}".to_string(),
        scheduled_time: at,
        max_try_num: max_try,
    }
}

fn ids(batch: &Vec<Message>) -> Vec<u64> {
    batch.iter().map(|m| m.id).collect()
}

#[test]
fn append_hands_out_rising_ids_from_one() {
    let mut store = MessageStore::new();
    assert_eq!(store.next_id(), 1);
    assert_eq!(store.append(new_message(SenderType::Mailer, "a@example.com", 10, 1)), Ok(1));
    assert_eq!(store.append(new_message(SenderType::Mailer, "b@example.com", 10, 1)), Ok(2));
    assert_eq!(store.append(new_message(SenderType::Smser, "13800138000", 10, 1)), Ok(3));
    assert_eq!(store.next_id(), 4);
    assert_eq!(store.len(), 3);
}

#[test]
fn a_new_record_is_pending_and_untried() {
    let mut store = MessageStore::new();
    store.append(new_message(SenderType::Mailer, "a@example.com", 10, 3)).unwrap();
    let m = store.get(1).unwrap();
    assert_eq!(m.status, MessageStatus::Pending);
    assert_eq!(m.attempt_count, 0);
    assert_eq!(m.max_try_num, 3);
    assert_eq!(m.recipient, "a@example.com");
    assert!(!m.cancel);
    assert!(store.get(2).is_none());
}

#[test]
fn due_pending_orders_by_time_then_by_id() {
    let mut store = MessageStore::new();
    store.append(new_message(SenderType::Mailer, "a", 30, 1)).unwrap();
    store.append(new_message(SenderType::Mailer, "b", 10, 1)).unwrap();
    store.append(new_message(SenderType::Mailer, "c", 20, 1)).unwrap();
    store.append(new_message(SenderType::Mailer, "d", 10, 1)).unwrap();
    let batch = store.due_pending(SenderType::Mailer, 100, 10);
    assert_eq!(ids(&batch), vec![2, 4, 3, 1]);
}

#[test]
fn due_pending_leaves_out_what_is_not_due_or_on_another_queue() {
    let mut store = MessageStore::new();
    store.append(new_message(SenderType::Mailer, "a", 30, 1)).unwrap();
    store.append(new_message(SenderType::Smser, "b", 10, 1)).unwrap();
    store.append(new_message(SenderType::Mailer, "c", 20, 1)).unwrap();
    assert_eq!(ids(&store.due_pending(SenderType::Mailer, 25, 10)), vec![3]);
    assert_eq!(ids(&store.due_pending(SenderType::Mailer, 30, 10)), vec![3, 1]);
    assert_eq!(ids(&store.due_pending(SenderType::Smser, 30, 10)), vec![2]);
    assert_eq!(ids(&store.due_pending(SenderType::Mailer, 19, 10)), Vec::<u64>::new());
}

#[test]
fn due_pending_takes_the_first_of_the_queue_up_to_the_limit() {
    let mut store = MessageStore::new();
    for at in [50u64, 40, 30, 20, 10] {
        store.append(new_message(SenderType::Mailer, "a", at, 1)).unwrap();
    }
    assert_eq!(ids(&store.due_pending(SenderType::Mailer, 100, 2)), vec![5, 4]);
    assert_eq!(ids(&store.due_pending(SenderType::Mailer, 100, 0)), Vec::<u64>::new());
    assert_eq!(ids(&store.due_pending(SenderType::Mailer, 100, 5)), vec![5, 4, 3, 2, 1]);
}

#[test]
fn a_claimed_record_is_not_handed_out_again() {
    let mut store = MessageStore::new();
    store.append(new_message(SenderType::Mailer, "a", 10, 1)).unwrap();
    store.append(new_message(SenderType::Mailer, "b", 10, 1)).unwrap();
    assert!(store.claim(1));
    assert!(!store.claim(1));
    assert!(!store.claim(99));
    assert_eq!(store.get(1).unwrap().status, MessageStatus::Sending);
    assert_eq!(ids(&store.due_pending(SenderType::Mailer, 100, 10)), vec![2]);
}

#[test]
fn a_completed_send_is_terminal() {
    let mut store = MessageStore::new();
    store.append(new_message(SenderType::Mailer, "a", 10, 1)).unwrap();
    assert!(store.claim(1));
    assert!(store.mark(1, MessageStatus::Completed, "250 ok".to_string(), 0, 0));
    let m = store.get(1).unwrap();
    assert_eq!(m.status, MessageStatus::Completed);
    assert_eq!(m.attempt_count, 0);
    assert!(!store.claim(1));
    assert!(!store.cancel(1));
    assert!(!store.mark(1, MessageStatus::FailedFinal, "late".to_string(), 0, 0));
    assert_eq!(store.get(1).unwrap().status, MessageStatus::Completed);
    assert!(store.due_pending(SenderType::Mailer, 100, 10).is_empty());
}

#[test]
fn a_failure_that_may_be_retried_goes_back_to_the_queue() {
    let mut store = MessageStore::new();
    store.append(new_message(SenderType::Mailer, "a", 10, 2)).unwrap();
    assert!(store.claim(1));
    assert!(store.mark(1, MessageStatus::FailedRetryable, "busy".to_string(), 1, 70));
    let m = store.get(1).unwrap();
    assert_eq!(m.status, MessageStatus::Pending);
    assert_eq!(m.attempt_count, 1);
    assert_eq!(m.scheduled_time, 70);
    assert!(store.due_pending(SenderType::Mailer, 69, 10).is_empty());
    assert_eq!(ids(&store.due_pending(SenderType::Mailer, 70, 10)), vec![1]);
}

#[test]
fn tries_never_pass_the_limit() {
    let mut store = MessageStore::new();
    store.append(new_message(SenderType::Mailer, "a", 10, 1)).unwrap();
    assert!(store.claim(1));
    assert!(store.mark(1, MessageStatus::FailedRetryable, "busy".to_string(), 1, 20));
    assert!(store.claim(1));
    assert!(store.mark(1, MessageStatus::FailedRetryable, "busy".to_string(), 1, 30));
    let m = store.get(1).unwrap();
    assert_eq!(m.status, MessageStatus::FailedFinal);
    assert_eq!(m.attempt_count, 1);
    assert!(!store.claim(1));
}

#[test]
fn a_record_without_retries_fails_for_good_at_once() {
    let mut store = MessageStore::new();
    store.append(new_message(SenderType::Mailer, "a", 10, 0)).unwrap();
    assert!(store.claim(1));
    assert!(store.mark(1, MessageStatus::FailedRetryable, "busy".to_string(), 1, 20));
    let m = store.get(1).unwrap();
    assert_eq!(m.status, MessageStatus::FailedFinal);
    assert_eq!(m.attempt_count, 0);
}

#[test]
fn a_fatal_failure_is_final_whatever_tries_are_left() {
    let mut store = MessageStore::new();
    store.append(new_message(SenderType::Mailer, "a", 10, 5)).unwrap();
    assert!(store.claim(1));
    assert!(store.mark(1, MessageStatus::FailedFinal, "bad template".to_string(), 0, 0));
    let m = store.get(1).unwrap();
    assert_eq!(m.status, MessageStatus::FailedFinal);
    assert_eq!(m.attempt_count, 0);
}

#[test]
fn mark_is_taken_only_of_a_record_that_is_being_sent() {
    let mut store = MessageStore::new();
    store.append(new_message(SenderType::Mailer, "a", 10, 1)).unwrap();
    assert!(!store.mark(1, MessageStatus::Completed, String::new(), 0, 0));
    assert_eq!(store.get(1).unwrap().status, MessageStatus::Pending);
    assert!(store.claim(1));
    assert!(!store.mark(1, MessageStatus::Pending, String::new(), 0, 0));
    assert!(!store.mark(1, MessageStatus::Sending, String::new(), 0, 0));
    assert!(!store.mark(1, MessageStatus::Cancelled, String::new(), 0, 0));
    assert!(!store.mark(7, MessageStatus::Completed, String::new(), 0, 0));
    assert_eq!(store.get(1).unwrap().status, MessageStatus::Sending);
}

#[test]
fn cancel_of_a_pending_record_is_immediate() {
    let mut store = MessageStore::new();
    store.append(new_message(SenderType::Mailer, "a", 10, 1)).unwrap();
    assert!(store.cancel(1));
    assert_eq!(store.get(1).unwrap().status, MessageStatus::Cancelled);
    assert!(!store.cancel(1));
    assert!(!store.cancel(5));
    assert!(store.due_pending(SenderType::Mailer, 100, 10).is_empty());
    assert!(!store.claim(1));
}

#[test]
fn cancel_wins_over_a_send_in_flight() {
    let mut store = MessageStore::new();
    store.append(new_message(SenderType::Mailer, "a", 10, 3)).unwrap();
    assert!(store.claim(1));
    assert!(store.cancel(1));
    assert_eq!(store.get(1).unwrap().status, MessageStatus::Sending);
    assert!(store.mark(1, MessageStatus::Completed, "250 ok".to_string(), 0, 0));
    assert_eq!(store.get(1).unwrap().status, MessageStatus::Cancelled);
}

#[test]
fn cancel_wins_over_a_late_retryable_failure() {
    let mut store = MessageStore::new();
    store.append(new_message(SenderType::Mailer, "a", 10, 3)).unwrap();
    assert!(store.claim(1));
    assert!(store.cancel(1));
    assert!(store.mark(1, MessageStatus::FailedRetryable, "busy".to_string(), 1, 50));
    let m = store.get(1).unwrap();
    assert_eq!(m.status, MessageStatus::Cancelled);
    assert_eq!(m.attempt_count, 0);
}

#[test]
fn recover_puts_stale_sends_back_on_their_queue() {
    let mut store = MessageStore::new();
    store.append(new_message(SenderType::Mailer, "a", 10, 1)).unwrap();
    store.append(new_message(SenderType::Mailer, "b", 10, 1)).unwrap();
    store.append(new_message(SenderType::Smser, "c", 10, 1)).unwrap();
    store.append(new_message(SenderType::Mailer, "d", 10, 1)).unwrap();
    assert!(store.claim(1));
    assert!(store.claim(2));
    assert!(store.claim(3));
    assert!(store.cancel(2));
    assert_eq!(store.recover(SenderType::Mailer), 2);
    assert_eq!(store.get(1).unwrap().status, MessageStatus::Pending);
    assert_eq!(store.get(2).unwrap().status, MessageStatus::Cancelled);
    assert_eq!(store.get(3).unwrap().status, MessageStatus::Sending);
    assert_eq!(store.get(4).unwrap().status, MessageStatus::Pending);
    assert_eq!(store.recover(SenderType::Mailer), 0);
}

#[test]
fn every_move_leaves_a_log_entry() {
    let mut store = MessageStore::new();
    store.append(new_message(SenderType::Mailer, "a", 10, 1)).unwrap();
    assert_eq!(store.log_len(), 0);
    assert!(store.claim(1));
    assert!(store.mark(1, MessageStatus::FailedRetryable, "busy".to_string(), 1, 20));
    assert!(store.cancel(1));
    assert!(!store.cancel(1));
    assert_eq!(store.log_len(), 3);
    let first = store.log_at(0).unwrap();
    assert_eq!((first.message_id, first.status), (1, MessageStatus::Sending));
    let second = store.log_at(1).unwrap();
    assert_eq!(second.status, MessageStatus::FailedRetryable);
    assert_eq!(second.result, "busy");
    assert_eq!(store.log_at(2).unwrap().status, MessageStatus::Cancelled);
    assert!(store.log_at(3).is_none());
}

#[test]
fn status_kinds() {
    assert!(MessageStatus::Completed.is_terminal());
    assert!(MessageStatus::FailedFinal.is_terminal());
    assert!(MessageStatus::Cancelled.is_terminal());
    assert!(!MessageStatus::Pending.is_terminal());
    assert!(!MessageStatus::Sending.is_terminal());
    assert!(!MessageStatus::FailedRetryable.is_terminal());
    assert!(MessageStatus::FailedRetryable.is_outcome());
    assert!(!MessageStatus::Cancelled.is_outcome());
}

#[test]
fn a_store_without_ids_left_takes_no_record() {
    let mut store = MessageStore::starting_at(u64::MAX - 1);
    assert_eq!(store.append(new_message(SenderType::Mailer, "a", 0, 1)), Ok(u64::MAX - 1));
    assert_eq!(
        store.append(new_message(SenderType::Mailer, "b", 0, 1)),
        Err(StoreError::IdsExhausted)
    );
    assert_eq!(store.len(), 1);
    assert_eq!(store.next_id(), u64::MAX);
    assert_eq!(MessageStore::starting_at(0).next_id(), 1);
    assert_eq!(MessageStore::starting_at(7).next_id(), 7);
}

#[test]
fn a_record_moves_by_itself_as_it_does_in_the_store() {
    let mut m = Message::create(9, new_message(SenderType::Smser, "13800138000", 5, 1));
    assert_eq!((m.id, m.status, m.attempt_count, m.cancel), (9, MessageStatus::Pending, 0, false));
    m.mark(MessageStatus::Completed, 0, 0);
    assert_eq!(m.status, MessageStatus::Pending);
    m.recover(SenderType::Smser);
    assert_eq!(m.status, MessageStatus::Pending);
    m.claim();
    assert_eq!(m.status, MessageStatus::Sending);
    m.claim();
    assert_eq!(m.status, MessageStatus::Sending);
    m.recover(SenderType::Mailer);
    assert_eq!(m.status, MessageStatus::Sending);
    m.recover(SenderType::Smser);
    assert_eq!(m.status, MessageStatus::Pending);
    m.claim();
    m.mark(MessageStatus::FailedRetryable, 1, 60);
    assert_eq!((m.status, m.attempt_count, m.scheduled_time), (MessageStatus::Pending, 1, 60));
    m.claim();
    m.cancel();
    assert_eq!((m.status, m.cancel), (MessageStatus::Sending, true));
    m.mark(MessageStatus::Completed, 0, 0);
    assert_eq!(m.status, MessageStatus::Cancelled);
    m.cancel();
    m.claim();
    m.mark(MessageStatus::Completed, 0, 0);
    m.recover(SenderType::Smser);
    assert_eq!((m.status, m.attempt_count), (MessageStatus::Cancelled, 1));
}

#[test]
fn a_count_of_tries_that_would_overflow_ends_the_record() {
    let mut m = Message::create(1, new_message(SenderType::Smser, "13800138000", 5, 255));
    m.claim();
    m.mark(MessageStatus::FailedRetryable, 200, 60);
    assert_eq!((m.status, m.attempt_count), (MessageStatus::Pending, 200));
    m.claim();
    m.mark(MessageStatus::FailedRetryable, 200, 60);
    assert_eq!((m.status, m.attempt_count), (MessageStatus::FailedFinal, 200));
    let mut m = Message::create(1, new_message(SenderType::Smser, "13800138000", 5, 3));
    m.claim();
    m.mark(MessageStatus::FailedRetryable, 0, 60);
    assert_eq!((m.status, m.attempt_count), (MessageStatus::FailedFinal, 0));
}

#[test]
fn statuses_travel_as_numbers() {
    let all = [
        (MessageStatus::Pending, 1),
        (MessageStatus::Sending, 2),
        (MessageStatus::Completed, 3),
        (MessageStatus::FailedRetryable, 4),
        (MessageStatus::FailedFinal, 5),
        (MessageStatus::Cancelled, 6),
    ];
    for (status, number) in all {
        assert_eq!(status.to(), number);
        assert_eq!(MessageStatus::try_from(number), Some(status));
    }
    assert_eq!(MessageStatus::try_from(0), None);
    assert_eq!(MessageStatus::try_from(7), None);
    assert_eq!(MessageStatus::try_from(-3), None);
}
