use lsys::common::fluent::FluentMessage;
use lsys::sender::model::{SenderError, SenderMailMessageModel};
use lsys::sender::sender_mailer::sender::{
    body_ids, cancel_result, distinct, messages_of_body, send_answers, wait_outcome,
    MailSender, DEFAULT_MAX_TRY_NUM, DEFAULT_WAIT_TIMEOUT, MAILER_REDIS_PREFIX,
};
use std::collections::HashMap;

fn texts(v: &[&str]) -> Vec<String> {
    v.iter().map(|s| s.to_string()).collect()
}

fn record(id: u64, body: u64, to: &str) -> SenderMailMessageModel {
    SenderMailMessageModel { id, sender_body_id: body, to_mail: to.to_string() }
}

#[test]
fn the_mail_channel_is_reached_under_its_prefix() {
    let s = MailSender::new(Some(10), 300, true, None);
    assert_eq!(MAILER_REDIS_PREFIX, "sender-mail-");
    assert_eq!(s.notify_key, "sender-mail--notify");
    assert_eq!(s.read_lock_key, "sender-mail--read-lock");
    assert_eq!(s.run_task_key, "sender-mail--run-task");
    assert_eq!(s.wait_status_key, "sender-mail--status-data");
    assert_eq!(s.task_size, Some(10));
    assert_eq!(s.task_timeout, 300);
    assert!(s.is_check);
    assert_eq!(s.wait_timeout, 30);
    assert_eq!(DEFAULT_WAIT_TIMEOUT, 30);
    assert_eq!(MailSender::new(None, 1, false, Some(5)).wait_timeout, 5);
}

#[test]
fn distinct_keeps_the_first_of_each_address() {
    assert_eq!(
        distinct(&texts(&["a@x.com", "b@x.com", "a@x.com", "c@x.com", "b@x.com"])),
        texts(&["a@x.com", "b@x.com", "c@x.com"])
    );
    assert_eq!(distinct(&texts(&[])), texts(&[]));
    assert_eq!(distinct(&texts(&["a", "a", "a"])), texts(&["a"]));
}

#[test]
fn send_plan_never_schedules_in_the_past() {
    let s = MailSender::new(None, 300, true, None);
    let mail = texts(&["a@x.com", "b@x.com"]);
    assert_eq!(s.send_plan(&mail, Some(50), None, 100).send_time, 100);
    assert_eq!(s.send_plan(&mail, Some(150), None, 100).send_time, 150);
    assert_eq!(s.send_plan(&mail, None, None, 100).send_time, 100);
}

#[test]
fn send_plan_tries_once_more_unless_told_otherwise() {
    let s = MailSender::new(None, 300, true, None);
    let mail = texts(&["a@x.com"]);
    assert_eq!(DEFAULT_MAX_TRY_NUM, 1);
    assert_eq!(s.send_plan(&mail, None, None, 0).max_try_num, 1);
    assert_eq!(s.send_plan(&mail, None, Some(4), 0).max_try_num, 4);
    assert_eq!(s.send_plan(&mail, None, Some(0), 0).max_try_num, 0);
}

#[test]
fn only_a_single_recipient_without_retries_is_waited_for() {
    let s = MailSender::new(None, 300, true, None);
    assert!(s.send_plan(&texts(&["a@x.com"]), None, Some(0), 0).wait);
    assert!(!s.send_plan(&texts(&["a@x.com"]), None, Some(1), 0).wait);
    assert!(!s.send_plan(&texts(&["a@x.com"]), None, None, 0).wait);
    assert!(!s.send_plan(&texts(&["a@x.com", "b@x.com"]), None, Some(0), 0).wait);
    assert!(!s.send_plan(&texts(&["a@x.com", "a@x.com"]), None, Some(0), 0).wait);
    assert!(!s.send_plan(&texts(&[]), None, Some(0), 0).wait);
}

#[test]
fn send_plan_takes_repeated_recipients_once() {
    let s = MailSender::new(None, 300, true, None);
    let plan = s.send_plan(&texts(&["a@x.com", "a@x.com", "b@x.com"]), None, None, 0);
    assert_eq!(plan.recipients, texts(&["a@x.com", "b@x.com"]));
}

#[test]
fn the_loop_is_woken_for_mail_that_is_due_within_a_second() {
    let s = MailSender::new(None, 300, true, None);
    assert!(s.wake_now(None, 100));
    assert!(s.wake_now(Some(0), 100));
    assert!(s.wake_now(Some(100), 100));
    assert!(s.wake_now(Some(101), 100));
    assert!(!s.wake_now(Some(102), 100));
    assert!(s.wake_now(Some(0), 0));
    assert!(s.wake_now(Some(u64::MAX), u64::MAX));
}

#[test]
fn wait_outcome_names_what_went_wrong() {
    assert_eq!(wait_outcome(Ok(Ok(true))).unwrap(), true);
    assert_eq!(wait_outcome(Ok(Ok(false))).unwrap(), false);
    let failed = wait_outcome(Ok(Err("rejected".to_string()))).unwrap_err();
    assert_eq!(failed.id, "mail-send-fail");
    assert_eq!(failed.data, vec![("msg".to_string(), "rejected".to_string())]);
    let late = wait_outcome(Err("timeout".to_string())).unwrap_err();
    assert_eq!(late.id, "mail-send-wait-fail");
    assert_eq!(late.data, vec![("msg".to_string(), "timeout".to_string())]);
}

#[test]
fn send_answers_follow_the_request() {
    let mail = texts(&["b@x.com", "a@x.com", "b@x.com", "z@x.com"]);
    let added = vec![(11, "a@x.com".to_string()), (12, "b@x.com".to_string())];
    let out = send_answers(&mail, &added, None);
    let short: Vec<(u64, &str, bool)> =
        out.iter().map(|a| (a.0, a.1.as_str(), *a.2.as_ref().unwrap())).collect();
    assert_eq!(
        short,
        vec![(12, "b@x.com", true), (11, "a@x.com", true), (12, "b@x.com", true), (0, "z@x.com", true)]
    );
}

#[test]
fn the_first_answer_carries_the_outcome_of_the_wait() {
    let mail = texts(&["a@x.com"]);
    let added = vec![(11, "a@x.com".to_string())];
    let out = send_answers(&mail, &added, Some(Err(FluentMessage::new("mail-send-wait-fail"))));
    assert_eq!(out.len(), 1);
    assert_eq!(out[0].0, 11);
    assert_eq!(out[0].2.as_ref().unwrap_err().id, "mail-send-wait-fail");
    let out = send_answers(&mail, &added, Some(Ok(false)));
    assert_eq!(*out[0].2.as_ref().unwrap(), false);
}

#[test]
fn task_is_run_takes_what_it_finds_off_the_list() {
    let mut running: HashMap<u64, &str> = HashMap::new();
    running.insert(1, "worker-1");
    running.insert(2, "worker-2");
    let out = MailSender::new(None, 1, false, None).task_is_run(&mut running, vec![(1, "a"), (3, "b"), (1, "c"), (2, "d")]);
    assert_eq!(
        out,
        vec![("a", Some("worker-1")), ("b", None), ("c", None), ("d", Some("worker-2"))]
    );
    assert!(running.is_empty());
}

#[test]
fn a_record_that_is_being_sent_cannot_be_withdrawn() {
    let (id, forwarded, err) = cancel_result(&record(7, 1, "a@x.com"), true, None);
    assert_eq!(id, 7);
    assert!(!forwarded);
    match err {
        Some(SenderError::System(m)) => {
            assert_eq!(m.id, "mail-send-ok-cancel");
            assert_eq!(
                m.data,
                vec![
                    ("to_mail".to_string(), "a@x.com".to_string()),
                    ("msg_id".to_string(), "7".to_string())
                ]
            );
        }
        other => panic!("unexpected: {:?}", other),
    }
}

#[test]
fn a_withdrawal_goes_on_to_the_store_otherwise() {
    let (id, forwarded, err) = cancel_result(&record(7, 1, "a@x.com"), false, None);
    assert_eq!((id, forwarded), (7, true));
    assert!(err.is_none());
    let (_, forwarded, err) =
        cancel_result(&record(7, 1, "a@x.com"), false, Some(SenderError::Exec("gone".to_string())));
    assert!(forwarded);
    assert!(matches!(err, Some(SenderError::Exec(m)) if m == "gone"));
}

#[test]
fn records_are_grouped_by_their_request() {
    let res = vec![record(1, 10, "a"), record(2, 20, "b"), record(3, 10, "c"), record(4, 30, "d")];
    assert_eq!(body_ids(&res), vec![10, 20, 10, 30]);
    let of_ten: Vec<u64> = messages_of_body(&res, 10).iter().map(|m| m.id).collect();
    assert_eq!(of_ten, vec![1, 3]);
    assert!(messages_of_body(&res, 99).is_empty());
}
