use lsys::sender::sms_notify::{
    check, found_body_ids, notify_error_text, parse_data, parse_send_id, plan_notify, save_result,
    NotifySmsItem, NotifyStep, SendNotifyError, SendNotifyItem, SendNotifyStatus,
    SenderLogStatus, SenderSmsBodyModel, SenderSmsMessageModel, SenderSmsMessageStatus,
};

fn item(status: SendNotifyStatus, send_id: &str, mobile: Option<&str>) -> SendNotifyItem {
    SendNotifyItem {
        status,
        message: format!("report for {}", send_id),
        send_id: send_id.to_string(),
        mobile: mobile.map(|m| m.to_string()),
        send_time: Some(1700000000),
        receive_time: Some(1700000009),
    }
}

fn record(id: u64, body: u64, res_data: &str) -> SenderSmsMessageModel {
    SenderSmsMessageModel {
        id,
        sender_body_id: body,
        mobile: "13800138000".to_string(),
        area: "86".to_string(),
        status: 2,
        receive_time: 0,
        res_data: res_data.to_string(),
    }
}

#[test]
fn unreadable_callbacks_are_answered_by_kind() {
    assert_eq!(notify_error_text(&SendNotifyError::Msg("bad body".to_string())), "system error:bad body");
    assert_eq!(notify_error_text(&SendNotifyError::Sign("mismatch".to_string())), "sign error:mismatch");
    assert_eq!(notify_error_text(&SendNotifyError::Ignore), "");
}

#[test]
fn send_ids_come_in_the_order_of_the_reports() {
    let items = vec![
        item(SendNotifyStatus::Completed, "s-2", Some("1")),
        item(SendNotifyStatus::Failed, "s-1", None),
    ];
    assert_eq!(parse_send_id(&items), vec!["s-2".to_string(), "s-1".to_string()]);
    assert!(parse_send_id(&vec![]).is_empty());
}

#[test]
fn reports_are_paired_with_the_first_record_of_their_id() {
    let items = vec![
        item(SendNotifyStatus::Completed, "s-1", Some("13800138000")),
        item(SendNotifyStatus::Completed, "s-9", Some("13800138000")),
        item(SendNotifyStatus::Completed, "s-2", None),
    ];
    let msg = vec![record(1, 10, "s-2"), record(2, 10, "s-1"), record(3, 11, "s-1")];
    let pairs = parse_data(&items, msg);
    assert_eq!(pairs.len(), 3);
    assert_eq!(pairs[0].0.as_ref().map(|m| m.id), Some(2));
    assert_eq!(pairs[0].1.send_id, "s-1");
    assert!(pairs[1].0.is_none());
    assert!(pairs[2].0.is_none());
    assert_eq!(pairs[2].1.send_id, "s-2");
    assert_eq!(found_body_ids(&pairs), vec![10]);
}

#[test]
fn a_completed_report_marks_the_record_as_received() {
    let bodys = vec![SenderSmsBodyModel { id: 10, app_id: 77 }];
    let step = plan_notify(
        &Some(record(2, 10, "s-1")),
        &item(SendNotifyStatus::Completed, "s-1", Some("1")),
        &bodys,
    );
    match step {
        NotifyStep::Update { update, app_id } => {
            assert_eq!(update.id, 2);
            assert_eq!(update.send_time, Some(1700000000));
            assert_eq!(update.status, SenderSmsMessageStatus::IsReceived);
            assert_eq!(update.receive_time, Some(1700000009));
            assert_eq!(update.log_status, SenderLogStatus::NotifySucc);
            assert_eq!(update.message, "report for s-1");
            assert_eq!(app_id, Some(77));
        }
        other => panic!("unexpected: {:?}", other),
    }
}

#[test]
fn a_failed_report_marks_the_record_as_failed_and_sets_no_receive_time() {
    let mut report = item(SendNotifyStatus::Failed, "s-1", Some("1"));
    report.send_time = Some(0);
    let step = plan_notify(&Some(record(2, 10, "s-1")), &report, &vec![]);
    match step {
        NotifyStep::Update { update, app_id } => {
            assert_eq!(update.send_time, None);
            assert_eq!(update.status, SenderSmsMessageStatus::SendFail);
            assert_eq!(update.receive_time, None);
            assert_eq!(update.log_status, SenderLogStatus::NotifyFail);
            assert_eq!(app_id, None);
        }
        other => panic!("unexpected: {:?}", other),
    }
}

#[test]
fn reports_in_progress_and_unknown_records_change_nothing() {
    let step = plan_notify(
        &Some(record(2, 10, "s-1")),
        &item(SendNotifyStatus::Progress, "s-1", Some("1")),
        &vec![],
    );
    assert!(matches!(step, NotifyStep::InProgress));
    let step = plan_notify(&None, &item(SendNotifyStatus::Completed, "s-1", Some("1")), &vec![]);
    assert!(matches!(step, NotifyStep::Unknown));
}

#[test]
fn the_owner_is_that_of_the_first_request_with_the_id() {
    let bodys = vec![
        SenderSmsBodyModel { id: 9, app_id: 1 },
        SenderSmsBodyModel { id: 10, app_id: 2 },
        SenderSmsBodyModel { id: 10, app_id: 3 },
    ];
    let step = plan_notify(
        &Some(record(2, 10, "s-1")),
        &item(SendNotifyStatus::Completed, "s-1", Some("1")),
        &bodys,
    );
    assert!(matches!(step, NotifyStep::Update { app_id: Some(2), .. }));
}

#[test]
fn saving_ends_with_the_last_failure() {
    assert_eq!(save_result(&vec![]), Ok(()));
    assert_eq!(save_result(&vec![None, None]), Ok(()));
    assert_eq!(
        save_result(&vec![Some("first".to_string()), None, Some("last".to_string()), None]),
        Err("last".to_string())
    );
}

#[test]
fn a_configuration_belongs_to_the_adapter_with_its_key() {
    assert!(check("ali-sms-config", "ali-sms-config"));
    assert!(!check("ali-sms-config", "hw-sms-config"));
    assert!(!check("", "hw-sms-config"));
}

#[test]
fn a_notify_item_names_its_callback_and_application() {
    let n = NotifySmsItem::new(77, record(2, 10, "s-1"));
    assert_eq!(NotifySmsItem::method(), "sms_call");
    assert_eq!(*n.app_id(), 77);
    assert_eq!(n.sms().id, 2);
    assert_eq!(n.sms().mobile, "13800138000");
}
