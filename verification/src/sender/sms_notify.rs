//! Delivery reports that an SMS provider calls back with: matching them to
//! the records they speak of and deciding what each one changes.

use vstd::prelude::*;
use vstd::string::*;

verus! {

/// What a provider reports of one message.
#[derive(Clone, Copy, Debug, PartialEq, Eq, Structural)]
pub enum SendNotifyStatus {
    Progress,
    Completed,
    Failed,
}

/// Why a provider's callback could not be read.
#[derive(Debug)]
pub enum SendNotifyError {
    Msg(String),
    Sign(String),
    Ignore,
}

/// One delivery report of a provider's callback.
#[derive(Debug)]
pub struct SendNotifyItem {
    pub status: SendNotifyStatus,
    pub message: String,
    pub send_id: String,
    pub mobile: Option<String>,
    pub send_time: Option<u64>,
    pub receive_time: Option<u64>,
}

/// A delivery report as the contracts see it.
pub ghost struct SendNotifyItemView {
    pub status: SendNotifyStatus,
    pub message: Seq<char>,
    pub send_id: Seq<char>,
    pub mobile: Option<Seq<char>>,
    pub send_time: Option<u64>,
    pub receive_time: Option<u64>,
}

impl View for SendNotifyItem {
    type V = SendNotifyItemView;

    open spec fn view(&self) -> SendNotifyItemView {
        SendNotifyItemView {
            status: self.status,
            message: self.message@,
            send_id: self.send_id@,
            mobile: match self.mobile {
                Some(m) => Some(m@),
                None => None,
            },
            send_time: self.send_time,
            receive_time: self.receive_time,
        }
    }
}

impl Clone for SendNotifyItem {
    fn clone(&self) -> (out: Self)
        ensures
            out@ == self@,
    {
        SendNotifyItem {
            status: self.status,
            message: self.message.clone(),
            send_id: self.send_id.clone(),
            mobile: match &self.mobile {
                Some(m) => Some(m.clone()),
                None => None,
            },
            send_time: self.send_time,
            receive_time: self.receive_time,
        }
    }
}

/// A stored SMS record, as far as a delivery report touches it.
#[derive(Debug)]
pub struct SenderSmsMessageModel {
    pub id: u64,
    pub sender_body_id: u64,
    pub mobile: String,
    pub area: String,
    pub status: i8,
    pub receive_time: u64,
    pub res_data: String,
}

/// A stored SMS record as the contracts see it.
pub ghost struct SenderSmsMessageView {
    pub id: u64,
    pub sender_body_id: u64,
    pub mobile: Seq<char>,
    pub area: Seq<char>,
    pub status: i8,
    pub receive_time: u64,
    pub res_data: Seq<char>,
}

impl View for SenderSmsMessageModel {
    type V = SenderSmsMessageView;

    open spec fn view(&self) -> SenderSmsMessageView {
        SenderSmsMessageView {
            id: self.id,
            sender_body_id: self.sender_body_id,
            mobile: self.mobile@,
            area: self.area@,
            status: self.status,
            receive_time: self.receive_time,
            res_data: self.res_data@,
        }
    }
}

impl Clone for SenderSmsMessageModel {
    fn clone(&self) -> (out: Self)
        ensures
            out@ == self@,
    {
        SenderSmsMessageModel {
            id: self.id,
            sender_body_id: self.sender_body_id,
            mobile: self.mobile.clone(),
            area: self.area.clone(),
            status: self.status,
            receive_time: self.receive_time,
            res_data: self.res_data.clone(),
        }
    }
}

/// The request that a group of SMS records was enqueued with.
#[derive(Clone, Copy, Debug, PartialEq, Eq, Structural)]
pub struct SenderSmsBodyModel {
    pub id: u64,
    pub app_id: u64,
}

/// The stored status that a delivery report moves a record to.
#[derive(Clone, Copy, Debug, PartialEq, Eq, Structural)]
pub enum SenderSmsMessageStatus {
    IsReceived,
    SendFail,
}

/// The kind of execution-log entry that a delivery report leaves.
#[derive(Clone, Copy, Debug, PartialEq, Eq, Structural)]
pub enum SenderLogStatus {
    NotifySucc,
    NotifyFail,
}

/// What an application is told when one of its SMS records changes.
#[derive(Debug)]
pub struct NotifySmsItem {
    app_id: u64,
    sms: SenderSmsMessageModel,
}

impl NotifySmsItem {
    /// The application that is told.
    pub closed spec fn spec_app_id(&self) -> u64 {
        self.app_id
    }

    /// The record that the item reports.
    pub closed spec fn spec_sms(&self) -> SenderSmsMessageView {
        self.sms@
    }

    /// What the application `app_id` is told of the record `sms`.
    pub fn new(app_id: u64, sms: SenderSmsMessageModel) -> (out: Self)
        ensures
            out.spec_app_id() == app_id,
            out.spec_sms() == sms@,
    {
        NotifySmsItem { app_id, sms }
    }

    /// The name of the callback that carries these items.
    pub fn method() -> (out: String)
        ensures
            out@ == "sms_call"@,
    {
        String::from_str("sms_call")
    }

    /// The application that is told.
    pub fn app_id(&self) -> (out: &u64)
        ensures
            *out == self.spec_app_id(),
    {
        &self.app_id
    }

    /// The record that the item reports.
    pub fn sms(&self) -> (out: &SenderSmsMessageModel)
        ensures
            out@ == self.spec_sms(),
    {
        &self.sms
    }
}

/// The text that a caller of the callback endpoint gets for an unreadable
/// callback: empty where the provider asked for the callback to be ignored.
pub open spec fn notify_error_view(e: SendNotifyError) -> Seq<char> {
    match e {
        SendNotifyError::Msg(err) => "system error:"@ + err@,
        SendNotifyError::Sign(err) => "sign error:"@ + err@,
        SendNotifyError::Ignore => Seq::<char>::empty(),
    }
}

/// Words an unreadable callback for the caller of the endpoint.
pub fn notify_error_text(e: &SendNotifyError) -> (out: String)
    ensures
        out@ == notify_error_view(*e),
{
    match e {
        SendNotifyError::Msg(err) => {
            let mut out = String::from_str("system error:");
            out.append(err.as_str());
            out
        },
        SendNotifyError::Sign(err) => {
            let mut out = String::from_str("sign error:");
            out.append(err.as_str());
            out
        },
        SendNotifyError::Ignore => String::new(),
    }
}

/// The provider-side ids of the reports, one per report and in their order.
pub fn parse_send_id(items: &Vec<SendNotifyItem>) -> (ids: Vec<String>)
    ensures
        ids@.len() == items@.len(),
        forall|i: int| 0 <= i < items@.len() ==> (#[trigger] ids@[i])@ == items@[i].send_id@,
{
    let mut ids: Vec<String> = Vec::new();
    let mut i: usize = 0;
    while i < items.len()
        invariant
            i <= items@.len(),
            ids@.len() == i,
            forall|k: int| 0 <= k < i ==> (#[trigger] ids@[k])@ == items@[k].send_id@,
        decreases items@.len() - i,
    {
        ids.push(items[i].send_id.clone());
        i += 1;
    }
    ids
}

/// Whether `msg[j]` is the first record that the provider answered with
/// the id `send_id`.
pub open spec fn is_first_answered(
    msg: Seq<SenderSmsMessageModel>,
    send_id: Seq<char>,
    j: int,
) -> bool {
    &&& 0 <= j < msg.len()
    &&& msg[j]@.res_data == send_id
    &&& forall|k: int| 0 <= k < j ==> (#[trigger] msg[k])@.res_data != send_id
}

/// Whether `found` is the record that the report `item` speaks of: the first
/// of `msg` that the provider answered with the report's id, and none for a
/// report that names no mobile number.
pub open spec fn is_reported_record(
    msg: Seq<SenderSmsMessageModel>,
    item: SendNotifyItemView,
    found: Option<SenderSmsMessageView>,
) -> bool {
    match found {
        Some(m) => item.mobile is Some && exists|j: int|
            #[trigger] is_first_answered(msg, item.send_id, j) && msg[j]@ == m,
        None => item.mobile is None || forall|j: int|
            0 <= j < msg.len() ==> (#[trigger] msg[j])@.res_data != item.send_id,
    }
}

/// The view of one pair that `parse_data` hands out.
pub open spec fn pair_found(pair: (Option<SenderSmsMessageModel>, SendNotifyItem)) -> Option<
    SenderSmsMessageView,
> {
    match pair.0 {
        Some(m) => Some(m@),
        None => None,
    }
}

fn find_reported(msg: &Vec<SenderSmsMessageModel>, item: &SendNotifyItem) -> (found: Option<
    SenderSmsMessageModel,
>)
    ensures
        is_reported_record(
            msg@,
            item@,
            match found {
                Some(m) => Some(m@),
                None => None,
            },
        ),
{
    match &item.mobile {
        None => {
            return None;
        },
        Some(_) => {},
    }
    let mut j: usize = 0;
    while j < msg.len()
        invariant
            j <= msg@.len(),
            item.mobile is Some,
            forall|k: int| 0 <= k < j ==> (#[trigger] msg@[k])@.res_data != item@.send_id,
        decreases msg@.len() - j,
    {
        if msg[j].res_data == item.send_id {
            let m = msg[j].clone();
            assert(is_first_answered(msg@, item@.send_id, j as int) && msg@[j as int]@ == m@);
            return Some(m);
        }
        j += 1;
    }
    None
}

/// Pairs each report with the record that it speaks of.
///
/// The pairs come in the order of the reports, one per report.
pub fn parse_data(items: &Vec<SendNotifyItem>, msg: Vec<SenderSmsMessageModel>) -> (out: Vec<
    (Option<SenderSmsMessageModel>, SendNotifyItem),
>)
    ensures
        out@.len() == items@.len(),
        forall|i: int|
            0 <= i < items@.len() ==> (#[trigger] out@[i]).1@ == items@[i]@ && is_reported_record(
                msg@,
                items@[i]@,
                pair_found(out@[i]),
            ),
{
    let mut out: Vec<(Option<SenderSmsMessageModel>, SendNotifyItem)> = Vec::new();
    let mut i: usize = 0;
    while i < items.len()
        invariant
            i <= items@.len(),
            out@.len() == i,
            forall|k: int|
                0 <= k < i ==> (#[trigger] out@[k]).1@ == items@[k]@ && is_reported_record(
                    msg@,
                    items@[k]@,
                    pair_found(out@[k]),
                ),
        decreases items@.len() - i,
    {
        let found = find_reported(&msg, &items[i]);
        let item = items[i].clone();
        out.push((found, item));
        i += 1;
    }
    out
}

/// The request ids of the records that were found, in the order of the pairs.
pub open spec fn found_body_ids_view(
    pairs: Seq<(Option<SenderSmsMessageModel>, SendNotifyItem)>,
) -> Seq<u64>
    decreases pairs.len(),
{
    if pairs.len() == 0 {
        Seq::<u64>::empty()
    } else {
        let rest = found_body_ids_view(pairs.drop_last());
        match pairs.last().0 {
            Some(m) => rest.push(m.sender_body_id),
            None => rest,
        }
    }
}

/// Lists the requests whose records were found.
pub fn found_body_ids(pairs: &Vec<(Option<SenderSmsMessageModel>, SendNotifyItem)>) -> (ids: Vec<
    u64,
>)
    ensures
        ids@ == found_body_ids_view(pairs@),
{
    let mut ids: Vec<u64> = Vec::new();
    let mut i: usize = 0;
    while i < pairs.len()
        invariant
            i <= pairs@.len(),
            ids@ == found_body_ids_view(pairs@.take(i as int)),
        decreases pairs@.len() - i,
    {
        proof {
            assert(pairs@.take(i + 1).drop_last() =~= pairs@.take(i as int));
        }
        match &pairs[i].0 {
            Some(m) => {
                ids.push(m.sender_body_id);
            },
            None => {},
        }
        i += 1;
    }
    proof {
        assert(pairs@.take(i as int) =~= pairs@);
    }
    ids
}

/// The change that one delivery report makes to the record it speaks of.
#[derive(Debug)]
pub struct NotifyUpdate {
    pub id: u64,
    pub send_time: Option<u64>,
    pub status: SenderSmsMessageStatus,
    pub receive_time: Option<u64>,
    pub log_status: SenderLogStatus,
    pub message: String,
}

/// A change as the contracts see it.
pub ghost struct NotifyUpdateView {
    pub id: u64,
    pub send_time: Option<u64>,
    pub status: SenderSmsMessageStatus,
    pub receive_time: Option<u64>,
    pub log_status: SenderLogStatus,
    pub message: Seq<char>,
}

impl View for NotifyUpdate {
    type V = NotifyUpdateView;

    open spec fn view(&self) -> NotifyUpdateView {
        NotifyUpdateView {
            id: self.id,
            send_time: self.send_time,
            status: self.status,
            receive_time: self.receive_time,
            log_status: self.log_status,
            message: self.message@,
        }
    }
}

/// What is done about one pair of a report and the record found for it.
#[derive(Debug)]
pub enum NotifyStep {
    /// No record carries the report's id: nothing is written.
    Unknown,
    /// The provider is still at work on the message: nothing is written.
    InProgress,
    /// The record changes; `app_id` names the application to tell, where the
    /// record's request is among those that were read.
    Update { update: NotifyUpdate, app_id: Option<u64> },
}

/// A step as the contracts see it.
pub ghost enum NotifyStepView {
    Unknown,
    InProgress,
    Update { update: NotifyUpdateView, app_id: Option<u64> },
}

impl View for NotifyStep {
    type V = NotifyStepView;

    open spec fn view(&self) -> NotifyStepView {
        match self {
            NotifyStep::Unknown => NotifyStepView::Unknown,
            NotifyStep::InProgress => NotifyStepView::InProgress,
            NotifyStep::Update { update, app_id } => NotifyStepView::Update {
                update: update@,
                app_id: *app_id,
            },
        }
    }
}

/// The send time that a report sets: the one it carries, unless that is zero.
pub open spec fn reported_send_time(item: SendNotifyItemView) -> Option<u64> {
    match item.send_time {
        Some(t) => if t > 0 {
            Some(t)
        } else {
            None
        },
        None => None,
    }
}

/// The application that owns the request `body_id`: that of the first of
/// `bodys` with this id.
pub open spec fn owner_of(bodys: Seq<SenderSmsBodyModel>, body_id: u64) -> Option<u64>
    decreases bodys.len(),
{
    if bodys.len() == 0 {
        None
    } else if bodys[0].id == body_id {
        Some(bodys[0].app_id)
    } else {
        owner_of(bodys.drop_first(), body_id)
    }
}

/// The step that a pair calls for.
pub open spec fn notify_step_view(
    found: Option<SenderSmsMessageView>,
    item: SendNotifyItemView,
    bodys: Seq<SenderSmsBodyModel>,
) -> NotifyStepView {
    match found {
        None => NotifyStepView::Unknown,
        Some(m) => match item.status {
            SendNotifyStatus::Progress => NotifyStepView::InProgress,
            SendNotifyStatus::Completed => NotifyStepView::Update {
                update: NotifyUpdateView {
                    id: m.id,
                    send_time: reported_send_time(item),
                    status: SenderSmsMessageStatus::IsReceived,
                    receive_time: item.receive_time,
                    log_status: SenderLogStatus::NotifySucc,
                    message: item.message,
                },
                app_id: owner_of(bodys, m.sender_body_id),
            },
            SendNotifyStatus::Failed => NotifyStepView::Update {
                update: NotifyUpdateView {
                    id: m.id,
                    send_time: reported_send_time(item),
                    status: SenderSmsMessageStatus::SendFail,
                    receive_time: None,
                    log_status: SenderLogStatus::NotifyFail,
                    message: item.message,
                },
                app_id: owner_of(bodys, m.sender_body_id),
            },
        },
    }
}

fn find_owner(bodys: &Vec<SenderSmsBodyModel>, body_id: u64) -> (owner: Option<u64>)
    ensures
        owner == owner_of(bodys@, body_id),
{
    let mut j: usize = 0;
    proof {
        assert(bodys@.skip(0) =~= bodys@);
    }
    while j < bodys.len()
        invariant
            j <= bodys@.len(),
            owner_of(bodys@, body_id) == owner_of(bodys@.skip(j as int), body_id),
        decreases bodys@.len() - j,
    {
        proof {
            assert(bodys@.skip(j as int).drop_first() =~= bodys@.skip(j + 1));
        }
        if bodys[j].id == body_id {
            return Some(bodys[j].app_id);
        }
        j += 1;
    }
    None
}

/// Decides what one pair of `parse_data` changes.
pub fn plan_notify(
    found: &Option<SenderSmsMessageModel>,
    item: &SendNotifyItem,
    bodys: &Vec<SenderSmsBodyModel>,
) -> (step: NotifyStep)
    ensures
        step@ == notify_step_view(
            match found {
                Some(m) => Some(m@),
                None => None,
            },
            item@,
            bodys@,
        ),
{
    match found {
        None => NotifyStep::Unknown,
        Some(m) => {
            let send_time = match item.send_time {
                Some(t) => if t > 0 {
                    Some(t)
                } else {
                    None
                },
                None => None,
            };
            match item.status {
                SendNotifyStatus::Progress => NotifyStep::InProgress,
                SendNotifyStatus::Completed => NotifyStep::Update {
                    update: NotifyUpdate {
                        id: m.id,
                        send_time,
                        status: SenderSmsMessageStatus::IsReceived,
                        receive_time: item.receive_time,
                        log_status: SenderLogStatus::NotifySucc,
                        message: item.message.clone(),
                    },
                    app_id: find_owner(bodys, m.sender_body_id),
                },
                SendNotifyStatus::Failed => NotifyStep::Update {
                    update: NotifyUpdate {
                        id: m.id,
                        send_time,
                        status: SenderSmsMessageStatus::SendFail,
                        receive_time: None,
                        log_status: SenderLogStatus::NotifyFail,
                        message: item.message.clone(),
                    },
                    app_id: find_owner(bodys, m.sender_body_id),
                },
            }
        },
    }
}

/// The error that saving a callback ends with: that of the last write that
/// failed.
pub open spec fn last_failure(writes: Seq<Option<String>>) -> Option<Seq<char>>
    decreases writes.len(),
{
    if writes.len() == 0 {
        None
    } else {
        match writes.last() {
            Some(e) => Some(e@),
            None => last_failure(writes.drop_last()),
        }
    }
}

/// Sums up the writes of one callback, each `None` where it succeeded and the
/// error's text where it failed.
pub fn save_result(writes: &Vec<Option<String>>) -> (out: Result<(), String>)
    ensures
        match out {
            Ok(_) => last_failure(writes@) is None,
            Err(e) => last_failure(writes@) == Some(e@),
        },
{
    let mut i: usize = writes.len();
    proof {
        assert(writes@.take(i as int) =~= writes@);
    }
    while i > 0
        invariant
            i <= writes@.len(),
            last_failure(writes@) == last_failure(writes@.take(i as int)),
        decreases i,
    {
        proof {
            assert(writes@.take(i as int).drop_last() =~= writes@.take(i - 1));
            assert(writes@.take(writes@.len() as int) =~= writes@);
        }
        match &writes[i - 1] {
            Some(e) => {
                return Err(e.clone());
            },
            None => {},
        }
        i -= 1;
    }
    Ok(())
}

/// Whether a stored configuration is one of the provider whose settings are
/// kept under `adapter_key`.
pub fn check(setting_key: &str, adapter_key: &str) -> (same: bool)
    ensures
        same == (setting_key@ == adapter_key@),
{
    let a = String::from_str(setting_key);
    let b = String::from_str(adapter_key);
    a == b
}

} // verus!
