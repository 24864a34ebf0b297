//! What the mail channel decides when a request comes in or is withdrawn.

use crate::common::fluent::{FluentMessage, FluentMessageView};
use crate::common::text::{decimal, decimal_text};
use crate::sender::model::{SenderError, SenderErrorView, SenderMailMessageModel};
use std::collections::HashMap;
use vstd::prelude::*;
use vstd::string::*;

verus! {

/// The prefix of every name under which the mail channel is reached.
pub const MAILER_REDIS_PREFIX: &'static str = "sender-mail-";

/// The seconds that a caller waits for the outcome of a mail where no other
/// limit is given.
pub const DEFAULT_WAIT_TIMEOUT: u8 = 30;

/// The name of the mail channel's role `role`: the prefix, a hyphen and the
/// role.
pub open spec fn channel_name(role: Seq<char>) -> Seq<char> {
    MAILER_REDIS_PREFIX@ + "-"@ + role
}

fn channel(role: &str) -> (out: String)
    ensures
        out@ == channel_name(role@),
{
    let mut out = String::from_str(MAILER_REDIS_PREFIX);
    out.append("-");
    out.append(role);
    out
}

/// The mail channel: the names of its roles and the limits of its
/// dispatch loop.
#[derive(Debug)]
pub struct MailSender {
    /// Where idle dispatch loops are woken.
    pub notify_key: String,
    /// Where the lease over the queue is kept.
    pub read_lock_key: String,
    /// Where the records that are being sent are listed.
    pub run_task_key: String,
    /// Where outcomes are published for callers that wait.
    pub wait_status_key: String,
    /// How many records one fetch takes, where that is limited.
    pub task_size: Option<usize>,
    /// After how many seconds a send is given up, which is also how long the
    /// lease lasts.
    pub task_timeout: usize,
    /// Whether the list of running records is checked against the workers.
    pub is_check: bool,
    /// How many seconds a caller waits for an outcome.
    pub wait_timeout: u8,
}

impl MailSender {
    /// The mail channel with these limits. A caller waits `wait_timeout`
    /// seconds for an outcome, and thirty where none is given.
    pub fn new(
        task_size: Option<usize>,
        task_timeout: usize,
        is_check: bool,
        wait_timeout: Option<u8>,
    ) -> (out: Self)
        ensures
            out.notify_key@ == channel_name("notify"@),
            out.read_lock_key@ == channel_name("read-lock"@),
            out.run_task_key@ == channel_name("run-task"@),
            out.wait_status_key@ == channel_name("status-data"@),
            out.task_size == task_size,
            out.task_timeout == task_timeout,
            out.is_check == is_check,
            out.wait_timeout == match wait_timeout {
                Some(t) => t,
                None => DEFAULT_WAIT_TIMEOUT,
            },
    {
        MailSender {
            notify_key: channel("notify"),
            read_lock_key: channel("read-lock"),
            run_task_key: channel("run-task"),
            wait_status_key: channel("status-data"),
            task_size,
            task_timeout,
            is_check,
            wait_timeout: match wait_timeout {
                Some(t) => t,
                None => DEFAULT_WAIT_TIMEOUT,
            },
        }
    }
}

/// The addresses of `mail` without repetition: each where it first occurs.
pub open spec fn distinct_view(mail: Seq<Seq<char>>) -> Seq<Seq<char>>
    decreases mail.len(),
{
    if mail.len() == 0 {
        Seq::empty()
    } else {
        let rest = distinct_view(mail.drop_last());
        if rest.contains(mail.last()) {
            rest
        } else {
            rest.push(mail.last())
        }
    }
}

/// The views of a sequence of texts, in order.
pub open spec fn text_views(texts: Seq<String>) -> Seq<Seq<char>> {
    texts.map_values(|t: String| t@)
}

/// The distinct addresses hold every address of `mail`, and none twice.
pub proof fn lemma_distinct(mail: Seq<Seq<char>>)
    ensures
        distinct_view(mail).no_duplicates(),
        forall|a: Seq<char>| distinct_view(mail).contains(a) <==> mail.contains(a),
    decreases mail.len(),
{
    if mail.len() > 0 {
        let rest = distinct_view(mail.drop_last());
        lemma_distinct(mail.drop_last());
        assert forall|a: Seq<char>| distinct_view(mail).contains(a) <==> mail.contains(a) by {
            if mail.contains(a) {
                let i = choose|i: int| 0 <= i < mail.len() && mail[i] == a;
                if i < mail.len() - 1 {
                    assert(mail.drop_last()[i] == a);
                    assert(mail.drop_last().contains(a));
                    assert(rest.contains(a));
                    let j = choose|j: int| 0 <= j < rest.len() && rest[j] == a;
                    assert(distinct_view(mail)[j] == a);
                } else if !rest.contains(a) {
                    assert(distinct_view(mail)[rest.len() as int] == a);
                } else {
                    let j = choose|j: int| 0 <= j < rest.len() && rest[j] == a;
                    assert(distinct_view(mail)[j] == a);
                }
            }
            if distinct_view(mail).contains(a) {
                let j = choose|j: int| 0 <= j < distinct_view(mail).len() && distinct_view(mail)[j] == a;
                if j < rest.len() {
                    assert(rest[j] == a);
                    assert(rest.contains(a));
                    assert(mail.drop_last().contains(a));
                    let i = choose|i: int| 0 <= i < mail.drop_last().len() && mail.drop_last()[i] == a;
                    assert(mail[i] == a);
                } else {
                    assert(mail[mail.len() - 1] == a);
                }
            }
        }
    }
}

fn holds(seen: &Vec<String>, addr: &String) -> (found: bool)
    ensures
        found == text_views(seen@).contains(addr@),
{
    let mut j: usize = 0;
    while j < seen.len()
        invariant
            j <= seen@.len(),
            forall|k: int| 0 <= k < j ==> (#[trigger] seen@[k])@ != addr@,
        decreases seen@.len() - j,
    {
        if seen[j] == *addr {
            assert(text_views(seen@)[j as int] == addr@);
            return true;
        }
        j += 1;
    }
    assert forall|k: int| 0 <= k < text_views(seen@).len() implies text_views(seen@)[k]
        != addr@ by {
        assert(text_views(seen@)[k] == seen@[k]@);
    }
    false
}

/// Takes the repetitions out of a list of recipients.
pub fn distinct(mail: &Vec<String>) -> (out: Vec<String>)
    ensures
        text_views(out@) == distinct_view(text_views(mail@)),
{
    let mut out: Vec<String> = Vec::new();
    let mut i: usize = 0;
    proof {
        assert(text_views(mail@).take(0) =~= Seq::empty());
        assert(text_views(out@) =~= Seq::empty());
    }
    while i < mail.len()
        invariant
            i <= mail@.len(),
            text_views(out@) == distinct_view(text_views(mail@).take(i as int)),
        decreases mail@.len() - i,
    {
        proof {
            assert(text_views(mail@).take(i + 1).drop_last() =~= text_views(mail@).take(i as int));
            assert(text_views(mail@).take(i + 1).last() == mail@[i as int]@);
        }
        if !holds(&out, &mail[i]) {
            let ghost before = out@;
            out.push(mail[i].clone());
            proof {
                assert(text_views(out@) =~= text_views(before).push(mail@[i as int]@));
            }
        }
        i += 1;
    }
    proof {
        assert(text_views(mail@).take(i as int) =~= text_views(mail@));
    }
    out
}

/// What is settled about a request before it is stored.
#[derive(Debug)]
pub struct SendPlan {
    /// The recipients, each once.
    pub recipients: Vec<String>,
    /// When the mail is due: never before the request came in.
    pub send_time: u64,
    /// How often a failed send is tried again.
    pub max_try_num: u8,
    /// Whether the caller waits for the outcome.
    pub wait: bool,
}

/// When a request that came in at `now` is due.
pub open spec fn due_time(send_time: Option<u64>, now: u64) -> u64 {
    match send_time {
        Some(t) => if t < now {
            now
        } else {
            t
        },
        None => now,
    }
}

/// How often a failed send is tried again where the request does not say.
pub const DEFAULT_MAX_TRY_NUM: u8 = 1;

/// How often a failed send of a request is tried again.
pub open spec fn tries(max_try_num: Option<u8>) -> u8 {
    match max_try_num {
        Some(n) => n,
        None => DEFAULT_MAX_TRY_NUM,
    }
}

/// Whether the caller of a request waits for its outcome: only where the
/// request has one recipient and is never tried again.
pub open spec fn waits_for_outcome(recipients: nat, max_try_num: u8) -> bool {
    max_try_num == 0 && recipients == 1
}

impl MailSender {
    /// Settles recipients, due time and retries of a request that came in at
    /// `now`.
    pub fn send_plan(
        &self,
        mail: &Vec<String>,
        send_time: Option<u64>,
        max_try_num: Option<u8>,
        now: u64,
    ) -> (plan: SendPlan)
        ensures
            text_views(plan.recipients@) == distinct_view(text_views(mail@)),
            plan.send_time == due_time(send_time, now),
            plan.max_try_num == tries(max_try_num),
            plan.wait == waits_for_outcome(mail@.len(), tries(max_try_num)),
    {
        let recipients = distinct(mail);
        let due = match send_time {
            Some(t) => if t < now {
                now
            } else {
                t
            },
            None => now,
        };
        let max_try = match max_try_num {
            Some(n) => n,
            None => DEFAULT_MAX_TRY_NUM,
        };
        SendPlan {
            recipients,
            send_time: due,
            max_try_num: max_try,
            wait: max_try == 0 && mail.len() == 1,
        }
    }

    /// Whether the dispatch loop is woken for a request: always where no
    /// time was asked for, else where that time is no more than a second
    /// ahead of `now`.
    pub fn wake_now(&self, send_time: Option<u64>, now: u64) -> (wake: bool)
        ensures
            wake == match send_time {
                Some(t) => t <= now + 1,
                None => true,
            },
    {
        match send_time {
            Some(t) => t == 0 || t - 1 <= now,
            None => true,
        }
    }
}

/// How waiting for an outcome ended: with the outcome, with the failure that
/// the executor reported, or without either.
pub open spec fn wait_outcome_view(waited: Result<Result<bool, String>, String>) -> Result<
    bool,
    FluentMessageView,
> {
    match waited {
        Ok(Ok(done)) => Ok(done),
        Ok(Err(e)) => Err(FluentMessageView { id: "mail-send-fail"@, data: seq![("msg"@, e@)] }),
        Err(e) => Err(FluentMessageView { id: "mail-send-wait-fail"@, data: seq![("msg"@, e@)] }),
    }
}

/// The view of what a caller is told of one recipient.
pub open spec fn outcome_view(r: Result<bool, FluentMessage>) -> Result<bool, FluentMessageView> {
    match r {
        Ok(b) => Ok(b),
        Err(e) => Err(e@),
    }
}

/// Turns the end of a wait into what the caller is told.
pub fn wait_outcome(waited: Result<Result<bool, String>, String>) -> (out: Result<
    bool,
    FluentMessage,
>)
    ensures
        outcome_view(out) == wait_outcome_view(waited),
{
    match waited {
        Ok(Ok(done)) => Ok(done),
        Ok(Err(e)) => {
            let msg = FluentMessage::new("mail-send-fail").with("msg", e.as_str());
            proof {
                assert(msg@.data =~= seq![("msg"@, e@)]);
            }
            Err(msg)
        },
        Err(e) => {
            let msg = FluentMessage::new("mail-send-wait-fail").with("msg", e.as_str());
            proof {
                assert(msg@.data =~= seq![("msg"@, e@)]);
            }
            Err(msg)
        },
    }
}

/// The id under which `addr` was stored: that of the first stored record
/// with this address, and zero where there is none.
pub open spec fn stored_id(added: Seq<(u64, String)>, addr: Seq<char>) -> u64
    decreases added.len(),
{
    if added.len() == 0 {
        0
    } else if added[0].1@ == addr {
        added[0].0
    } else {
        stored_id(added.drop_first(), addr)
    }
}

fn find_stored(added: &Vec<(u64, String)>, addr: &String) -> (id: u64)
    ensures
        id == stored_id(added@, addr@),
{
    let mut j: usize = 0;
    proof {
        assert(added@.skip(0) =~= added@);
    }
    while j < added.len()
        invariant
            j <= added@.len(),
            stored_id(added@, addr@) == stored_id(added@.skip(j as int), addr@),
        decreases added@.len() - j,
    {
        proof {
            assert(added@.skip(j as int).drop_first() =~= added@.skip(j + 1));
        }
        if added[j].1 == *addr {
            return added[j].0;
        }
        j += 1;
    }
    0
}

/// What the caller of a request is told of the recipient at `i`: the id
/// that it was stored under, its address, and the outcome, which is that of
/// the wait for the first recipient of a request that was waited for and
/// success for every other.
pub open spec fn send_answer(
    mail: Seq<String>,
    added: Seq<(u64, String)>,
    waited: Option<Result<bool, FluentMessage>>,
    i: int,
) -> (u64, Seq<char>, Result<bool, FluentMessageView>) {
    (
        stored_id(added, mail[i]@),
        mail[i]@,
        if i == 0 && waited is Some {
            outcome_view(waited->0)
        } else {
            Ok(true)
        },
    )
}

/// The view of one answer.
pub open spec fn answer_view(a: (u64, String, Result<bool, FluentMessage>)) -> (
    u64,
    Seq<char>,
    Result<bool, FluentMessageView>,
) {
    (a.0, a.1@, outcome_view(a.2))
}

/// Puts together what the caller of a request is told: one answer for each
/// recipient that was asked for, in the order of the request.
pub fn send_answers(
    mail: &Vec<String>,
    added: &Vec<(u64, String)>,
    waited: Option<Result<bool, FluentMessage>>,
) -> (out: Vec<(u64, String, Result<bool, FluentMessage>)>)
    ensures
        out@.len() == mail@.len(),
        forall|i: int|
            0 <= i < mail@.len() ==> answer_view(#[trigger] out@[i]) == send_answer(
                mail@,
                added@,
                waited,
                i,
            ),
{
    let mut out: Vec<(u64, String, Result<bool, FluentMessage>)> = Vec::new();
    let mut wait = waited;
    let mut i: usize = 0;
    while i < mail.len()
        invariant
            i <= mail@.len(),
            out@.len() == i,
            i == 0 ==> wait == waited,
            forall|k: int|
                0 <= k < i ==> answer_view(#[trigger] out@[k]) == send_answer(
                    mail@,
                    added@,
                    waited,
                    k,
                ),
        decreases mail@.len() - i,
    {
        let msg_id = find_stored(added, &mail[i]);
        let item_res = if i == 0 {
            match wait.take() {
                Some(r) => r,
                None => Ok(true),
            }
        } else {
            Ok(true)
        };
        out.push((msg_id, mail[i].clone(), item_res));
        i += 1;
    }
    out
}

/// What the records that are being sent hold after each of `ids` was taken
/// out in turn.
pub open spec fn after_taking<V>(running: Map<u64, V>, ids: Seq<u64>) -> Map<u64, V>
    decreases ids.len(),
{
    if ids.len() == 0 {
        running
    } else {
        after_taking(running, ids.drop_last()).remove(ids.last())
    }
}

/// The ids of the records that are asked about, in order.
pub open spec fn asked_ids<D>(check: Seq<(u64, D)>) -> Seq<u64> {
    check.map_values(|c: (u64, D)| c.0)
}

impl MailSender {
    /// Tells of each record that is asked about whether it is being sent, with
    /// what is listed of the send.
    ///
    /// A record is taken off the list as it is found, so that of a record asked
    /// about twice only the first answer says that it is being sent.
    pub fn task_is_run<D, V>(&self, running: &mut HashMap<u64, V>, check: Vec<(u64, D)>) -> (out:
        Vec<(D, Option<V>)>)
        ensures
            out@.len() == check@.len(),
            final(running)@ == after_taking(old(running)@, asked_ids(check@)),
            forall|i: int|
                0 <= i < check@.len() ==> (#[trigger] out@[i]).0 == check@[i].1 && out@[i].1 == {
                    let left = after_taking(old(running)@, asked_ids(check@).take(i));
                    if left.contains_key(check@[i].0) {
                        Some(left[check@[i].0])
                    } else {
                        None
                    }
                },
    {
        broadcast use vstd::std_specs::hash::group_hash_axioms;

        let ghost start = running@;
        let ghost asked = check@;
        let mut out: Vec<(D, Option<V>)> = Vec::new();
        let mut check = check;
        let n: usize = check.len();
        // The records are taken from the back, so the list is turned round first.
        let mut rest: Vec<(u64, D)> = Vec::new();
        while check.len() > 0
            invariant
                check@.len() + rest@.len() == n,
                n == asked.len(),
                forall|k: int| 0 <= k < check@.len() ==> check@[k] == asked[k],
                forall|k: int| 0 <= k < rest@.len() ==> rest@[k] == asked[n - 1 - k],
            decreases check@.len(),
        {
            let c = check.pop().unwrap();
            rest.push(c);
        }
        let mut i: usize = 0;
        proof {
            assert(asked_ids(asked).take(0) =~= Seq::empty());
        }
        while i < n
            invariant
                i <= n,
                n == asked.len(),
                rest@.len() == n - i,
                out@.len() == i,
                forall|k: int| 0 <= k < rest@.len() ==> rest@[k] == asked[n - 1 - k],
                running@ == after_taking(start, asked_ids(asked).take(i as int)),
                forall|k: int|
                    0 <= k < i ==> (#[trigger] out@[k]).0 == asked[k].1 && out@[k].1 == {
                        let left = after_taking(start, asked_ids(asked).take(k));
                        if left.contains_key(asked[k].0) {
                            Some(left[asked[k].0])
                        } else {
                            None
                        }
                    },
            decreases n - i,
        {
            let (mid, data) = rest.pop().unwrap();
            proof {
                assert(asked_ids(asked).take(i + 1).drop_last() =~= asked_ids(asked).take(i as int));
                assert(asked_ids(asked).take(i + 1).last() == mid);
            }
            let found = running.remove(&mid);
            out.push((data, found));
            i += 1;
        }
        proof {
            assert(asked_ids(asked).take(n as int) =~= asked_ids(asked));
        }
        out
    }
}

/// What a caller who withdraws a record is told: the record's id, whether
/// the withdrawal went on to the store, and why the record stays.
pub open spec fn cancel_answer(
    msg: SenderMailMessageModel,
    running: bool,
    stored: Option<SenderError>,
) -> (u64, bool, Option<SenderErrorView>) {
    (
        msg.id,
        !running,
        if running {
            Some(
                SenderErrorView::System(
                    FluentMessageView {
                        id: "mail-send-ok-cancel"@,
                        data: seq![("to_mail"@, msg.to_mail@), ("msg_id"@, decimal(msg.id))],
                    },
                ),
            )
        } else {
            match stored {
                Some(e) => Some(e@),
                None => None,
            }
        },
    )
}

/// The view of one answer to a withdrawal.
pub open spec fn cancel_view(a: (u64, bool, Option<SenderError>)) -> (
    u64,
    bool,
    Option<SenderErrorView>,
) {
    (
        a.0,
        a.1,
        match a.2 {
            Some(e) => Some(e@),
            None => None,
        },
    )
}

/// Answers the withdrawal of one record. `running` says whether the record
/// is being sent, in which case it is too late; else `stored` is what the
/// store said to the withdrawal.
pub fn cancel_result(msg: &SenderMailMessageModel, running: bool, stored: Option<SenderError>) -> (out:
    (u64, bool, Option<SenderError>))
    ensures
        cancel_view(out) == cancel_answer(*msg, running, stored),
{
    if running {
        let id_text = decimal_text(msg.id);
        let text = FluentMessage::new("mail-send-ok-cancel").with(
            "to_mail",
            msg.to_mail.as_str(),
        ).with("msg_id", id_text.as_str());
        proof {
            assert(text@.data =~= seq![("to_mail"@, msg.to_mail@), ("msg_id"@, decimal(msg.id))]);
        }
        (msg.id, false, Some(SenderError::System(text)))
    } else {
        (msg.id, true, stored)
    }
}

/// The records of `res` that belong to the request `body_id`, in order.
pub open spec fn of_body(res: Seq<SenderMailMessageModel>, body_id: u64) -> Seq<
    SenderMailMessageModel,
> {
    res.filter(|m: SenderMailMessageModel| m.sender_body_id == body_id)
}

/// Picks the records of one request.
pub fn messages_of_body(res: &Vec<SenderMailMessageModel>, body_id: u64) -> (out: Vec<
    SenderMailMessageModel,
>)
    ensures
        out@ == of_body(res@, body_id),
{
    let mut out: Vec<SenderMailMessageModel> = Vec::new();
    let mut i: usize = 0;
    let ghost pred = |m: SenderMailMessageModel| m.sender_body_id == body_id;
    proof {
        assert(res@.take(0) =~= Seq::empty());
        reveal(Seq::filter);
    }
    while i < res.len()
        invariant
            i <= res@.len(),
            pred == |m: SenderMailMessageModel| m.sender_body_id == body_id,
            out@ == res@.take(i as int).filter(pred),
        decreases res@.len() - i,
    {
        proof {
            reveal(Seq::filter);
            assert(res@.take(i + 1).drop_last() =~= res@.take(i as int));
        }
        if res[i].sender_body_id == body_id {
            out.push(res[i].clone());
        }
        i += 1;
    }
    proof {
        assert(res@.take(i as int) =~= res@);
    }
    out
}

/// The ids of the requests that the records of `res` belong to, one per
/// record and in their order.
pub fn body_ids(res: &Vec<SenderMailMessageModel>) -> (ids: Vec<u64>)
    ensures
        ids@ == res@.map_values(|m: SenderMailMessageModel| m.sender_body_id),
{
    let mut ids: Vec<u64> = Vec::new();
    let mut i: usize = 0;
    while i < res.len()
        invariant
            i <= res@.len(),
            ids@.len() == i,
            forall|k: int| 0 <= k < i ==> ids@[k] == res@[k].sender_body_id,
        decreases res@.len() - i,
    {
        ids.push(res[i].sender_body_id);
        i += 1;
    }
    proof {
        assert(ids@ =~= res@.map_values(|m: SenderMailMessageModel| m.sender_body_id));
    }
    ids
}

} // verus!
