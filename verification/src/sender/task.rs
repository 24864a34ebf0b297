//! The work of a dispatch loop while it holds the lease: records go to the
//! executors, within the limit of each configuration, and what comes back
//! is written to the store.

use crate::common::lease::{extends, grants, owns, renewed, LeaseCoordinator, Leases};
use crate::sender::message::{Message, MessageStatus, MessageView, NewMessage};
use crate::sender::model::{
    SenderExecError, SenderTaskResultItem, SenderTaskStatus, SenderType,
};
use crate::sender::store::{
    is_due_batch, lemma_lookup, lookup, sweep_logs, update, views, MessageStore, StoreError,
    StoreOp, StoreView,
};
use crate::sender::wait::{registered, SenderWaitNotify, WaitEvent, WaitOutcome};
use std::collections::HashMap;
use vstd::prelude::*;
use vstd::string::*;

verus! {

/// A way of delivering records. The dispatch loop calls `exec` for one
/// record and one configuration at a time, and asks `limit` how many sends
/// may run at once with a configuration.
pub trait SenderTaskExecutor: Sized {
    /// Whether `k` is how many sends the executor allows at once with
    /// `config`. An executor that does not say leaves this open.
    open spec fn allows(&self, config: u64, k: u16) -> bool {
        true
    }

    /// Whether `answer` is what the executor `pre` answers when it is
    /// called for the record `item` with `config`, and `post` the executor
    /// after the call. An executor that does not say leaves this open.
    open spec fn answers(
        pre: Self,
        item: MessageView,
        config: u64,
        post: Self,
        answer: Result<SenderTaskResultItem, SenderExecError>,
    ) -> bool {
        true
    }

    fn limit(&self, config: u64) -> (k: u16)
        ensures
            self.allows(config, k),
    ;

    fn exec(&mut self, item: &Message, config: u64) -> (answer: Result<
        SenderTaskResultItem,
        SenderExecError,
    >)
        ensures
            Self::answers(*old(self), item@, config, *final(self), answer),
    ;
}

/// How many sends run with a configuration, and how many may.
#[derive(Clone, Copy, Debug, PartialEq, Eq, Structural)]
pub struct Slot {
    pub in_use: u16,
    pub cap: u16,
}

/// The limit that an executor's answer `k` stands for: at least one.
pub open spec fn effective_limit(k: u16) -> u16 {
    if k == 0 {
        1
    } else {
        k
    }
}

/// The counters of the sends that run, one for each configuration that a
/// send was started with.
pub struct ConfigSlots {
    slots: HashMap<u64, Slot>,
}

impl View for ConfigSlots {
    type V = Map<u64, Slot>;

    closed spec fn view(&self) -> Map<u64, Slot> {
        self.slots@
    }
}

/// Whether no configuration has more sends running than it may.
pub open spec fn within_limits(slots: Map<u64, Slot>) -> bool {
    forall|c: u64| #[trigger] slots.contains_key(c) ==> slots[c].in_use <= slots[c].cap
}

/// Whether a send may start with `config`, whose executor allows `k` sends
/// at once.
pub open spec fn admits(slots: Map<u64, Slot>, config: u64, k: u16) -> bool {
    if slots.contains_key(config) {
        slots[config].in_use < effective_limit(k)
    } else {
        true
    }
}

/// The counters after a send asked to start with `config`.
pub open spec fn begun(slots: Map<u64, Slot>, config: u64, k: u16) -> Map<u64, Slot> {
    if !admits(slots, config, k) {
        slots
    } else if slots.contains_key(config) {
        slots.insert(
            config,
            Slot { in_use: (slots[config].in_use + 1) as u16, cap: effective_limit(k) },
        )
    } else {
        slots.insert(config, Slot { in_use: 1, cap: effective_limit(k) })
    }
}

/// The counters after a send with `config` ended.
pub open spec fn ended(slots: Map<u64, Slot>, config: u64) -> Map<u64, Slot> {
    if slots.contains_key(config) && slots[config].in_use > 0 {
        slots.insert(
            config,
            Slot { in_use: (slots[config].in_use - 1) as u16, cap: slots[config].cap },
        )
    } else {
        slots
    }
}

impl ConfigSlots {
    /// No configuration has more sends running than it may.
    pub open spec fn wf(&self) -> bool {
        within_limits(self@)
    }

    /// Counters with no send running.
    pub fn new() -> (out: Self)
        ensures
            out.wf(),
            out@ == Map::<u64, Slot>::empty(),
    {
        ConfigSlots { slots: HashMap::new() }
    }

    /// How many sends run with `config`.
    pub fn in_use(&self, config: u64) -> (n: u16)
        ensures
            n == load_of(self@, config),
    {
        broadcast use vstd::std_specs::hash::group_hash_axioms;

        match self.slots.get(&config) {
            Some(s) => s.in_use,
            None => 0,
        }
    }

    /// Starts a send with `config`, whose executor allows `k` sends at
    /// once, unless that many are running. The answer says whether the send
    /// may start.
    pub fn try_begin(&mut self, config: u64, k: u16) -> (started: bool)
        requires
            old(self).wf(),
        ensures
            final(self).wf(),
            started == admits(old(self)@, config, k),
            final(self)@ == begun(old(self)@, config, k),
    {
        broadcast use vstd::std_specs::hash::group_hash_axioms;

        let cap: u16 = if k == 0 {
            1
        } else {
            k
        };
        let running = self.in_use(config);
        if running < cap {
            self.slots.insert(config, Slot { in_use: running + 1, cap });
            true
        } else {
            assert(self@.contains_key(config));
            false
        }
    }

    /// Counts one send with `config` as ended.
    pub fn end(&mut self, config: u64)
        requires
            old(self).wf(),
        ensures
            final(self).wf(),
            final(self)@ == ended(old(self)@, config),
    {
        broadcast use vstd::std_specs::hash::group_hash_axioms;

        let found = match self.slots.get(&config) {
            Some(s) => Some(*s),
            None => None,
        };
        match found {
            Some(s) => {
                if s.in_use > 0 {
                    self.slots.insert(config, Slot { in_use: s.in_use - 1, cap: s.cap });
                }
            },
            None => {},
        }
    }
}

/// What an executor's answer comes to for the record: its own verdict, a
/// final failure where the record itself is at fault, and a failure that
/// may be tried again where the configuration is.
pub open spec fn outcome_of(answer: Result<SenderTaskResultItem, SenderExecError>) -> (
    SenderTaskStatus,
    Seq<char>,
) {
    match answer {
        Ok(item) => (item.status, item.message@),
        Err(SenderExecError::Finish(m)) => (SenderTaskStatus::Failed(false), m@),
        Err(SenderExecError::Next(m)) => (SenderTaskStatus::Failed(true), m@),
    }
}

/// Reads an executor's answer.
pub fn exec_outcome(answer: Result<SenderTaskResultItem, SenderExecError>) -> (out: (
    SenderTaskStatus,
    String,
))
    ensures
        (out.0, out.1@) == outcome_of(answer),
{
    match answer {
        Ok(item) => (item.status, item.message),
        Err(SenderExecError::Finish(m)) => (SenderTaskStatus::Failed(false), m),
        Err(SenderExecError::Next(m)) => (SenderTaskStatus::Failed(true), m),
    }
}

/// The text of the failure of a send that did not come back in time.
pub open spec fn timeout_text() -> Seq<char> {
    "send timeout"@
}

/// What a send that did not come back within its time limit comes to: a
/// failure that may be tried again.
pub fn timeout_outcome() -> (out: (SenderTaskStatus, String))
    ensures
        out.0 == SenderTaskStatus::Failed(true),
        out.1@ == timeout_text(),
{
    (SenderTaskStatus::Failed(true), String::from_str("send timeout"))
}

/// The status that an executor's verdict is written down as.
pub open spec fn reported_status(outcome: SenderTaskStatus) -> MessageStatus {
    match outcome {
        SenderTaskStatus::Completed => MessageStatus::Completed,
        SenderTaskStatus::Failed(true) => MessageStatus::FailedRetryable,
        SenderTaskStatus::Failed(false) => MessageStatus::FailedFinal,
    }
}

/// How many tries a verdict counts for: one where the send may be tried
/// again, none else.
pub open spec fn counted_tries(outcome: SenderTaskStatus) -> u8 {
    match outcome {
        SenderTaskStatus::Failed(true) => 1,
        _ => 0,
    }
}

/// When a record that was tried `attempt_count` times is due again after a
/// failure at `now`: each try waits `retry_delay` seconds longer than the
/// one before.
pub open spec fn retry_time(now: u64, retry_delay: u64, attempt_count: u8) -> u64 {
    if now + retry_delay * (attempt_count + 1) > u64::MAX {
        u64::MAX
    } else {
        (now + retry_delay * (attempt_count + 1)) as u64
    }
}

/// Settles when a record is due again after a failure at `now`.
pub fn retry_at(now: u64, retry_delay: u64, attempt_count: u8) -> (out: u64)
    ensures
        out == retry_time(now, retry_delay, attempt_count),
{
    let tries: u64 = attempt_count as u64 + 1;
    assert(retry_delay * tries >= 0) by (nonlinear_arith)
        requires
            retry_delay >= 0,
            tries >= 0,
    ;
    if retry_delay > 0 && tries > (u64::MAX - now) / retry_delay {
        assert(now + retry_delay * tries > u64::MAX) by (nonlinear_arith)
            requires
                retry_delay > 0,
                tries > (u64::MAX - now) / (retry_delay as int),
                tries >= 0,
                now <= u64::MAX,
        ;
        u64::MAX
    } else {
        assert(now + retry_delay * tries <= u64::MAX) by (nonlinear_arith)
            requires
                retry_delay == 0 || tries <= (u64::MAX - now) / (retry_delay as int),
                retry_delay >= 0,
                tries >= 0,
                now <= u64::MAX,
        ;
        now + retry_delay * tries
    }
}

/// Hands a record in. Where the caller waits for the outcome, it is
/// registered with the wait bridge until `deadline` under the id that the
/// record is about to get, before the record is stored, so that the outcome
/// cannot arrive before the registration.
///
/// Where the store has no id left, nothing is stored and nobody is
/// registered.
pub fn enqueue(
    store: &mut MessageStore,
    bridge: &mut SenderWaitNotify,
    new: NewMessage,
    wait: bool,
    deadline: u64,
) -> (out: Result<u64, StoreError>)
    requires
        old(store).wf(),
    ensures
        final(store).wf(),
        final(store)@ == old(store)@.step(StoreOp::Append { new }),
        old(bridge).wf() ==> final(bridge).wf(),
        final(bridge).spec_timeout() == old(bridge).spec_timeout(),
        match out {
            Ok(id) => id == old(store)@.next_id && id < u64::MAX && final(bridge)@ == if wait {
                registered(old(bridge)@, id, deadline)
            } else {
                old(bridge)@
            },
            Err(e) => e == StoreError::IdsExhausted && old(store)@.next_id == u64::MAX
                && final(bridge)@ == old(bridge)@,
        },
{
    let id = store.next_id();
    if id == u64::MAX {
        return store.append(new);
    }
    if wait {
        bridge.register(id, deadline);
    }
    store.append(new)
}

/// Whether the caller of a record's request may be waiting for its outcome:
/// the request asked for no second try.
pub open spec fn is_awaited(m: MessageView) -> bool {
    m.max_try_num == 0
}

/// The event that goes to the completion channel once a record stands as
/// `m`: none unless `m` has reached a terminal status and a caller may be
/// waiting.
pub open spec fn completion(m: MessageView, message: Seq<char>) -> Option<(u64, MessageStatus, Seq<char>)> {
    if m.status.is_terminal() && is_awaited(m) {
        Some((m.id, m.status, message))
    } else {
        None
    }
}

/// The view of an event for the completion channel.
pub open spec fn event_view(e: Option<WaitEvent>) -> Option<(u64, MessageStatus, Seq<char>)> {
    match e {
        Some(e) => Some((e.message_id, e.outcome.status, e.outcome.message@)),
        None => None,
    }
}

/// The request to the store that writes down the verdict `outcome` on the
/// record `m` at `now`.
pub open spec fn mark_of(
    m: MessageView,
    outcome: SenderTaskStatus,
    message: Seq<char>,
    now: u64,
    retry_delay: u64,
) -> StoreOp {
    StoreOp::Mark {
        id: m.id,
        status: reported_status(outcome),
        result: message,
        attempt_delta: counted_tries(outcome),
        retry_at: retry_time(now, retry_delay, m.attempt_count),
    }
}

/// The record `m` once the verdict `outcome` on its send was written down.
pub open spec fn finalized(m: MessageView, outcome: SenderTaskStatus, now: u64, retry_delay: u64) -> MessageView {
    m.marked(
        reported_status(outcome),
        counted_tries(outcome),
        retry_time(now, retry_delay, m.attempt_count),
    )
}

/// Writes down how the send of the record `id` ended, and hands out the
/// event for the completion channel where there is one.
///
/// A withdrawal that came in during the send wins: the record is then
/// cancelled, whatever `outcome` says.
pub fn finalize(
    store: &mut MessageStore,
    id: u64,
    outcome: SenderTaskStatus,
    message: String,
    now: u64,
    retry_delay: u64,
) -> (event: Option<WaitEvent>)
    requires
        old(store).wf(),
    ensures
        final(store).wf(),
        match lookup(old(store)@.messages, id) {
            Some(m) => {
                &&& final(store)@ == old(store)@.step(
                    mark_of(m, outcome, message@, now, retry_delay),
                )
                &&& m.status == MessageStatus::Sending ==> lookup(final(store)@.messages, id)
                    == Some(finalized(m, outcome, now, retry_delay)) && event_view(event)
                    == completion(finalized(m, outcome, now, retry_delay), message@)
                &&& m.status != MessageStatus::Sending ==> event is None
            },
            None => final(store)@ == old(store)@ && event is None,
        },
{
    let found = store.get(id);
    match found {
        None => None,
        Some(m) => {
            let status = match outcome {
                SenderTaskStatus::Completed => MessageStatus::Completed,
                SenderTaskStatus::Failed(true) => MessageStatus::FailedRetryable,
                SenderTaskStatus::Failed(false) => MessageStatus::FailedFinal,
            };
            let delta: u8 = match outcome {
                SenderTaskStatus::Failed(true) => 1,
                _ => 0,
            };
            let retry = retry_at(now, retry_delay, m.attempt_count);
            let text = message.clone();
            let taken = store.mark(id, status, message, delta, retry);
            if !taken {
                return None;
            }
            match store.get(id) {
                Some(after) => {
                    if after.status.is_terminal() && after.max_try_num == 0 {
                        Some(
                            WaitEvent {
                                message_id: id,
                                outcome: WaitOutcome { status: after.status, message: text },
                            },
                        )
                    } else {
                        None
                    }
                },
                None => None,
            }
        },
    }
}

/// How many sends run with the configuration `c`.
pub open spec fn load_of(slots: Map<u64, Slot>, c: u64) -> u16 {
    if slots.contains_key(c) {
        slots[c].in_use
    } else {
        0
    }
}

/// Whether the counters `after` show as many sends running as `before`.
pub open spec fn same_load(before: Map<u64, Slot>, after: Map<u64, Slot>) -> bool {
    forall|c: u64| #[trigger] load_of(after, c) == load_of(before, c)
}

/// A send that has started and ended leaves as many sends running as there
/// were.
pub proof fn lemma_load_back(slots: Map<u64, Slot>, config: u64, k: u16)
    requires
        admits(slots, config, k),
    ensures
        same_load(slots, ended(begun(slots, config, k), config)),
{
    let after = ended(begun(slots, config, k), config);
    assert forall|c: u64| #[trigger] load_of(after, c) == load_of(slots, c) by {
        if c == config {
            assert(begun(slots, config, k).contains_key(config));
        }
    }
}

/// The text of the failure of a record that no configuration could take.
pub open spec fn no_config_text() -> Seq<char> {
    "not find config"@
}

/// Where the delivery of one record stands among the configurations that
/// it can be sent with.
pub struct SendCursor {
    next: usize,
    last: Option<String>,
}

/// What is done next for a record.
#[derive(Debug)]
pub enum SendStep {
    /// The executor is called with this configuration, if it has a send to
    /// spare.
    Try { config: u64 },
    /// The delivery has ended.
    Done { status: SenderTaskStatus, message: String },
}

/// A step as the contracts see it.
pub ghost enum SendStepView {
    Try { config: u64 },
    Done { status: SenderTaskStatus, message: Seq<char> },
}

impl View for SendStep {
    type V = SendStepView;

    open spec fn view(&self) -> SendStepView {
        match self {
            SendStep::Try { config } => SendStepView::Try { config: *config },
            SendStep::Done { status, message } => SendStepView::Done {
                status: *status,
                message: message@,
            },
        }
    }
}

impl SendCursor {
    /// How many configurations have been looked at.
    pub closed spec fn spec_next(&self) -> nat {
        self.next as nat
    }

    /// The text of the last executor that passed the record on.
    pub closed spec fn spec_last(&self) -> Option<Seq<char>> {
        match self.last {
            Some(t) => Some(t@),
            None => None,
        }
    }

    /// A delivery that has not looked at any configuration.
    pub fn new() -> (out: Self)
        ensures
            out.spec_next() == 0,
            out.spec_last() is None,
    {
        SendCursor { next: 0, last: None }
    }

    /// The next step: the next configuration in turn, and once there is no
    /// more, a failure that may be tried again, with the text of the last
    /// executor that passed the record on.
    pub fn step(&mut self, configs: &Vec<u64>) -> (out: SendStep)
        ensures
            final(self).spec_last() == old(self).spec_last(),
            out@ == if old(self).spec_next() < configs@.len() {
                SendStepView::Try { config: configs@[old(self).spec_next() as int] }
            } else {
                SendStepView::Done {
                    status: SenderTaskStatus::Failed(true),
                    message: match old(self).spec_last() {
                        Some(t) => t,
                        None => no_config_text(),
                    },
                }
            },
            final(self).spec_next() == if old(self).spec_next() < configs@.len() {
                old(self).spec_next() + 1
            } else {
                old(self).spec_next()
            },
    {
        if self.next < configs.len() {
            let config = configs[self.next];
            self.next = self.next + 1;
            SendStep::Try { config }
        } else {
            let message = match &self.last {
                Some(t) => t.clone(),
                None => String::from_str("not find config"),
            };
            SendStep::Done { status: SenderTaskStatus::Failed(true), message }
        }
    }

    /// Takes in what the executor answered for the configuration that was
    /// tried. An answer that passes the record on is kept for the end, and
    /// the delivery goes on; any other ends it.
    pub fn answer(&mut self, answer: Result<SenderTaskResultItem, SenderExecError>) -> (out: Option<
        (SenderTaskStatus, String),
    >)
        ensures
            final(self).spec_next() == old(self).spec_next(),
            match answer {
                Err(SenderExecError::Next(m)) => out is None && final(self).spec_last() == Some(
                    m@,
                ),
                _ => final(self).spec_last() == old(self).spec_last() && match out {
                    Some(o) => (o.0, o.1@) == outcome_of(answer),
                    None => false,
                },
            },
    {
        match answer {
            Err(SenderExecError::Next(m)) => {
                self.last = Some(m);
                None
            },
            other => Some(exec_outcome(other)),
        }
    }
}

/// What became of a record at one configuration: the executor before and
/// after, how many sends it allows at once, and what it answered, or `None`
/// where it was not called because that many sends were running.
pub ghost struct SendTry<E> {
    pub before: E,
    pub after: E,
    pub limit: u16,
    pub answer: Option<Result<SenderTaskResultItem, SenderExecError>>,
}

/// Whether `t` is what becomes of the record `item` at `config`, with which
/// `load` sends are running: the executor is called, and answers, unless it
/// allows no more sends than are running.
pub open spec fn is_try<E: SenderTaskExecutor>(
    t: SendTry<E>,
    item: MessageView,
    config: u64,
    load: u16,
) -> bool {
    &&& t.before.allows(config, t.limit)
    &&& match t.answer {
        None => load >= effective_limit(t.limit) && t.after == t.before,
        Some(a) => load < effective_limit(t.limit) && E::answers(
            t.before,
            item,
            config,
            t.after,
            a,
        ),
    }
}

/// Whether the record goes on to the next configuration: this one was
/// busy, or its executor passed the record on.
pub open spec fn passes_on<E>(t: SendTry<E>) -> bool {
    match t.answer {
        None => true,
        Some(Err(SenderExecError::Next(_))) => true,
        Some(_) => false,
    }
}

/// Whether `tries` is what has become of the record `item` so far, one
/// entry for each configuration that it came to: the configurations are
/// taken in the order of `configs`, each finds the executor as the one
/// before left it, and all but the last let the record go on.
pub open spec fn is_open_trace<E: SenderTaskExecutor>(
    tries: Seq<SendTry<E>>,
    start: E,
    end: E,
    item: MessageView,
    configs: Seq<u64>,
    slots: Map<u64, Slot>,
) -> bool {
    &&& tries.len() <= configs.len()
    &&& forall|i: int|
        0 <= i < tries.len() ==> is_try(
            #[trigger] tries[i],
            item,
            configs[i],
            load_of(slots, configs[i]),
        )
    &&& forall|i: int| 0 <= i < tries.len() - 1 ==> passes_on(#[trigger] tries[i])
    &&& tries.len() > 0 ==> tries[0].before == start
    &&& forall|i: int, j: int|
        0 <= i && j == i + 1 && j < tries.len() ==> (#[trigger] tries[j]).before == (
        #[trigger] tries[i]).after
    &&& end == if tries.len() > 0 {
        tries.last().after
    } else {
        start
    }
}

/// Whether `tries` is all that becomes of the record `item`: it goes on
/// until an executor decides or no configuration is left.
pub open spec fn is_send_trace<E: SenderTaskExecutor>(
    tries: Seq<SendTry<E>>,
    start: E,
    end: E,
    item: MessageView,
    configs: Seq<u64>,
    slots: Map<u64, Slot>,
) -> bool {
    &&& is_open_trace(tries, start, end, item, configs, slots)
    &&& tries.len() < configs.len() ==> tries.len() > 0 && !passes_on(tries.last())
}

/// One more configuration that the record comes to.
proof fn lemma_push_try<E: SenderTaskExecutor>(
    tries: Seq<SendTry<E>>,
    t: SendTry<E>,
    start: E,
    item: MessageView,
    configs: Seq<u64>,
    slots: Map<u64, Slot>,
)
    requires
        is_open_trace(tries, start, t.before, item, configs, slots),
        tries.len() > 0 ==> passes_on(tries.last()),
        tries.len() < configs.len(),
        is_try(t, item, configs[tries.len() as int], load_of(slots, configs[tries.len() as int])),
    ensures
        is_open_trace(tries.push(t), start, t.after, item, configs, slots),
        last_refusal(tries.push(t)) == match t.answer {
            Some(Err(SenderExecError::Next(m))) => Some(m@),
            _ => last_refusal(tries),
        },
{
    let all = tries.push(t);
    assert(all.drop_last() =~= tries);
    assert forall|i: int| 0 <= i < all.len() implies is_try(
        #[trigger] all[i],
        item,
        configs[i],
        load_of(slots, configs[i]),
    ) by {
        if i < tries.len() {
            assert(all[i] == tries[i]);
        }
    }
    assert forall|i: int| 0 <= i < all.len() - 1 implies passes_on(#[trigger] all[i]) by {
        assert(all[i] == tries[i]);
    }
    assert forall|i: int, j: int| 0 <= i && j == i + 1 && j < all.len() implies (
    #[trigger] all[j]).before == (#[trigger] all[i]).after by {
        assert(all[i] == tries[i]);
        if j < tries.len() {
            assert(all[j] == tries[j]);
        }
    }
}

/// The text of the last executor that passed the record on.
pub open spec fn last_refusal<E>(tries: Seq<SendTry<E>>) -> Option<Seq<char>>
    decreases tries.len(),
{
    if tries.len() == 0 {
        None
    } else {
        match tries.last().answer {
            Some(Err(SenderExecError::Next(m))) => Some(m@),
            _ => last_refusal(tries.drop_last()),
        }
    }
}

/// What the delivery of a record comes to: what the executor that decided
/// answered; and where none decided, a failure that may be tried again, with
/// the text of the last executor that passed the record on.
pub open spec fn trace_verdict<E>(tries: Seq<SendTry<E>>) -> (SenderTaskStatus, Seq<char>) {
    if tries.len() > 0 && !passes_on(tries.last()) {
        outcome_of(tries.last().answer->0)
    } else {
        (
            SenderTaskStatus::Failed(true),
            match last_refusal(tries) {
                Some(t) => t,
                None => no_config_text(),
            },
        )
    }
}

/// Whether the delivery of the record `item` took the executor from `start`
/// to `end` and came to `status` with the text `said`.
pub open spec fn was_answered<E: SenderTaskExecutor>(
    start: E,
    end: E,
    item: MessageView,
    configs: Seq<u64>,
    slots: Map<u64, Slot>,
    status: SenderTaskStatus,
    said: Seq<char>,
) -> bool {
    exists|tries: Seq<SendTry<E>>|
        #[trigger] is_send_trace(tries, start, end, item, configs, slots) && (status, said)
            == trace_verdict(tries)
}

/// Whether a send may start depends only on how many are running.
pub proof fn lemma_admits(slots: Map<u64, Slot>, config: u64, k: u16)
    ensures
        admits(slots, config, k) == (load_of(slots, config) < effective_limit(k)),
{
}

/// A delivery depends on the counters only through the sends that run.
pub proof fn lemma_same_load_answered<E: SenderTaskExecutor>(
    start: E,
    end: E,
    item: MessageView,
    configs: Seq<u64>,
    a: Map<u64, Slot>,
    b: Map<u64, Slot>,
    status: SenderTaskStatus,
    said: Seq<char>,
)
    requires
        same_load(a, b),
        was_answered(start, end, item, configs, b, status, said),
    ensures
        was_answered(start, end, item, configs, a, status, said),
{
    let tries = choose|tries: Seq<SendTry<E>>|
        #[trigger] is_send_trace(tries, start, end, item, configs, b) && (status, said)
            == trace_verdict(tries);
    assert forall|i: int| 0 <= i < tries.len() implies is_try(
        #[trigger] tries[i],
        item,
        configs[i],
        load_of(a, configs[i]),
    ) by {
        assert(load_of(b, configs[i]) == load_of(a, configs[i]));
    }
    assert(is_send_trace(tries, start, end, item, configs, a));
}

/// Delivers one record: with the first of `configs` that has a send to
/// spare and whose executor does not pass the record on to the next.
///
/// Where no configuration takes the record, the send has failed and may be
/// tried again, with the text of the last executor that passed it on.
pub fn send_one<E: SenderTaskExecutor>(
    exec: &mut E,
    slots: &mut ConfigSlots,
    item: &Message,
    configs: &Vec<u64>,
) -> (out: (SenderTaskStatus, String))
    requires
        old(slots).wf(),
    ensures
        final(slots).wf(),
        same_load(old(slots)@, final(slots)@),
        was_answered(*old(exec), *final(exec), item@, configs@, old(slots)@, out.0, out.1@),
        configs@.len() == 0 ==> out.0 == SenderTaskStatus::Failed(true) && out.1@
            == no_config_text() && *final(exec) == *old(exec),
{
    let mut cursor = SendCursor::new();
    let ghost start = slots@;
    let ghost first = *exec;
    let ghost mut tries: Seq<SendTry<E>> = Seq::empty();
    loop
        invariant
            slots.wf(),
            start == old(slots)@,
            first == *old(exec),
            same_load(start, slots@),
            cursor.spec_next() == tries.len(),
            cursor.spec_last() == last_refusal(tries),
            is_open_trace(tries, first, *exec, item@, configs@, start),
            tries.len() > 0 ==> passes_on(tries.last()),
        decreases configs@.len() - cursor.spec_next(),
    {
        match cursor.step(configs) {
            SendStep::Done { status, message } => {
                proof {
                    assert(is_send_trace(tries, first, *exec, item@, configs@, start));
                    assert((status, message@) == trace_verdict(tries));
                }
                return (status, message);
            },
            SendStep::Try { config } => {
                let ghost before = *exec;
                let ghost old_tries = tries;
                let k = exec.limit(config);
                let ghost mid = slots@;
                proof {
                    lemma_admits(mid, config, k);
                    assert(load_of(mid, config) == load_of(start, config));
                }
                if slots.try_begin(config, k) {
                    let answer = exec.exec(item, config);
                    slots.end(config);
                    proof {
                        lemma_load_back(mid, config, k);
                        let t = SendTry { before, after: *exec, limit: k, answer: Some(answer) };
                        lemma_push_try(old_tries, t, first, item@, configs@, start);
                        tries = old_tries.push(t);
                    }
                    match cursor.answer(answer) {
                        Some(out) => {
                            proof {
                                assert(tries.last().answer == Some(answer));
                                assert(!passes_on(tries.last()));
                                assert(is_send_trace(tries, first, *exec, item@, configs@, start));
                                assert((out.0, out.1@) == trace_verdict(tries));
                            }
                            return out;
                        },
                        None => {
                            proof {
                                assert(tries.last().answer == Some(answer));
                            }
                        },
                    }
                } else {
                    proof {
                        let t = SendTry { before, after: before, limit: k, answer: None };
                        lemma_push_try(old_tries, t, first, item@, configs@, start);
                        tries = old_tries.push(t);
                    }
                }
            },
        }
    }
}

/// What a dispatch loop did with one batch.
pub struct BatchReport {
    /// The ids of the records that went to an executor, in that order.
    pub executed: Vec<u64>,
    /// The events for the completion channel.
    pub events: Vec<WaitEvent>,
    /// Whether the lease was lost before the batch was through.
    pub lease_lost: bool,
}

/// Whether `after` is the record `before` once it was taken for a send and
/// the send's outcome was written down at `now`.
pub open spec fn was_sent(before: MessageView, after: MessageView, now: u64, retry_delay: u64) -> bool {
    exists|outcome: SenderTaskStatus|
        after == #[trigger] finalized(before.claimed(), outcome, now, retry_delay)
}

/// Whether the record with the id `id` is among those that were executed.
pub open spec fn was_executed(executed: Seq<u64>, id: u64) -> bool {
    executed.contains(id)
}

/// The ids of the records of a batch, in order.
pub open spec fn ids_of(batch: Seq<MessageView>) -> Seq<u64> {
    batch.map_values(|m: MessageView| m.id)
}

/// Whether the store went from `before` to `after` by sending the records
/// `executed` and nothing else: every record stays where it is, one that was
/// executed stands as its send left it, and every other is untouched.
pub open spec fn only_sent(
    before: StoreView,
    after: StoreView,
    executed: Seq<u64>,
    now: u64,
    retry_delay: u64,
) -> bool {
    &&& after.messages.len() == before.messages.len()
    &&& after.next_id == before.next_id
    &&& forall|j: int|
        0 <= j < before.messages.len() ==> if was_executed(
            executed,
            (#[trigger] before.messages[j]).id,
        ) {
            was_sent(before.messages[j], after.messages[j], now, retry_delay)
        } else {
            after.messages[j] == before.messages[j]
        }
}

/// Whether the record at `j` is the one whose outcome the event `e` tells:
/// it has the event's id, stands in the terminal status that the event names,
/// and is one whose caller may be waiting.
pub open spec fn is_told_by(msgs: Seq<MessageView>, e: WaitEvent, j: int) -> bool {
    &&& 0 <= j < msgs.len()
    &&& msgs[j].id == e.message_id
    &&& msgs[j].status == e.outcome.status
    &&& msgs[j].status.is_terminal()
    &&& is_awaited(msgs[j])
}

/// Whether one of `events` is about the record `id`.
pub open spec fn has_event(events: Seq<WaitEvent>, id: u64) -> bool {
    exists|k: int| 0 <= k < events.len() && (#[trigger] events[k]).message_id == id
}

/// Whether `events` tell what callers may be waiting for, no more and no
/// less: each event tells the outcome of a record as it stands in `msgs`,
/// and every record that was executed, has reached a terminal status and
/// may be waited for has its event.
pub open spec fn events_tell(
    msgs: Seq<MessageView>,
    executed: Seq<u64>,
    events: Seq<WaitEvent>,
) -> bool {
    &&& forall|k: int|
        0 <= k < events.len() ==> was_executed(executed, (#[trigger] events[k]).message_id)
            && exists|j: int| is_told_by(msgs, events[k], j)
    &&& forall|j: int|
        0 <= j < msgs.len() && was_executed(executed, (#[trigger] msgs[j]).id)
            && msgs[j].status.is_terminal() && is_awaited(msgs[j]) ==> has_event(
            events,
            msgs[j].id,
        )
}

proof fn lemma_update_at(s: StoreView, j: int, f: spec_fn(MessageView) -> MessageView)
    requires
        s.wf(),
        0 <= j < s.messages.len(),
    ensures
        update(s.messages, s.messages[j].id, f) == s.messages.update(j, f(s.messages[j])),
{
    lemma_lookup(s.messages, s.next_id, s.logs, j);
    assert(update(s.messages, s.messages[j].id, f) =~= s.messages.update(j, f(s.messages[j])));
}

/// Whether the store went from `before` to `after` by the send of the
/// record at `j` and nothing else.
pub open spec fn sent_at(
    before: StoreView,
    after: StoreView,
    j: int,
    now: u64,
    retry_delay: u64,
) -> bool {
    &&& 0 <= j < before.messages.len()
    &&& after.next_id == before.next_id
    &&& after.messages == before.messages.update(j, after.messages[j])
    &&& was_sent(before.messages[j], after.messages[j], now, retry_delay)
}

/// Whether the record `item`, which stood at `j` in the store `before`, was
/// delivered: the executor went from `start` to `end` and its answer came to
/// `status` with the text `said`, that outcome was written down for the
/// record, nothing else in the store changed, and `event` is what goes to
/// the completion channel.
pub open spec fn delivered_at<E: SenderTaskExecutor>(
    before: StoreView,
    after: StoreView,
    j: int,
    start: E,
    end: E,
    item: MessageView,
    configs: Seq<u64>,
    slots: Map<u64, Slot>,
    now: u64,
    retry_delay: u64,
    event: Option<(u64, MessageStatus, Seq<char>)>,
    status: SenderTaskStatus,
    said: Seq<char>,
) -> bool {
    &&& sent_at(before, after, j, now, retry_delay)
    &&& before.messages[j].id == item.id
    &&& was_answered(start, end, item, configs, slots, status, said)
    &&& after.messages[j] == finalized(before.messages[j].claimed(), status, now, retry_delay)
    &&& after == before.step(StoreOp::Claim { id: item.id }).step(
        mark_of(before.messages[j].claimed(), status, said, now, retry_delay),
    )
    &&& event == completion(after.messages[j], said)
}

/// Delivers the record `item.id` if it waits in the store: the store gives
/// it to the caller, an executor sends it, and what the executor answered is
/// written down. The answer says whether the record went to an executor, and
/// holds the event for the completion channel where there is one.
///
/// A record that does not wait, because it is being sent, was withdrawn or
/// has ended, is left alone, and no executor is called.
pub fn deliver<E: SenderTaskExecutor>(
    store: &mut MessageStore,
    exec: &mut E,
    slots: &mut ConfigSlots,
    item: &Message,
    configs: &Vec<u64>,
    now: u64,
    retry_delay: u64,
) -> (out: (bool, Option<WaitEvent>))
    requires
        old(store).wf(),
        old(slots).wf(),
    ensures
        final(store).wf(),
        final(slots).wf(),
        same_load(old(slots)@, final(slots)@),
        out.0 == match lookup(old(store)@.messages, item.id) {
            Some(m) => m.status == MessageStatus::Pending,
            None => false,
        },
        !out.0 ==> final(store)@ == old(store)@ && out.1 is None && *final(exec) == *old(exec),
        out.0 ==> exists|j: int, status: SenderTaskStatus, said: Seq<char>|
            #[trigger] delivered_at(
                old(store)@,
                final(store)@,
                j,
                *old(exec),
                *final(exec),
                item@,
                configs@,
                old(slots)@,
                now,
                retry_delay,
                event_view(out.1),
                status,
                said,
            ),
{
    let id = item.id;
    let ghost s1 = store@;
    let ghost e1 = *exec;
    let ghost c1 = slots@;
    let taken = store.claim(id);
    if !taken {
        return (false, None);
    }
    let ghost s2 = store@;
    let ghost j = choose|j: int| 0 <= j < s1.messages.len() && (#[trigger] s1.messages[j]).id == id;
    let ghost m = s1.messages[j];
    proof {
        lemma_lookup(s1.messages, s1.next_id, s1.logs, j);
        lemma_update_at(s1, j, |x: MessageView| x.claimed());
        assert(s2.messages == s1.messages.update(j, m.claimed()));
        lemma_lookup(s2.messages, s2.next_id, s2.logs, j);
    }
    let (outcome, text) = send_one(exec, slots, item, configs);
    proof {
        lemma_update_at(
            s2,
            j,
            |x: MessageView|
                x.marked(
                    reported_status(outcome),
                    counted_tries(outcome),
                    retry_time(now, retry_delay, m.claimed().attempt_count),
                ),
        );
    }
    let ghost said = text@;
    let event = finalize(store, id, outcome, text, now, retry_delay);
    proof {
        let fin = finalized(m.claimed(), outcome, now, retry_delay);
        assert(store@.messages == s2.messages.update(j, fin));
        assert(store@.messages =~= s1.messages.update(j, store@.messages[j]));
        assert(was_sent(s1.messages[j], store@.messages[j], now, retry_delay));
        assert(sent_at(s1, store@, j, now, retry_delay));
        assert(event_view(event) == completion(store@.messages[j], said));
        assert(delivered_at(
            s1,
            store@,
            j,
            e1,
            *exec,
            item@,
            configs@,
            c1,
            now,
            retry_delay,
            event_view(event),
            outcome,
            said,
        ));
    }
    (true, event)
}

/// What one more send does to the account of a batch: the store has gone
/// from `start` by the sends of `executed` and nothing else, then the record
/// at `j` is sent.
proof fn lemma_one_more_sent(
    start: StoreView,
    mid: StoreView,
    end: StoreView,
    executed: Seq<u64>,
    j: int,
    now: u64,
    retry_delay: u64,
)
    requires
        start.wf(),
        only_sent(start, mid, executed, now, retry_delay),
        sent_at(mid, end, j, now, retry_delay),
        !was_executed(executed, start.messages[j].id),
    ensures
        only_sent(start, end, executed.push(start.messages[j].id), now, retry_delay),
{
    let id = start.messages[j].id;
    let all = executed.push(id);
    assert(mid.messages[j] == start.messages[j]);
    assert(all[executed.len() as int] == id);
    lemma_lookup(start.messages, start.next_id, start.logs, j);
    assert forall|k: int| 0 <= k < start.messages.len() implies if was_executed(
        all,
        (#[trigger] start.messages[k]).id,
    ) {
        was_sent(start.messages[k], end.messages[k], now, retry_delay)
    } else {
        end.messages[k] == start.messages[k]
    } by {
        if k != j {
            assert(end.messages[k] == mid.messages[k]);
            if was_executed(all, start.messages[k].id) {
                let q = choose|q: int| 0 <= q < all.len() && all[q] == start.messages[k].id;
                assert(q < executed.len());
                assert(executed[q] == start.messages[k].id);
                assert(was_executed(executed, start.messages[k].id));
            } else if was_executed(executed, start.messages[k].id) {
                let q = choose|q: int|
                    0 <= q < executed.len() && executed[q] == start.messages[k].id;
                assert(all[q] == start.messages[k].id);
            }
        }
    }
}

/// What one more send does to the events of a batch.
proof fn lemma_one_more_told(
    mid: StoreView,
    end: StoreView,
    executed: Seq<u64>,
    events: Seq<WaitEvent>,
    after: Seq<WaitEvent>,
    j: int,
    said: Seq<char>,
)
    requires
        mid.wf(),
        0 <= j < mid.messages.len(),
        end.messages == mid.messages.update(j, end.messages[j]),
        end.messages[j].id == mid.messages[j].id,
        !was_executed(executed, mid.messages[j].id),
        events_tell(mid.messages, executed, events),
        match completion(end.messages[j], said) {
            Some(c) => after.len() == events.len() + 1 && after.take(events.len() as int)
                == events && event_view(Some(after.last())) == Some(c),
            None => after == events,
        },
    ensures
        events_tell(end.messages, executed.push(mid.messages[j].id), after),
{
    let id = mid.messages[j].id;
    let all = executed.push(id);
    assert(all[executed.len() as int] == id);
    lemma_lookup(mid.messages, mid.next_id, mid.logs, j);
    assert forall|k: int| 0 <= k < after.len() implies was_executed(
        all,
        (#[trigger] after[k]).message_id,
    ) && exists|w: int| is_told_by(end.messages, after[k], w) by {
        if k < events.len() {
            assert(after[k] == after.take(events.len() as int)[k]);
            assert(after[k] == events[k]);
            let q = choose|q: int| 0 <= q < executed.len() && executed[q] == events[k].message_id;
            assert(all[q] == after[k].message_id);
            let w = choose|w: int| is_told_by(mid.messages, events[k], w);
            assert(w != j);
            assert(end.messages[w] == mid.messages[w]);
            assert(is_told_by(end.messages, after[k], w));
        } else {
            assert(after[k] == after.last());
            assert(is_told_by(end.messages, after[k], j));
        }
    }
    assert forall|w: int|
        0 <= w < end.messages.len() && was_executed(all, (#[trigger] end.messages[w]).id)
            && end.messages[w].status.is_terminal() && is_awaited(
            end.messages[w],
        ) implies has_event(after, end.messages[w].id) by {
        if w == j {
            assert(after[events.len() as int].message_id == id);
        } else {
            assert(end.messages[w] == mid.messages[w]);
            let q = choose|q: int| 0 <= q < all.len() && all[q] == end.messages[w].id;
            assert(q < executed.len());
            assert(executed[q] == mid.messages[w].id);
            assert(was_executed(executed, mid.messages[w].id));
            assert(has_event(events, mid.messages[w].id));
            let k = choose|k: int|
                0 <= k < events.len() && (#[trigger] events[k]).message_id == mid.messages[w].id;
            if after.len() > events.len() {
                assert(after[k] == after.take(events.len() as int)[k]);
            }
            assert(after[k].message_id == end.messages[w].id);
        }
    }
}

/// The record of a batch at `i` has not been sent while those before it
/// were: the ids of a batch are all different. It stands in the store at the
/// place that the lemma hands out.
proof fn lemma_next_of_batch(
    start: StoreView,
    channel: SenderType,
    now: u64,
    limit: nat,
    batch: Seq<MessageView>,
    i: int,
) -> (j: int)
    requires
        start.wf(),
        is_due_batch(start.messages, channel, now, limit, batch),
        0 <= i < batch.len(),
    ensures
        0 <= j < start.messages.len(),
        start.messages[j] == batch[i],
        !was_executed(ids_of(batch).take(i), batch[i].id),
        lookup(start.messages, batch[i].id) == Some(batch[i]),
        batch[i].status == MessageStatus::Pending,
{
    assert(start.messages.contains(batch[i]) && batch[i].is_due(channel, now));
    let j = choose|j: int| 0 <= j < start.messages.len() && start.messages[j] == batch[i];
    lemma_lookup(start.messages, start.next_id, start.logs, j);
    let before = ids_of(batch).take(i);
    if before.contains(batch[i].id) {
        let k = choose|k: int| 0 <= k < before.len() && before[k] == batch[i].id;
        assert(before[k] == batch[k].id);
        assert(batch[k].before(batch[i]));
        assert(start.messages.contains(batch[k]));
        let jk = choose|jk: int| 0 <= jk < start.messages.len() && start.messages[jk] == batch[k];
        assert(jk == j);
    }
    j
}

/// Whether the record `m` went to the executor, which answered with the
/// outcome `verdict` and went from `start` to `end`, and that outcome was
/// written down for the record in `msgs`.
pub open spec fn record_sent<E: SenderTaskExecutor>(
    msgs: Seq<MessageView>,
    m: MessageView,
    start: E,
    end: E,
    verdict: (SenderTaskStatus, Seq<char>),
    configs: Seq<u64>,
    slots: Map<u64, Slot>,
    now: u64,
    retry_delay: u64,
) -> bool {
    &&& was_answered(start, end, m, configs, slots, verdict.0, verdict.1)
    &&& lookup(msgs, m.id) == Some(finalized(m.claimed(), verdict.0, now, retry_delay))
}

/// What the store holds after the first `n` records of `batch` were
/// delivered with the outcomes `verdicts`: each was taken for a send, and
/// its outcome written down, one record after the other.
pub open spec fn store_after(
    before: StoreView,
    batch: Seq<MessageView>,
    verdicts: Seq<(SenderTaskStatus, Seq<char>)>,
    n: nat,
    now: u64,
    retry_delay: u64,
) -> StoreView
    decreases n,
{
    if n == 0 {
        before
    } else {
        let k = (n - 1) as nat;
        store_after(before, batch, verdicts, k, now, retry_delay).step(
            StoreOp::Claim { id: batch[k as int].id },
        ).step(
            mark_of(batch[k as int].claimed(), verdicts[k as int].0, verdicts[k as int].1, now, retry_delay),
        )
    }
}

/// Outcomes that come later change nothing of what the store holds after
/// the records before.
proof fn lemma_store_after_prefix(
    before: StoreView,
    batch: Seq<MessageView>,
    verdicts: Seq<(SenderTaskStatus, Seq<char>)>,
    more: (SenderTaskStatus, Seq<char>),
    n: nat,
    now: u64,
    retry_delay: u64,
)
    requires
        n <= verdicts.len(),
    ensures
        store_after(before, batch, verdicts.push(more), n, now, retry_delay) == store_after(
            before,
            batch,
            verdicts,
            n,
            now,
            retry_delay,
        ),
    decreases n,
{
    if n > 0 {
        lemma_store_after_prefix(before, batch, verdicts, more, (n - 1) as nat, now, retry_delay);
        assert(verdicts.push(more)[n - 1] == verdicts[n - 1]);
    }
}

/// Whether `execs` and `verdicts` account for the first `n` records of
/// `batch`: the executor went from `start` through `execs` to `end`, one
/// record after the other, what it answered for each is what stands written
/// for that record, and the store went from `before` to `after` by these
/// deliveries and nothing else.
#[verifier::opaque]
pub open spec fn is_account<E: SenderTaskExecutor>(
    execs: Seq<E>,
    verdicts: Seq<(SenderTaskStatus, Seq<char>)>,
    batch: Seq<MessageView>,
    n: nat,
    start: E,
    end: E,
    before: StoreView,
    after: StoreView,
    configs: Seq<u64>,
    slots: Map<u64, Slot>,
    now: u64,
    retry_delay: u64,
) -> bool {
    &&& execs.len() == n + 1
    &&& verdicts.len() == n
    &&& n <= batch.len()
    &&& execs[0] == start
    &&& execs[n as int] == end
    &&& after == store_after(before, batch, verdicts, n, now, retry_delay)
    &&& forall|k: int|
        0 <= k < n ==> record_sent(
            after.messages,
            #[trigger] batch[k],
            execs[k],
            execs[k + 1],
            verdicts[k],
            configs,
            slots,
            now,
            retry_delay,
        )
}

/// Whether the first `n` records of `batch` are accounted for: each went to
/// the executor, one after the other, what the executor answered for it is
/// what stands written for it, and the store went from `before` to `after`
/// by these deliveries and nothing else.
pub open spec fn is_accounted<E: SenderTaskExecutor>(
    batch: Seq<MessageView>,
    n: nat,
    start: E,
    end: E,
    before: StoreView,
    after: StoreView,
    configs: Seq<u64>,
    slots: Map<u64, Slot>,
    now: u64,
    retry_delay: u64,
) -> bool {
    exists|execs: Seq<E>, verdicts: Seq<(SenderTaskStatus, Seq<char>)>|
        #[trigger] is_account(
            execs,
            verdicts,
            batch,
            n,
            start,
            end,
            before,
            after,
            configs,
            slots,
            now,
            retry_delay,
        )
}

/// What an account says, spelled out.
pub proof fn lemma_account<E: SenderTaskExecutor>(
    execs: Seq<E>,
    verdicts: Seq<(SenderTaskStatus, Seq<char>)>,
    batch: Seq<MessageView>,
    n: nat,
    start: E,
    end: E,
    before: StoreView,
    after: StoreView,
    configs: Seq<u64>,
    slots: Map<u64, Slot>,
    now: u64,
    retry_delay: u64,
)
    requires
        is_account(
            execs,
            verdicts,
            batch,
            n,
            start,
            end,
            before,
            after,
            configs,
            slots,
            now,
            retry_delay,
        ),
    ensures
        execs.len() == n + 1,
        verdicts.len() == n,
        n <= batch.len(),
        execs[0] == start,
        execs[n as int] == end,
        after == store_after(before, batch, verdicts, n, now, retry_delay),
        forall|k: int|
            0 <= k < n ==> record_sent(
                after.messages,
                #[trigger] batch[k],
                execs[k],
                execs[k + 1],
                verdicts[k],
                configs,
                slots,
                now,
                retry_delay,
            ),
{
    reveal(is_account);
}

/// Before any record is delivered, nothing is to be accounted for.
proof fn lemma_account_start<E: SenderTaskExecutor>(
    batch: Seq<MessageView>,
    start: E,
    before: StoreView,
    configs: Seq<u64>,
    slots: Map<u64, Slot>,
    now: u64,
    retry_delay: u64,
)
    ensures
        is_account(
            seq![start],
            Seq::<(SenderTaskStatus, Seq<char>)>::empty(),
            batch,
            0,
            start,
            start,
            before,
            before,
            configs,
            slots,
            now,
            retry_delay,
        ),
{
    reveal(is_account);
}

/// What one more delivery does to the account of a batch.
proof fn lemma_account_step<E: SenderTaskExecutor>(
    execs: Seq<E>,
    verdicts: Seq<(SenderTaskStatus, Seq<char>)>,
    batch: Seq<MessageView>,
    n: nat,
    start: E,
    cur: E,
    end: E,
    first: StoreView,
    mid: StoreView,
    after: StoreView,
    j: int,
    configs: Seq<u64>,
    slots: Map<u64, Slot>,
    now: u64,
    retry_delay: u64,
    status: SenderTaskStatus,
    said: Seq<char>,
)
    requires
        mid.wf(),
        after.wf(),
        is_account(execs, verdicts, batch, n, start, cur, first, mid, configs, slots, now, retry_delay),
        n < batch.len(),
        sent_at(mid, after, j, now, retry_delay),
        mid.messages[j] == batch[n as int],
        forall|k: int| 0 <= k < n ==> (#[trigger] batch[k]).id != batch[n as int].id,
        was_answered(cur, end, batch[n as int], configs, slots, status, said),
        after.messages[j] == finalized(batch[n as int].claimed(), status, now, retry_delay),
        after == mid.step(StoreOp::Claim { id: batch[n as int].id }).step(
            mark_of(batch[n as int].claimed(), status, said, now, retry_delay),
        ),
    ensures
        is_account(
            execs.push(end),
            verdicts.push((status, said)),
            batch,
            n + 1,
            start,
            end,
            first,
            after,
            configs,
            slots,
            now,
            retry_delay,
        ),
{
    reveal(is_account);
    let execs2 = execs.push(end);
    let verdicts2 = verdicts.push((status, said));
    lemma_store_after_prefix(first, batch, verdicts, (status, said), n, now, retry_delay);
    assert(verdicts2[n as int] == (status, said));
    assert(after == store_after(first, batch, verdicts2, n + 1, now, retry_delay));
    assert(after.messages[j].id == mid.messages[j].id);
    assert forall|k: int| 0 <= k < n + 1 implies record_sent(
        after.messages,
        #[trigger] batch[k],
        execs2[k],
        execs2[k + 1],
        verdicts2[k],
        configs,
        slots,
        now,
        retry_delay,
    ) by {
        if k < n {
            assert(record_sent(
                mid.messages,
                batch[k],
                execs[k],
                execs[k + 1],
                verdicts[k],
                configs,
                slots,
                now,
                retry_delay,
            ));
            let id = batch[k].id;
            let w = choose|w: int| 0 <= w < mid.messages.len() && (#[trigger] mid.messages[w]).id == id;
            lemma_lookup(mid.messages, mid.next_id, mid.logs, w);
            assert(w != j);
            assert(after.messages[w] == mid.messages[w]);
            lemma_lookup(after.messages, after.next_id, after.logs, w);
        } else {
            lemma_lookup(after.messages, after.next_id, after.logs, j);
        }
    }
}

/// How many records of a batch of `n` go to an executor while `holder`
/// works with the lease over `queue`: none where it does not hold the queue
/// at `now`, all of them where each send extends the lease by `ttl` seconds,
/// and only the first where the lease is extended by no time at all, so that
/// it has run out when the second record is due.
pub open spec fn sends_allowed(
    leases: Leases,
    queue: Seq<char>,
    holder: Seq<char>,
    ttl: u64,
    now: u64,
    n: nat,
) -> nat {
    if !extends(leases, queue, holder, now) {
        0
    } else if ttl > 0 || n == 0 {
        n
    } else {
        1
    }
}

/// The leases after a batch of `n` records: the lease of `holder` was
/// extended if there was a record to send.
pub open spec fn lease_after_batch(
    leases: Leases,
    queue: Seq<char>,
    holder: Seq<char>,
    ttl: u64,
    now: u64,
    n: nat,
) -> Leases {
    if n > 0 {
        renewed(leases, queue, holder, ttl, now)
    } else {
        leases
    }
}

/// Works through the records that are due on the queue of `channel` at
/// `now`, at most `limit` of them and in the order of the queue.
///
/// Before each send the lease of `holder` over `queue` is extended; where
/// that fails, the lease is lost and no further send is started. A holder
/// that holds the queue at `now` and extends its lease by more than no time
/// sends the whole batch. A record goes to an executor only after the store
/// has given it to this loop, and what comes back is written down before the
/// next record is taken: no record is left as being sent.
pub fn run_batch<E: SenderTaskExecutor>(
    store: &mut MessageStore,
    lease: &mut LeaseCoordinator,
    queue: &str,
    holder: &str,
    ttl: u64,
    exec: &mut E,
    slots: &mut ConfigSlots,
    configs: &Vec<u64>,
    channel: SenderType,
    now: u64,
    limit: usize,
    retry_delay: u64,
) -> (report: BatchReport)
    requires
        old(store).wf(),
        old(lease).wf(),
        old(slots).wf(),
    ensures
        final(store).wf(),
        final(lease).wf(),
        final(slots).wf(),
        same_load(old(slots)@, final(slots)@),
        only_sent(old(store)@, final(store)@, report.executed@, now, retry_delay),
        exists|batch: Seq<MessageView>|
            {
                &&& #[trigger] is_due_batch(old(store)@.messages, channel, now, limit as nat, batch)
                &&& report.executed@ == ids_of(batch).take(report.executed@.len() as int)
                &&& report.executed@.len() == sends_allowed(
                    old(lease)@,
                    queue@,
                    holder@,
                    ttl,
                    now,
                    batch.len(),
                )
                &&& report.lease_lost == (report.executed@.len() < batch.len())
                &&& final(lease)@ == lease_after_batch(
                    old(lease)@,
                    queue@,
                    holder@,
                    ttl,
                    now,
                    batch.len(),
                )
                &&& is_accounted(
                    batch,
                    report.executed@.len(),
                    *old(exec),
                    *final(exec),
                    old(store)@,
                    final(store)@,
                    configs@,
                    old(slots)@,
                    now,
                    retry_delay,
                )
            },
        extends(old(lease)@, queue@, holder@, now) && ttl > 0 ==> !report.lease_lost,
        !extends(old(lease)@, queue@, holder@, now) ==> report.executed@.len() == 0,
        events_tell(final(store)@.messages, report.executed@, report.events@),
{
    let ghost s0 = store@;
    let ghost l0 = lease@;
    let ghost c0 = slots@;
    let batch = store.due_pending(channel, now, limit);
    let ghost bv = views(batch@);
    let mut executed: Vec<u64> = Vec::new();
    let mut events: Vec<WaitEvent> = Vec::new();
    let mut lost = false;
    let mut i: usize = 0;
    let ghost e0 = *exec;
    let ghost mut execs: Seq<E> = seq![e0];
    let ghost mut verdicts: Seq<(SenderTaskStatus, Seq<char>)> = Seq::empty();
    proof {
        assert(ids_of(bv).take(0) =~= executed@);
        lemma_account_start(bv, e0, s0, configs@, c0, now, retry_delay);
    }
    while i < batch.len() && !lost
        invariant
            i <= batch@.len(),
            e0 == *old(exec),
            c0 == old(slots)@,
            is_account(
                execs,
                verdicts,
                bv,
                i as nat,
                e0,
                *exec,
                s0,
                store@,
                configs@,
                c0,
                now,
                retry_delay,
            ),
            bv == views(batch@),
            s0.wf(),
            store.wf(),
            lease.wf(),
            slots.wf(),
            same_load(c0, slots@),
            is_due_batch(s0.messages, channel, now, limit as nat, bv),
            only_sent(s0, store@, executed@, now, retry_delay),
            executed@ == ids_of(bv).take(executed@.len() as int),
            executed@.len() == i,
            lease@ == lease_after_batch(
                l0,
                queue@,
                holder@,
                ttl,
                now,
                if lost {
                    1nat
                } else {
                    i as nat
                },
            ),
            i > 0 ==> extends(l0, queue@, holder@, now) && (ttl > 0 || i == 1),
            lost ==> i < batch@.len(),
            lost ==> if extends(l0, queue@, holder@, now) {
                ttl == 0 && i == 1
            } else {
                i == 0
            },
            events_tell(store@.messages, executed@, events@),
        decreases batch@.len() - i + (if lost { 0int } else { 1int }),
    {
        let ghost lease_before = lease@;
        let kept = lease.renew(queue, holder, ttl, now);
        proof {
            assert(lease@ =~= renewed(l0, queue@, holder@, ttl, now));
        }
        if !kept {
            lost = true;
        } else {
            let ghost s1 = store@;
            let ghost before = executed@;
            let ghost told = events@;
            let ghost j = lemma_next_of_batch(s0, channel, now, limit as nat, bv, i as int);
            proof {
                assert(bv[i as int] == batch@[i as int]@);
                assert(s1.messages[j] == s0.messages[j]);
                lemma_lookup(s1.messages, s1.next_id, s1.logs, j);
            }
            let ghost e1 = *exec;
            let ghost c1 = slots@;
            let (taken, event) = deliver(store, exec, slots, &batch[i], configs, now, retry_delay);
            assert(taken);
            let ghost s3 = store@;
            executed.push(batch[i].id);
            match event {
                Some(e) => {
                    events.push(e);
                },
                None => {},
            }
            proof {
                let (w, status, said) = choose|w: int, status: SenderTaskStatus, said: Seq<char>|
                    #[trigger] delivered_at(
                        s1,
                        s3,
                        w,
                        e1,
                        *exec,
                        batch@[i as int]@,
                        configs@,
                        c1,
                        now,
                        retry_delay,
                        event_view(event),
                        status,
                        said,
                    );
                assert(w == j);
                assert(executed@ =~= before.push(s0.messages[j].id));
                assert(executed@ =~= ids_of(bv).take(executed@.len() as int)) by {
                    assert(ids_of(bv)[i as int] == bv[i as int].id);
                }
                lemma_one_more_sent(s0, s1, s3, before, j, now, retry_delay);
                assert(events@.take(told.len() as int) =~= told);
                lemma_one_more_told(s1, s3, before, told, events@, j, said);
                lemma_same_load_answered(
                    e1,
                    *exec,
                    bv[i as int],
                    configs@,
                    c0,
                    c1,
                    status,
                    said,
                );
                assert forall|k: int| 0 <= k < i implies (#[trigger] bv[k]).id != bv[i as int].id by {
                    assert(ids_of(bv).take(i as int)[k] == bv[k].id);
                }
                lemma_account_step(
                    execs,
                    verdicts,
                    bv,
                    i as nat,
                    e0,
                    e1,
                    *exec,
                    s0,
                    s1,
                    s3,
                    j,
                    configs@,
                    c0,
                    now,
                    retry_delay,
                    status,
                    said,
                );
                execs = execs.push(*exec);
                verdicts = verdicts.push((status, said));
            }
            i += 1;
        }
    }
    proof {
        let n = bv.len();
        assert(executed@.len() == sends_allowed(l0, queue@, holder@, ttl, now, n));
        assert(lost == (executed@.len() < n));
        assert(lease@ == lease_after_batch(l0, queue@, holder@, ttl, now, n));
        assert(is_due_batch(s0.messages, channel, now, limit as nat, bv));
        assert(is_account(
            execs,
            verdicts,
            bv,
            executed@.len(),
            e0,
            *exec,
            s0,
            store@,
            configs@,
            c0,
            now,
            retry_delay,
        ));
        assert(is_accounted(
            bv,
            executed@.len(),
            e0,
            *exec,
            s0,
            store@,
            configs@,
            c0,
            now,
            retry_delay,
        ));
    }
    BatchReport { executed, events, lease_lost: lost }
}

/// Only records that wait go to an executor: a record that was executed in
/// a batch stood in the store as pending and due when the batch was fetched.
/// So a record that was cancelled, or had been sent or had failed for good,
/// is never executed again.
pub proof fn lemma_executed_were_pending(
    store: StoreView,
    channel: SenderType,
    now: u64,
    limit: nat,
    batch: Seq<MessageView>,
    executed: Seq<u64>,
    id: u64,
)
    requires
        store.wf(),
        is_due_batch(store.messages, channel, now, limit, batch),
        executed.len() <= batch.len(),
        executed == ids_of(batch).take(executed.len() as int),
        was_executed(executed, id),
    ensures
        lookup(store.messages, id) is Some,
        lookup(store.messages, id)->0.status == MessageStatus::Pending,
        lookup(store.messages, id)->0.is_due(channel, now),
        !lookup(store.messages, id)->0.status.is_terminal(),
        !lookup(store.messages, id)->0.cancel,
{
    let k = choose|k: int| 0 <= k < executed.len() && executed[k] == id;
    assert(ids_of(batch)[k] == batch[k].id);
    assert(store.messages.contains(batch[k]));
    let j = choose|j: int| 0 <= j < store.messages.len() && store.messages[j] == batch[k];
    lemma_lookup(store.messages, store.next_id, store.logs, j);
    assert(store.messages[j].wf());
}

/// A record that has reached a terminal status goes to no executor again:
/// in a batch it is not among the records that are executed, and it stands
/// after the batch as it stood before.
pub proof fn lemma_terminal_never_sent(
    before: StoreView,
    after: StoreView,
    channel: SenderType,
    now: u64,
    limit: nat,
    batch: Seq<MessageView>,
    executed: Seq<u64>,
    retry_delay: u64,
    j: int,
)
    requires
        before.wf(),
        is_due_batch(before.messages, channel, now, limit, batch),
        executed.len() <= batch.len(),
        executed == ids_of(batch).take(executed.len() as int),
        only_sent(before, after, executed, now, retry_delay),
        0 <= j < before.messages.len(),
        before.messages[j].status.is_terminal(),
    ensures
        !was_executed(executed, before.messages[j].id),
        after.messages[j] == before.messages[j],
{
    let id = before.messages[j].id;
    if was_executed(executed, id) {
        lemma_executed_were_pending(before, channel, now, limit, batch, executed, id);
        lemma_lookup(before.messages, before.next_id, before.logs, j);
    }
}

/// A batch never lowers the count of a record's tries, raises it by at most
/// one, and never lets it pass `max_try_num`; and it leaves no record as
/// being sent that was not so before.
pub proof fn lemma_batch_counts_tries(
    before: StoreView,
    after: StoreView,
    channel: SenderType,
    now: u64,
    limit: nat,
    batch: Seq<MessageView>,
    executed: Seq<u64>,
    retry_delay: u64,
    j: int,
)
    requires
        before.wf(),
        is_due_batch(before.messages, channel, now, limit, batch),
        executed.len() <= batch.len(),
        executed == ids_of(batch).take(executed.len() as int),
        only_sent(before, after, executed, now, retry_delay),
        0 <= j < before.messages.len(),
    ensures
        after.messages[j].id == before.messages[j].id,
        after.messages[j].max_try_num == before.messages[j].max_try_num,
        before.messages[j].attempt_count <= after.messages[j].attempt_count
            <= before.messages[j].attempt_count + 1,
        after.messages[j].attempt_count <= after.messages[j].max_try_num,
        after.messages[j].status == MessageStatus::Sending ==> before.messages[j].status
            == MessageStatus::Sending,
        after.messages[j].wf(),
{
    let m = before.messages[j];
    assert(m.wf());
    if was_executed(executed, m.id) {
        lemma_executed_were_pending(before, channel, now, limit, batch, executed, m.id);
        lemma_lookup(before.messages, before.next_id, before.logs, j);
        let outcome = choose|outcome: SenderTaskStatus|
            after.messages[j] == #[trigger] finalized(m.claimed(), outcome, now, retry_delay);
        assert(m.claimed().wf());
    }
}

/// What one turn of a dispatch loop did.
pub struct RunReport {
    /// Whether the lease was granted. Where it was not, nothing was done.
    pub granted: bool,
    /// How many records the sweep put back on the queue.
    pub swept: usize,
    pub batch: BatchReport,
}

/// Whether a lease of `ttl` seconds that is taken at `now` lasts any time.
pub open spec fn lease_lasts(ttl: u64, now: u64) -> bool {
    ttl > 0 && now < u64::MAX
}

/// One turn of the dispatch loop of `holder` over `queue`: it asks for the
/// lease, sweeps the queue, works through one batch and gives the lease
/// back.
///
/// Where another loop holds the queue, the turn ends at once and no
/// executor is called. Where the lease is granted and lasts any time, every
/// record of the batch goes to an executor; a lease that lasts no time is
/// lost at once, and nothing is sent.
pub fn run_once<E: SenderTaskExecutor>(
    store: &mut MessageStore,
    lease: &mut LeaseCoordinator,
    queue: &str,
    holder: &str,
    ttl: u64,
    exec: &mut E,
    slots: &mut ConfigSlots,
    configs: &Vec<u64>,
    channel: SenderType,
    now: u64,
    limit: usize,
    retry_delay: u64,
) -> (report: RunReport)
    requires
        old(store).wf(),
        old(lease).wf(),
        old(slots).wf(),
    ensures
        final(store).wf(),
        final(lease).wf(),
        final(slots).wf(),
        same_load(old(slots)@, final(slots)@),
        report.granted == grants(old(lease)@, queue@, holder@, now),
        !report.granted ==> {
            &&& final(store)@ == old(store)@
            &&& final(lease)@ == old(lease)@
            &&& report.swept == 0
            &&& report.batch.executed@.len() == 0
            &&& report.batch.events@.len() == 0
            &&& !report.batch.lease_lost
            &&& *final(exec) == *old(exec)
        },
        report.granted ==> {
            let swept = old(store)@.step(StoreOp::Recover { channel });
            &&& final(lease)@ == old(lease)@.remove(queue@)
            &&& report.swept == sweep_logs(old(store)@.messages, channel).len()
            &&& only_sent(swept, final(store)@, report.batch.executed@, now, retry_delay)
            &&& exists|batch: Seq<MessageView>|
                {
                    &&& #[trigger] is_due_batch(swept.messages, channel, now, limit as nat, batch)
                    &&& report.batch.executed@ == ids_of(batch).take(
                        report.batch.executed@.len() as int,
                    )
                    &&& report.batch.executed@.len() == if lease_lasts(ttl, now) {
                        batch.len()
                    } else {
                        0
                    }
                    &&& report.batch.lease_lost == (report.batch.executed@.len() < batch.len())
                    &&& is_accounted(
                        batch,
                        report.batch.executed@.len(),
                        *old(exec),
                        *final(exec),
                        swept,
                        final(store)@,
                        configs@,
                        old(slots)@,
                        now,
                        retry_delay,
                    )
                }
        },
        report.granted && lease_lasts(ttl, now) ==> !report.batch.lease_lost,
        events_tell(final(store)@.messages, report.batch.executed@, report.batch.events@),
{
    let ghost l0 = lease@;
    let granted = lease.try_acquire(queue, holder, ttl, now);
    if !granted {
        return RunReport {
            granted: false,
            swept: 0,
            batch: BatchReport { executed: Vec::new(), events: Vec::new(), lease_lost: false },
        };
    }
    let ghost l1 = lease@;
    let ghost s0 = store@;
    let ghost e0 = *exec;
    let ghost c0 = slots@;
    proof {
        assert(extends(l1, queue@, holder@, now) == lease_lasts(ttl, now));
    }
    let swept = store.recover(channel);
    let ghost s1 = store@;
    let batch = run_batch(
        store,
        lease,
        queue,
        holder,
        ttl,
        exec,
        slots,
        configs,
        channel,
        now,
        limit,
        retry_delay,
    );
    let ghost l2 = lease@;
    lease.release(queue, holder);
    proof {
        let seen = choose|seen: Seq<MessageView>|
            {
                &&& #[trigger] is_due_batch(s1.messages, channel, now, limit as nat, seen)
                &&& batch.executed@ == ids_of(seen).take(batch.executed@.len() as int)
                &&& batch.executed@.len() == sends_allowed(
                    l1,
                    queue@,
                    holder@,
                    ttl,
                    now,
                    seen.len(),
                )
                &&& batch.lease_lost == (batch.executed@.len() < seen.len())
                &&& l2 == lease_after_batch(l1, queue@, holder@, ttl, now, seen.len())
                &&& is_accounted(
                    seen,
                    batch.executed@.len(),
                    e0,
                    *exec,
                    s1,
                    store@,
                    configs@,
                    c0,
                    now,
                    retry_delay,
                )
            };
        assert(owns(l2, queue@, holder@));
        assert(lease@ =~= l0.remove(queue@));
        if !lease_lasts(ttl, now) {
            assert(batch.executed@.len() == 0);
        }
        assert(is_due_batch(s1.messages, channel, now, limit as nat, seen));
    }
    RunReport { granted: true, swept, batch }
}

} // verus!
