//! The work queue: every record that was handed in, with its status, and
//! the log of what was done to it.

use crate::sender::message::{fresh, Message, MessageStatus, MessageView, NewMessage};
use crate::sender::model::SenderType;
use vstd::prelude::*;

verus! {

/// Why the store turned a request down.
#[derive(Clone, Copy, Debug, PartialEq, Eq, Structural)]
pub enum StoreError {
    /// Every id has been given out.
    IdsExhausted,
}

/// One entry of the execution log: what was done to which record.
#[derive(Debug)]
pub struct ExecLog {
    pub message_id: u64,
    pub status: MessageStatus,
    pub result: String,
}

/// A log entry as the contracts see it.
pub ghost struct ExecLogView {
    pub message_id: u64,
    pub status: MessageStatus,
    pub result: Seq<char>,
}

impl View for ExecLog {
    type V = ExecLogView;

    open spec fn view(&self) -> ExecLogView {
        ExecLogView { message_id: self.message_id, status: self.status, result: self.result@ }
    }
}

/// What the store holds: the records in the order in which they were
/// handed in, the id that the next record gets, and the log.
pub ghost struct StoreView {
    pub messages: Seq<MessageView>,
    pub next_id: u64,
    pub logs: Seq<ExecLogView>,
}

/// The records `msgs` with `f` applied to the one with the id `id`.
pub open spec fn update(
    msgs: Seq<MessageView>,
    id: u64,
    f: spec_fn(MessageView) -> MessageView,
) -> Seq<MessageView> {
    Seq::new(
        msgs.len(),
        |i: int|
            if msgs[i].id == id {
                f(msgs[i])
            } else {
                msgs[i]
            },
    )
}

/// The record with the id `id`, if there is one.
pub open spec fn lookup(msgs: Seq<MessageView>, id: u64) -> Option<MessageView> {
    if exists|i: int| 0 <= i < msgs.len() && (#[trigger] msgs[i]).id == id {
        Some(msgs[choose|i: int| 0 <= i < msgs.len() && (#[trigger] msgs[i]).id == id])
    } else {
        None
    }
}

/// The log entries of a sweep over the queue of `channel`: one for each
/// record that was being sent, in the order of the records.
pub open spec fn sweep_logs(msgs: Seq<MessageView>, channel: SenderType) -> Seq<ExecLogView>
    decreases msgs.len(),
{
    if msgs.len() == 0 {
        Seq::empty()
    } else {
        let rest = sweep_logs(msgs.drop_last(), channel);
        let m = msgs.last();
        if m.channel == channel && m.status == MessageStatus::Sending {
            rest.push(
                ExecLogView {
                    message_id: m.id,
                    status: m.recovered(channel).status,
                    result: Seq::empty(),
                },
            )
        } else {
            rest
        }
    }
}

/// A request to the store that can change what it holds.
pub ghost enum StoreOp {
    Append { new: NewMessage },
    Claim { id: u64 },
    Cancel { id: u64 },
    Mark { id: u64, status: MessageStatus, result: Seq<char>, attempt_delta: u8, retry_at: u64 },
    Recover { channel: SenderType },
}

impl StoreView {
    /// Ids start at one, rise with every record and are never used twice,
    /// and every record is well-formed.
    pub open spec fn wf(self) -> bool {
        &&& self.next_id >= 1
        &&& forall|i: int|
            0 <= i < self.messages.len() ==> (#[trigger] self.messages[i]).wf() && 1
                <= self.messages[i].id < self.next_id
        &&& forall|i: int, j: int|
            0 <= i < j < self.messages.len() ==> (#[trigger] self.messages[i]).id < (
            #[trigger] self.messages[j]).id
    }

    /// The store with one more log entry.
    pub open spec fn logged(self, message_id: u64, status: MessageStatus, result: Seq<char>) -> StoreView {
        StoreView { logs: self.logs.push(ExecLogView { message_id, status, result }), ..self }
    }

    /// What the store holds after the request `op`.
    pub open spec fn step(self, op: StoreOp) -> StoreView {
        match op {
            StoreOp::Append { new } => if self.next_id == u64::MAX {
                self
            } else {
                StoreView {
                    messages: self.messages.push(fresh(self.next_id, new)),
                    next_id: (self.next_id + 1) as u64,
                    ..self
                }
            },
            StoreOp::Claim { id } => match lookup(self.messages, id) {
                Some(m) => if m.status == MessageStatus::Pending {
                    StoreView {
                        messages: update(self.messages, id, |m: MessageView| m.claimed()),
                        ..self
                    }.logged(id, MessageStatus::Sending, Seq::empty())
                } else {
                    self
                },
                None => self,
            },
            StoreOp::Cancel { id } => match lookup(self.messages, id) {
                Some(m) => if m.can_cancel() {
                    StoreView {
                        messages: update(self.messages, id, |m: MessageView| m.cancelled()),
                        ..self
                    }.logged(id, MessageStatus::Cancelled, Seq::empty())
                } else {
                    self
                },
                None => self,
            },
            StoreOp::Mark { id, status, result, attempt_delta, retry_at } => match lookup(
                self.messages,
                id,
            ) {
                Some(m) => if m.takes(status) {
                    StoreView {
                        messages: update(
                            self.messages,
                            id,
                            |m: MessageView| m.marked(status, attempt_delta, retry_at),
                        ),
                        ..self
                    }.logged(id, status, result)
                } else {
                    self
                },
                None => self,
            },
            StoreOp::Recover { channel } => StoreView {
                messages: self.messages.map_values(|m: MessageView| m.recovered(channel)),
                logs: self.logs + sweep_logs(self.messages, channel),
                ..self
            },
        }
    }

    /// What the store holds after the requests `ops`, one after the other.
    pub open spec fn run(self, ops: Seq<StoreOp>) -> StoreView
        decreases ops.len(),
    {
        if ops.len() == 0 {
            self
        } else {
            self.run(ops.drop_last()).step(ops.last())
        }
    }
}

/// In a well-formed store the record with a given id stands at one place
/// only.
pub proof fn lemma_lookup(msgs: Seq<MessageView>, next_id: u64, logs: Seq<ExecLogView>, i: int)
    requires
        (StoreView { messages: msgs, next_id, logs }).wf(),
        0 <= i < msgs.len(),
    ensures
        lookup(msgs, msgs[i].id) == Some(msgs[i]),
        forall|k: int| 0 <= k < msgs.len() && k != i ==> (#[trigger] msgs[k]).id != msgs[i].id,
{
    let s = StoreView { messages: msgs, next_id, logs };
    assert forall|k: int| 0 <= k < msgs.len() && k != i implies (#[trigger] msgs[k]).id
        != msgs[i].id by {
        if k < i {
            assert(s.messages[k].id < s.messages[i].id);
        } else {
            assert(s.messages[i].id < s.messages[k].id);
        }
    }
    let j = choose|j: int| 0 <= j < msgs.len() && (#[trigger] msgs[j]).id == msgs[i].id;
    assert(j == i);
}

/// No request takes a record out of the store, changes its id, lowers the
/// count of its tries or lets that count pass `max_try_num`; and no request
/// moves a record that has reached a terminal status.
pub proof fn lemma_step(s: StoreView, op: StoreOp)
    requires
        s.wf(),
    ensures
        s.step(op).wf(),
        s.step(op).messages.len() >= s.messages.len(),
        s.step(op).next_id >= s.next_id,
        forall|i: int|
            0 <= i < s.messages.len() ==> {
                let before = #[trigger] s.messages[i];
                let after = s.step(op).messages[i];
                &&& after.id == before.id
                &&& after.channel == before.channel
                &&& after.max_try_num == before.max_try_num
                &&& before.attempt_count <= after.attempt_count <= after.max_try_num
                &&& before.status.is_terminal() ==> after == before
            },
{
    let t = s.step(op);
    match op {
        StoreOp::Append { new } => {},
        StoreOp::Claim { id } => {},
        StoreOp::Cancel { id } => {},
        StoreOp::Mark { id, status, result, attempt_delta, retry_at } => {},
        StoreOp::Recover { channel } => {},
    }
    assert forall|i: int, j: int| 0 <= i < j < t.messages.len() implies (#[trigger] t.messages[i]).id
        < (#[trigger] t.messages[j]).id by {
        if j < s.messages.len() {
            assert(s.messages[i].id < s.messages[j].id);
        } else {
            assert(s.messages[i].id < s.next_id);
        }
    }
}

/// What `lemma_step` says of one request holds of any number of them.
pub proof fn lemma_run(s: StoreView, ops: Seq<StoreOp>)
    requires
        s.wf(),
    ensures
        s.run(ops).wf(),
        s.run(ops).messages.len() >= s.messages.len(),
        forall|i: int|
            0 <= i < s.messages.len() ==> {
                let before = #[trigger] s.messages[i];
                let after = s.run(ops).messages[i];
                &&& after.id == before.id
                &&& after.channel == before.channel
                &&& after.max_try_num == before.max_try_num
                &&& before.attempt_count <= after.attempt_count <= after.max_try_num
                &&& before.status.is_terminal() ==> after == before
            },
    decreases ops.len(),
{
    if ops.len() > 0 {
        let mid = s.run(ops.drop_last());
        lemma_run(s, ops.drop_last());
        lemma_step(mid, ops.last());
        assert forall|i: int| 0 <= i < s.messages.len() implies {
            let before = #[trigger] s.messages[i];
            let after = s.run(ops).messages[i];
            &&& after.id == before.id
            &&& after.channel == before.channel
            &&& after.max_try_num == before.max_try_num
            &&& before.attempt_count <= after.attempt_count <= after.max_try_num
            &&& before.status.is_terminal() ==> after == before
        } by {
            let a = mid.messages[i];
        }
    }
}

/// The views of a sequence of records, in order.
pub open spec fn views(msgs: Seq<Message>) -> Seq<MessageView> {
    msgs.map_values(|m: Message| m@)
}

/// The views of a sequence of log entries, in order.
pub open spec fn log_views(logs: Seq<ExecLog>) -> Seq<ExecLogView> {
    logs.map_values(|l: ExecLog| l@)
}

/// Whether `batch` is what a fetch of at most `limit` records hands out
/// from `msgs`: the records that are due on the queue of `channel` at
/// `now`, the earliest first and none twice, and where there are more than
/// `limit` of them those that come first.
pub open spec fn is_due_batch(
    msgs: Seq<MessageView>,
    channel: SenderType,
    now: u64,
    limit: nat,
    batch: Seq<MessageView>,
) -> bool {
    &&& batch.len() <= limit
    &&& forall|k: int|
        0 <= k < batch.len() ==> msgs.contains(#[trigger] batch[k]) && batch[k].is_due(
            channel,
            now,
        )
    &&& forall|k: int, l: int|
        0 <= k < l < batch.len() ==> (#[trigger] batch[k]).before(#[trigger] batch[l])
    &&& forall|j: int|
        0 <= j < msgs.len() && (#[trigger] msgs[j]).is_due(channel, now) ==> batch.contains(
            msgs[j],
        ) || (batch.len() == limit && forall|k: int|
            0 <= k < batch.len() ==> (#[trigger] batch[k]).before(msgs[j]))
}

/// The work queue, kept in memory.
pub struct MessageStore {
    messages: Vec<Message>,
    next_id: u64,
    logs: Vec<ExecLog>,
}

impl View for MessageStore {
    type V = StoreView;

    closed spec fn view(&self) -> StoreView {
        StoreView {
            messages: views(self.messages@),
            next_id: self.next_id,
            logs: log_views(self.logs@),
        }
    }
}

impl MessageStore {
    /// Whether the store is in order: see `StoreView::wf`.
    pub open spec fn wf(&self) -> bool {
        self@.wf()
    }

    /// An empty store, whose first record gets the id one.
    pub fn new() -> (out: Self)
        ensures
            out.wf(),
            out@ == (StoreView { messages: Seq::empty(), next_id: 1, logs: Seq::empty() }),
    {
        let out = MessageStore { messages: Vec::new(), next_id: 1, logs: Vec::new() };
        proof {
            assert(out@.messages =~= Seq::empty());
            assert(out@.logs =~= Seq::empty());
        }
        out
    }

    /// An empty store whose first record gets the id `next_id`, and the id
    /// one where `next_id` is zero: for a queue that goes on after the ids
    /// before were given out elsewhere.
    pub fn starting_at(next_id: u64) -> (out: Self)
        ensures
            out.wf(),
            out@ == (StoreView {
                messages: Seq::empty(),
                next_id: if next_id == 0 {
                    1
                } else {
                    next_id
                },
                logs: Seq::empty(),
            }),
    {
        let first = if next_id == 0 {
            1
        } else {
            next_id
        };
        let out = MessageStore { messages: Vec::new(), next_id: first, logs: Vec::new() };
        proof {
            assert(out@.messages =~= Seq::empty());
            assert(out@.logs =~= Seq::empty());
        }
        out
    }

    /// The id that the next record gets.
    pub fn next_id(&self) -> (id: u64)
        ensures
            id == self@.next_id,
    {
        self.next_id
    }

    /// How many records the store holds.
    pub fn len(&self) -> (n: usize)
        ensures
            n == self@.messages.len(),
    {
        self.messages.len()
    }

    /// How many entries the log holds.
    pub fn log_len(&self) -> (n: usize)
        ensures
            n == self@.logs.len(),
    {
        self.logs.len()
    }

    /// The log entry at `i`.
    pub fn log_at(&self, i: usize) -> (out: Option<&ExecLog>)
        ensures
            match out {
                Some(l) => i < self@.logs.len() && l@ == self@.logs[i as int],
                None => i >= self@.logs.len(),
            },
    {
        if i < self.logs.len() {
            Some(&self.logs[i])
        } else {
            None
        }
    }

    fn find(&self, id: u64) -> (at: Option<usize>)
        requires
            self.wf(),
        ensures
            match at {
                Some(i) => i < self@.messages.len() && self@.messages[i as int].id == id && lookup(
                    self@.messages,
                    id,
                ) == Some(self@.messages[i as int]),
                None => lookup(self@.messages, id) is None,
            },
    {
        let mut i: usize = 0;
        while i < self.messages.len()
            invariant
                self.wf(),
                i <= self.messages@.len(),
                forall|k: int| 0 <= k < i ==> (#[trigger] self@.messages[k]).id != id,
            decreases self.messages@.len() - i,
        {
            if self.messages[i].id == id {
                proof {
                    lemma_lookup(self@.messages, self@.next_id, self@.logs, i as int);
                }
                return Some(i);
            }
            i += 1;
        }
        None
    }

    /// The record with the id `id`.
    pub fn get(&self, id: u64) -> (out: Option<Message>)
        requires
            self.wf(),
        ensures
            match out {
                Some(m) => lookup(self@.messages, id) == Some(m@),
                None => lookup(self@.messages, id) is None,
            },
    {
        match self.find(id) {
            Some(i) => Some(self.messages[i].clone()),
            None => None,
        }
    }

    /// Stores `new` as a pending record and hands out its id.
    pub fn append(&mut self, new: NewMessage) -> (out: Result<u64, StoreError>)
        requires
            old(self).wf(),
        ensures
            final(self).wf(),
            final(self)@ == old(self)@.step(StoreOp::Append { new }),
            match out {
                Ok(id) => id == old(self)@.next_id && id < u64::MAX,
                Err(e) => e == StoreError::IdsExhausted && old(self)@.next_id == u64::MAX,
            },
    {
        proof {
            lemma_step(self@, StoreOp::Append { new });
        }
        if self.next_id == u64::MAX {
            return Err(StoreError::IdsExhausted);
        }
        let id = self.next_id;
        let ghost before = self@;
        self.messages.push(Message::create(id, new));
        self.next_id = id + 1;
        proof {
            assert(self@.messages =~= before.messages.push(fresh(id, new)));
        }
        Ok(id)
    }

    fn log(&mut self, message_id: u64, status: MessageStatus, result: String)
        ensures
            final(self)@ == old(self)@.logged(message_id, status, result@),
    {
        let ghost before = self@;
        self.logs.push(ExecLog { message_id, status, result });
        proof {
            assert(self@.logs =~= before.logs.push(
                ExecLogView { message_id, status, result: result@ },
            ));
        }
    }

    /// Takes the record `id` for a send. Only a pending record can be
    /// taken; the answer says whether it was.
    pub fn claim(&mut self, id: u64) -> (taken: bool)
        requires
            old(self).wf(),
        ensures
            final(self).wf(),
            final(self)@ == old(self)@.step(StoreOp::Claim { id }),
            taken == match lookup(old(self)@.messages, id) {
                Some(m) => m.status == MessageStatus::Pending,
                None => false,
            },
            taken ==> lookup(final(self)@.messages, id) == Some(
                lookup(old(self)@.messages, id).unwrap().claimed(),
            ),
    {
        proof {
            lemma_step(self@, StoreOp::Claim { id });
        }
        match self.find(id) {
            Some(i) => {
                if self.messages[i].status == MessageStatus::Pending {
                    let ghost before = self@;
                    let mut m = self.messages[i].clone();
                    m.claim();
                    self.messages.set(i, m);
                    proof {
                        lemma_lookup(before.messages, before.next_id, before.logs, i as int);
                        assert(self@.messages =~= update(
                            before.messages,
                            id,
                            |m: MessageView| m.claimed(),
                        ));
                    }
                    self.log(id, MessageStatus::Sending, String::new());
                    proof {
                        lemma_lookup(self@.messages, self@.next_id, self@.logs, i as int);
                    }
                    true
                } else {
                    false
                }
            },
            None => false,
        }
    }

    /// Withdraws the record `id`. The answer says whether the withdrawal
    /// reached the record: it does not reach one that is unknown or in a
    /// terminal status.
    pub fn cancel(&mut self, id: u64) -> (reached: bool)
        requires
            old(self).wf(),
        ensures
            final(self).wf(),
            final(self)@ == old(self)@.step(StoreOp::Cancel { id }),
            reached == match lookup(old(self)@.messages, id) {
                Some(m) => m.can_cancel(),
                None => false,
            },
            reached ==> lookup(final(self)@.messages, id) == Some(
                lookup(old(self)@.messages, id).unwrap().cancelled(),
            ),
    {
        proof {
            lemma_step(self@, StoreOp::Cancel { id });
        }
        match self.find(id) {
            Some(i) => {
                if self.messages[i].status == MessageStatus::Pending || self.messages[i].status
                    == MessageStatus::Sending {
                    let ghost before = self@;
                    let mut m = self.messages[i].clone();
                    m.cancel();
                    self.messages.set(i, m);
                    proof {
                        lemma_lookup(before.messages, before.next_id, before.logs, i as int);
                        assert(self@.messages =~= update(
                            before.messages,
                            id,
                            |m: MessageView| m.cancelled(),
                        ));
                    }
                    self.log(id, MessageStatus::Cancelled, String::new());
                    proof {
                        lemma_lookup(self@.messages, self@.next_id, self@.logs, i as int);
                    }
                    true
                } else {
                    false
                }
            },
            None => false,
        }
    }

    /// Writes down how a send of the record `id` ended. The answer says
    /// whether the outcome was taken: it is taken of a record that is being
    /// sent, and only where `status` is an outcome.
    pub fn mark(
        &mut self,
        id: u64,
        status: MessageStatus,
        result: String,
        attempt_delta: u8,
        retry_at: u64,
    ) -> (taken: bool)
        requires
            old(self).wf(),
        ensures
            final(self).wf(),
            final(self)@ == old(self)@.step(
                StoreOp::Mark { id, status, result: result@, attempt_delta, retry_at },
            ),
            taken == match lookup(old(self)@.messages, id) {
                Some(m) => m.takes(status),
                None => false,
            },
            taken ==> lookup(final(self)@.messages, id) == Some(
                lookup(old(self)@.messages, id).unwrap().marked(status, attempt_delta, retry_at),
            ),
    {
        proof {
            lemma_step(
                self@,
                StoreOp::Mark { id, status, result: result@, attempt_delta, retry_at },
            );
        }
        match self.find(id) {
            Some(i) => {
                if self.messages[i].status == MessageStatus::Sending && status.is_outcome() {
                    let ghost before = self@;
                    let mut m = self.messages[i].clone();
                    m.mark(status, attempt_delta, retry_at);
                    self.messages.set(i, m);
                    proof {
                        lemma_lookup(before.messages, before.next_id, before.logs, i as int);
                        assert(self@.messages =~= update(
                            before.messages,
                            id,
                            |m: MessageView| m.marked(status, attempt_delta, retry_at),
                        ));
                    }
                    self.log(id, status, result);
                    proof {
                        lemma_lookup(self@.messages, self@.next_id, self@.logs, i as int);
                    }
                    true
                } else {
                    false
                }
            },
            None => false,
        }
    }

    /// Sweeps the queue of `channel` after its lease changed hands: every
    /// record that the holder before left as being sent waits again, or is
    /// cancelled where it was withdrawn meanwhile. The answer is the number
    /// of records that were moved.
    pub fn recover(&mut self, channel: SenderType) -> (moved: usize)
        requires
            old(self).wf(),
        ensures
            final(self).wf(),
            final(self)@ == old(self)@.step(StoreOp::Recover { channel }),
            moved == sweep_logs(old(self)@.messages, channel).len(),
    {
        let ghost before = self@;
        proof {
            lemma_step(self@, StoreOp::Recover { channel });
        }
        let mut moved: usize = 0;
        let mut i: usize = 0;
        proof {
            assert(before.messages.take(0) =~= Seq::empty());
            assert(self@.logs =~= before.logs + sweep_logs(before.messages.take(0), channel));
        }
        while i < self.messages.len()
            invariant
                i <= self.messages@.len(),
                self@.messages.len() == before.messages.len(),
                self@.next_id == before.next_id,
                moved <= i,
                moved == sweep_logs(before.messages.take(i as int), channel).len(),
                self@.logs == before.logs + sweep_logs(before.messages.take(i as int), channel),
                forall|k: int|
                    0 <= k < i ==> (#[trigger] self@.messages[k]) == before.messages[k].recovered(
                        channel,
                    ),
                forall|k: int|
                    i <= k < before.messages.len() ==> (#[trigger] self@.messages[k])
                        == before.messages[k],
            decreases self.messages@.len() - i,
        {
            proof {
                assert(before.messages.take(i + 1).drop_last() =~= before.messages.take(i as int));
                assert(before.messages.take(i + 1).last() == before.messages[i as int]);
                assert(self@.messages[i as int] == before.messages[i as int]);
            }
            if self.messages[i].channel == channel && self.messages[i].status
                == MessageStatus::Sending {
                let ghost mid = self@;
                let mut m = self.messages[i].clone();
                m.recover(channel);
                let id = m.id;
                let status = m.status;
                self.messages.set(i, m);
                proof {
                    assert(self@.messages =~= mid.messages.update(
                        i as int,
                        before.messages[i as int].recovered(channel),
                    ));
                }
                self.log(id, status, String::new());
                moved += 1;
                proof {
                    assert(self@.logs =~= before.logs + sweep_logs(
                        before.messages.take(i + 1),
                        channel,
                    ));
                }
            }
            i += 1;
        }
        proof {
            assert(before.messages.take(i as int) =~= before.messages);
            assert(self@.messages =~= before.messages.map_values(
                |m: MessageView| m.recovered(channel),
            ));
        }
        moved
    }
}

/// Whether the record at `j` can be the next of a batch whose last record
/// so far stands at `last`: it is due, and it comes after that record.
pub open spec fn is_candidate(
    msgs: Seq<MessageView>,
    channel: SenderType,
    now: u64,
    last: Option<int>,
    j: int,
) -> bool {
    &&& 0 <= j < msgs.len()
    &&& msgs[j].is_due(channel, now)
    &&& match last {
        Some(l) => msgs[l].before(msgs[j]),
        None => true,
    }
}

fn key_before(a: &Message, b: &Message) -> (out: bool)
    ensures
        out == a@.before(b@),
{
    a.scheduled_time < b.scheduled_time || (a.scheduled_time == b.scheduled_time && a.id < b.id)
}

impl MessageStore {
    /// The place of the record that comes first among those that can be
    /// the next of a batch.
    fn next_due(&self, channel: SenderType, now: u64, last: Option<usize>) -> (best: Option<usize>)
        requires
            self.wf(),
            match last {
                Some(l) => l < self@.messages.len(),
                None => true,
            },
        ensures
            match best {
                Some(b) => {
                    &&& is_candidate(self@.messages, channel, now, spec_place(last), b as int)
                    &&& forall|j: int|
                        #[trigger] is_candidate(self@.messages, channel, now, spec_place(last), j)
                            ==> j == b || self@.messages[b as int].before(self@.messages[j])
                },
                None => forall|j: int|
                    !#[trigger] is_candidate(self@.messages, channel, now, spec_place(last), j),
            },
    {
        let n = self.messages.len();
        let ghost v = self@.messages;
        let ghost at = spec_place(last);
        let mut best: Option<usize> = None;
        let mut j: usize = 0;
        while j < n
            invariant
                self.wf(),
                v == self@.messages,
                n == v.len(),
                at == spec_place(last),
                j <= n,
                match last {
                    Some(l) => l < n,
                    None => true,
                },
                match best {
                    Some(b) => {
                        &&& b < j
                        &&& is_candidate(v, channel, now, at, b as int)
                        &&& forall|k: int|
                            0 <= k < j && #[trigger] is_candidate(v, channel, now, at, k) ==> k
                                == b || v[b as int].before(v[k])
                    },
                    None => forall|k: int|
                        0 <= k < j ==> !#[trigger] is_candidate(v, channel, now, at, k),
                },
            decreases n - j,
        {
            let m = &self.messages[j];
            assert(m@ == v[j as int]);
            let due = m.channel == channel && m.status == MessageStatus::Pending
                && m.scheduled_time <= now;
            let after_last = match last {
                Some(l) => key_before(&self.messages[l], m),
                None => true,
            };
            if due && after_last {
                match best {
                    Some(b) => {
                        if key_before(m, &self.messages[b]) {
                            best = Some(j);
                        } else {
                            proof {
                                assert(v[b as int].id < v[j as int].id);
                            }
                        }
                    },
                    None => {
                        best = Some(j);
                    },
                }
            }
            j += 1;
        }
        best
    }

    /// The records that are due on the queue of `channel` at `now`, the one
    /// that is due earliest first and, of two that are due together, the one
    /// with the smaller id; at most `limit` of them.
    ///
    /// Only pending records are due: one that is being sent, or has reached
    /// a terminal status, is never handed out.
    pub fn due_pending(&self, channel: SenderType, now: u64, limit: usize) -> (batch: Vec<Message>)
        requires
            self.wf(),
        ensures
            is_due_batch(self@.messages, channel, now, limit as nat, views(batch@)),
    {
        let n = self.messages.len();
        let ghost v = self@.messages;
        let mut batch: Vec<Message> = Vec::new();
        let mut last: Option<usize> = None;
        let ghost mut picked: Seq<int> = Seq::empty();
        let mut done = false;
        while !done && batch.len() < limit
            invariant
                self.wf(),
                v == self@.messages,
                n == v.len(),
                picked.len() == batch@.len(),
                batch@.len() <= limit,
                forall|k: int|
                    0 <= k < picked.len() ==> 0 <= #[trigger] picked[k] < n && batch@[k]@
                        == v[picked[k]] && v[picked[k]].is_due(channel, now),
                forall|k: int, l: int|
                    0 <= k < l < picked.len() ==> v[#[trigger] picked[k]].before(
                        v[#[trigger] picked[l]],
                    ),
                match last {
                    Some(i) => picked.len() > 0 && picked.last() == i,
                    None => picked.len() == 0,
                },
                forall|j: int|
                    0 <= j < n && (#[trigger] v[j]).is_due(channel, now) && picked.len() > 0
                        && !v[picked.last()].before(v[j]) ==> picked.contains(j),
                done ==> forall|j: int|
                    0 <= j < n && (#[trigger] v[j]).is_due(channel, now) ==> picked.contains(j),
            decreases
                    (if done {
                        0int
                    } else {
                        1int
                    }) + limit - batch@.len(),
        {
            let best = self.next_due(channel, now, last);
            match best {
                None => {
                    done = true;
                    proof {
                        assert forall|j: int|
                            0 <= j < n && (#[trigger] v[j]).is_due(
                                channel,
                                now,
                            ) implies picked.contains(j) by {
                            assert(!is_candidate(v, channel, now, spec_place(last), j));
                        }
                    }
                },
                Some(b) => {
                    let ghost old_picked = picked;
                    let ghost old_last = spec_place(last);
                    batch.push(self.messages[b].clone());
                    proof {
                        picked = picked.push(b as int);
                        assert(is_candidate(v, channel, now, old_last, b as int));
                        assert forall|k: int, l: int| 0 <= k < l < picked.len() implies v[
                        #[trigger] picked[k]].before(v[#[trigger] picked[l]]) by {
                            if l == old_picked.len() {
                                if k < old_picked.len() - 1 {
                                    assert(v[old_picked[k]].before(
                                        v[old_picked[old_picked.len() - 1]],
                                    ));
                                }
                            } else {
                                assert(v[old_picked[k]].before(v[old_picked[l]]));
                            }
                        }
                        assert forall|j: int|
                            0 <= j < n && (#[trigger] v[j]).is_due(channel, now) && !v[b as int].before(
                                v[j],
                            ) implies picked.contains(j) by {
                            if j == b {
                                assert(picked[old_picked.len() as int] == j);
                            } else {
                                if is_candidate(v, channel, now, old_last, j) {
                                    assert(v[b as int].before(v[j]));
                                } else {
                                    assert(old_picked.len() > 0);
                                    assert(!v[old_picked.last()].before(v[j]));
                                    assert(old_picked.contains(j));
                                    let k = choose|k: int|
                                        0 <= k < old_picked.len() && old_picked[k] == j;
                                    assert(picked[k] == j);
                                }
                            }
                        }
                    }
                    last = Some(b);
                },
            }
        }
        proof {
            let out = views(batch@);
            assert forall|k: int| 0 <= k < out.len() implies v.contains(#[trigger] out[k])
                && out[k].is_due(channel, now) by {
                assert(out[k] == v[picked[k]]);
            }
            assert forall|k: int, l: int| 0 <= k < l < out.len() implies (#[trigger] out[k]).before(
                #[trigger] out[l],
            ) by {
                assert(v[picked[k]].before(v[picked[l]]));
            }
            assert forall|j: int|
                0 <= j < v.len() && (#[trigger] v[j]).is_due(channel, now) implies out.contains(
                v[j],
            ) || (out.len() == limit && forall|k: int|
                0 <= k < out.len() ==> (#[trigger] out[k]).before(v[j])) by {
                if picked.contains(j) {
                    let k = choose|k: int| 0 <= k < picked.len() && picked[k] == j;
                    assert(out[k] == v[j]);
                } else {
                    assert(!done);
                    assert(out.len() == limit);
                    assert forall|k: int| 0 <= k < out.len() implies (#[trigger] out[k]).before(
                        v[j],
                    ) by {
                        assert(out[k] == v[picked[k]]);
                        assert(v[picked.last()].before(v[j]));
                        if k < picked.len() - 1 {
                            assert(v[picked[k]].before(v[picked[picked.len() - 1]]));
                        }
                    }
                }
            }
        }
        batch
    }
}

/// The place that `last` names, as a number.
pub open spec fn spec_place(last: Option<usize>) -> Option<int> {
    match last {
        Some(l) => Some(l as int),
        None => None,
    }
}

} // verus!
