//! A record of the work queue and the moves that its status can make.

use crate::sender::model::SenderType;
use vstd::prelude::*;

verus! {

/// Where a record stands.
///
/// `Completed`, `FailedFinal` and `Cancelled` are terminal: a record that
/// has reached one of them never changes again. `FailedRetryable` is what an
/// executor reports of a send that may be tried again; a record itself goes
/// back to `Pending` for the next try.
#[derive(Clone, Copy, Debug, PartialEq, Eq, Structural)]
pub enum MessageStatus {
    Pending,
    Sending,
    Completed,
    FailedRetryable,
    FailedFinal,
    Cancelled,
}

impl MessageStatus {
    /// Whether no record leaves this status.
    pub open spec fn spec_is_terminal(self) -> bool {
        self == MessageStatus::Completed || self == MessageStatus::FailedFinal || self
            == MessageStatus::Cancelled
    }

    /// Whether no record leaves this status.
    #[verifier::when_used_as_spec(spec_is_terminal)]
    pub fn is_terminal(self) -> (out: bool)
        ensures
            out == self.spec_is_terminal(),
    {
        match self {
            MessageStatus::Completed | MessageStatus::FailedFinal | MessageStatus::Cancelled => true,
            _ => false,
        }
    }

    /// Whether this is what an executor can report of a send.
    pub open spec fn spec_is_outcome(self) -> bool {
        self == MessageStatus::Completed || self == MessageStatus::FailedRetryable || self
            == MessageStatus::FailedFinal
    }

    /// The number that the status travels as on the completion channel.
    pub open spec fn spec_to(self) -> i8 {
        match self {
            MessageStatus::Pending => 1,
            MessageStatus::Sending => 2,
            MessageStatus::Completed => 3,
            MessageStatus::FailedRetryable => 4,
            MessageStatus::FailedFinal => 5,
            MessageStatus::Cancelled => 6,
        }
    }

    /// The number that the status travels as.
    pub fn to(self) -> (out: i8)
        ensures
            out == self.spec_to(),
    {
        match self {
            MessageStatus::Pending => 1,
            MessageStatus::Sending => 2,
            MessageStatus::Completed => 3,
            MessageStatus::FailedRetryable => 4,
            MessageStatus::FailedFinal => 5,
            MessageStatus::Cancelled => 6,
        }
    }

    /// The status that travels as `value`, if there is one.
    pub fn try_from(value: i8) -> (out: Option<Self>)
        ensures
            match out {
                Some(s) => s.spec_to() == value,
                None => forall|s: Self| s.spec_to() != value,
            },
    {
        if value == 1 {
            Some(MessageStatus::Pending)
        } else if value == 2 {
            Some(MessageStatus::Sending)
        } else if value == 3 {
            Some(MessageStatus::Completed)
        } else if value == 4 {
            Some(MessageStatus::FailedRetryable)
        } else if value == 5 {
            Some(MessageStatus::FailedFinal)
        } else if value == 6 {
            Some(MessageStatus::Cancelled)
        } else {
            None
        }
    }

    /// Whether this is what an executor can report of a send.
    #[verifier::when_used_as_spec(spec_is_outcome)]
    pub fn is_outcome(self) -> (out: bool)
        ensures
            out == self.spec_is_outcome(),
    {
        match self {
            MessageStatus::Completed | MessageStatus::FailedRetryable | MessageStatus::FailedFinal => true,
            _ => false,
        }
    }
}

/// What a producer hands in to have one message delivered.
#[derive(Debug)]
pub struct NewMessage {
    pub channel: SenderType,
    pub app_id: u64,
    pub recipient: String,
    pub tpl_id: String,
    pub tpl_var: String,
    pub scheduled_time: u64,
    pub max_try_num: u8,
}

/// One record of the work queue.
#[derive(Debug)]
pub struct Message {
    pub id: u64,
    pub channel: SenderType,
    pub app_id: u64,
    pub recipient: String,
    pub tpl_id: String,
    pub tpl_var: String,
    pub scheduled_time: u64,
    pub max_try_num: u8,
    pub attempt_count: u8,
    pub status: MessageStatus,
    /// Whether the record was withdrawn, which a send in flight finds out
    /// when it ends.
    pub cancel: bool,
}

/// A record as the contracts see it.
pub ghost struct MessageView {
    pub id: u64,
    pub channel: SenderType,
    pub app_id: u64,
    pub recipient: Seq<char>,
    pub tpl_id: Seq<char>,
    pub tpl_var: Seq<char>,
    pub scheduled_time: u64,
    pub max_try_num: u8,
    pub attempt_count: u8,
    pub status: MessageStatus,
    pub cancel: bool,
}

impl View for Message {
    type V = MessageView;

    open spec fn view(&self) -> MessageView {
        MessageView {
            id: self.id,
            channel: self.channel,
            app_id: self.app_id,
            recipient: self.recipient@,
            tpl_id: self.tpl_id@,
            tpl_var: self.tpl_var@,
            scheduled_time: self.scheduled_time,
            max_try_num: self.max_try_num,
            attempt_count: self.attempt_count,
            status: self.status,
            cancel: self.cancel,
        }
    }
}

impl Clone for Message {
    fn clone(&self) -> (out: Self)
        ensures
            out@ == self@,
    {
        Message {
            id: self.id,
            channel: self.channel,
            app_id: self.app_id,
            recipient: self.recipient.clone(),
            tpl_id: self.tpl_id.clone(),
            tpl_var: self.tpl_var.clone(),
            scheduled_time: self.scheduled_time,
            max_try_num: self.max_try_num,
            attempt_count: self.attempt_count,
            status: self.status,
            cancel: self.cancel,
        }
    }
}

/// The record that `new` is stored as under `id`: pending, never tried,
/// not withdrawn.
pub open spec fn fresh(id: u64, new: NewMessage) -> MessageView {
    MessageView {
        id,
        channel: new.channel,
        app_id: new.app_id,
        recipient: new.recipient@,
        tpl_id: new.tpl_id@,
        tpl_var: new.tpl_var@,
        scheduled_time: new.scheduled_time,
        max_try_num: new.max_try_num,
        attempt_count: 0,
        status: MessageStatus::Pending,
        cancel: false,
    }
}

impl MessageView {
    /// Whether the record has been tried no more often than it may be.
    pub open spec fn wf(self) -> bool {
        &&& self.attempt_count <= self.max_try_num
        &&& self.status != MessageStatus::FailedRetryable
        &&& self.status == MessageStatus::Cancelled ==> self.cancel
        &&& self.cancel ==> self.status == MessageStatus::Cancelled || self.status
            == MessageStatus::Sending
    }

    /// Whether the record waits, on the queue of `channel`, for a send that
    /// is due at `now`.
    pub open spec fn is_due(self, channel: SenderType, now: u64) -> bool {
        &&& self.channel == channel
        &&& self.status == MessageStatus::Pending
        &&& self.scheduled_time <= now
    }

    /// Whether `self` is sent before `other`: the one that is due earlier,
    /// and the one with the smaller id of two that are due together.
    pub open spec fn before(self, other: MessageView) -> bool {
        self.scheduled_time < other.scheduled_time || (self.scheduled_time == other.scheduled_time
            && self.id < other.id)
    }

    /// The record once a dispatch loop took it for a send: only a pending
    /// record can be taken.
    pub open spec fn claimed(self) -> MessageView {
        if self.status == MessageStatus::Pending {
            MessageView { status: MessageStatus::Sending, ..self }
        } else {
            self
        }
    }

    /// The record once it was withdrawn. A pending record is cancelled at
    /// once; one that is being sent is cancelled when the send ends; a record
    /// in a terminal status stays as it is.
    pub open spec fn cancelled(self) -> MessageView {
        if self.status == MessageStatus::Pending {
            MessageView { status: MessageStatus::Cancelled, cancel: true, ..self }
        } else if self.status == MessageStatus::Sending {
            MessageView { cancel: true, ..self }
        } else {
            self
        }
    }

    /// Whether a withdrawal reaches the record.
    pub open spec fn can_cancel(self) -> bool {
        self.status == MessageStatus::Pending || self.status == MessageStatus::Sending
    }

    /// Whether the outcome `status` of a send is taken for the record.
    pub open spec fn takes(self, status: MessageStatus) -> bool {
        self.status == MessageStatus::Sending && status.is_outcome()
    }

    /// Whether a send that failed, and counts for `attempt_delta` tries, is
    /// tried again.
    pub open spec fn may_retry(self, attempt_delta: u8) -> bool {
        attempt_delta >= 1 && self.attempt_count + attempt_delta <= self.max_try_num
    }

    /// The record once a send ended with `status`.
    ///
    /// A withdrawal that came in during the send wins over whatever the send
    /// ended with. A failure that may be tried again puts the record back on
    /// the queue for `retry_at` and counts the tries, as long as the count
    /// stays within `max_try_num`; after that it is final.
    pub open spec fn marked(self, status: MessageStatus, attempt_delta: u8, retry_at: u64) -> MessageView {
        if !self.takes(status) {
            self
        } else if self.cancel {
            MessageView { status: MessageStatus::Cancelled, ..self }
        } else if status == MessageStatus::Completed {
            MessageView { status: MessageStatus::Completed, ..self }
        } else if status == MessageStatus::FailedRetryable && self.may_retry(attempt_delta) {
            MessageView {
                status: MessageStatus::Pending,
                attempt_count: (self.attempt_count + attempt_delta) as u8,
                scheduled_time: retry_at,
                ..self
            }
        } else {
            MessageView { status: MessageStatus::FailedFinal, ..self }
        }
    }

    /// The record once the sends that a lost lease left behind were swept:
    /// a record that was being sent waits again, or is cancelled where it
    /// was withdrawn meanwhile.
    pub open spec fn recovered(self, channel: SenderType) -> MessageView {
        if self.channel == channel && self.status == MessageStatus::Sending {
            if self.cancel {
                MessageView { status: MessageStatus::Cancelled, ..self }
            } else {
                MessageView { status: MessageStatus::Pending, ..self }
            }
        } else {
            self
        }
    }
}

impl Message {
    /// Stores `new` under `id`.
    pub fn create(id: u64, new: NewMessage) -> (out: Self)
        ensures
            out@ == fresh(id, new),
    {
        Message {
            id,
            channel: new.channel,
            app_id: new.app_id,
            recipient: new.recipient,
            tpl_id: new.tpl_id,
            tpl_var: new.tpl_var,
            scheduled_time: new.scheduled_time,
            max_try_num: new.max_try_num,
            attempt_count: 0,
            status: MessageStatus::Pending,
            cancel: false,
        }
    }

    /// Takes the record for a send.
    pub fn claim(&mut self)
        ensures
            final(self)@ == old(self)@.claimed(),
    {
        if self.status == MessageStatus::Pending {
            self.status = MessageStatus::Sending;
        }
    }

    /// Withdraws the record.
    pub fn cancel(&mut self)
        ensures
            final(self)@ == old(self)@.cancelled(),
    {
        if self.status == MessageStatus::Pending {
            self.status = MessageStatus::Cancelled;
            self.cancel = true;
        } else if self.status == MessageStatus::Sending {
            self.cancel = true;
        }
    }

    /// Writes down that a send of the record ended with `status`.
    pub fn mark(&mut self, status: MessageStatus, attempt_delta: u8, retry_at: u64)
        ensures
            final(self)@ == old(self)@.marked(status, attempt_delta, retry_at),
    {
        if self.status == MessageStatus::Sending && status.is_outcome() {
            if self.cancel {
                self.status = MessageStatus::Cancelled;
            } else if status == MessageStatus::Completed {
                self.status = MessageStatus::Completed;
            } else if status == MessageStatus::FailedRetryable && attempt_delta >= 1
                && attempt_delta <= u8::MAX - self.attempt_count && self.attempt_count
                + attempt_delta <= self.max_try_num {
                self.status = MessageStatus::Pending;
                self.attempt_count = self.attempt_count + attempt_delta;
                self.scheduled_time = retry_at;
            } else {
                self.status = MessageStatus::FailedFinal;
            }
        }
    }

    /// Puts the record back on the queue of `channel` if a holder of that
    /// queue left it as being sent.
    pub fn recover(&mut self, channel: SenderType)
        ensures
            final(self)@ == old(self)@.recovered(channel),
    {
        if self.channel == channel && self.status == MessageStatus::Sending {
            if self.cancel {
                self.status = MessageStatus::Cancelled;
            } else {
                self.status = MessageStatus::Pending;
            }
        }
    }
}

/// Every move keeps a record well-formed, keeps its id, its queue and its
/// limit of tries, and never lowers the count of tries.
pub proof fn lemma_moves_keep_wf(
    m: MessageView,
    channel: SenderType,
    status: MessageStatus,
    attempt_delta: u8,
    retry_at: u64,
)
    requires
        m.wf(),
    ensures
        m.claimed().wf() && m.cancelled().wf() && m.marked(status, attempt_delta, retry_at).wf()
            && m.recovered(channel).wf(),
        m.claimed().attempt_count == m.attempt_count,
        m.cancelled().attempt_count == m.attempt_count,
        m.recovered(channel).attempt_count == m.attempt_count,
        m.attempt_count <= m.marked(status, attempt_delta, retry_at).attempt_count
            <= m.max_try_num,
{
}

/// A record in a terminal status is never moved.
pub proof fn lemma_terminal_stays(
    m: MessageView,
    channel: SenderType,
    status: MessageStatus,
    attempt_delta: u8,
    retry_at: u64,
)
    requires
        m.status.is_terminal(),
    ensures
        m.claimed() == m,
        m.cancelled() == m,
        m.marked(status, attempt_delta, retry_at) == m,
        m.recovered(channel) == m,
        !m.is_due(channel, retry_at),
{
}

} // verus!
