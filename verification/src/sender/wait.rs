//! The wait bridge: a caller that needs to know how a delivery ended leaves
//! a registration, and the listener of the completion channel fills it in.

use crate::sender::message::MessageStatus;
use std::collections::HashMap;
use vstd::prelude::*;

verus! {

/// How the delivery of a record ended.
#[derive(Debug)]
pub struct WaitOutcome {
    pub status: MessageStatus,
    pub message: String,
}

/// What the completion channel carries: the outcome of one record.
#[derive(Debug)]
pub struct WaitEvent {
    pub message_id: u64,
    pub outcome: WaitOutcome,
}

/// A caller's registration: until when it waits, and the outcome once it
/// has arrived.
#[derive(Debug)]
pub struct WaitRegistration {
    pub deadline: u64,
    pub slot: Option<WaitOutcome>,
}

/// What a caller that asks after its registration is told.
#[derive(Debug)]
pub enum WaitPoll {
    /// The outcome has arrived. The registration is gone.
    Ready(WaitOutcome),
    /// The deadline has passed without an outcome. The registration is gone;
    /// the record itself is worked on as before.
    TimedOut,
    /// Neither has happened yet.
    Waiting,
    /// There is no registration for this record.
    Unregistered,
}

/// The registrations of one process, by the id of the record.
pub type Waits = Map<u64, WaitRegistration>;

/// The registrations after a caller registered for `id`: a registration
/// that is there already stays as it is.
pub open spec fn registered(waits: Waits, id: u64, deadline: u64) -> Waits {
    if waits.contains_key(id) {
        waits
    } else {
        waits.insert(id, WaitRegistration { deadline, slot: None })
    }
}

/// Whether an outcome for `id` finds a registration that still waits.
pub open spec fn awaits(waits: Waits, id: u64) -> bool {
    waits.contains_key(id) && waits[id].slot is None
}

/// Whether every outcome that has arrived is a terminal one.
pub open spec fn terminal_only(waits: Waits) -> bool {
    forall|id: u64|
        #[trigger] waits.contains_key(id) && waits[id].slot is Some
            ==> waits[id].slot->0.status.is_terminal()
}

/// The registrations after an outcome for `id` arrived: the first outcome
/// stays, and one for a record that nobody waits for is dropped, as is one
/// that is not terminal.
pub open spec fn resolved(waits: Waits, id: u64, outcome: WaitOutcome) -> Waits {
    if awaits(waits, id) && outcome.status.is_terminal() {
        waits.insert(id, WaitRegistration { deadline: waits[id].deadline, slot: Some(outcome) })
    } else {
        waits
    }
}

/// What a caller that asks after `id` at `now` is told.
pub open spec fn poll_answer(waits: Waits, id: u64, now: u64) -> WaitPoll {
    if !waits.contains_key(id) {
        WaitPoll::Unregistered
    } else {
        match waits[id].slot {
            Some(outcome) => WaitPoll::Ready(outcome),
            None => if now >= waits[id].deadline {
                WaitPoll::TimedOut
            } else {
                WaitPoll::Waiting
            },
        }
    }
}

/// The registrations after a caller asked after `id` at `now`: the
/// registration goes with the answer that ends the wait.
pub open spec fn polled(waits: Waits, id: u64, now: u64) -> Waits {
    match poll_answer(waits, id, now) {
        WaitPoll::Ready(_) => waits.remove(id),
        WaitPoll::TimedOut => waits.remove(id),
        _ => waits,
    }
}

/// The time until which a caller that starts to wait at `now` waits.
pub open spec fn deadline_after(now: u64, timeout: u8) -> u64 {
    if now + timeout > u64::MAX {
        u64::MAX
    } else {
        (now + timeout) as u64
    }
}

/// No wait goes on for ever: a caller that has registered and asks at its
/// deadline or later is told the outcome or that the time is up, whatever
/// has happened to the record, and its registration is gone.
pub proof fn lemma_wait_ends(waits: Waits, id: u64, now: u64)
    requires
        terminal_only(waits),
        waits.contains_key(id),
        now >= waits[id].deadline,
    ensures
        match poll_answer(waits, id, now) {
            WaitPoll::Ready(outcome) => outcome.status.is_terminal(),
            WaitPoll::TimedOut => true,
            _ => false,
        },
        !polled(waits, id, now).contains_key(id),
{
}

/// A registration keeps the outcomes terminal.
pub proof fn lemma_terminal_registered(waits: Waits, id: u64, deadline: u64)
    requires
        terminal_only(waits),
    ensures
        terminal_only(registered(waits, id, deadline)),
{
    let after = registered(waits, id, deadline);
    assert forall|k: u64| #[trigger] after.contains_key(k) && after[k].slot is Some implies after[k].slot->0.status.is_terminal() by {
        if k != id {
            assert(waits.contains_key(k));
        }
    }
}

/// Only terminal outcomes are ever kept, whatever arrives.
pub proof fn lemma_terminal_resolved(waits: Waits, id: u64, outcome: WaitOutcome)
    requires
        terminal_only(waits),
    ensures
        terminal_only(resolved(waits, id, outcome)),
{
    let after = resolved(waits, id, outcome);
    assert forall|k: u64| #[trigger] after.contains_key(k) && after[k].slot is Some implies after[k].slot->0.status.is_terminal() by {
        if k != id {
            assert(waits.contains_key(k));
        }
    }
}

/// Asking after a registration keeps the outcomes terminal.
pub proof fn lemma_terminal_polled(waits: Waits, id: u64, now: u64)
    requires
        terminal_only(waits),
    ensures
        terminal_only(polled(waits, id, now)),
{
    let after = polled(waits, id, now);
    assert forall|k: u64| #[trigger] after.contains_key(k) && after[k].slot is Some implies after[k].slot->0.status.is_terminal() by {
        assert(waits.contains_key(k));
    }
}

/// A registration is taken away once, by the outcome or by the deadline
/// and never by both: after the answer that ended the wait, an outcome that
/// arrives late changes nothing, and the caller is told nothing more.
pub proof fn lemma_wait_ends_once(waits: Waits, id: u64, now: u64, late: WaitOutcome, later: u64)
    requires
        poll_answer(waits, id, now) is Ready || poll_answer(waits, id, now) is TimedOut,
    ensures
        resolved(polled(waits, id, now), id, late) == polled(waits, id, now),
        poll_answer(polled(waits, id, now), id, later) is Unregistered,
        polled(polled(waits, id, now), id, later) == polled(waits, id, now),
{
}

/// An outcome that arrives twice, or after another for the same record,
/// changes nothing: the first one stays.
pub proof fn lemma_resolve_once(waits: Waits, id: u64, first: WaitOutcome, second: WaitOutcome)
    requires
        first.status.is_terminal(),
    ensures
        resolved(resolved(waits, id, first), id, second) == resolved(waits, id, first),
{
    if awaits(waits, id) && first.status.is_terminal() {
        assert(!awaits(resolved(waits, id, first), id));
    }
}

/// The wait bridge of one process.
pub struct SenderWaitNotify {
    waits: HashMap<u64, WaitRegistration>,
    timeout: u8,
}

impl View for SenderWaitNotify {
    type V = Waits;

    closed spec fn view(&self) -> Waits {
        self.waits@
    }
}

impl SenderWaitNotify {
    /// Every outcome that the bridge keeps is a terminal one.
    pub open spec fn wf(&self) -> bool {
        terminal_only(self@)
    }

    /// The seconds that a caller waits.
    pub closed spec fn spec_timeout(&self) -> u8 {
        self.timeout
    }

    /// A bridge without registrations, whose callers wait `timeout` seconds.
    pub fn new(timeout: u8) -> (out: Self)
        ensures
            out.wf(),
            out@ == Map::<u64, WaitRegistration>::empty(),
            out.spec_timeout() == timeout,
    {
        SenderWaitNotify { waits: HashMap::new(), timeout }
    }

    /// Registers a caller for the record `id` until `deadline`. The answer
    /// says whether the registration is new.
    ///
    /// A caller registers before the record is stored and before the
    /// dispatch loop is woken, so that no outcome can arrive unexpected.
    pub fn register(&mut self, id: u64, deadline: u64) -> (added: bool)
        ensures
            old(self).wf() ==> final(self).wf(),
            final(self).spec_timeout() == old(self).spec_timeout(),
            added == !old(self)@.contains_key(id),
            final(self)@ == registered(old(self)@, id, deadline),
    {
        broadcast use vstd::std_specs::hash::group_hash_axioms;

        if self.waits.contains_key(&id) {
            false
        } else {
            proof {
                if self.wf() {
                    lemma_terminal_registered(self@, id, deadline);
                }
            }
            self.waits.insert(id, WaitRegistration { deadline, slot: None });
            true
        }
    }

    /// The time until which a caller that starts to wait at `now` waits.
    pub fn deadline(&self, now: u64) -> (out: u64)
        ensures
            out == deadline_after(now, self.spec_timeout()),
    {
        let t: u64 = self.timeout as u64;
        if t > u64::MAX - now {
            u64::MAX
        } else {
            now + t
        }
    }

    /// Registers a caller that starts to wait for the record `id` at `now`.
    pub fn wait(&mut self, id: u64, now: u64) -> (added: bool)
        ensures
            old(self).wf() ==> final(self).wf(),
            final(self).spec_timeout() == old(self).spec_timeout(),
            added == !old(self)@.contains_key(id),
            final(self)@ == registered(
                old(self)@,
                id,
                deadline_after(now, old(self).spec_timeout()),
            ),
    {
        let deadline = self.deadline(now);
        self.register(id, deadline)
    }

    /// Takes in an event of the completion channel. The answer says whether
    /// a caller was waiting for it.
    pub fn resolve(&mut self, event: WaitEvent) -> (delivered: bool)
        ensures
            old(self).wf() ==> final(self).wf(),
            final(self).spec_timeout() == old(self).spec_timeout(),
            delivered == (awaits(old(self)@, event.message_id)
                && event.outcome.status.is_terminal()),
            final(self)@ == resolved(old(self)@, event.message_id, event.outcome),
    {
        broadcast use vstd::std_specs::hash::group_hash_axioms;

        let id = event.message_id;
        proof {
            if self.wf() {
                lemma_terminal_resolved(self@, id, event.outcome);
            }
        }
        if !event.outcome.status.is_terminal() {
            return false;
        }
        let open = match self.waits.get(&id) {
            Some(reg) => match &reg.slot {
                None => Some(reg.deadline),
                Some(_) => None,
            },
            None => None,
        };
        match open {
            Some(deadline) => {
                self.waits.insert(id, WaitRegistration { deadline, slot: Some(event.outcome) });
                true
            },
            None => false,
        }
    }

    /// Tells a caller at `now` what has become of its wait for the record
    /// `id`, and takes the registration away with the answer that ends the
    /// wait.
    pub fn wait_timeout(&mut self, id: u64, now: u64) -> (out: WaitPoll)
        ensures
            old(self).wf() ==> final(self).wf(),
            final(self).spec_timeout() == old(self).spec_timeout(),
            out == poll_answer(old(self)@, id, now),
            final(self)@ == polled(old(self)@, id, now),
            old(self)@.contains_key(id) && now >= old(self)@[id].deadline ==> (out is Ready || out
                is TimedOut) && !final(self)@.contains_key(id),
            old(self).wf() ==> match out {
                WaitPoll::Ready(outcome) => outcome.status.is_terminal(),
                _ => true,
            },
    {
        broadcast use vstd::std_specs::hash::group_hash_axioms;

        proof {
            if self.wf() {
                lemma_terminal_polled(self@, id, now);
            }
        }

        let ends = match self.waits.get(&id) {
            Some(reg) => match &reg.slot {
                Some(_) => Some(true),
                None => Some(now >= reg.deadline),
            },
            None => None,
        };
        match ends {
            None => WaitPoll::Unregistered,
            Some(false) => WaitPoll::Waiting,
            Some(true) => {
                match self.waits.remove(&id) {
                    Some(reg) => match reg.slot {
                        Some(outcome) => WaitPoll::Ready(outcome),
                        None => WaitPoll::TimedOut,
                    },
                    None => WaitPoll::Unregistered,
                }
            },
        }
    }

    /// How many callers are registered.
    pub fn len(&self) -> (n: usize)
        ensures
            n == self@.len(),
    {
        broadcast use vstd::std_specs::hash::group_hash_axioms;

        self.waits.len()
    }
}

/// What a caller is told of a delivery that ended with `outcome`: that it
/// was done, or the text of what went wrong.
pub fn wait_result(outcome: WaitOutcome) -> (out: Result<bool, String>)
    ensures
        match out {
            Ok(done) => done && outcome.status == MessageStatus::Completed,
            Err(e) => outcome.status != MessageStatus::Completed && e == outcome.message,
        },
{
    match outcome.status {
        MessageStatus::Completed => Ok(true),
        _ => Err(outcome.message),
    }
}

} // verus!
