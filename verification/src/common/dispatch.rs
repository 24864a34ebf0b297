//! The dispatch loop of one queue as a state machine: what it does next,
//! given what happened last.

use vstd::prelude::*;

verus! {

/// Where a dispatch loop stands.
#[derive(Clone, Copy, Debug, PartialEq, Eq, Structural)]
pub enum DispatchState {
    /// Waits to be woken, or for the poll timer.
    Idle,
    /// Has asked for the lease, or for more time on it.
    Leasing,
    /// Holds the lease and has asked the store for the records that are due.
    Fetching,
    /// Holds the lease and hands records to the executors.
    Executing,
    /// Writes down how the sends of a batch ended.
    Finalizing,
}

/// What can happen to a dispatch loop.
#[derive(Clone, Copy, Debug, PartialEq, Eq, Structural)]
pub enum DispatchEvent {
    /// A wake signal arrived.
    Wake,
    /// The poll timer ran out.
    Timer,
    /// The lease was granted or extended.
    LeaseGranted,
    /// Another loop holds the queue.
    LeaseDenied,
    /// The store handed out `count` records.
    Fetched { count: usize },
    /// Every send of the batch has ended.
    Executed,
    /// The lease could not be extended during a batch.
    LeaseLost,
    /// The outcomes of the batch are written; `more_due` says whether the
    /// queue holds more work that is due.
    Finalized { more_due: bool },
    /// The store could not be reached.
    StoreFailed,
    /// The wake channel could not be reached.
    TransportFailed,
    /// The wake channel is back.
    TransportRestored,
}

/// What a dispatch loop does next.
#[derive(Clone, Copy, Debug, PartialEq, Eq, Structural)]
pub enum DispatchAction {
    /// Nothing: the event does not concern the loop where it stands.
    Nothing,
    /// Ask for the lease.
    Acquire,
    /// Ask for more time on the lease.
    Renew,
    /// Give the lease back.
    Release,
    /// Rest for `seconds`, then wait as an idle loop does.
    Backoff { seconds: u64 },
    /// Give the lease back, then rest for `seconds`.
    ReleaseAndBackoff { seconds: u64 },
    /// Ask the store for at most `limit` records that are due. `sweep` says
    /// that the lease is new, so that what the holder before left as being
    /// sent is put back on the queue first.
    Fetch { limit: usize, sweep: bool },
    /// Hand the records of the batch to the executors.
    Execute,
    /// Start no further send, and write down how the sends ended.
    Finalize,
    /// Connect to the wake channel again after `seconds`.
    Reconnect { seconds: u64 },
}

/// The limits of a dispatch loop.
#[derive(Clone, Copy, Debug, PartialEq, Eq, Structural)]
pub struct DispatchConfig {
    /// The longest time, in seconds, that an idle loop waits for a wake
    /// signal before it looks for work by itself.
    pub poll_interval: u64,
    /// How long a loop rests after the lease was denied.
    pub lease_backoff: u64,
    /// How long a loop rests after the store or the wake channel failed.
    pub error_backoff: u64,
    /// How many records one fetch takes.
    pub batch_size: usize,
}

/// A dispatch loop: where it stands and what it knows.
#[derive(Clone, Copy, Debug, PartialEq, Eq, Structural)]
pub struct DispatchLoop {
    pub state: DispatchState,
    /// Whether the loop holds the lease over its queue.
    pub holds_lease: bool,
    /// Whether the lease that the loop holds has been used for a batch
    /// already, so that the queue was swept.
    pub swept: bool,
    /// Whether the wake channel is down, so that only the poll timer wakes
    /// the loop.
    pub polling_only: bool,
    pub config: DispatchConfig,
}

impl DispatchLoop {
    /// A loop is in order where it fetches and executes only with the lease.
    pub open spec fn wf(self) -> bool {
        &&& (self.state == DispatchState::Fetching || self.state == DispatchState::Executing)
            ==> self.holds_lease
        &&& self.state == DispatchState::Idle ==> !self.holds_lease
        &&& self.swept ==> self.holds_lease
    }

    /// The loop once it has gone back to waiting without the lease.
    pub open spec fn idle(self) -> DispatchLoop {
        DispatchLoop { state: DispatchState::Idle, holds_lease: false, swept: false, ..self }
    }

    /// What an event makes of the loop, and what the loop does next.
    pub open spec fn next(self, event: DispatchEvent) -> (DispatchLoop, DispatchAction) {
        match event {
            DispatchEvent::TransportFailed => (
                DispatchLoop { polling_only: true, ..self },
                DispatchAction::Reconnect { seconds: self.config.error_backoff },
            ),
            DispatchEvent::TransportRestored => (
                DispatchLoop { polling_only: false, ..self },
                DispatchAction::Nothing,
            ),
            DispatchEvent::StoreFailed => if self.state == DispatchState::Idle {
                (self, DispatchAction::Nothing)
            } else if self.holds_lease {
                (
                    self.idle(),
                    DispatchAction::ReleaseAndBackoff { seconds: self.config.error_backoff },
                )
            } else {
                (self.idle(), DispatchAction::Backoff { seconds: self.config.error_backoff })
            },
            _ => match self.state {
                DispatchState::Idle => match event {
                    DispatchEvent::Wake | DispatchEvent::Timer => (
                        DispatchLoop { state: DispatchState::Leasing, ..self },
                        DispatchAction::Acquire,
                    ),
                    _ => (self, DispatchAction::Nothing),
                },
                DispatchState::Leasing => match event {
                    DispatchEvent::LeaseGranted => (
                        DispatchLoop {
                            state: DispatchState::Fetching,
                            holds_lease: true,
                            swept: true,
                            ..self
                        },
                        DispatchAction::Fetch { limit: self.config.batch_size, sweep: !self.swept },
                    ),
                    DispatchEvent::LeaseDenied => (
                        self.idle(),
                        DispatchAction::Backoff { seconds: self.config.lease_backoff },
                    ),
                    _ => (self, DispatchAction::Nothing),
                },
                DispatchState::Fetching => match event {
                    DispatchEvent::Fetched { count } => if count == 0 {
                        (self.idle(), DispatchAction::Release)
                    } else {
                        (
                            DispatchLoop { state: DispatchState::Executing, ..self },
                            DispatchAction::Execute,
                        )
                    },
                    _ => (self, DispatchAction::Nothing),
                },
                DispatchState::Executing => match event {
                    DispatchEvent::Executed => (
                        DispatchLoop { state: DispatchState::Finalizing, ..self },
                        DispatchAction::Finalize,
                    ),
                    DispatchEvent::LeaseLost => (
                        DispatchLoop {
                            state: DispatchState::Finalizing,
                            holds_lease: false,
                            swept: false,
                            ..self
                        },
                        DispatchAction::Finalize,
                    ),
                    _ => (self, DispatchAction::Nothing),
                },
                DispatchState::Finalizing => match event {
                    DispatchEvent::Finalized { more_due } => if !self.holds_lease {
                        (
                            self.idle(),
                            DispatchAction::Backoff { seconds: self.config.lease_backoff },
                        )
                    } else if more_due {
                        (
                            DispatchLoop { state: DispatchState::Leasing, ..self },
                            DispatchAction::Renew,
                        )
                    } else {
                        (self.idle(), DispatchAction::Release)
                    },
                    _ => (self, DispatchAction::Nothing),
                },
            },
        }
    }

    /// What a run of events makes of the loop.
    pub open spec fn after(self, events: Seq<DispatchEvent>) -> DispatchLoop
        decreases events.len(),
    {
        if events.len() == 0 {
            self
        } else {
            self.after(events.drop_last()).next(events.last()).0
        }
    }

    /// An idle loop without the lease.
    pub fn new(config: DispatchConfig) -> (out: Self)
        ensures
            out.wf(),
            out == (DispatchLoop {
                state: DispatchState::Idle,
                holds_lease: false,
                swept: false,
                polling_only: false,
                config,
            }),
    {
        DispatchLoop {
            state: DispatchState::Idle,
            holds_lease: false,
            swept: false,
            polling_only: false,
            config,
        }
    }

    fn go_idle(&mut self)
        ensures
            *final(self) == old(self).idle(),
    {
        self.state = DispatchState::Idle;
        self.holds_lease = false;
        self.swept = false;
    }

    /// Takes in an event and says what the loop does next.
    pub fn step(&mut self, event: DispatchEvent) -> (action: DispatchAction)
        ensures
            (*final(self), action) == old(self).next(event),
            old(self).wf() ==> final(self).wf(),
    {
        match event {
            DispatchEvent::TransportFailed => {
                self.polling_only = true;
                DispatchAction::Reconnect { seconds: self.config.error_backoff }
            },
            DispatchEvent::TransportRestored => {
                self.polling_only = false;
                DispatchAction::Nothing
            },
            DispatchEvent::StoreFailed => {
                if self.state == DispatchState::Idle {
                    DispatchAction::Nothing
                } else if self.holds_lease {
                    self.go_idle();
                    DispatchAction::ReleaseAndBackoff { seconds: self.config.error_backoff }
                } else {
                    self.go_idle();
                    DispatchAction::Backoff { seconds: self.config.error_backoff }
                }
            },
            _ => match self.state {
                DispatchState::Idle => match event {
                    DispatchEvent::Wake | DispatchEvent::Timer => {
                        self.state = DispatchState::Leasing;
                        DispatchAction::Acquire
                    },
                    _ => DispatchAction::Nothing,
                },
                DispatchState::Leasing => match event {
                    DispatchEvent::LeaseGranted => {
                        let sweep = !self.swept;
                        self.state = DispatchState::Fetching;
                        self.holds_lease = true;
                        self.swept = true;
                        DispatchAction::Fetch { limit: self.config.batch_size, sweep }
                    },
                    DispatchEvent::LeaseDenied => {
                        self.go_idle();
                        DispatchAction::Backoff { seconds: self.config.lease_backoff }
                    },
                    _ => DispatchAction::Nothing,
                },
                DispatchState::Fetching => match event {
                    DispatchEvent::Fetched { count } => {
                        if count == 0 {
                            self.go_idle();
                            DispatchAction::Release
                        } else {
                            self.state = DispatchState::Executing;
                            DispatchAction::Execute
                        }
                    },
                    _ => DispatchAction::Nothing,
                },
                DispatchState::Executing => match event {
                    DispatchEvent::Executed => {
                        self.state = DispatchState::Finalizing;
                        DispatchAction::Finalize
                    },
                    DispatchEvent::LeaseLost => {
                        self.state = DispatchState::Finalizing;
                        self.holds_lease = false;
                        self.swept = false;
                        DispatchAction::Finalize
                    },
                    _ => DispatchAction::Nothing,
                },
                DispatchState::Finalizing => match event {
                    DispatchEvent::Finalized { more_due } => {
                        if !self.holds_lease {
                            self.go_idle();
                            DispatchAction::Backoff { seconds: self.config.lease_backoff }
                        } else if more_due {
                            self.state = DispatchState::Leasing;
                            DispatchAction::Renew
                        } else {
                            self.go_idle();
                            DispatchAction::Release
                        }
                    },
                    _ => DispatchAction::Nothing,
                },
            },
        }
    }

    /// How long an idle loop waits for a wake signal before it looks for
    /// work by itself.
    pub fn idle_timeout(&self) -> (seconds: u64)
        ensures
            seconds == self.config.poll_interval,
    {
        self.config.poll_interval
    }

    /// Whether an idle loop listens on the wake channel, or only waits for
    /// its timer.
    pub fn listens(&self) -> (out: bool)
        ensures
            out == !self.polling_only,
    {
        !self.polling_only
    }
}

/// A loop that is in order stays in order, whatever happens.
pub proof fn lemma_loop_stays_wf(l: DispatchLoop, events: Seq<DispatchEvent>)
    requires
        l.wf(),
    ensures
        l.after(events).wf(),
    decreases events.len(),
{
    if events.len() > 0 {
        lemma_loop_stays_wf(l, events.drop_last());
    }
}

/// A loop hands records to the executors only while it holds the lease:
/// whatever has happened to it, `Execute` is what it does next only where
/// the lease was granted to it and has not been lost since.
pub proof fn lemma_executes_with_lease(
    l: DispatchLoop,
    events: Seq<DispatchEvent>,
    event: DispatchEvent,
)
    requires
        l.wf(),
        l.after(events).next(event).1 == DispatchAction::Execute,
    ensures
        l.after(events).holds_lease,
        l.after(events).next(event).0.holds_lease,
        l.after(events).state == DispatchState::Fetching,
{
    lemma_loop_stays_wf(l, events);
}

/// Once the lease is lost during a batch, the loop starts no send before
/// the lease is granted to it again.
pub proof fn lemma_lost_lease_stops(l: DispatchLoop, events: Seq<DispatchEvent>)
    requires
        l.wf(),
        l.state == DispatchState::Executing,
        forall|i: int| 0 <= i < events.len() ==> events[i] != DispatchEvent::LeaseGranted,
    ensures
        !l.next(DispatchEvent::LeaseLost).0.after(events).holds_lease,
        forall|e: DispatchEvent|
            e != DispatchEvent::LeaseGranted ==> #[trigger] l.next(DispatchEvent::LeaseLost).0.after(
                events,
            ).next(e).1 != DispatchAction::Execute,
    decreases events.len(),
{
    let lost = l.next(DispatchEvent::LeaseLost).0;
    lemma_loop_stays_wf(lost, events);
    if events.len() > 0 {
        lemma_lost_lease_stops(l, events.drop_last());
        let mid = lost.after(events.drop_last());
        lemma_loop_stays_wf(lost, events.drop_last());
        assert(events.last() != DispatchEvent::LeaseGranted);
    }
}

/// A wake signal that is lost does not stop the loop: the poll timer takes
/// an idle loop to the lease just as the signal would have.
pub proof fn lemma_timer_wakes(l: DispatchLoop)
    requires
        l.state == DispatchState::Idle,
    ensures
        l.next(DispatchEvent::Timer) == l.next(DispatchEvent::Wake),
        l.next(DispatchEvent::Timer).0.state == DispatchState::Leasing,
        l.next(DispatchEvent::Timer).1 == DispatchAction::Acquire,
{
}

} // verus!
