//! The lease over a queue: the right, for a limited time, to be the one
//! dispatch loop that works on it.

use vstd::prelude::*;
use vstd::string::*;

verus! {

/// Who holds a queue, and until when.
pub ghost struct Hold {
    pub holder: Seq<char>,
    pub expiry: u64,
}

/// The leases that are on record, by the name of the queue.
pub type Leases = Map<Seq<char>, Hold>;

/// The time at which a lease of `ttl` seconds taken at `now` runs out.
pub open spec fn expiry_of(now: u64, ttl: u64) -> u64 {
    if now + ttl > u64::MAX {
        u64::MAX
    } else {
        (now + ttl) as u64
    }
}

/// Who holds the queue at `now`: the holder of a lease that has not run out.
pub open spec fn active_holder(leases: Leases, queue: Seq<char>, now: u64) -> Option<Seq<char>> {
    if leases.contains_key(queue) && now < leases[queue].expiry {
        Some(leases[queue].holder)
    } else {
        None
    }
}

/// Whether `holder` gets the queue at `now`: nobody else holds it then.
pub open spec fn grants(leases: Leases, queue: Seq<char>, holder: Seq<char>, now: u64) -> bool {
    match active_holder(leases, queue, now) {
        Some(h) => h == holder,
        None => true,
    }
}

/// The leases after `holder` asked for the queue at `now`.
pub open spec fn acquired(
    leases: Leases,
    queue: Seq<char>,
    holder: Seq<char>,
    ttl: u64,
    now: u64,
) -> Leases {
    if grants(leases, queue, holder, now) {
        leases.insert(queue, Hold { holder, expiry: expiry_of(now, ttl) })
    } else {
        leases
    }
}

/// Whether `holder` may extend its lease at `now`: it holds the queue then.
pub open spec fn extends(leases: Leases, queue: Seq<char>, holder: Seq<char>, now: u64) -> bool {
    active_holder(leases, queue, now) == Some(holder)
}

/// The leases after `holder` asked to extend its lease at `now`.
pub open spec fn renewed(
    leases: Leases,
    queue: Seq<char>,
    holder: Seq<char>,
    ttl: u64,
    now: u64,
) -> Leases {
    if extends(leases, queue, holder, now) {
        leases.insert(queue, Hold { holder, expiry: expiry_of(now, ttl) })
    } else {
        leases
    }
}

/// Whether the lease on record for the queue is `holder`'s.
pub open spec fn owns(leases: Leases, queue: Seq<char>, holder: Seq<char>) -> bool {
    leases.contains_key(queue) && leases[queue].holder == holder
}

/// The leases after `holder` gave the queue back.
pub open spec fn released(leases: Leases, queue: Seq<char>, holder: Seq<char>) -> Leases {
    if owns(leases, queue, holder) {
        leases.remove(queue)
    } else {
        leases
    }
}

/// A lease that was granted keeps every other holder out until it runs
/// out, and is its holder's for that long.
pub proof fn lemma_lease_excludes(
    leases: Leases,
    queue: Seq<char>,
    holder: Seq<char>,
    ttl: u64,
    now: u64,
    other: Seq<char>,
    later: u64,
)
    requires
        grants(leases, queue, holder, now),
        now <= later < expiry_of(now, ttl),
        other != holder,
    ensures
        active_holder(acquired(leases, queue, holder, ttl, now), queue, later) == Some(holder),
        !grants(acquired(leases, queue, holder, ttl, now), queue, other, later),
        !extends(acquired(leases, queue, holder, ttl, now), queue, other, later),
        acquired(acquired(leases, queue, holder, ttl, now), queue, other, ttl, later) == acquired(
            leases,
            queue,
            holder,
            ttl,
            now,
        ),
{
}

/// The leases after each of `holders` asked for the queue at `now`, one
/// after the other.
pub open spec fn raced(
    leases: Leases,
    queue: Seq<char>,
    holders: Seq<Seq<char>>,
    ttl: u64,
    now: u64,
) -> Leases
    decreases holders.len(),
{
    if holders.len() == 0 {
        leases
    } else {
        acquired(raced(leases, queue, holders.drop_last(), ttl, now), queue, holders.last(), ttl, now)
    }
}

/// Of any number of holders that ask for a free queue at the same instant,
/// in whatever order their requests arrive, the first gets it and no other
/// does: each request is granted only to the holder of the first, and
/// afterwards that holder holds the queue.
pub proof fn lemma_one_holder(
    leases: Leases,
    queue: Seq<char>,
    holders: Seq<Seq<char>>,
    ttl: u64,
    now: u64,
)
    requires
        active_holder(leases, queue, now) is None,
        holders.len() > 0,
        ttl > 0,
        now < u64::MAX,
    ensures
        active_holder(raced(leases, queue, holders, ttl, now), queue, now) == Some(holders[0]),
        forall|i: int|
            0 < i < holders.len() ==> grants(
                raced(leases, queue, #[trigger] holders.take(i), ttl, now),
                queue,
                holders[i],
                now,
            ) == (holders[i] == holders[0]),
    decreases holders.len(),
{
    if holders.len() == 1 {
        assert(holders.drop_last() =~= Seq::empty());
        assert(raced(leases, queue, holders.drop_last(), ttl, now) == leases);
    } else {
        let front = holders.drop_last();
        lemma_one_holder(leases, queue, front, ttl, now);
        assert(front[0] == holders[0]);
        assert forall|i: int| 0 < i < holders.len() implies grants(
            raced(leases, queue, #[trigger] holders.take(i), ttl, now),
            queue,
            holders[i],
            now,
        ) == (holders[i] == holders[0]) by {
            if i < front.len() {
                assert(front.take(i) =~= holders.take(i));
            } else {
                assert(holders.take(i) =~= front);
            }
        }
    }
}

/// A request to the coordinator about one queue.
pub ghost enum LeaseOp {
    Acquire { holder: Seq<char>, ttl: u64, now: u64 },
    Renew { holder: Seq<char>, ttl: u64, now: u64 },
    Release { holder: Seq<char> },
}

impl LeaseOp {
    /// Who makes the request.
    pub open spec fn holder(self) -> Seq<char> {
        match self {
            LeaseOp::Acquire { holder, .. } => holder,
            LeaseOp::Renew { holder, .. } => holder,
            LeaseOp::Release { holder } => holder,
        }
    }

    /// Whether the request is made before `until`, where it is made at a
    /// time at all.
    pub open spec fn is_before(self, until: u64) -> bool {
        match self {
            LeaseOp::Acquire { now, .. } => now < until,
            LeaseOp::Renew { now, .. } => now < until,
            LeaseOp::Release { .. } => true,
        }
    }
}

/// The leases after the request `op` about `queue`.
pub open spec fn lease_step(leases: Leases, queue: Seq<char>, op: LeaseOp) -> Leases {
    match op {
        LeaseOp::Acquire { holder, ttl, now } => acquired(leases, queue, holder, ttl, now),
        LeaseOp::Renew { holder, ttl, now } => renewed(leases, queue, holder, ttl, now),
        LeaseOp::Release { holder } => released(leases, queue, holder),
    }
}

/// The leases after the requests `ops` about `queue`, one after the other.
pub open spec fn lease_run(leases: Leases, queue: Seq<char>, ops: Seq<LeaseOp>) -> Leases
    decreases ops.len(),
{
    if ops.len() == 0 {
        leases
    } else {
        lease_step(lease_run(leases, queue, ops.drop_last()), queue, ops.last())
    }
}

/// While a lease has not run out, nothing that other holders ask for goes
/// through: whatever they request, and however often, every request is
/// turned down and the lease stays as it is.
pub proof fn lemma_lease_holds(leases: Leases, queue: Seq<char>, ops: Seq<LeaseOp>)
    requires
        leases.contains_key(queue),
        forall|i: int|
            0 <= i < ops.len() ==> (#[trigger] ops[i]).holder() != leases[queue].holder
                && ops[i].is_before(leases[queue].expiry),
    ensures
        lease_run(leases, queue, ops) == leases,
    decreases ops.len(),
{
    if ops.len() > 0 {
        lemma_lease_holds(leases, queue, ops.drop_last());
        let op = ops.last();
        assert(op.holder() != leases[queue].holder && op.is_before(leases[queue].expiry));
    }
}

/// One lease on record.
#[derive(Debug)]
pub struct Lease {
    pub queue: String,
    pub holder: String,
    pub expiry: u64,
}

/// The leases over the queues of a system, kept in memory.
pub struct LeaseCoordinator {
    leases: Vec<Lease>,
}

/// Whether the lease at `i` is the one on record for `queue`.
pub open spec fn is_lease_of(leases: Seq<Lease>, queue: Seq<char>, i: int) -> bool {
    0 <= i < leases.len() && leases[i].queue@ == queue
}

impl View for LeaseCoordinator {
    type V = Leases;

    closed spec fn view(&self) -> Leases {
        Map::new(
            |q: Seq<char>| exists|i: int| is_lease_of(self.leases@, q, i),
            |q: Seq<char>|
                {
                    let i = choose|i: int| is_lease_of(self.leases@, q, i);
                    Hold { holder: self.leases@[i].holder@, expiry: self.leases@[i].expiry }
                },
        )
    }
}

impl LeaseCoordinator {
    /// No queue has two leases on record.
    pub closed spec fn wf(&self) -> bool {
        forall|i: int, j: int|
            0 <= i < j < self.leases@.len() ==> (#[trigger] self.leases@[i]).queue@ != (
            #[trigger] self.leases@[j]).queue@
    }

    /// A coordinator without leases.
    pub fn new() -> (out: Self)
        ensures
            out.wf(),
            out@ == Map::<Seq<char>, Hold>::empty(),
    {
        let out = LeaseCoordinator { leases: Vec::new() };
        proof {
            assert(out@ =~= Map::<Seq<char>, Hold>::empty());
        }
        out
    }

    proof fn lemma_at(&self, i: int)
        requires
            self.wf(),
            0 <= i < self.leases@.len(),
        ensures
            self@.contains_key(self.leases@[i].queue@),
            self@[self.leases@[i].queue@] == (Hold {
                holder: self.leases@[i].holder@,
                expiry: self.leases@[i].expiry,
            }),
    {
        let q = self.leases@[i].queue@;
        assert(is_lease_of(self.leases@, q, i));
        let j = choose|j: int| is_lease_of(self.leases@, q, j);
        if j < i {
            assert(self.leases@[j].queue@ != self.leases@[i].queue@);
        } else if i < j {
            assert(self.leases@[i].queue@ != self.leases@[j].queue@);
        }
    }

    fn find(&self, queue: &str) -> (at: Option<usize>)
        requires
            self.wf(),
        ensures
            match at {
                Some(i) => i < self.leases@.len() && self.leases@[i as int].queue@ == queue@
                    && self@.contains_key(queue@) && self@[queue@] == (Hold {
                    holder: self.leases@[i as int].holder@,
                    expiry: self.leases@[i as int].expiry,
                }),
                None => !self@.contains_key(queue@) && forall|k: int|
                    0 <= k < self.leases@.len() ==> (#[trigger] self.leases@[k]).queue@ != queue@,
            },
    {
        let mut i: usize = 0;
        while i < self.leases.len()
            invariant
                self.wf(),
                i <= self.leases@.len(),
                forall|k: int| 0 <= k < i ==> (#[trigger] self.leases@[k]).queue@ != queue@,
            decreases self.leases@.len() - i,
        {
            if same_text(self.leases[i].queue.as_str(), queue) {
                proof {
                    self.lemma_at(i as int);
                }
                return Some(i);
            }
            i += 1;
        }
        None
    }

    /// Who holds `queue` at `now`.
    pub fn holder(&self, queue: &str, now: u64) -> (out: Option<String>)
        requires
            self.wf(),
        ensures
            match out {
                Some(h) => active_holder(self@, queue@, now) == Some(h@),
                None => active_holder(self@, queue@, now) is None,
            },
    {
        match self.find(queue) {
            Some(i) => if now < self.leases[i].expiry {
                Some(self.leases[i].holder.clone())
            } else {
                None
            },
            None => None,
        }
    }

    fn put(&mut self, at: Option<usize>, queue: &str, holder: &str, expiry: u64)
        requires
            old(self).wf(),
            match at {
                Some(i) => i < old(self).leases@.len() && old(self).leases@[i as int].queue@
                    == queue@,
                None => forall|k: int|
                    0 <= k < old(self).leases@.len() ==> (#[trigger] old(self).leases@[k]).queue@
                        != queue@,
            },
        ensures
            final(self).wf(),
            final(self)@ == old(self)@.insert(queue@, Hold { holder: holder@, expiry }),
    {
        let ghost before = *self;
        let lease = Lease {
            queue: String::from_str(queue),
            holder: String::from_str(holder),
            expiry,
        };
        let ghost place: int;
        match at {
            Some(i) => {
                self.leases.set(i, lease);
                proof {
                    place = i as int;
                }
            },
            None => {
                self.leases.push(lease);
                proof {
                    place = before.leases@.len() as int;
                }
            },
        }
        proof {
            assert(self.wf()) by {
                assert forall|i: int, j: int| 0 <= i < j < self.leases@.len() implies (
                #[trigger] self.leases@[i]).queue@ != (#[trigger] self.leases@[j]).queue@ by {
                    if i != place && j != place {
                        assert(before.leases@[i].queue@ != before.leases@[j].queue@);
                    } else if i == place && j < before.leases@.len() {
                        assert(before.leases@[i].queue@ != before.leases@[j].queue@);
                    } else if j == place && j < before.leases@.len() {
                        assert(before.leases@[i].queue@ != before.leases@[j].queue@);
                    }
                }
            }
            let want = before@.insert(queue@, Hold { holder: holder@, expiry });
            assert forall|q: Seq<char>| self@.contains_key(q) == want.contains_key(q) by {
                if self@.contains_key(q) {
                    let i = choose|i: int| is_lease_of(self.leases@, q, i);
                    if i != place {
                        assert(is_lease_of(before.leases@, q, i));
                    }
                }
                if want.contains_key(q) {
                    if q == queue@ {
                        assert(is_lease_of(self.leases@, q, place));
                    } else {
                        let i = choose|i: int| is_lease_of(before.leases@, q, i);
                        assert(is_lease_of(self.leases@, q, i));
                    }
                }
            }
            assert forall|q: Seq<char>| self@.contains_key(q) implies self@[q] == want[q] by {
                let i = choose|i: int| is_lease_of(self.leases@, q, i);
                self.lemma_at(i);
                if i != place {
                    before.lemma_at(i);
                }
            }
            assert(self@ =~= want);
        }
    }

    /// Asks for `queue` in the name of `holder`, for `ttl` seconds from
    /// `now`. The lease is granted unless another holder's lease has not run
    /// out; a holder that asks again while it holds the queue gets a lease
    /// that runs from `now`.
    pub fn try_acquire(&mut self, queue: &str, holder: &str, ttl: u64, now: u64) -> (granted: bool)
        requires
            old(self).wf(),
        ensures
            final(self).wf(),
            granted == grants(old(self)@, queue@, holder@, now),
            final(self)@ == acquired(old(self)@, queue@, holder@, ttl, now),
    {
        let at = self.find(queue);
        let free = match at {
            Some(i) => now >= self.leases[i].expiry || same_text(
                self.leases[i].holder.as_str(),
                holder,
            ),
            None => true,
        };
        if free {
            let expiry = if ttl > u64::MAX - now {
                u64::MAX
            } else {
                now + ttl
            };
            self.put(at, queue, holder, expiry);
        }
        free
    }

    /// Extends the lease of `holder` over `queue` to `ttl` seconds from
    /// `now`. Only the holder of a lease that has not run out can extend it:
    /// a holder that is told `false` has lost the queue.
    pub fn renew(&mut self, queue: &str, holder: &str, ttl: u64, now: u64) -> (kept: bool)
        requires
            old(self).wf(),
        ensures
            final(self).wf(),
            kept == extends(old(self)@, queue@, holder@, now),
            final(self)@ == renewed(old(self)@, queue@, holder@, ttl, now),
    {
        let at = self.find(queue);
        let mine = match at {
            Some(i) => now < self.leases[i].expiry && same_text(
                self.leases[i].holder.as_str(),
                holder,
            ),
            None => false,
        };
        if mine {
            let expiry = if ttl > u64::MAX - now {
                u64::MAX
            } else {
                now + ttl
            };
            self.put(at, queue, holder, expiry);
        }
        mine
    }

    /// Gives `queue` back. Only the holder on record can give it back; the
    /// answer says whether a lease was taken off the record.
    pub fn release(&mut self, queue: &str, holder: &str) -> (given: bool)
        requires
            old(self).wf(),
        ensures
            final(self).wf(),
            given == owns(old(self)@, queue@, holder@),
            final(self)@ == released(old(self)@, queue@, holder@),
    {
        let ghost before = *self;
        match self.find(queue) {
            Some(i) => {
                if same_text(self.leases[i].holder.as_str(), holder) {
                    self.leases.remove(i);
                    proof {
                        assert(self.wf()) by {
                            assert forall|a: int, b: int|
                                0 <= a < b < self.leases@.len() implies (
                            #[trigger] self.leases@[a]).queue@ != (
                            #[trigger] self.leases@[b]).queue@ by {
                                let a0 = if a < i {
                                    a
                                } else {
                                    a + 1
                                };
                                let b0 = if b < i {
                                    b
                                } else {
                                    b + 1
                                };
                                assert(before.leases@[a0].queue@ != before.leases@[b0].queue@);
                            }
                        }
                        let want = before@.remove(queue@);
                        assert forall|q: Seq<char>| self@.contains_key(q) == want.contains_key(
                            q,
                        ) by {
                            if self@.contains_key(q) {
                                let a = choose|a: int| is_lease_of(self.leases@, q, a);
                                let a0 = if a < i {
                                    a
                                } else {
                                    a + 1
                                };
                                assert(is_lease_of(before.leases@, q, a0));
                                if a0 < i {
                                    assert(before.leases@[a0].queue@ != before.leases@[i as int].queue@);
                                } else {
                                    assert(before.leases@[i as int].queue@ != before.leases@[a0].queue@);
                                }
                            }
                            if want.contains_key(q) {
                                let a0 = choose|a0: int| is_lease_of(before.leases@, q, a0);
                                let a = if a0 < i {
                                    a0
                                } else {
                                    a0 - 1
                                };
                                assert(is_lease_of(self.leases@, q, a));
                            }
                        }
                        assert forall|q: Seq<char>| self@.contains_key(q) implies self@[q]
                            == want[q] by {
                            let a = choose|a: int| is_lease_of(self.leases@, q, a);
                            let a0 = if a < i {
                                a
                            } else {
                                a + 1
                            };
                            self.lemma_at(a);
                            before.lemma_at(a0);
                        }
                        assert(self@ =~= want);
                    }
                    true
                } else {
                    false
                }
            },
            None => false,
        }
    }
}

fn same_text(a: &str, b: &str) -> (same: bool)
    ensures
        same == (a@ == b@),
{
    let x = String::from_str(a);
    let y = String::from_str(b);
    x == y
}

} // verus!
