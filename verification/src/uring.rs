//! The ring backend.
//!
//! A submission ring holds a fixed number of entries between flushes;
//! completions come back as plain records carrying the submitter's
//! 64-bit tag and a result code. The I/O layer owns the ring, the
//! wakeup event descriptor, and the kernel calls; this state machine
//! owns the occupancy budget, the coalescing wakeup flag, and the
//! translation of raw completions into events.

use vstd::prelude::*;

use crate::{Event, OpError, OpResult, NOTIFY_KEY};

verus! {

/// A raw completion drained from the ring: the tag the submission
/// carried, and the kernel's result code, negative for an error.
#[derive(Debug, Copy, Clone, PartialEq, Eq, Structural)]
pub struct RawCqe {
    /// The tag the submission carried; the caller's key, or the
    /// reserved key for a wakeup.
    pub user_data: u64,
    /// The kernel's result: bytes transferred, or a negated error
    /// code.
    pub result: i32,
}

/// The event result a raw completion code stands for: a negative
/// code is the negated OS error, anything else is bytes transferred.
pub open spec fn cqe_result(code: i32) -> OpResult {
    if code < 0 {
        Err(OpError::Os((-(code as int)) as i32))
    } else {
        Ok(code as usize)
    }
}

/// The events a batch of raw completions stands for: wakeups are
/// consumed silently, everything else is an event under its tag.
pub open spec fn cqe_events(cqes: Seq<RawCqe>) -> Seq<Event>
    decreases cqes.len(),
{
    if cqes.len() == 0 {
        Seq::empty()
    } else {
        let rest = cqe_events(cqes.drop_last());
        if cqes.last().user_data == NOTIFY_KEY {
            rest
        } else {
            rest.push(Event { key: cqes.last().user_data, result: cqe_result(cqes.last().result) })
        }
    }
}

/// Does this batch hold a wakeup completion?
pub open spec fn has_wakeup(cqes: Seq<RawCqe>) -> bool {
    exists|i: int| 0 <= i < cqes.len() && cqes[i].user_data == NOTIFY_KEY
}

/// How many completions of a batch are not wakeups.
pub open spec fn completion_count(cqes: Seq<RawCqe>) -> nat
    decreases cqes.len(),
{
    if cqes.len() == 0 {
        0
    } else {
        completion_count(cqes.drop_last()) + if cqes.last().user_data == NOTIFY_KEY {
            0nat
        } else {
            1nat
        }
    }
}

/// Every completion fires exactly one event: a drained batch yields
/// one event per completion that is not a wakeup, and no others.
pub proof fn lemma_each_completion_fires_once(cqes: Seq<RawCqe>)
    ensures
        cqe_events(cqes).len() == completion_count(cqes),
    decreases cqes.len(),
{
    if cqes.len() > 0 {
        lemma_each_completion_fires_once(cqes.drop_last());
    }
}

/// How many wakeups a run of consecutive notifications produces,
/// starting from the given state of the coalescing flag: each
/// notification wakes only when the flag was clear, and leaves it
/// set.
pub open spec fn wakeups_of_notifies(notified: bool, n: nat) -> nat
    decreases n,
{
    if n == 0 {
        0
    } else {
        (if notified {
            0nat
        } else {
            1nat
        }) + wakeups_of_notifies(true, (n - 1) as nat)
    }
}

/// Notification is coalescing: however many consecutive
/// notifications arrive with no intervening wait, at most one wakeup
/// is produced, and from a quiet state exactly one.
pub proof fn lemma_notify_coalesces(notified: bool, n: nat)
    ensures
        wakeups_of_notifies(notified, n) <= 1,
        !notified && n >= 1 ==> wakeups_of_notifies(notified, n) == 1,
        notified ==> wakeups_of_notifies(notified, n) == 0,
    decreases n,
{
    if n > 0 {
        lemma_notify_coalesces(true, (n - 1) as nat);
    }
}

/// The absolute deadline of a wait, as a wall-clock instant: the
/// current time plus the timeout, with the nanosecond parts carried
/// into the seconds.
pub fn wait_deadline(now: crate::TimeSpan, timeout: crate::TimeSpan) -> (r: crate::TimeSpan)
    requires
        now.nanos < 1_000_000_000,
        timeout.nanos < 1_000_000_000,
        now.secs + timeout.secs + 1 <= u64::MAX,
    ensures
        r.nanos < 1_000_000_000,
        r.secs as int * 1_000_000_000 + r.nanos as int == (now.secs as int + timeout.secs as int)
            * 1_000_000_000 + now.nanos as int + timeout.nanos as int,
{
    let mut secs = now.secs + timeout.secs;
    let mut nanos = now.nanos + timeout.nanos;
    if nanos >= 1_000_000_000 {
        secs = secs + 1;
        nanos = nanos - 1_000_000_000;
    }
    crate::TimeSpan { secs, nanos }
}

/// The ring backend's bookkeeping: the ring's fixed entry budget,
/// how much of it is taken by entries not yet flushed to the kernel,
/// and the coalescing wakeup flag.
pub struct Completion {
    /// The fixed number of submission entries the ring holds.
    capacity: usize,
    /// Entries pushed since the last flush.
    sq_pending: usize,
    /// Whether a wakeup is already on its way.
    notified: bool,
}

impl Completion {
    /// The fixed submission budget.
    pub closed spec fn spec_capacity(&self) -> usize {
        self.capacity
    }

    /// Entries pushed since the last flush.
    pub closed spec fn spec_sq_pending(&self) -> usize {
        self.sq_pending
    }

    /// Whether a wakeup is already on its way.
    pub closed spec fn spec_notified(&self) -> bool {
        self.notified
    }

    /// The pending count stays within the ring's budget.
    pub open spec fn wf(&self) -> bool {
        self.spec_sq_pending() <= self.spec_capacity()
    }

    /// A fresh backend over a ring of `capacity` entries.
    pub fn new(capacity: usize) -> (c: Self)
        ensures
            c.wf(),
            c.spec_capacity() == capacity,
            c.spec_sq_pending() == 0,
            c.spec_notified() == false,
    {
        Completion { capacity, sq_pending: 0, notified: false }
    }

    /// The fixed submission budget.
    pub fn capacity(&self) -> (n: usize)
        ensures
            n == self.spec_capacity(),
    {
        self.capacity
    }

    /// Whether a wakeup is already on its way.
    pub fn is_notified(&self) -> (b: bool)
        ensures
            b == self.spec_notified(),
    {
        self.notified
    }

    /// Registration is a no-op on this backend: the ring binds
    /// descriptors per submission.
    pub fn register(&self) -> (r: Result<(), OpError>)
        ensures
            r == Ok::<(), OpError>(()),
    {
        Ok(())
    }

    /// Deregistration is likewise a no-op.
    pub fn deregister(&self) -> (r: Result<(), OpError>)
        ensures
            r == Ok::<(), OpError>(()),
    {
        Ok(())
    }

    /// Account for one submission: reject the reserved key and a
    /// full ring; otherwise one entry of the budget is taken and the
    /// I/O layer may push the entry, tagged with `key`, onto the
    /// ring.
    pub fn submit(&mut self, key: u64) -> (r: Result<(), OpError>)
        requires
            old(self).wf(),
        ensures
            final(self).wf(),
            final(self).spec_capacity() == old(self).spec_capacity(),
            final(self).spec_notified() == old(self).spec_notified(),
            match r {
                Ok(()) => {
                    &&& key != NOTIFY_KEY
                    &&& old(self).spec_sq_pending() < old(self).spec_capacity()
                    &&& final(self).spec_sq_pending() == old(self).spec_sq_pending() + 1
                },
                Err(e) => {
                    &&& final(self).spec_sq_pending() == old(self).spec_sq_pending()
                    &&& (key == NOTIFY_KEY || old(self).spec_sq_pending() == old(self).spec_capacity())
                    &&& (e == OpError::InvalidInput <==> key == NOTIFY_KEY)
                    &&& (e == OpError::OutOfMemory <==> key != NOTIFY_KEY && old(
                        self,
                    ).spec_sq_pending() == old(self).spec_capacity())
                },
            },
    {
        if key == NOTIFY_KEY {
            return Err(OpError::InvalidInput);
        }
        if self.sq_pending == self.capacity {
            return Err(OpError::OutOfMemory);
        }
        self.sq_pending = self.sq_pending + 1;
        Ok(())
    }

    /// Account for a wakeup request. Wakeups coalesce: when one is
    /// already on its way nothing happens; otherwise one ring entry
    /// is taken for the wakeup read, and the I/O layer must signal
    /// the event descriptor and push that entry under the reserved
    /// key. A full ring fails the wakeup.
    pub fn notify(&mut self) -> (r: Result<bool, OpError>)
        requires
            old(self).wf(),
        ensures
            final(self).wf(),
            final(self).spec_capacity() == old(self).spec_capacity(),
            match r {
                Ok(wake) => {
                    &&& wake == !old(self).spec_notified()
                    &&& final(self).spec_notified() == true
                    &&& if wake {
                        old(self).spec_sq_pending() < old(self).spec_capacity() && final(self).spec_sq_pending() == old(self).spec_sq_pending() + 1
                    } else {
                        final(self).spec_sq_pending() == old(self).spec_sq_pending()
                    }
                },
                Err(e) => {
                    &&& e == OpError::Other
                    &&& !old(self).spec_notified()
                    &&& old(self).spec_sq_pending() == old(self).spec_capacity()
                    &&& final(self).spec_notified() == old(self).spec_notified()
                    &&& final(self).spec_sq_pending() == old(self).spec_sq_pending()
                },
            },
    {
        if self.notified {
            return Ok(false);
        }
        if self.sq_pending == self.capacity {
            return Err(OpError::Other);
        }
        self.notified = true;
        self.sq_pending = self.sq_pending + 1;
        Ok(true)
    }

    /// Turn a drained batch of raw completions into events, appended
    /// to `out`: a completion under the reserved key is a wakeup and
    /// only clears the coalescing flag; every other completion
    /// becomes exactly one event under its tag. The flush that
    /// preceded the drain has emptied the pending budget. Returns
    /// how many events were appended, wakeups excluded.
    pub fn complete(&mut self, cqes: &Vec<RawCqe>, out: &mut Vec<Event>) -> (n: usize)
        ensures
            final(self).spec_capacity() == old(self).spec_capacity(),
            final(self).spec_sq_pending() == 0,
            final(self).wf(),
            final(self).spec_notified() == (old(self).spec_notified() && !has_wakeup(cqes@)),
            final(out)@ == old(out)@ + cqe_events(cqes@),
            n == cqe_events(cqes@).len(),
            forall|i: int|
                old(out)@.len() <= i < final(out)@.len() ==> final(out)@[i].key != NOTIFY_KEY,
    {
        let mut i: usize = 0;
        let len = cqes.len();
        let mut n: usize = 0;
        while i < len
            invariant
                len == cqes@.len(),
                0 <= i <= len,
                out@ == old(out)@ + cqe_events(cqes@.take(i as int)),
                n == cqe_events(cqes@.take(i as int)).len(),
                n <= i,
                self.notified == (old(self).spec_notified() && !has_wakeup(cqes@.take(i as int))),
                self.capacity == old(self).spec_capacity(),
                self.sq_pending == old(self).spec_sq_pending(),
                forall|j: int| old(out)@.len() <= j < out@.len() ==> out@[j].key != NOTIFY_KEY,
            decreases len - i,
        {
            proof {
                assert(cqes@.take(i + 1).drop_last() =~= cqes@.take(i as int));
                assert(cqes@.take(i + 1).last() == cqes@[i as int]);
                if cqes@[i as int].user_data == NOTIFY_KEY {
                    assert(has_wakeup(cqes@.take(i + 1)));
                } else {
                    assert(has_wakeup(cqes@.take(i + 1)) == has_wakeup(cqes@.take(i as int))) by {
                        if has_wakeup(cqes@.take(i as int)) {
                            let w = choose|w: int|
                                0 <= w < i && (#[trigger] cqes@.take(i as int)[w]).user_data
                                    == NOTIFY_KEY;
                            assert(cqes@.take(i + 1)[w].user_data == NOTIFY_KEY);
                        }
                        if has_wakeup(cqes@.take(i + 1)) {
                            let w = choose|w: int|
                                0 <= w < i + 1 && (#[trigger] cqes@.take(i + 1)[w]).user_data
                                    == NOTIFY_KEY;
                            assert(w < i);
                            assert(cqes@.take(i as int)[w].user_data == NOTIFY_KEY);
                        }
                    }
                }
            }
            let cqe = cqes[i];
            if cqe.user_data == NOTIFY_KEY {
                self.notified = false;
            } else {
                let result = if cqe.result < 0 {
                    let neg: i64 = -(cqe.result as i64);
                    Err(OpError::Os(#[verifier::truncate] (neg as i32)))
                } else {
                    Ok(cqe.result as usize)
                };
                out.push(Event { key: cqe.user_data, result });
                n = n + 1;
            }
            i = i + 1;
        }
        proof {
            assert(cqes@.take(len as int) =~= cqes@);
        }
        self.sq_pending = 0;
        n
    }
}

} // verus!
