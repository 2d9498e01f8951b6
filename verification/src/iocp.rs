//! The completion-port backend.
//!
//! A completion port delivers one packet per finished operation. The
//! I/O layer owns the port, the overlapped records, and the Win32
//! calls; this state machine owns the fixed-capacity table of
//! in-flight operations, the coalescing wakeup flag, and the reading
//! of completion packets into events.

use vstd::prelude::*;

use crate::slab_store::{
    flight_slab_get, flight_slab_insert, flight_slab_set, flight_slab_try_remove, flight_slab_view,
    flight_slab_with_capacity, FlightRec,
};
use crate::source::SourceType;
use crate::{Event, OpError, OpResult, SubmissionStatus, TimeSpan, NOTIFY_KEY};

verus! {

broadcast use vstd::set::group_set_axioms;

/// The wait-forever timeout value of the port's wait call.
pub const INFINITE: u32 = 0xffff_ffff;

/// A completion packet, as read back from the port: the key and
/// table index stored in the per-operation record, the operation's
/// internal completion code, and the OS error observed when the code
/// reported failure.
#[derive(Debug, Copy, Clone, PartialEq, Eq, Structural)]
pub struct RawCompletion {
    /// The key stored in the per-operation record, or the reserved
    /// key for a wakeup packet.
    pub key: u64,
    /// The in-flight table index stored in the record.
    pub index: usize,
    /// The operation's internal completion code.
    pub internal: i64,
    /// The OS error current when the packet was read.
    pub os_error: i32,
}

/// The event result a completion code stands for. A zero code on a
/// file or an all-ones code on a socket reports failure, carrying
/// the OS error; anything else is the transferred byte count.
pub open spec fn iocp_result(ty: SourceType, internal: i64, os_error: i32) -> OpResult {
    if (ty == SourceType::File && internal == 0) || (ty == SourceType::Socket && internal == -1) {
        Err(OpError::Os(os_error))
    } else {
        Ok(internal as usize)
    }
}

/// Does this batch hold a wakeup packet?
pub open spec fn has_notify_packet(ps: Seq<RawCompletion>) -> bool {
    exists|i: int| 0 <= i < ps.len() && ps[i].key == NOTIFY_KEY
}

/// The in-flight table left after a batch of packets: every
/// non-wakeup packet takes its operation's entry out.
pub open spec fn table_after(m: Map<usize, FlightRec>, ps: Seq<RawCompletion>) -> Map<
    usize,
    FlightRec,
>
    decreases ps.len(),
{
    if ps.len() == 0 {
        m
    } else {
        let m2 = if ps[0].key != NOTIFY_KEY {
            m.remove(ps[0].index)
        } else {
            m
        };
        table_after(m2, ps.drop_first())
    }
}

/// The events a batch of packets fires against an in-flight table:
/// wakeup packets fire nothing, a packet for an entry that already
/// completed synchronously is discarded, and every other packet for
/// a live entry fires exactly one event under the entry's key.
pub open spec fn packet_events(m: Map<usize, FlightRec>, ps: Seq<RawCompletion>) -> Seq<Event>
    decreases ps.len(),
{
    if ps.len() == 0 {
        Seq::empty()
    } else {
        let p = ps[0];
        let head: Seq<Event> = if p.key != NOTIFY_KEY && m.contains_key(p.index)
            && !m[p.index].sync_done {
            seq![
                Event {
                    key: m[p.index].key,
                    result: iocp_result(m[p.index].source_type, p.internal, p.os_error),
                },
            ]
        } else {
            Seq::empty()
        };
        let m2 = if p.key != NOTIFY_KEY {
            m.remove(p.index)
        } else {
            m
        };
        head + packet_events(m2, ps.drop_first())
    }
}

/// Every key in the table is a caller's key, never the reserved one.
pub open spec fn table_keys_ok(m: Map<usize, FlightRec>) -> bool {
    forall|k: usize| #[trigger] m.contains_key(k) ==> m[k].key != NOTIFY_KEY
}

/// An operation fires exactly one event: the packet for a live entry
/// fires the entry's own event and takes the entry out, so a
/// duplicate packet for the same slot fires nothing more.
pub proof fn lemma_exactly_one_event(m: Map<usize, FlightRec>, p: RawCompletion)
    requires
        p.key != NOTIFY_KEY,
        m.contains_key(p.index),
        !m[p.index].sync_done,
    ensures
        packet_events(m, seq![p, p]) == seq![
            Event {
                key: m[p.index].key,
                result: iocp_result(m[p.index].source_type, p.internal, p.os_error),
            },
        ],
        !table_after(m, seq![p, p]).contains_key(p.index),
{
    let two = seq![p, p];
    let one = seq![p];
    assert(two.drop_first() =~= one);
    assert(one.drop_first() =~= Seq::<RawCompletion>::empty());
    let ev = Event {
        key: m[p.index].key,
        result: iocp_result(m[p.index].source_type, p.internal, p.os_error),
    };
    assert(!m.remove(p.index).contains_key(p.index));
    assert(packet_events(m.remove(p.index).remove(p.index), Seq::<RawCompletion>::empty())
        == Seq::<Event>::empty());
    assert(packet_events(m.remove(p.index), one) =~= Seq::<Event>::empty());
    assert(packet_events(m, two) =~= seq![ev]);
    assert(two.drop_first() == one);
    assert(one.drop_first() == Seq::<RawCompletion>::empty());
    assert(table_after(m, two) == table_after(m.remove(p.index), one));
    assert(table_after(m.remove(p.index), one) == table_after(
        m.remove(p.index).remove(p.index),
        Seq::<RawCompletion>::empty(),
    ));
    assert(!m.remove(p.index).remove(p.index).contains_key(p.index));
}

/// The completion-port backend's bookkeeping: the fixed-capacity
/// table of in-flight operations and the coalescing wakeup flag.
pub struct Completion {
    /// The in-flight operations, at stable indices the overlapped
    /// records carry.
    flights: slab::Slab<FlightRec>,
    /// The fixed number of in-flight operations.
    capacity: usize,
    /// How many operations are in flight now.
    in_flight: usize,
    /// Whether a wakeup packet is already on its way.
    notified: bool,
}

impl Completion {
    /// The in-flight operations, by table index.
    pub closed spec fn table(&self) -> Map<usize, FlightRec> {
        flight_slab_view(self.flights)
    }

    /// The fixed in-flight budget.
    pub closed spec fn spec_capacity(&self) -> usize {
        self.capacity
    }

    /// How many operations are in flight now.
    pub closed spec fn spec_in_flight(&self) -> usize {
        self.in_flight
    }

    /// Whether a wakeup packet is already on its way.
    pub closed spec fn spec_notified(&self) -> bool {
        self.notified
    }

    /// Well-formedness: the in-flight count is exactly the number of
    /// occupied table slots, stays within the budget, and no entry
    /// carries the reserved key.
    pub open spec fn wf(&self) -> bool {
        &&& self.table().dom().finite()
        &&& self.spec_in_flight() == self.table().dom().len()
        &&& self.spec_in_flight() <= self.spec_capacity()
        &&& table_keys_ok(self.table())
    }

    /// A fresh backend with room for `capacity` in-flight
    /// operations.
    pub fn new(capacity: usize) -> (c: Self)
        ensures
            c.wf(),
            c.table() == Map::<usize, FlightRec>::empty(),
            c.spec_capacity() == capacity,
            c.spec_in_flight() == 0,
            c.spec_notified() == false,
    {
        Completion {
            flights: flight_slab_with_capacity(capacity),
            capacity,
            in_flight: 0,
            notified: false,
        }
    }

    /// The fixed in-flight budget.
    pub fn capacity(&self) -> (n: usize)
        ensures
            n == self.spec_capacity(),
    {
        self.capacity
    }

    /// How many operations are in flight now.
    pub fn in_flight(&self) -> (n: usize)
        ensures
            n == self.spec_in_flight(),
    {
        self.in_flight
    }

    /// Whether a wakeup packet is already on its way.
    pub fn is_notified(&self) -> (b: bool)
        ensures
            b == self.spec_notified(),
    {
        self.notified
    }

    /// Reserve an in-flight slot for one operation: reject the
    /// reserved key and a full table; otherwise the new entry's
    /// index is returned, for the I/O layer to store in the
    /// operation's overlapped record before starting the OS call.
    pub fn submit(&mut self, key: u64, source_type: SourceType) -> (r: Result<usize, OpError>)
        requires
            old(self).wf(),
        ensures
            final(self).wf(),
            final(self).spec_capacity() == old(self).spec_capacity(),
            final(self).spec_notified() == old(self).spec_notified(),
            match r {
                Ok(index) => {
                    &&& key != NOTIFY_KEY
                    &&& old(self).spec_in_flight() < old(self).spec_capacity()
                    &&& final(self).spec_in_flight() == old(self).spec_in_flight() + 1
                    &&& !old(self).table().contains_key(index)
                    &&& final(self).table() == old(self).table().insert(
                        index,
                        (FlightRec { key, source_type, sync_done: false }),
                    )
                },
                Err(e) => {
                    &&& final(self).table() == old(self).table()
                    &&& final(self).spec_in_flight() == old(self).spec_in_flight()
                    &&& (key == NOTIFY_KEY || old(self).spec_in_flight() == old(self).spec_capacity())
                    &&& (e == OpError::InvalidInput <==> key == NOTIFY_KEY)
                    &&& (e == OpError::OutOfMemory <==> key != NOTIFY_KEY && old(
                        self,
                    ).spec_in_flight() == old(self).spec_capacity())
                },
            },
    {
        if key == NOTIFY_KEY {
            return Err(OpError::InvalidInput);
        }
        if self.in_flight == self.capacity {
            return Err(OpError::OutOfMemory);
        }
        let index = flight_slab_insert(
            &mut self.flights,
            FlightRec { key, source_type, sync_done: false },
        );
        self.in_flight = self.in_flight + 1;
        Ok(index)
    }

    /// Account for the start of the reserved operation, fed what the
    /// OS call reported: still pending, synchronously complete with a
    /// byte count, or a hard failure.
    ///
    /// A synchronous completion is reported back as already
    /// complete, and the entry is marked so the completion packet
    /// the port will still queue is discarded. A hard failure frees
    /// the entry and is passed through.
    pub fn submit_started(&mut self, index: usize, outcome: Result<Option<usize>, OpError>) -> (r:
        Result<SubmissionStatus, OpError>)
        requires
            old(self).wf(),
        ensures
            final(self).wf(),
            final(self).spec_capacity() == old(self).spec_capacity(),
            final(self).spec_notified() == old(self).spec_notified(),
            match outcome {
                Ok(None) => {
                    &&& r == Ok::<SubmissionStatus, OpError>(SubmissionStatus::Submitted)
                    &&& final(self).table() == old(self).table()
                    &&& final(self).spec_in_flight() == old(self).spec_in_flight()
                },
                Ok(Some(n)) => {
                    &&& r == Ok::<SubmissionStatus, OpError>(
                        SubmissionStatus::AlreadyComplete(Ok(n)),
                    )
                    &&& final(self).spec_in_flight() == old(self).spec_in_flight()
                    &&& if old(self).table().contains_key(index) {
                        final(self).table() == old(self).table().insert(
                            index,
                            (FlightRec {
                                key: old(self).table()[index].key,
                                source_type: old(self).table()[index].source_type,
                                sync_done: true,
                            }),
                        )
                    } else {
                        final(self).table() == old(self).table()
                    }
                },
                Err(e) => {
                    &&& r == Err::<SubmissionStatus, OpError>(e)
                    &&& final(self).table() == if old(self).table().contains_key(index) {
                        old(self).table().remove(index)
                    } else {
                        old(self).table()
                    }
                    &&& final(self).spec_in_flight() as int == old(self).spec_in_flight() - (
                    if old(self).table().contains_key(index) {
                        1int
                    } else {
                        0int
                    })
                },
            },
    {
        match outcome {
            Ok(None) => Ok(SubmissionStatus::Submitted),
            Ok(Some(n)) => {
                match flight_slab_get(&self.flights, index) {
                    Some(rec) => {
                        let marked = FlightRec {
                            key: rec.key,
                            source_type: rec.source_type,
                            sync_done: true,
                        };
                        flight_slab_set(&mut self.flights, index, marked);
                    },
                    None => {},
                }
                Ok(SubmissionStatus::AlreadyComplete(Ok(n)))
            },
            Err(e) => {
                match flight_slab_try_remove(&mut self.flights, index) {
                    Some(_) => {
                        self.in_flight = self.in_flight - 1;
                    },
                    None => {},
                }
                Err(e)
            },
        }
    }

    /// Account for a wakeup request. Wakeups coalesce: when one is
    /// already on its way nothing happens; otherwise the I/O layer
    /// must post a packet under the reserved key.
    pub fn notify(&mut self) -> (wake: bool)
        ensures
            final(self).table() == old(self).table(),
            final(self).spec_capacity() == old(self).spec_capacity(),
            final(self).spec_in_flight() == old(self).spec_in_flight(),
            wake == !old(self).spec_notified(),
            final(self).spec_notified() == true,
    {
        if self.notified {
            false
        } else {
            self.notified = true;
            true
        }
    }

    /// Turn a batch of completion packets into events, appended to
    /// `out`: a wakeup packet only clears the coalescing flag, a
    /// packet for an entry that completed synchronously at
    /// submission is discarded, and every other packet for a live
    /// entry fires exactly one event under that entry's key and
    /// frees the entry. Returns how many events were appended,
    /// wakeups excluded.
    pub fn complete(&mut self, packets: &Vec<RawCompletion>, out: &mut Vec<Event>) -> (n: usize)
        requires
            old(self).wf(),
        ensures
            final(self).wf(),
            final(self).spec_capacity() == old(self).spec_capacity(),
            final(self).table() == table_after(old(self).table(), packets@),
            final(self).spec_notified() == (old(self).spec_notified() && !has_notify_packet(
                packets@,
            )),
            final(out)@ == old(out)@ + packet_events(old(self).table(), packets@),
            n == packet_events(old(self).table(), packets@).len(),
            forall|i: int|
                old(out)@.len() <= i < final(out)@.len() ==> final(out)@[i].key != NOTIFY_KEY,
    {
        let ghost m0 = self.table();
        let ghost ps = packets@;
        let len = packets.len();
        let mut i: usize = 0;
        let mut n: usize = 0;
        proof {
            assert(ps.skip(0) =~= ps);
        }
        while i < len
            invariant
                old(self).wf(),
                len == ps.len(),
                ps == packets@,
                0 <= i <= len,
                self.capacity == old(self).spec_capacity(),
                self.in_flight <= self.capacity,
                self.table().dom().finite(),
                self.in_flight == self.table().dom().len(),
                table_keys_ok(self.table()),
                table_after(m0, ps) == table_after(self.table(), ps.skip(i as int)),
                old(out)@ + packet_events(m0, ps) == out@ + packet_events(
                    self.table(),
                    ps.skip(i as int),
                ),
                n as int == out@.len() - old(out)@.len(),
                n <= i,
                (old(self).spec_notified() && !has_notify_packet(ps)) == (self.notified
                    && !has_notify_packet(ps.skip(i as int))),
                forall|j: int| old(out)@.len() <= j < out@.len() ==> out@[j].key != NOTIFY_KEY,
            decreases len - i,
        {
            proof {
                assert(ps.skip(i as int).drop_first() =~= ps.skip(i + 1));
                assert(ps.skip(i as int)[0] == ps[i as int]);
                if ps[i as int].key == NOTIFY_KEY {
                    assert(has_notify_packet(ps)) by {
                        assert(ps[i as int].key == NOTIFY_KEY);
                    }
                }
            }
            let p = packets[i];
            if p.key == NOTIFY_KEY {
                self.notified = false;
            } else {
                let removed = flight_slab_try_remove(&mut self.flights, p.index);
                match removed {
                    Some(rec) => {
                        self.in_flight = self.in_flight - 1;
                        if !rec.sync_done {
                            let result = if (matches!(rec.source_type, SourceType::File)
                                && p.internal == 0) || (matches!(rec.source_type, SourceType::Socket)
                                && p.internal == -1) {
                                Err(OpError::Os(p.os_error))
                            } else {
                                Ok(#[verifier::truncate] (p.internal as usize))
                            };
                            out.push(Event { key: rec.key, result });
                            n = n + 1;
                        }
                    },
                    None => {
                        proof {
                            assert(self.table() =~= self.table().remove(p.index));
                        }
                    },
                }
            }
            proof {
                if ps[i as int].key != NOTIFY_KEY && has_notify_packet(ps.skip(i + 1)) {
                    let w = choose|w: int|
                        0 <= w < ps.skip(i + 1).len() && (#[trigger] ps.skip(i + 1)[w]).key
                            == NOTIFY_KEY;
                    assert(ps.skip(i as int)[w + 1].key == NOTIFY_KEY);
                }
                if ps[i as int].key != NOTIFY_KEY && has_notify_packet(ps.skip(i as int)) && ps[i as int].key
                    != NOTIFY_KEY {
                    let w = choose|w: int|
                        0 <= w < ps.skip(i as int).len() && (#[trigger] ps.skip(i as int)[w]).key
                            == NOTIFY_KEY;
                    if w > 0 {
                        assert(ps.skip(i + 1)[w - 1].key == NOTIFY_KEY);
                    }
                }
                if ps[i as int].key == NOTIFY_KEY && has_notify_packet(ps.skip(i + 1)) {
                    let w = choose|w: int|
                        0 <= w < ps.skip(i + 1).len() && (#[trigger] ps.skip(i + 1)[w]).key
                            == NOTIFY_KEY;
                    assert(ps.skip(i as int)[w + 1].key == NOTIFY_KEY);
                }
            }
            i = i + 1;
        }
        proof {
            assert(ps.skip(len as int) =~= Seq::<RawCompletion>::empty());
            assert(out@ == old(out)@ + packet_events(m0, ps));
        }
        n
    }
}

/// Convert an optional timeout to the port's wait argument in
/// milliseconds: no timeout waits forever, and a finite timeout is
/// rounded up to whole milliseconds and held below the wait-forever
/// value.
pub fn timeout_to_ms(timeout: Option<TimeSpan>) -> (ms: u32)
    requires
        match timeout {
            Some(t) => t.nanos < 1_000_000_000,
            None => true,
        },
    ensures
        match timeout {
            None => ms == INFINITE,
            Some(t) => ms == spec_timeout_ms(t),
        },
{
    match timeout {
        None => INFINITE,
        Some(t) => {
            let cap: u64 = 0xffff_fffe;
            if t.secs > cap / 1000 {
                proof {
                    assert(t.secs as int * 1000 > 0xffff_fffe);
                }
                return cap as u32;
            }
            let extra: u64 = if t.nanos % 1_000_000 > 0 {
                1
            } else {
                0
            };
            let total: u64 = t.secs * 1000 + (t.nanos / 1_000_000) as u64 + extra;
            if total > cap {
                cap as u32
            } else {
                total as u32
            }
        },
    }
}

/// The rounded-up millisecond count of a finite timeout, held below
/// the wait-forever value.
pub open spec fn spec_timeout_ms(t: TimeSpan) -> int {
    let raw = t.secs as int * 1000 + t.nanos as int / 1_000_000 + if t.nanos as int % 1_000_000 > 0 {
        1int
    } else {
        0int
    };
    if raw > 0xffff_fffe {
        0xffff_fffe
    } else {
        raw
    }
}

} // verus!
