//! The readiness backend.
//!
//! POSIX pollers report readiness, not completion, so this backend
//! keeps every submitted operation parked on its registered source
//! until a non-blocking attempt resolves it. The I/O layer owns the
//! poller and the per-operation poll closures; this state machine
//! owns the bookkeeping and decides, from each attempt's outcome,
//! which operations stay parked, which events fire, and with what
//! interest mask a source must be re-registered.

use vstd::prelude::*;

use std::collections::HashMap;

use crate::slab_store::{
    source_slab_get, source_slab_insert, source_slab_new, source_slab_set, source_slab_try_remove,
    source_slab_view, OpRec, SourceRec,
};
use crate::source::{Source, SourceType};
use crate::{Event, OpError, OpResult, Raw, SubmissionStatus, NOTIFY_KEY};

verus! {

broadcast use vstd::std_specs::hash::group_hash_axioms, vstd::set::group_set_axioms;

/// A request to (re-)register a source with the poller: the handle,
/// the slab key the poller will echo back, and the readiness to
/// subscribe for.
#[derive(Debug, Copy, Clone, PartialEq, Eq, Structural)]
pub struct Interest {
    /// The raw handle to register.
    pub source: Raw,
    /// The slab key of the source's entry.
    pub poll_key: usize,
    /// Subscribe for read readiness.
    pub readable: bool,
    /// Subscribe for write readiness.
    pub writable: bool,
}

/// Is this outcome of a non-blocking attempt still pending?
pub open spec fn is_pending(r: OpResult) -> bool {
    r == Err::<usize, OpError>(OpError::WouldBlock)
}

/// The operations that stay parked after their attempts: those whose
/// outcome was still pending, in order.
pub open spec fn kept_ops(ops: Seq<OpRec>, results: Seq<OpResult>) -> Seq<OpRec>
    decreases ops.len(),
{
    if ops.len() == 0 {
        Seq::empty()
    } else {
        let rest = kept_ops(ops.drop_last(), results.drop_last());
        if is_pending(results[ops.len() - 1]) {
            rest.push(ops.last())
        } else {
            rest
        }
    }
}

/// The events fired by the resolved attempts: one per operation
/// whose outcome was no longer pending, in order.
pub open spec fn fired_events(ops: Seq<OpRec>, results: Seq<OpResult>) -> Seq<Event>
    decreases ops.len(),
{
    if ops.len() == 0 {
        Seq::empty()
    } else {
        let rest = fired_events(ops.drop_last(), results.drop_last());
        if is_pending(results[ops.len() - 1]) {
            rest
        } else {
            rest.push(Event { key: ops.last().key, result: results[ops.len() - 1] })
        }
    }
}

/// Does any of these operations wait for read readiness?
pub open spec fn wants_read(ops: Seq<OpRec>) -> bool {
    exists|i: int| 0 <= i < ops.len() && ops[i].read
}

/// Does any of these operations wait for write readiness?
pub open spec fn wants_write(ops: Seq<OpRec>) -> bool {
    exists|i: int| 0 <= i < ops.len() && ops[i].write
}

/// No parked operation carries the reserved key.
pub open spec fn ops_keys_ok(ops: Seq<OpRec>) -> bool {
    forall|i: int| 0 <= i < ops.len() ==> ops[i].key != NOTIFY_KEY
}

proof fn lemma_wants_push(ops: Seq<OpRec>, op: OpRec)
    ensures
        wants_read(ops.push(op)) == (wants_read(ops) || op.read),
        wants_write(ops.push(op)) == (wants_write(ops) || op.write),
{
    if wants_read(ops) {
        let i = choose|i: int| 0 <= i < ops.len() && ops[i].read;
        assert(ops.push(op)[i].read);
    }
    if op.read {
        assert(ops.push(op)[ops.len() as int].read);
    }
    if wants_read(ops.push(op)) && !op.read {
        let i = choose|i: int| 0 <= i < ops.push(op).len() && ops.push(op)[i].read;
        assert(0 <= i < ops.len() && ops[i].read);
    }
    if wants_write(ops) {
        let i = choose|i: int| 0 <= i < ops.len() && ops[i].write;
        assert(ops.push(op)[i].write);
    }
    if op.write {
        assert(ops.push(op)[ops.len() as int].write);
    }
    if wants_write(ops.push(op)) && !op.write {
        let i = choose|i: int| 0 <= i < ops.push(op).len() && ops.push(op)[i].write;
        assert(0 <= i < ops.len() && ops[i].write);
    }
}

/// Every kept operation is one of the original operations, so kept
/// keys stay clear of the reserved key.
proof fn lemma_kept_keys_ok(ops: Seq<OpRec>, results: Seq<OpResult>)
    requires
        ops_keys_ok(ops),
    ensures
        ops_keys_ok(kept_ops(ops, results)),
    decreases ops.len(),
{
    if ops.len() > 0 {
        assert(ops_keys_ok(ops.drop_last()));
        lemma_kept_keys_ok(ops.drop_last(), results.drop_last());
    }
}

/// Every fired event takes its key from one of the original
/// operations, so fired keys stay clear of the reserved key.
proof fn lemma_fired_keys_ok(ops: Seq<OpRec>, results: Seq<OpResult>)
    requires
        ops_keys_ok(ops),
    ensures
        forall|i: int|
            0 <= i < fired_events(ops, results).len() ==> fired_events(ops, results)[i].key
                != NOTIFY_KEY,
    decreases ops.len(),
{
    if ops.len() > 0 {
        assert(ops_keys_ok(ops.drop_last()));
        lemma_fired_keys_ok(ops.drop_last(), results.drop_last());
    }
}

/// Every parked operation either stays parked or fires exactly one
/// event: the kept operations and the fired events together account
/// for the whole batch, one for one.
pub proof fn lemma_ops_partition(ops: Seq<OpRec>, results: Seq<OpResult>)
    ensures
        kept_ops(ops, results).len() + fired_events(ops, results).len() == ops.len(),
    decreases ops.len(),
{
    if ops.len() > 0 {
        lemma_ops_partition(ops.drop_last(), results.drop_last());
    }
}

/// How one registered slot's parked operations count toward the
/// backend's total.
pub open spec fn parked_step(t: Map<usize, SourceRec>) -> spec_fn(nat, usize) -> nat {
    |acc: nat, k: usize| acc + t[k].operations@.len()
}

/// The number of operations parked across all registered sources.
pub open spec fn parked_total(t: Map<usize, SourceRec>) -> nat {
    t.dom().fold(0nat, parked_step(t))
}

proof fn lemma_parked_step_commutative(t: Map<usize, SourceRec>)
    ensures
        vstd::set::fold::is_fun_commutative(parked_step(t)),
{
    assert forall|a1: usize, a2: usize, b: nat| #[trigger] parked_step(t)(
        parked_step(t)(b, a2),
        a1,
    ) == parked_step(t)(parked_step(t)(b, a1), a2) by {}
}

/// Folding two functions that agree on a finite set gives the same
/// total.
proof fn lemma_fold_congruent(
    s: Set<usize>,
    f1: spec_fn(nat, usize) -> nat,
    f2: spec_fn(nat, usize) -> nat,
)
    requires
        s.finite(),
        vstd::set::fold::is_fun_commutative(f1),
        vstd::set::fold::is_fun_commutative(f2),
        forall|acc: nat, k: usize| s.contains(k) ==> #[trigger] f1(acc, k) == f2(acc, k),
    ensures
        s.fold(0nat, f1) == s.fold(0nat, f2),
    decreases s.len(),
{
    if s.len() == 0 {
        assert forall|x: usize| !(#[trigger] s.contains(x)) by {
            if s.contains(x) {
                vstd::set::axiom_set_remove_len(s, x);
            }
        }
        assert(s =~= Set::<usize>::empty());
        vstd::set::fold::lemma_fold_empty(0nat, f1);
        vstd::set::fold::lemma_fold_empty(0nat, f2);
    } else {
        let a = s.choose();
        assert(s.contains(a));
        let s2 = s.remove(a);
        lemma_fold_congruent(s2, f1, f2);
        vstd::set::fold::lemma_fold_insert(s2, 0nat, f1, a);
        vstd::set::fold::lemma_fold_insert(s2, 0nat, f2, a);
        assert(s2.insert(a) =~= s);
        assert(f1(s2.fold(0nat, f1), a) == f2(s2.fold(0nat, f2), a));
    }
}

/// The empty table parks nothing.
proof fn lemma_parked_total_empty()
    ensures
        parked_total(Map::<usize, SourceRec>::empty()) == 0,
{
    let t = Map::<usize, SourceRec>::empty();
    lemma_parked_step_commutative(t);
    assert(t.dom() =~= Set::<usize>::empty());
    vstd::set::fold::lemma_fold_empty(0nat, parked_step(t));
}

/// A fresh slot adds its parked operations to the total.
proof fn lemma_parked_total_insert(t: Map<usize, SourceRec>, k: usize, rec: SourceRec)
    requires
        t.dom().finite(),
        !t.contains_key(k),
    ensures
        parked_total(t.insert(k, rec)) == parked_total(t) + rec.operations@.len(),
{
    let t2 = t.insert(k, rec);
    assert(t2.dom() =~= t.dom().insert(k));
    lemma_parked_step_commutative(t);
    lemma_parked_step_commutative(t2);
    vstd::set::fold::lemma_fold_insert(t.dom(), 0nat, parked_step(t2), k);
    assert forall|acc: nat, j: usize| t.dom().contains(j) implies #[trigger] parked_step(t2)(
        acc,
        j,
    ) == parked_step(t)(acc, j) by {
        assert(t2[j] == t[j]);
    }
    lemma_fold_congruent(t.dom(), parked_step(t2), parked_step(t));
    assert(parked_step(t2)(t.dom().fold(0nat, parked_step(t2)), k) == t.dom().fold(
        0nat,
        parked_step(t2),
    ) + rec.operations@.len());
}

/// Dropping a slot takes exactly its parked operations out of the
/// total, so one slot never parks more than the whole total.
proof fn lemma_parked_total_remove(t: Map<usize, SourceRec>, k: usize)
    requires
        t.dom().finite(),
        t.contains_key(k),
    ensures
        parked_total(t) == parked_total(t.remove(k)) + t[k].operations@.len(),
{
    let t2 = t.remove(k);
    assert(t2.dom() =~= t.dom().remove(k));
    assert(!t2.contains_key(k));
    lemma_parked_total_insert(t2, k, t[k]);
    assert(t2.insert(k, t[k]) =~= t);
}

/// Replacing a slot's record swaps its old parked count for the new
/// one.
proof fn lemma_parked_total_update(t: Map<usize, SourceRec>, k: usize, rec: SourceRec)
    requires
        t.dom().finite(),
        t.contains_key(k),
    ensures
        parked_total(t.insert(k, rec)) + t[k].operations@.len() == parked_total(t)
            + rec.operations@.len(),
{
    lemma_parked_total_remove(t, k);
    let t2 = t.remove(k);
    lemma_parked_total_insert(t2, k, rec);
    assert(t.insert(k, rec) =~= t2.insert(k, rec));
}

/// The readiness backend's bookkeeping: registered sources in a
/// slab, the reverse map from raw handles to slab keys, and the
/// in-flight budget.
pub struct Completion {
    /// List of sources and their data, indexed by the slab key.
    sources: slab::Slab<SourceRec>,
    /// Reverses the `sources` slab, mapping raw handles to keys.
    fd_to_key: HashMap<Raw, usize>,
    /// The fixed number of operations that may be parked at once.
    capacity: usize,
    /// How many operations are parked now.
    in_flight: usize,
}

impl Completion {
    /// The registered sources, by slab key.
    pub closed spec fn table(&self) -> Map<usize, SourceRec> {
        source_slab_view(self.sources)
    }

    /// The reverse map from raw handles to slab keys.
    pub closed spec fn fd_map(&self) -> Map<Raw, usize> {
        self.fd_to_key@
    }

    /// The fixed in-flight budget.
    pub closed spec fn spec_capacity(&self) -> usize {
        self.capacity
    }

    /// The number of operations parked now.
    pub closed spec fn spec_in_flight(&self) -> usize {
        self.in_flight
    }

    /// Well-formedness: the in-flight count is exactly the number of
    /// parked operations and stays within the budget, the slab and
    /// the reverse map agree, and no parked operation carries the
    /// reserved key.
    pub open spec fn wf(&self) -> bool {
        &&& self.table().dom().finite()
        &&& self.spec_in_flight() == parked_total(self.table())
        &&& self.spec_in_flight() <= self.spec_capacity()
        &&& forall|fd: Raw| #[trigger]
            self.fd_map().contains_key(fd) ==> self.table().contains_key(self.fd_map()[fd])
                && self.table()[self.fd_map()[fd]].source == fd
        &&& forall|k: usize| #[trigger]
            self.table().contains_key(k) ==> self.fd_map().contains_key(self.table()[k].source)
                && self.fd_map()[self.table()[k].source] == k && ops_keys_ok(
                self.table()[k].operations@,
            )
    }

    /// A fresh backend able to park `capacity` operations.
    pub fn new(capacity: usize) -> (c: Self)
        ensures
            c.wf(),
            c.table() == Map::<usize, SourceRec>::empty(),
            c.fd_map() == Map::<Raw, usize>::empty(),
            c.spec_capacity() == capacity,
            c.spec_in_flight() == 0,
    {
        let c = Completion {
            sources: source_slab_new(),
            fd_to_key: HashMap::new(),
            capacity,
            in_flight: 0,
        };
        proof {
            lemma_parked_total_empty();
        }
        c
    }

    /// The fixed in-flight budget.
    pub fn capacity(&self) -> (n: usize)
        ensures
            n == self.spec_capacity(),
    {
        self.capacity
    }

    /// How many operations are parked now.
    pub fn in_flight(&self) -> (n: usize)
        ensures
            n == self.spec_in_flight(),
    {
        self.in_flight
    }

    /// Register a source.
    ///
    /// File sources are rejected: readiness on regular files is
    /// undefined in most POSIX pollers. A handle registered twice is
    /// rejected the second time. The poller itself is not touched
    /// here; subscriptions happen when operations park.
    pub fn register<S: Source>(&mut self, source: &S) -> (r: Result<(), OpError>)
        requires
            old(self).wf(),
        ensures
            final(self).wf(),
            final(self).spec_capacity() == old(self).spec_capacity(),
            final(self).spec_in_flight() == old(self).spec_in_flight(),
            match r {
                Ok(()) => {
                    &&& source.spec_source_type() != SourceType::File
                    &&& !old(self).fd_map().contains_key(source.spec_raw())
                    &&& exists|k: usize|
                        {
                            &&& !old(self).table().contains_key(k)
                            &&& #[trigger] final(self).table().contains_key(k)
                            &&& final(self).table() == old(self).table().insert(
                                k,
                                final(self).table()[k],
                            )
                            &&& final(self).table()[k].operations@ == Seq::<OpRec>::empty()
                            &&& final(self).table()[k].readable == false
                            &&& final(self).table()[k].writable == false
                            &&& final(self).table()[k].source == source.spec_raw()
                            &&& final(self).fd_map() == old(self).fd_map().insert(
                                source.spec_raw(),
                                k,
                            )
                        }
                },
                Err(e) => {
                    &&& final(self).table() == old(self).table()
                    &&& final(self).fd_map() == old(self).fd_map()
                    &&& (source.spec_source_type() == SourceType::File || old(self).fd_map().contains_key(source.spec_raw()))
                    &&& (e == OpError::InvalidInput <==> source.spec_source_type()
                        == SourceType::File)
                    &&& (e == OpError::AlreadyExists <==> source.spec_source_type()
                        != SourceType::File && old(self).fd_map().contains_key(source.spec_raw()))
                },
            },
    {
        let ty = source.source_type();
        if ty == SourceType::File {
            return Err(OpError::InvalidInput);
        }
        let raw = source.as_raw();
        if self.fd_to_key.contains_key(&raw) {
            return Err(OpError::AlreadyExists);
        }
        let entry = SourceRec { operations: Vec::new(), readable: false, writable: false, source: raw };
        let ghost entry_snap = entry;
        let k = source_slab_insert(&mut self.sources, entry);
        self.fd_to_key.insert(raw, k);
        proof {
            let t0 = old(self).table();
            let m0 = old(self).fd_map();
            let t1 = self.table();
            let m1 = self.fd_map();
            assert(t1 == t0.insert(k, entry_snap));
            assert(m1 == m0.insert(raw, k));
            lemma_parked_total_insert(t0, k, entry_snap);
            assert(parked_total(t1) == parked_total(t0));
            assert(t1[k] == entry_snap);
            assert(t1 == t0.insert(k, t1[k]));
            assert(!t0.contains_key(k));
            assert(t1.contains_key(k));
            assert(t1[k].operations@ == Seq::<OpRec>::empty());
            assert(t1[k].readable == false);
            assert(t1[k].writable == false);
            assert(t1[k].source == source.spec_raw());
            assert(m1 == m0.insert(source.spec_raw(), k));
            assert forall|fd: Raw| #[trigger] m1.contains_key(fd) implies t1.contains_key(m1[fd])
                && t1[m1[fd]].source == fd by {
                if fd != raw {
                    assert(m0.contains_key(fd));
                    assert(t0.contains_key(m0[fd]));
                }
            }
            assert forall|k2: usize| #[trigger] t1.contains_key(k2) implies m1.contains_key(
                t1[k2].source,
            ) && m1[t1[k2].source] == k2 && ops_keys_ok(t1[k2].operations@) by {
                if k2 != k {
                    assert(t0.contains_key(k2));
                    assert(m0.contains_key(t0[k2].source));
                }
            }
        }
        Ok(())
    }

    /// Deregister a source: its entry and any operations still
    /// parked on it are dropped. Deregistering a handle that was
    /// never registered does nothing.
    pub fn deregister<S: Source>(&mut self, source: &S) -> (r: Result<(), OpError>)
        requires
            old(self).wf(),
        ensures
            final(self).wf(),
            final(self).spec_capacity() == old(self).spec_capacity(),
            final(self).spec_in_flight() as int == old(self).spec_in_flight() - (if old(self).fd_map().contains_key(source.spec_raw()) {
                old(self).table()[old(self).fd_map()[source.spec_raw()]].operations@.len() as int
            } else {
                0int
            }),
            r == Ok::<(), OpError>(()),
            if old(self).fd_map().contains_key(source.spec_raw()) {
                final(self).fd_map() == old(self).fd_map().remove(source.spec_raw()) && final(self).table() == old(self).table().remove(
                    old(self).fd_map()[source.spec_raw()],
                )
            } else {
                final(self).fd_map() == old(self).fd_map() && final(self).table() == old(self).table()
            },
    {
        let raw = source.as_raw();
        let removed = self.fd_to_key.remove(&raw);
        match removed {
            Some(k) => {
                proof {
                    assert(old(self).fd_map().contains_key(raw));
                    assert(old(self).fd_map()[raw] == k);
                    assert(old(self).table().contains_key(k));
                }
                proof {
                    lemma_parked_total_remove(old(self).table(), k);
                }
                let dropped = source_slab_try_remove(&mut self.sources, k);
                let dropped_ops: usize = match &dropped {
                    Some(rec) => rec.operations.len(),
                    None => 0,
                };
                self.in_flight = self.in_flight - dropped_ops;
                proof {
                    let t0 = old(self).table();
                    let m0 = old(self).fd_map();
                    let t1 = self.table();
                    let m1 = self.fd_map();
                    assert(t1 == t0.remove(k));
                    assert(m1 == m0.remove(raw));
                    assert(t0[k].source == raw);
                    assert(dropped_ops == t0[k].operations@.len());
                    assert(parked_total(t1) == parked_total(t0) - dropped_ops);
                    assert forall|fd: Raw| #[trigger] m1.contains_key(fd) implies t1.contains_key(
                        m1[fd],
                    ) && t1[m1[fd]].source == fd by {
                        assert(m0.contains_key(fd));
                        assert(t0.contains_key(m0[fd]));
                        assert(t0[m0[fd]].source == fd);
                        assert(m0[fd] != k);
                    }
                    assert forall|k2: usize| #[trigger] t1.contains_key(k2) implies m1.contains_key(
                        t1[k2].source,
                    ) && m1[t1[k2].source] == k2 && ops_keys_ok(t1[k2].operations@) by {
                        assert(t0.contains_key(k2));
                        assert(m0.contains_key(t0[k2].source));
                        assert(m0[t0[k2].source] == k2);
                        assert(t0[k2].source != raw);
                    }
                }
                Ok(())
            },
            None => {
                proof {
                    let t0 = old(self).table();
                    let m0 = old(self).fd_map();
                    let t1 = self.table();
                    let m1 = self.fd_map();
                    assert(!m0.contains_key(raw));
                    assert(m1 =~= m0);
                    assert(t1 == t0);
                    assert forall|fd: Raw| #[trigger] m1.contains_key(fd) implies t1.contains_key(
                        m1[fd],
                    ) && t1[m1[fd]].source == fd by {
                        assert(m0.contains_key(fd));
                    }
                    assert forall|k2: usize| #[trigger] t1.contains_key(k2) implies m1.contains_key(
                        t1[k2].source,
                    ) && m1[t1[k2].source] == k2 && ops_keys_ok(t1[k2].operations@) by {
                        assert(t0.contains_key(k2));
                        assert(m0.contains_key(t0[k2].source));
                    }
                }
                Ok(())
            },
        }
    }

    /// The first, pure step of a submission: reject the reserved key
    /// and a full budget, and name the slab entry the operation's
    /// source is registered under. The I/O layer then attempts the
    /// operation once, non-blockingly, and hands the outcome to
    /// [`Self::submit_attempted`].
    pub fn submit(&self, raw: Raw, key: u64) -> (r: Result<usize, OpError>)
        requires
            self.wf(),
        ensures
            match r {
                Ok(pk) => {
                    &&& key != NOTIFY_KEY
                    &&& self.spec_in_flight() < self.spec_capacity()
                    &&& self.fd_map().contains_key(raw)
                    &&& pk == self.fd_map()[raw]
                    &&& self.table().contains_key(pk)
                },
                Err(e) => {
                    &&& (key == NOTIFY_KEY || self.spec_in_flight() == self.spec_capacity()
                        || !self.fd_map().contains_key(raw))
                    &&& (e == OpError::InvalidInput <==> key == NOTIFY_KEY)
                    &&& (e == OpError::OutOfMemory <==> key != NOTIFY_KEY && self.spec_in_flight()
                        == self.spec_capacity())
                    &&& (e == OpError::NotFound <==> key != NOTIFY_KEY && self.spec_in_flight()
                        < self.spec_capacity() && !self.fd_map().contains_key(raw))
                },
            },
    {
        if key == NOTIFY_KEY {
            return Err(OpError::InvalidInput);
        }
        if self.in_flight == self.capacity {
            return Err(OpError::OutOfMemory);
        }
        let looked = self.fd_to_key.get(&raw);
        match looked {
            Some(pk) => {
                proof {
                    assert(self.fd_map().contains_key(raw));
                    assert(self.fd_map()[raw] == *pk);
                    assert(self.table().contains_key(self.fd_map()[raw]));
                }
                Ok(*pk)
            },
            None => Err(OpError::NotFound),
        }
    }

    /// The slab key a raw handle is registered under, if any.
    pub fn lookup(&self, raw: Raw) -> (r: Option<usize>)
        ensures
            match r {
                Some(pk) => self.fd_map().contains_key(raw) && pk == self.fd_map()[raw],
                None => !self.fd_map().contains_key(raw),
            },
    {
        let looked = self.fd_to_key.get(&raw);
        match looked {
            Some(pk) => Some(*pk),
            None => None,
        }
    }

    /// The second step of a submission, fed the outcome of the first
    /// non-blocking attempt.
    ///
    /// An attempt that would block parks the operation on its source
    /// and reports how the poller subscription must broaden; any
    /// other outcome is handed straight back as already complete,
    /// and nothing is parked, so no event will ever fire for it.
    pub fn submit_attempted(
        &mut self,
        pk: usize,
        op_id: usize,
        key: u64,
        read: bool,
        write: bool,
        first: OpResult,
    ) -> (r: Result<(SubmissionStatus, Option<Interest>), OpError>)
        requires
            old(self).wf(),
            key != NOTIFY_KEY,
        ensures
            final(self).wf(),
            final(self).spec_capacity() == old(self).spec_capacity(),
            final(self).fd_map() == old(self).fd_map(),
            match r {
                Ok((status, action)) => {
                    &&& if is_pending(first) {
                        let rec = old(self).table()[pk];
                        let parked = OpRec { op_id, key, read, write };
                        &&& status == SubmissionStatus::Submitted
                        &&& old(self).table().contains_key(pk)
                        &&& old(self).spec_in_flight() < old(self).spec_capacity()
                        &&& final(self).spec_in_flight() == old(self).spec_in_flight() + 1
                        &&& final(self).table().contains_key(pk)
                        &&& final(self).table() == old(self).table().insert(
                            pk,
                            final(self).table()[pk],
                        )
                        &&& final(self).table()[pk].operations@ == rec.operations@.push(parked)
                        &&& final(self).table()[pk].readable == (rec.readable || read)
                        &&& final(self).table()[pk].writable == (rec.writable || write)
                        &&& final(self).table()[pk].source == rec.source
                        &&& action == if (!rec.readable && read) || (!rec.writable && write) {
                            Some(
                                (Interest {
                                    source: rec.source,
                                    poll_key: pk,
                                    readable: rec.readable || read,
                                    writable: rec.writable || write,
                                }),
                            )
                        } else {
                            None::<Interest>
                        }
                    } else {
                        &&& status == SubmissionStatus::AlreadyComplete(first)
                        &&& action is None
                        &&& final(self).table() == old(self).table()
                        &&& final(self).spec_in_flight() == old(self).spec_in_flight()
                    }
                },
                Err(e) => {
                    &&& final(self).table() == old(self).table()
                    &&& final(self).spec_in_flight() == old(self).spec_in_flight()
                    &&& is_pending(first)
                    &&& (!old(self).table().contains_key(pk) || old(self).spec_in_flight() == old(self).spec_capacity())
                    &&& (e == OpError::NotFound <==> is_pending(first) && !old(self).table().contains_key(pk))
                    &&& (e == OpError::OutOfMemory <==> is_pending(first) && old(self).table().contains_key(pk) && old(self).spec_in_flight() == old(self).spec_capacity())
                },
            },
    {
        if !matches!(first, Err(OpError::WouldBlock)) {
            return Ok((SubmissionStatus::AlreadyComplete(first), None));
        }
        let entry = match source_slab_get(&self.sources, pk) {
            Some(e) => e,
            None => {
                return Err(OpError::NotFound);
            },
        };
        if self.in_flight == self.capacity {
            return Err(OpError::OutOfMemory);
        }
        let parked = OpRec { op_id, key, read, write };
        let broadened = (!entry.readable && read) || (!entry.writable && write);
        let action = if broadened {
            Some(
                Interest {
                    source: entry.source,
                    poll_key: pk,
                    readable: entry.readable || read,
                    writable: entry.writable || write,
                },
            )
        } else {
            None
        };
        let mut operations = entry.operations;
        operations.push(parked);
        let updated = SourceRec {
            operations,
            readable: entry.readable || read,
            writable: entry.writable || write,
            source: entry.source,
        };
        let ghost updated_snap = updated;
        source_slab_set(&mut self.sources, pk, updated);
        self.in_flight = self.in_flight + 1;
        proof {
            let t0 = old(self).table();
            let m0 = old(self).fd_map();
            let t1 = self.table();
            let rec = t0[pk];
            assert(t1 == t0.insert(pk, updated_snap));
            assert(t1[pk] == updated_snap);
            lemma_parked_total_update(t0, pk, updated_snap);
            assert(updated_snap.operations@.len() == rec.operations@.len() + 1);
            assert(parked_total(t1) == parked_total(t0) + 1);
            assert(ops_keys_ok(t1[pk].operations@)) by {
                let ops1 = rec.operations@.push(parked);
                assert(forall|i: int|
                    0 <= i < rec.operations@.len() ==> ops1[i] == rec.operations@[i]);
                assert(ops1[rec.operations@.len() as int] == parked);
            }
            assert forall|fd: Raw| #[trigger] m0.contains_key(fd) implies t1.contains_key(m0[fd])
                && t1[m0[fd]].source == fd by {
                assert(t0.contains_key(m0[fd]));
                assert(t0[m0[fd]].source == fd);
            }
            assert forall|k2: usize| #[trigger] t1.contains_key(k2) implies m0.contains_key(
                t1[k2].source,
            ) && m0[t1[k2].source] == k2 && ops_keys_ok(t1[k2].operations@) by {
                assert(t0.contains_key(k2));
                if k2 != pk {
                    assert(t1[k2] == t0[k2]);
                }
            }
        }
        Ok((SubmissionStatus::Submitted, action))
    }

    /// The operations parked on the source at slab key `pk`, in
    /// order, so the I/O layer can attempt each one when the poller
    /// reports the source ready.
    pub fn pending_ops(&self, pk: usize) -> (r: Vec<OpRec>)
        ensures
            if self.table().contains_key(pk) {
                r@ == self.table()[pk].operations@
            } else {
                r@ == Seq::<OpRec>::empty()
            },
    {
        match source_slab_get(&self.sources, pk) {
            Some(e) => e.operations,
            None => Vec::new(),
        }
    }

    /// Settle a ready source, fed the outcome of one non-blocking
    /// attempt per parked operation, in parked order.
    ///
    /// Attempts that would still block stay parked; every other
    /// attempt fires exactly one event, appended to `out`. Returns
    /// how many events fired and, if operations stayed parked, the
    /// interest the source must be re-registered with. An unknown
    /// `pk` settles nothing.
    pub fn settle_source(&mut self, pk: usize, results: &Vec<OpResult>, out: &mut Vec<Event>) -> (r:
        (usize, Option<Interest>))
        requires
            old(self).wf(),
            old(self).table().contains_key(pk) ==> results@.len()
                == old(self).table()[pk].operations@.len(),
        ensures
            final(self).wf(),
            final(self).spec_capacity() == old(self).spec_capacity(),
            final(self).fd_map() == old(self).fd_map(),
            if old(self).table().contains_key(pk) {
                let ops = old(self).table()[pk].operations@;
                let kept = kept_ops(ops, results@);
                let fired = fired_events(ops, results@);
                &&& final(self).table().contains_key(pk)
                &&& final(self).table() =~= old(self).table().insert(pk, final(self).table()[pk])
                &&& final(self).table()[pk].operations@ == kept
                &&& final(self).table()[pk].readable == wants_read(kept)
                &&& final(self).table()[pk].writable == wants_write(kept)
                &&& final(self).table()[pk].source == old(self).table()[pk].source
                &&& final(out)@ == old(out)@ + fired
                &&& r.0 == fired.len()
                &&& r.1 == if kept.len() > 0 {
                    Some(
                        (Interest {
                            source: old(self).table()[pk].source,
                            poll_key: pk,
                            readable: wants_read(kept),
                            writable: wants_write(kept),
                        }),
                    )
                } else {
                    None::<Interest>
                }
                &&& final(self).spec_in_flight() as int == old(self).spec_in_flight()
                    - fired.len()
            } else {
                &&& final(self).table() == old(self).table()
                &&& final(out)@ == old(out)@
                &&& r == (0usize, None::<Interest>)
                &&& final(self).spec_in_flight() == old(self).spec_in_flight()
            },
            forall|i: int|
                old(out)@.len() <= i < final(out)@.len() ==> final(out)@[i].key != NOTIFY_KEY,
    {
        let entry = match source_slab_get(&self.sources, pk) {
            Some(e) => e,
            None => {
                return (0, None);
            },
        };
        let ops = entry.operations;
        let n = ops.len();
        let mut kept: Vec<OpRec> = Vec::new();
        let mut fired: usize = 0;
        let mut acc_read = false;
        let mut acc_write = false;
        let mut i: usize = 0;
        while i < n
            invariant
                n == ops@.len(),
                n == results@.len(),
                0 <= i <= n,
                kept@ == kept_ops(ops@.take(i as int), results@.take(i as int)),
                out@ == old(out)@ + fired_events(ops@.take(i as int), results@.take(i as int)),
                fired == fired_events(ops@.take(i as int), results@.take(i as int)).len(),
                fired <= i,
                acc_read == wants_read(kept@),
                acc_write == wants_write(kept@),
            decreases n - i,
        {
            proof {
                assert(ops@.take(i + 1).drop_last() =~= ops@.take(i as int));
                assert(results@.take(i + 1).drop_last() =~= results@.take(i as int));
                assert(ops@.take(i + 1).last() == ops@[i as int]);
            }
            let op = ops[i];
            if matches!(results[i], Err(OpError::WouldBlock)) {
                proof {
                    lemma_wants_push(kept@, op);
                }
                kept.push(op);
                acc_read = acc_read || op.read;
                acc_write = acc_write || op.write;
            } else {
                out.push(Event { key: op.key, result: results[i] });
                fired = fired + 1;
            }
            i = i + 1;
        }
        proof {
            assert(ops@.take(n as int) =~= ops@);
            assert(results@.take(n as int) =~= results@);
            lemma_kept_keys_ok(ops@, results@);
            lemma_fired_keys_ok(ops@, results@);
            assert(ops_keys_ok(kept@));
        }
        let kept_any = kept.len() > 0;
        let action = if kept_any {
            Some(
                Interest { source: entry.source, poll_key: pk, readable: acc_read, writable: acc_write },
            )
        } else {
            None
        };
        let updated = SourceRec {
            operations: kept,
            readable: acc_read,
            writable: acc_write,
            source: entry.source,
        };
        let ghost updated_snap = updated;
        source_slab_set(&mut self.sources, pk, updated);
        proof {
            let t0 = old(self).table();
            let t1 = self.table();
            assert(t1 == t0.insert(pk, updated_snap));
            lemma_parked_total_update(t0, pk, updated_snap);
            lemma_ops_partition(ops@, results@);
            assert(updated_snap.operations@.len() + fired == t0[pk].operations@.len());
            lemma_parked_total_remove(t0, pk);
            assert(t0[pk].operations@.len() <= parked_total(t0));
            assert(parked_total(t1) == parked_total(t0) - fired);
        }
        self.in_flight = self.in_flight - fired;
        (fired, action)
    }
}

} // verus!
