//! Core of a completion-based asynchronous I/O reactor.
//!
//! The reactor accepts read and write operations bound to registered
//! descriptors, drives them through one of three OS backends (an
//! `io_uring` ring, a POSIX readiness poller, or a Windows completion
//! port), and delivers results as [`Event`]s tagged with caller-chosen
//! keys.
//!
//! This crate holds the backend bookkeeping: which sources are
//! registered, which operations are in flight, how wakeups coalesce,
//! and how raw completions become events. The operating-system calls
//! themselves (submitting to a ring, polling, reading an event fd)
//! happen outside and feed their outcomes back into these state
//! machines as plain values.

use vstd::prelude::*;

pub mod buf;
pub mod iocp;
pub mod iovec;
pub mod ops;
pub mod polling;
pub mod slab_store;
pub mod source;
pub mod uring;

verus! {

/// A raw platform descriptor identifier.
pub type Raw = i32;

/// The reserved key used internally for wakeup completions.
///
/// It is never surfaced to the user: submissions with this key are
/// rejected, and completions carrying it are consumed as wakeups.
pub const NOTIFY_KEY: u64 = u64::MAX;

/// An error observed by the reactor, either a categorized rejection
/// or a raw operating-system error code.
#[derive(Clone, Copy, Debug, PartialEq, Eq, Structural)]
pub enum OpError {
    /// A source was registered twice.
    AlreadyExists,
    /// An operation named a source that was never registered.
    NotFound,
    /// The in-flight bookkeeping table is full.
    OutOfMemory,
    /// The submission was malformed, for instance it used the
    /// reserved key.
    InvalidInput,
    /// A non-blocking attempt found the source not ready.
    WouldBlock,
    /// Any other backend failure.
    Other,
    /// A raw OS error code observed at completion time.
    Os(i32),
}

/// The result of one I/O operation: bytes transferred, or the error
/// the OS reported.
pub type OpResult = Result<usize, OpError>;

/// An event output from waiting: the caller's key for the completed
/// operation, and its result.
#[derive(Clone, Copy, Debug, PartialEq, Eq)]
pub struct Event {
    pub key: u64,
    pub result: OpResult,
}

/// Whether a submission was queued, or completed during the
/// submission call itself.
#[derive(Clone, Copy, Debug, PartialEq, Eq)]
pub enum SubmissionStatus {
    /// The operation completed before it could be queued; the result
    /// is here and no event will be emitted for it.
    AlreadyComplete(OpResult),
    /// The operation was queued and will complete through a wait.
    Submitted,
}

/// A span of time as whole seconds plus nanoseconds within the
/// second.
#[derive(Clone, Copy, Debug, PartialEq, Eq, Structural)]
pub struct TimeSpan {
    pub secs: u64,
    pub nanos: u32,
}

/// What the I/O layer must do after a registration is accepted:
/// nothing, or associate the handle with the completion port.
#[derive(Clone, Copy, Debug, PartialEq, Eq, Structural)]
pub enum RegisterAction {
    /// The backend needed no OS call.
    Nothing,
    /// Associate the source's handle with the completion port.
    AssociatePort,
}

/// What the I/O layer must do after a wakeup decision.
#[derive(Clone, Copy, Debug, PartialEq, Eq, Structural)]
pub enum NotifyAction {
    /// Nothing: a wakeup is already on its way.
    Nothing,
    /// Wake the poller through its native wake primitive.
    WakePoller,
    /// Signal the wakeup event descriptor and push the reserved-key
    /// read entry onto the ring.
    SignalRing,
    /// Post a packet under the reserved key to the completion port.
    PostPacket,
}

/// The accepted first step of a submission: what the I/O layer must
/// do next.
#[derive(Clone, Copy, Debug, PartialEq, Eq, Structural)]
pub enum SubmitPlan {
    /// Attempt the operation once, non-blockingly, and hand the
    /// outcome to the readiness backend's second step under this
    /// slab key.
    Attempt(usize),
    /// Push the entry, tagged with the caller's key, onto the ring.
    PushEntry,
    /// Start the OS call against the overlapped record of this
    /// in-flight table index, and hand what it reported to the
    /// completion-port backend's second step.
    StartOverlapped(usize),
}

/// The raw completions one wait drained, as the facade consumes
/// them: either a batch from the ring, a batch from the completion
/// port, or one ready source's attempt outcomes from the poller.
pub enum WaitInput {
    /// One ready source from the poller: its slab key, and the
    /// outcome of one non-blocking attempt per parked operation, in
    /// parked order.
    Ready(usize, Vec<OpResult>),
    /// A batch drained from the ring.
    Cqes(Vec<uring::RawCqe>),
    /// A batch of packets from the completion port.
    Packets(Vec<iocp::RawCompletion>),
}

/// Which backend a completion engine runs on.
#[derive(Clone, Copy, Debug, PartialEq, Eq, Structural)]
pub enum BackendKind {
    /// The POSIX readiness poller.
    Polling,
    /// The ring.
    Uring,
    /// The completion port.
    Iocp,
}

/// One of the three backends' bookkeeping cores.
pub enum Backend {
    /// The readiness backend.
    Polling(polling::Completion),
    /// The ring backend.
    Uring(uring::Completion),
    /// The completion-port backend.
    Iocp(iocp::Completion),
}

/// The interface to system faculties for polling for completion on
/// certain events: one backend's bookkeeping behind the uniform
/// contract.
///
/// The I/O layer owns the OS handles and performs what each call
/// here decides; the staged parts of a submission or a wait that are
/// specific to one backend are driven through [`Backend`] directly.
pub struct Completion {
    /// The backend this engine runs on.
    pub inner: Backend,
}

impl Completion {
    /// Which backend this engine runs on.
    pub open spec fn kind(&self) -> BackendKind {
        match self.inner {
            Backend::Polling(_) => BackendKind::Polling,
            Backend::Uring(_) => BackendKind::Uring,
            Backend::Iocp(_) => BackendKind::Iocp,
        }
    }

    /// Well-formedness of the backend's bookkeeping.
    pub open spec fn wf(&self) -> bool {
        match self.inner {
            Backend::Polling(p) => p.wf(),
            Backend::Uring(u) => u.wf(),
            Backend::Iocp(c) => c.wf(),
        }
    }

    /// A fresh engine on the given backend, preallocated for
    /// `capacity` in-flight operations.
    pub fn new(kind: BackendKind, capacity: usize) -> (c: Self)
        ensures
            c.wf(),
            c.kind() == kind,
            match c.inner {
                Backend::Polling(p) => p.table() == Map::<usize, slab_store::SourceRec>::empty()
                    && p.fd_map() == Map::<Raw, usize>::empty() && p.spec_capacity() == capacity
                    && p.spec_in_flight() == 0,
                Backend::Uring(u) => u.spec_capacity() == capacity && u.spec_sq_pending() == 0
                    && u.spec_notified() == false,
                Backend::Iocp(c2) => c2.table() == Map::<usize, slab_store::FlightRec>::empty()
                    && c2.spec_capacity() == capacity && c2.spec_in_flight() == 0
                    && c2.spec_notified() == false,
            },
    {
        match kind {
            BackendKind::Polling => Completion { inner: Backend::Polling(polling::Completion::new(capacity)) },
            BackendKind::Uring => Completion { inner: Backend::Uring(uring::Completion::new(capacity)) },
            BackendKind::Iocp => Completion { inner: Backend::Iocp(iocp::Completion::new(capacity)) },
        }
    }

    /// Register a source with the engine.
    ///
    /// The readiness backend keeps its own books and rejects files
    /// and duplicates; the ring needs nothing; the completion port
    /// asks the I/O layer to associate the handle with the port.
    pub fn register<S: source::Source>(&mut self, src: &S) -> (r: Result<RegisterAction, OpError>)
        requires
            old(self).wf(),
        ensures
            final(self).wf(),
            final(self).kind() == old(self).kind(),
            match old(self).inner {
                Backend::Polling(p0) => final(self).inner is Polling && {
                    let p1 = final(self).inner->Polling_0;
                    &&& p1.spec_capacity() == p0.spec_capacity()
                    &&& p1.spec_in_flight() == p0.spec_in_flight()
                    &&& match r {
                        Ok(a) => {
                            &&& a == RegisterAction::Nothing
                            &&& src.spec_source_type() != source::SourceType::File
                            &&& !p0.fd_map().contains_key(src.spec_raw())
                            &&& exists|k: usize|
                                {
                                    &&& !p0.table().contains_key(k)
                                    &&& #[trigger] p1.table().contains_key(k)
                                    &&& p1.table() == p0.table().insert(k, p1.table()[k])
                                    &&& p1.table()[k].operations@ == Seq::<slab_store::OpRec>::empty()
                                    &&& p1.table()[k].readable == false
                                    &&& p1.table()[k].writable == false
                                    &&& p1.table()[k].source == src.spec_raw()
                                    &&& p1.fd_map() == p0.fd_map().insert(src.spec_raw(), k)
                                }
                        },
                        Err(e) => {
                            &&& p1.table() == p0.table()
                            &&& p1.fd_map() == p0.fd_map()
                            &&& (src.spec_source_type() == source::SourceType::File
                                || p0.fd_map().contains_key(src.spec_raw()))
                            &&& (e == OpError::InvalidInput <==> src.spec_source_type()
                                == source::SourceType::File)
                            &&& (e == OpError::AlreadyExists <==> src.spec_source_type()
                                != source::SourceType::File && p0.fd_map().contains_key(
                                src.spec_raw(),
                            ))
                        },
                    }
                },
                Backend::Uring(u0) => final(self).inner is Uring && final(self).inner->Uring_0
                    == u0 && r == Ok::<RegisterAction, OpError>(RegisterAction::Nothing),
                Backend::Iocp(c0) => final(self).inner is Iocp && final(self).inner->Iocp_0 == c0
                    && r == Ok::<RegisterAction, OpError>(RegisterAction::AssociatePort),
            },
    {
        match &mut self.inner {
            Backend::Polling(p) => {
                match p.register(src) {
                    Ok(()) => Ok(RegisterAction::Nothing),
                    Err(e) => Err(e),
                }
            },
            Backend::Uring(u) => {
                let r = u.register();
                match r {
                    Ok(()) => Ok(RegisterAction::Nothing),
                    Err(e) => Err(e),
                }
            },
            Backend::Iocp(_) => Ok(RegisterAction::AssociatePort),
        }
    }

    /// Deregister a source: only the readiness backend keeps
    /// per-source books; the ring needs nothing, and the completion
    /// port offers no way to dissociate a handle, so there the call
    /// only means that no new operations will be submitted on it.
    pub fn deregister<S: source::Source>(&mut self, src: &S) -> (r: Result<(), OpError>)
        requires
            old(self).wf(),
        ensures
            final(self).wf(),
            final(self).kind() == old(self).kind(),
            r == Ok::<(), OpError>(()),
            match old(self).inner {
                Backend::Polling(p0) => final(self).inner is Polling && {
                    let p1 = final(self).inner->Polling_0;
                    &&& p1.spec_capacity() == p0.spec_capacity()
                    &&& p1.spec_in_flight() as int == p0.spec_in_flight() - (if p0.fd_map().contains_key(src.spec_raw()) {
                        p0.table()[p0.fd_map()[src.spec_raw()]].operations@.len() as int
                    } else {
                        0int
                    })
                    &&& if p0.fd_map().contains_key(src.spec_raw()) {
                        p1.fd_map() == p0.fd_map().remove(src.spec_raw()) && p1.table()
                            == p0.table().remove(p0.fd_map()[src.spec_raw()])
                    } else {
                        p1.fd_map() == p0.fd_map() && p1.table() == p0.table()
                    }
                },
                Backend::Uring(u0) => final(self).inner is Uring && final(self).inner->Uring_0
                    == u0,
                Backend::Iocp(c0) => final(self).inner is Iocp && final(self).inner->Iocp_0 == c0,
            },
    {
        match &mut self.inner {
            Backend::Polling(p) => p.deregister(src),
            Backend::Uring(u) => u.deregister(),
            Backend::Iocp(_) => Ok(()),
        }
    }

    /// The first step of a submission: reject the reserved key and a
    /// full backend, book what can be booked now, and say what the
    /// I/O layer must do next. The backend-specific second step is
    /// then fed what that produced.
    pub fn submit<O: ops::Op>(&mut self, op: &O, key: u64) -> (r: Result<SubmitPlan, OpError>)
        requires
            old(self).wf(),
        ensures
            final(self).wf(),
            final(self).kind() == old(self).kind(),
            match old(self).inner {
                Backend::Polling(p0) => final(self).inner is Polling && final(self).inner->Polling_0 == p0 && match r {
                    Ok(plan) => {
                        &&& key != NOTIFY_KEY
                        &&& p0.spec_in_flight() < p0.spec_capacity()
                        &&& p0.fd_map().contains_key(op.spec_source())
                        &&& plan == SubmitPlan::Attempt(p0.fd_map()[op.spec_source()])
                    },
                    Err(e) => {
                        &&& (key == NOTIFY_KEY || p0.spec_in_flight() == p0.spec_capacity()
                            || !p0.fd_map().contains_key(op.spec_source()))
                        &&& (e == OpError::InvalidInput <==> key == NOTIFY_KEY)
                        &&& (e == OpError::OutOfMemory <==> key != NOTIFY_KEY
                            && p0.spec_in_flight() == p0.spec_capacity())
                        &&& (e == OpError::NotFound <==> key != NOTIFY_KEY && p0.spec_in_flight()
                            < p0.spec_capacity() && !p0.fd_map().contains_key(op.spec_source()))
                    },
                },
                Backend::Uring(u0) => final(self).inner is Uring && {
                    let u1 = final(self).inner->Uring_0;
                    &&& u1.spec_capacity() == u0.spec_capacity()
                    &&& u1.spec_notified() == u0.spec_notified()
                    &&& match r {
                        Ok(plan) => {
                            &&& plan == SubmitPlan::PushEntry
                            &&& key != NOTIFY_KEY
                            &&& u0.spec_sq_pending() < u0.spec_capacity()
                            &&& u1.spec_sq_pending() == u0.spec_sq_pending() + 1
                        },
                        Err(e) => {
                            &&& u1.spec_sq_pending() == u0.spec_sq_pending()
                            &&& (key == NOTIFY_KEY || u0.spec_sq_pending() == u0.spec_capacity())
                            &&& (e == OpError::InvalidInput <==> key == NOTIFY_KEY)
                            &&& (e == OpError::OutOfMemory <==> key != NOTIFY_KEY
                                && u0.spec_sq_pending() == u0.spec_capacity())
                        },
                    }
                },
                Backend::Iocp(c0) => final(self).inner is Iocp && {
                    let c1 = final(self).inner->Iocp_0;
                    &&& c1.spec_capacity() == c0.spec_capacity()
                    &&& c1.spec_notified() == c0.spec_notified()
                    &&& match r {
                        Ok(plan) => {
                            &&& key != NOTIFY_KEY
                            &&& c0.spec_in_flight() < c0.spec_capacity()
                            &&& c1.spec_in_flight() == c0.spec_in_flight() + 1
                            &&& plan is StartOverlapped
                            &&& !c0.table().contains_key(plan->StartOverlapped_0)
                            &&& c1.table() == c0.table().insert(
                                plan->StartOverlapped_0,
                                (slab_store::FlightRec {
                                    key,
                                    source_type: op.spec_variant(),
                                    sync_done: false,
                                }),
                            )
                        },
                        Err(e) => {
                            &&& c1.table() == c0.table()
                            &&& c1.spec_in_flight() == c0.spec_in_flight()
                            &&& (key == NOTIFY_KEY || c0.spec_in_flight() == c0.spec_capacity())
                            &&& (e == OpError::InvalidInput <==> key == NOTIFY_KEY)
                            &&& (e == OpError::OutOfMemory <==> key != NOTIFY_KEY
                                && c0.spec_in_flight() == c0.spec_capacity())
                        },
                    }
                },
            },
    {
        match &mut self.inner {
            Backend::Polling(p) => {
                let raw = op.source();
                match p.submit(raw, key) {
                    Ok(pk) => Ok(SubmitPlan::Attempt(pk)),
                    Err(e) => Err(e),
                }
            },
            Backend::Uring(u) => {
                match u.submit(key) {
                    Ok(()) => Ok(SubmitPlan::PushEntry),
                    Err(e) => Err(e),
                }
            },
            Backend::Iocp(c) => {
                let ty = op.variant();
                match c.submit(key, ty) {
                    Ok(index) => Ok(SubmitPlan::StartOverlapped(index)),
                    Err(e) => Err(e),
                }
            },
        }
    }

    /// Turn what one wait drained into events, appended to `out`,
    /// and return how many were appended, wakeups excluded. For the
    /// readiness backend the input is one ready source's attempt
    /// outcomes, and the second result is the interest to re-register
    /// it with; the other backends consume whole batches.
    ///
    /// Input meant for another backend than this engine's settles
    /// nothing.
    pub fn wait(&mut self, input: WaitInput, out: &mut Vec<Event>) -> (r: (usize, Option<
        polling::Interest,
    >))
        requires
            old(self).wf(),
            match (old(self).inner, input) {
                (Backend::Polling(p0), WaitInput::Ready(pk, results)) => p0.table().contains_key(
                    pk,
                ) ==> results@.len() == p0.table()[pk].operations@.len(),
                _ => true,
            },
        ensures
            final(self).wf(),
            final(self).kind() == old(self).kind(),
            forall|i: int|
                old(out)@.len() <= i < final(out)@.len() ==> final(out)@[i].key != NOTIFY_KEY,
            match (old(self).inner, input) {
                (Backend::Polling(p0), WaitInput::Ready(pk, results)) => final(self).inner is Polling && {
                    let p1 = final(self).inner->Polling_0;
                    &&& p1.spec_capacity() == p0.spec_capacity()
                    &&& p1.fd_map() == p0.fd_map()
                    &&& if p0.table().contains_key(pk) {
                        let ops = p0.table()[pk].operations@;
                        let kept = polling::kept_ops(ops, results@);
                        let fired = polling::fired_events(ops, results@);
                        &&& final(out)@ == old(out)@ + fired
                        &&& r.0 == fired.len()
                        &&& p1.spec_in_flight() as int == p0.spec_in_flight() - fired.len()
                        &&& p1.table().contains_key(pk)
                        &&& p1.table() == p0.table().insert(pk, p1.table()[pk])
                        &&& p1.table()[pk].operations@ == kept
                        &&& r.1 == if kept.len() > 0 {
                            Some(
                                (polling::Interest {
                                    source: p0.table()[pk].source,
                                    poll_key: pk,
                                    readable: polling::wants_read(kept),
                                    writable: polling::wants_write(kept),
                                }),
                            )
                        } else {
                            None::<polling::Interest>
                        }
                    } else {
                        final(out)@ == old(out)@ && r == (0usize, None::<polling::Interest>)
                            && p1.table() == p0.table() && p1.spec_in_flight()
                            == p0.spec_in_flight()
                    }
                },
                (Backend::Uring(u0), WaitInput::Cqes(cqes)) => final(self).inner is Uring && {
                    let u1 = final(self).inner->Uring_0;
                    &&& u1.spec_capacity() == u0.spec_capacity()
                    &&& u1.spec_sq_pending() == 0
                    &&& u1.spec_notified() == (u0.spec_notified() && !uring::has_wakeup(cqes@))
                    &&& final(out)@ == old(out)@ + uring::cqe_events(cqes@)
                    &&& r.0 == uring::cqe_events(cqes@).len()
                    &&& r.1 is None
                },
                (Backend::Iocp(c0), WaitInput::Packets(packets)) => final(self).inner is Iocp && {
                    let c1 = final(self).inner->Iocp_0;
                    &&& c1.spec_capacity() == c0.spec_capacity()
                    &&& c1.table() == iocp::table_after(c0.table(), packets@)
                    &&& c1.spec_notified() == (c0.spec_notified() && !iocp::has_notify_packet(
                        packets@,
                    ))
                    &&& final(out)@ == old(out)@ + iocp::packet_events(c0.table(), packets@)
                    &&& r.0 == iocp::packet_events(c0.table(), packets@).len()
                    &&& r.1 is None
                },
                _ => final(self).inner == old(self).inner && final(out)@ == old(out)@ && r == (
                    0usize,
                    None::<polling::Interest>,
                ),
            },
    {
        match (&mut self.inner, input) {
            (Backend::Polling(p), WaitInput::Ready(pk, results)) => {
                let (n, interest) = p.settle_source(pk, &results, out);
                (n, interest)
            },
            (Backend::Uring(u), WaitInput::Cqes(cqes)) => {
                let n = u.complete(&cqes, out);
                (n, None)
            },
            (Backend::Iocp(c), WaitInput::Packets(packets)) => {
                let n = c.complete(&packets, out);
                (n, None)
            },
            _ => (0, None),
        }
    }

    /// Decide a wakeup. Wakeups coalesce on the ring and the
    /// completion port: while one is on its way, further requests do
    /// nothing. The poller's native wake primitive coalesces on the
    /// OS side, so there every request is passed through.
    pub fn notify(&mut self) -> (r: Result<NotifyAction, OpError>)
        requires
            old(self).wf(),
        ensures
            final(self).wf(),
            final(self).kind() == old(self).kind(),
            match old(self).inner {
                Backend::Polling(p0) => final(self).inner is Polling && final(self).inner->Polling_0 == p0 && r == Ok::<NotifyAction, OpError>(
                    NotifyAction::WakePoller,
                ),
                Backend::Uring(u0) => final(self).inner is Uring && {
                    let u1 = final(self).inner->Uring_0;
                    &&& u1.spec_capacity() == u0.spec_capacity()
                    &&& match r {
                        Ok(a) => {
                            &&& u1.spec_notified() == true
                            &&& a == if u0.spec_notified() {
                                NotifyAction::Nothing
                            } else {
                                NotifyAction::SignalRing
                            }
                            &&& if u0.spec_notified() {
                                u1.spec_sq_pending() == u0.spec_sq_pending()
                            } else {
                                u1.spec_sq_pending() == u0.spec_sq_pending() + 1
                            }
                        },
                        Err(e) => {
                            &&& e == OpError::Other
                            &&& !u0.spec_notified()
                            &&& u0.spec_sq_pending() == u0.spec_capacity()
                            &&& u1.spec_notified() == u0.spec_notified()
                            &&& u1.spec_sq_pending() == u0.spec_sq_pending()
                        },
                    }
                },
                Backend::Iocp(c0) => final(self).inner is Iocp && {
                    let c1 = final(self).inner->Iocp_0;
                    &&& c1.table() == c0.table()
                    &&& c1.spec_capacity() == c0.spec_capacity()
                    &&& c1.spec_in_flight() == c0.spec_in_flight()
                    &&& c1.spec_notified() == true
                    &&& r == Ok::<NotifyAction, OpError>(
                        if c0.spec_notified() {
                            NotifyAction::Nothing
                        } else {
                            NotifyAction::PostPacket
                        },
                    )
                },
            },
    {
        match &mut self.inner {
            Backend::Polling(_) => Ok(NotifyAction::WakePoller),
            Backend::Uring(u) => {
                match u.notify() {
                    Ok(true) => Ok(NotifyAction::SignalRing),
                    Ok(false) => Ok(NotifyAction::Nothing),
                    Err(e) => Err(e),
                }
            },
            Backend::Iocp(c) => {
                if c.notify() {
                    Ok(NotifyAction::PostPacket)
                } else {
                    Ok(NotifyAction::Nothing)
                }
            },
        }
    }
}

impl From<Backend> for Completion {
    /// Wrap a backend's bookkeeping as the uniform engine.
    fn from(inner: Backend) -> (c: Self) {
        Completion { inner }
    }
}

impl vstd::std_specs::convert::FromSpecImpl<Backend> for Completion {
    open spec fn obeys_from_spec() -> bool {
        true
    }

    open spec fn from_spec(inner: Backend) -> Self {
        Completion { inner }
    }
}

} // verus!
