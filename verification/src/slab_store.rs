//! The backends' bookkeeping tables, kept in `slab::Slab`.
//!
//! A slab is a fixed-shape container with stable integer keys for
//! occupied slots; the readiness backend keys its registered sources
//! by slab index, and the completion-port backend keys its in-flight
//! operations the same way. The slab itself comes from the `slab`
//! crate; everything stated about it here is a contract over the two
//! view functions, believed rather than proved, and matched against
//! that crate's source.

use vstd::prelude::*;

use crate::source::SourceType;
use crate::Raw;

verus! {

/// One pending operation parked on a registered source, in the
/// readiness backend: the caller's key, the identifier the I/O layer
/// uses for the operation's poll closure, and the readiness the
/// operation waits for.
#[derive(Debug, Copy, Clone, PartialEq, Eq, Structural)]
pub struct OpRec {
    /// The identifier the I/O layer gave the operation's closure.
    pub op_id: usize,
    /// The caller's key, echoed back in the completion event.
    pub key: u64,
    /// Does the operation wait for read readiness?
    pub read: bool,
    /// Does the operation wait for write readiness?
    pub write: bool,
}

/// One registered source in the readiness backend.
#[derive(Debug, Clone)]
pub struct SourceRec {
    /// The ongoing list of operations parked on this source.
    pub operations: Vec<OpRec>,
    /// Is this source currently subscribed for read readiness?
    pub readable: bool,
    /// Is this source currently subscribed for write readiness?
    pub writable: bool,
    /// The raw handle for this entry.
    pub source: Raw,
}

/// One in-flight operation in the completion-port backend.
#[derive(Debug, Copy, Clone, PartialEq, Eq, Structural)]
pub struct FlightRec {
    /// The caller's key, echoed back in the completion event.
    pub key: u64,
    /// The variant of the source, which decides how the completion
    /// code is read.
    pub source_type: SourceType,
    /// Whether the operation already completed synchronously at
    /// submission, so its queued completion packet must be
    /// discarded.
    pub sync_done: bool,
}

#[verifier::external_type_specification]
#[verifier::external_body]
#[verifier::reject_recursive_types(T)]
pub struct ExSlab<T>(slab::Slab<T>);

/// What the readiness backend's source table holds: the occupied
/// slots, by key.
pub uninterp spec fn source_slab_view(s: slab::Slab<SourceRec>) -> Map<usize, SourceRec>;

/// What the completion-port backend's in-flight table holds: the
/// occupied slots, by key.
pub uninterp spec fn flight_slab_view(s: slab::Slab<FlightRec>) -> Map<usize, FlightRec>;

/// Relies on slab::Slab::new: the new slab is empty.
#[verifier::external_body]
pub fn source_slab_new() -> (out: slab::Slab<SourceRec>)
    ensures
        (source_slab_view(out) == Map::<usize, SourceRec>::empty()),
{
    slab::Slab::new()
}

/// Relies on slab::Slab::insert: the value is stored at a previously
/// vacant key, and that key is returned.
#[verifier::external_body]
pub fn source_slab_insert(s: &mut slab::Slab<SourceRec>, v: SourceRec) -> (k: usize)
    ensures
        !source_slab_view(*old(s)).contains_key(k),
        source_slab_view(*final(s)) == source_slab_view(*old(s)).insert(k, v),
{
    s.insert(v)
}

/// Relies on slab::Slab::try_remove: the value at the key is taken
/// out if the slot is occupied, and nothing changes otherwise.
#[verifier::external_body]
pub fn source_slab_try_remove(s: &mut slab::Slab<SourceRec>, k: usize) -> (r: Option<SourceRec>)
    ensures
        match r {
            Some(v) => source_slab_view(*old(s)).contains_key(k) && v == source_slab_view(
                *old(s),
            )[k] && source_slab_view(*final(s)) == source_slab_view(*old(s)).remove(k),
            None => !source_slab_view(*old(s)).contains_key(k) && source_slab_view(*final(s))
                == source_slab_view(*old(s)),
        },
{
    s.try_remove(k)
}

/// Relies on slab::Slab::get: the value at the key, if the slot is
/// occupied; the entry is handed out as a copy.
#[verifier::external_body]
pub fn source_slab_get(s: &slab::Slab<SourceRec>, k: usize) -> (r: Option<SourceRec>)
    ensures
        match r {
            Some(v) => source_slab_view(*s).contains_key(k) && v == source_slab_view(*s)[k],
            None => !source_slab_view(*s).contains_key(k),
        },
{
    s.get(k).cloned()
}

/// Relies on slab::Slab::get_mut: an occupied slot's value is
/// replaced; a vacant key changes nothing.
#[verifier::external_body]
pub fn source_slab_set(s: &mut slab::Slab<SourceRec>, k: usize, v: SourceRec)
    ensures
        source_slab_view(*final(s)) == if source_slab_view(*old(s)).contains_key(k) {
            source_slab_view(*old(s)).insert(k, v)
        } else {
            source_slab_view(*old(s))
        },
{
    if let Some(slot) = s.get_mut(k) {
        *slot = v;
    }
}

/// Relies on slab::Slab::with_capacity: the new slab is empty, with
/// room preallocated.
#[verifier::external_body]
pub fn flight_slab_with_capacity(capacity: usize) -> (out: slab::Slab<FlightRec>)
    ensures
        (flight_slab_view(out) == Map::<usize, FlightRec>::empty()),
{
    slab::Slab::with_capacity(capacity)
}

/// Relies on slab::Slab::insert: the value is stored at a previously
/// vacant key, and that key is returned.
#[verifier::external_body]
pub fn flight_slab_insert(s: &mut slab::Slab<FlightRec>, v: FlightRec) -> (k: usize)
    ensures
        !flight_slab_view(*old(s)).contains_key(k),
        flight_slab_view(*final(s)) == flight_slab_view(*old(s)).insert(k, v),
{
    s.insert(v)
}

/// Relies on slab::Slab::try_remove: the value at the key is taken
/// out if the slot is occupied, and nothing changes otherwise.
#[verifier::external_body]
pub fn flight_slab_try_remove(s: &mut slab::Slab<FlightRec>, k: usize) -> (r: Option<FlightRec>)
    ensures
        match r {
            Some(v) => flight_slab_view(*old(s)).contains_key(k) && v == flight_slab_view(
                *old(s),
            )[k] && flight_slab_view(*final(s)) == flight_slab_view(*old(s)).remove(k),
            None => !flight_slab_view(*old(s)).contains_key(k) && flight_slab_view(*final(s))
                == flight_slab_view(*old(s)),
        },
{
    s.try_remove(k)
}

/// Relies on slab::Slab::get: the value at the key, if the slot is
/// occupied; the entry is handed out as a copy.
#[verifier::external_body]
pub fn flight_slab_get(s: &slab::Slab<FlightRec>, k: usize) -> (r: Option<FlightRec>)
    ensures
        match r {
            Some(v) => flight_slab_view(*s).contains_key(k) && v == flight_slab_view(*s)[k],
            None => !flight_slab_view(*s).contains_key(k),
        },
{
    s.get(k).copied()
}

/// Relies on slab::Slab::get_mut: an occupied slot's value is
/// replaced; a vacant key changes nothing.
#[verifier::external_body]
pub fn flight_slab_set(s: &mut slab::Slab<FlightRec>, k: usize, v: FlightRec)
    ensures
        flight_slab_view(*final(s)) == if flight_slab_view(*old(s)).contains_key(k) {
            flight_slab_view(*old(s)).insert(k, v)
        } else {
            flight_slab_view(*old(s))
        },
{
    if let Some(slot) = s.get_mut(k) {
        *slot = v;
    }
}

} // verus!
