//! The source contract: what identifies a descriptor to the reactor.

use vstd::prelude::*;

use crate::Raw;

verus! {

/// Is this source a socket or a file?
///
/// The variant decides how completion codes are interpreted, whether
/// a byte offset applies, and which OS call an operation uses.
#[derive(Debug, Copy, Clone, PartialEq, Eq, PartialOrd, Ord, Hash, Structural)]
pub enum SourceType {
    /// A socket.
    Socket,
    /// A file.
    File,
}

/// A wrapper around a system-specific file descriptor.
///
/// Implementors hand the reactor a stable raw handle and say whether
/// it names a socket or a file. The I/O layer implements this for its
/// concrete descriptor types; [`RawSource`] is the plain in-crate
/// carrier of the same data.
pub trait Source {
    /// The raw handle this source stands for.
    spec fn spec_raw(&self) -> Raw;

    /// The variant of this source.
    spec fn spec_source_type(&self) -> SourceType;

    /// Get the raw underlying file descriptor.
    fn as_raw(&self) -> (r: Raw)
        ensures
            r == self.spec_raw(),
    ;

    /// Get the variant of the source.
    fn source_type(&self) -> (t: SourceType)
        ensures
            t == self.spec_source_type(),
    ;
}

/// A plain source: a raw handle together with its variant.
#[derive(Debug, Copy, Clone, PartialEq, Eq, Structural)]
pub struct RawSource {
    pub raw: Raw,
    pub ty: SourceType,
}

impl RawSource {
    /// A source standing for the raw handle `raw` of variant `ty`.
    pub fn new(raw: Raw, ty: SourceType) -> (s: Self)
        ensures
            s.spec_raw() == raw,
            s.spec_source_type() == ty,
    {
        RawSource { raw, ty }
    }
}

impl Source for RawSource {
    open spec fn spec_raw(&self) -> Raw {
        self.raw
    }

    open spec fn spec_source_type(&self) -> SourceType {
        self.ty
    }

    fn as_raw(&self) -> (r: Raw) {
        self.raw
    }

    fn source_type(&self) -> (t: SourceType) {
        self.ty
    }
}

} // verus!
