//! The operation protocol.
//!
//! An operation is a value that knows how to describe itself to any
//! backend: it carries a source handle, the source's variant, a
//! buffer, and an optional byte offset, and it emits an [`OpDesc`]
//! from which the I/O layer builds the backend-specific submission
//! (a ring entry, a readiness closure, or an overlapped start).

use vstd::prelude::*;

use crate::buf::{Buf, BufMut};
use crate::source::{Source, SourceType};
use crate::Raw;

verus! {

/// What an operation does with its source.
#[derive(Debug, Copy, Clone, PartialEq, Eq, Structural)]
pub enum OpKind {
    /// Transfer bytes from the source into the buffer.
    ReadFrom,
    /// Transfer bytes from the buffer into the source.
    WriteTo,
}

/// A backend-neutral description of one operation: everything the
/// I/O layer needs besides the buffer pointer itself.
#[derive(Debug, Copy, Clone, PartialEq, Eq, Structural)]
pub struct OpDesc {
    /// Read or write.
    pub kind: OpKind,
    /// The raw handle the operation acts on.
    pub source: Raw,
    /// Whether the handle names a socket or a file.
    pub variant: SourceType,
    /// The number of buffer bytes involved.
    pub len: usize,
    /// The absolute byte offset for file operations; zero for
    /// sockets, where offsets do not apply.
    pub offset: i64,
    /// Whether the operation waits for read readiness.
    pub read: bool,
    /// Whether the operation waits for write readiness.
    pub write: bool,
}

/// An operation that can be enqueued into the completion engine.
pub trait Op: Sized {
    /// The variables captured by this operation, returned at the
    /// very end.
    type Captured;

    /// The raw handle this operation acts on.
    spec fn spec_source(&self) -> Raw;

    /// The variant of the source.
    spec fn spec_variant(&self) -> SourceType;

    /// The description this operation submits.
    spec fn spec_descriptor(&self) -> OpDesc;

    /// The captured variables, as they will be handed back.
    spec fn spec_captured(self) -> Self::Captured;

    /// The raw file descriptor that this operation is associated
    /// with.
    fn source(&self) -> (r: Raw)
        ensures
            r == self.spec_source(),
    ;

    /// The variant of the source.
    fn variant(&self) -> (t: SourceType)
        ensures
            t == self.spec_variant(),
    ;

    /// Emit the backend-neutral description of this operation.
    fn descriptor(&self) -> (d: OpDesc)
        ensures
            d == self.spec_descriptor(),
    ;

    /// Get the captured variables, once the operation's event has
    /// been observed or the submission was rejected.
    fn into_captured(self) -> (c: Self::Captured)
        ensures
            c == self.spec_captured(),
    ;
}

/// Split a 64-bit file offset into its low and high halves, as the
/// overlapped submission record stores them.
pub fn split_into_offsets(offset: i64) -> (r: (u32, u32))
    ensures
        r.0 == (offset as u64) & 0xffff_ffff,
        r.1 == (offset as u64) >> 32,
        ((r.1 as u64) << 32) | (r.0 as u64) == offset as u64,
{
    let o = offset as u64;
    let lo = (o & 0xffff_ffff) as u32;
    let hi = (o >> 32) as u32;
    proof {
        assert(((o >> 32) << 32) | (o & 0xffff_ffff) == o) by (bit_vector);
        assert(o & 0xffff_ffff <= 0xffff_ffff) by (bit_vector);
        assert(o >> 32 <= 0xffff_ffff) by (bit_vector);
    }
    (lo, hi)
}

/// Read in data from a source to a buffer.
pub struct Read<B> {
    source: Raw,
    variant: SourceType,
    buf: B,
    offset: i64,
}

impl<B: BufMut> Read<B> {
    /// Create a new `Read` from the source and a buffer to read
    /// into.
    pub fn new<S: Source>(source: &S, buf: B) -> (r: Self)
        ensures
            r.spec_source() == source.spec_raw(),
            r.spec_variant() == source.spec_source_type(),
            r.spec_captured() == buf,
            r.spec_descriptor() == (OpDesc {
                kind: OpKind::ReadFrom,
                source: source.spec_raw(),
                variant: source.spec_source_type(),
                len: buf.buf_bytes().len() as usize,
                offset: 0,
                read: true,
                write: false,
            }),
    {
        Read { source: source.as_raw(), variant: source.source_type(), buf, offset: 0 }
    }

    /// Set the offset to read from.
    ///
    /// This has no effect for sockets. For files, this indicates the
    /// offset to start reading at.
    pub fn offset(&mut self, offset: i64) -> (r: &mut Self)
        ensures
            r.spec_source() == old(self).spec_source(),
            r.spec_variant() == old(self).spec_variant(),
            r.spec_captured() == old(self).spec_captured(),
            r.spec_descriptor() == (OpDesc {
                offset: if old(self).spec_variant() is File {
                    offset
                } else {
                    0
                },
                ..old(self).spec_descriptor()
            }),
            *final(self) == *final(r),
    {
        self.offset = offset;
        self
    }

    /// Borrow the buffer this operation reads into.
    pub fn buf(&self) -> (b: &B)
        ensures
            *b == self.spec_captured(),
    {
        &self.buf
    }

    /// Borrow the buffer mutably, so the I/O layer can derive the
    /// pointer handed to the OS.
    pub fn buf_mut(&mut self) -> (b: &mut B)
        ensures
            *b == old(self).spec_captured(),
            final(self).spec_source() == old(self).spec_source(),
            final(self).spec_variant() == old(self).spec_variant(),
            final(self).spec_captured() == *final(b),
    {
        &mut self.buf
    }
}

impl<B: BufMut> Op for Read<B> {
    type Captured = B;

    closed spec fn spec_source(&self) -> Raw {
        self.source
    }

    closed spec fn spec_variant(&self) -> SourceType {
        self.variant
    }

    closed spec fn spec_descriptor(&self) -> OpDesc {
        OpDesc {
            kind: OpKind::ReadFrom,
            source: self.source,
            variant: self.variant,
            len: self.buf.buf_bytes().len() as usize,
            offset: if self.variant is File {
                self.offset
            } else {
                0
            },
            read: true,
            write: false,
        }
    }

    closed spec fn spec_captured(self) -> B {
        self.buf
    }

    fn source(&self) -> (r: Raw) {
        self.source
    }

    fn variant(&self) -> (t: SourceType) {
        self.variant
    }

    fn descriptor(&self) -> (d: OpDesc) {
        let len = self.buf.buf_len();
        let offset = match self.variant {
            SourceType::File => self.offset,
            SourceType::Socket => 0,
        };
        OpDesc {
            kind: OpKind::ReadFrom,
            source: self.source,
            variant: self.variant,
            len,
            offset,
            read: true,
            write: false,
        }
    }

    fn into_captured(self) -> (c: B) {
        self.buf
    }
}

/// Write data from a buffer out to a source.
pub struct Write<B> {
    source: Raw,
    variant: SourceType,
    buf: B,
    offset: i64,
}

impl<B: Buf> Write<B> {
    /// Create a new `Write` from the source and the buffer to write
    /// out.
    pub fn new<S: Source>(source: &S, buf: B) -> (r: Self)
        ensures
            r.spec_source() == source.spec_raw(),
            r.spec_variant() == source.spec_source_type(),
            r.spec_captured() == buf,
            r.spec_descriptor() == (OpDesc {
                kind: OpKind::WriteTo,
                source: source.spec_raw(),
                variant: source.spec_source_type(),
                len: buf.buf_bytes().len() as usize,
                offset: 0,
                read: false,
                write: true,
            }),
    {
        Write { source: source.as_raw(), variant: source.source_type(), buf, offset: 0 }
    }

    /// Set the offset to write at.
    ///
    /// This has no effect for sockets. For files, this indicates the
    /// offset to start writing at.
    pub fn offset(&mut self, offset: i64) -> (r: &mut Self)
        ensures
            r.spec_source() == old(self).spec_source(),
            r.spec_variant() == old(self).spec_variant(),
            r.spec_captured() == old(self).spec_captured(),
            r.spec_descriptor() == (OpDesc {
                offset: if old(self).spec_variant() is File {
                    offset
                } else {
                    0
                },
                ..old(self).spec_descriptor()
            }),
            *final(self) == *final(r),
    {
        self.offset = offset;
        self
    }

    /// Borrow the buffer this operation writes out.
    pub fn buf(&self) -> (b: &B)
        ensures
            *b == self.spec_captured(),
    {
        &self.buf
    }
}

impl<B: Buf> Op for Write<B> {
    type Captured = B;

    closed spec fn spec_source(&self) -> Raw {
        self.source
    }

    closed spec fn spec_variant(&self) -> SourceType {
        self.variant
    }

    closed spec fn spec_descriptor(&self) -> OpDesc {
        OpDesc {
            kind: OpKind::WriteTo,
            source: self.source,
            variant: self.variant,
            len: self.buf.buf_bytes().len() as usize,
            offset: if self.variant is File {
                self.offset
            } else {
                0
            },
            read: false,
            write: true,
        }
    }

    closed spec fn spec_captured(self) -> B {
        self.buf
    }

    fn source(&self) -> (r: Raw) {
        self.source
    }

    fn variant(&self) -> (t: SourceType) {
        self.variant
    }

    fn descriptor(&self) -> (d: OpDesc) {
        let len = self.buf.buf_len();
        let offset = match self.variant {
            SourceType::File => self.offset,
            SourceType::Socket => 0,
        };
        OpDesc {
            kind: OpKind::WriteTo,
            source: self.source,
            variant: self.variant,
            len,
            offset,
            read: false,
            write: true,
        }
    }

    fn into_captured(self) -> (c: B) {
        self.buf
    }
}

} // verus!
