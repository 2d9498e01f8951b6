//! Buffer capabilities.
//!
//! A buffer hands the reactor a stable run of bytes for the lifetime
//! of an in-flight operation. The capability layers mirror what the
//! OS interfaces need: [`Buf`] is a readable run of bytes, [`BufMut`]
//! may be written through, [`IoBuf`]/[`IoBufMut`] additionally promise
//! a representation the OS scatter/gather element can consume, and
//! [`VectoredBuf`]/[`VectoredBufMut`] are stable sequences of such
//! elements.

use vstd::prelude::*;

verus! {

/// A buffer that can supply data of some kind to a source: a stable
/// run of bytes with a stable length.
pub trait Buf: Sized {
    /// The bytes this buffer currently holds.
    spec fn buf_bytes(&self) -> Seq<u8>;

    /// The number of valid bytes in this buffer.
    fn buf_len(&self) -> (n: usize)
        ensures
            n == self.buf_bytes().len(),
    ;

    /// The byte at position `i`.
    fn buf_byte(&self, i: usize) -> (b: u8)
        requires
            i < self.buf_bytes().len(),
        ensures
            b == self.buf_bytes()[i as int],
    ;

}

/// A sliced view of `buf` restricted to the byte range `start..end`.
pub fn slice<T: Buf>(buf: T, start: usize, end: usize) -> (s: Slice<T>)
    requires
        start <= end,
        end <= buf.buf_bytes().len(),
    ensures
        s.buf_bytes() == buf.buf_bytes().subrange(start as int, end as int),
{
    Slice { buf, start, end }
}

/// A buffer whose bytes may also be written.
pub trait BufMut: Buf {
    /// Write the byte `b` at position `i`.
    fn put(&mut self, i: usize, b: u8)
        requires
            i < old(self).buf_bytes().len(),
        ensures
            final(self).buf_bytes() == old(self).buf_bytes().update(i as int, b),
    ;
}

/// A buffer whose in-memory representation is compatible with the
/// OS scatter/gather element, so it can be handed out as one without
/// copying. The layout claim itself lives with the I/O code; here the
/// capability only marks which buffers offer it.
pub trait IoBuf: Buf {

}

/// A mutable buffer compatible with the mutable OS scatter/gather
/// element.
pub trait IoBufMut: BufMut + IoBuf {

}

/// A buffer made up of I/O slices, for vectored I/O: a stable
/// sequence of scatter/gather elements.
pub trait VectoredBuf {
    /// The type of I/O buffer this buffer is made up of.
    type InnerBuf: IoBuf;

    /// The byte runs of the elements, in order.
    spec fn segments(&self) -> Seq<Seq<u8>>;

    /// The number of elements.
    fn segment_count(&self) -> (n: usize)
        ensures
            n == self.segments().len(),
    ;

    /// The total number of bytes the elements span together.
    fn total_len(&self) -> (n: usize)
        requires
            segments_byte_len(self.segments()) <= usize::MAX,
        ensures
            n == segments_byte_len(self.segments()),
    ;
}

/// Same as [`VectoredBuf`], but every element may be written.
pub trait VectoredBufMut: VectoredBuf {

}

/// The total number of bytes spanned by a sequence of segments.
pub open spec fn segments_byte_len(segs: Seq<Seq<u8>>) -> nat
    decreases segs.len(),
{
    if segs.len() == 0 {
        0
    } else {
        segs[0].len() + segments_byte_len(segs.drop_first())
    }
}

impl Buf for Vec<u8> {
    open spec fn buf_bytes(&self) -> Seq<u8> {
        self@
    }

    fn buf_len(&self) -> (n: usize) {
        self.len()
    }

    fn buf_byte(&self, i: usize) -> (b: u8) {
        self[i]
    }
}

impl BufMut for Vec<u8> {
    fn put(&mut self, i: usize, b: u8) {
        *vstd::std_specs::vec::vec_index_mut(self, i) = b;
    }
}

impl<T: IoBuf> VectoredBuf for Vec<T> {
    type InnerBuf = T;

    open spec fn segments(&self) -> Seq<Seq<u8>> {
        self@.map_values(|b: T| b.buf_bytes())
    }

    fn segment_count(&self) -> (n: usize) {
        self.len()
    }

    fn total_len(&self) -> (n: usize) {
        let ghost segs = self.segments();
        let count = self.len();
        let mut total: usize = 0;
        let mut i: usize = 0;
        proof {
            assert(segs.skip(0) =~= segs);
        }
        while i < count
            invariant
                count == self@.len(),
                count == segs.len(),
                segs == self@.map_values(|b: T| b.buf_bytes()),
                0 <= i <= count,
                segments_byte_len(segs) <= usize::MAX,
                segments_byte_len(segs) == total + segments_byte_len(segs.skip(i as int)),
            decreases count - i,
        {
            proof {
                assert(segs.skip(i as int)[0] == segs[i as int]);
                assert(segs.skip(i as int).drop_first() =~= segs.skip(i + 1));
                assert(segments_byte_len(segs.skip(i as int)) == segs[i as int].len()
                    + segments_byte_len(segs.skip(i + 1)));
            }
            let len = self[i].buf_len();
            total = total + len;
            i = i + 1;
        }
        proof {
            assert(segs.skip(count as int) =~= Seq::<Seq<u8>>::empty());
        }
        total
    }
}

impl<T: IoBufMut> VectoredBufMut for Vec<T> {

}

/// A wrapper around a [`Buf`] that exposes only the byte range
/// `start..end` of the underlying buffer.
pub struct Slice<T: Buf> {
    buf: T,
    start: usize,
    end: usize,
}

impl<T: Buf> Slice<T> {
    /// The lower end of the exposed range, held to the underlying
    /// length. Every constructor keeps `start <= end <= len`, so the
    /// clamping is only there to keep the view total.
    spec fn lo(&self) -> int {
        let n = self.buf.buf_bytes().len() as int;
        if self.start as int <= n {
            self.start as int
        } else {
            n
        }
    }

    /// The upper end of the exposed range, held to the underlying
    /// length and to `lo`.
    spec fn hi(&self) -> int {
        let n = self.buf.buf_bytes().len() as int;
        let h = if self.end as int <= n {
            self.end as int
        } else {
            n
        };
        if h >= self.lo() {
            h
        } else {
            self.lo()
        }
    }

    /// The exposed range as a pair of in-bounds indices.
    fn range(&self) -> (r: (usize, usize))
        ensures
            r.0 as int == self.lo(),
            r.1 as int == self.hi(),
    {
        let n = self.buf.buf_len();
        let lo = if self.start <= n {
            self.start
        } else {
            n
        };
        let h = if self.end <= n {
            self.end
        } else {
            n
        };
        let hi = if h >= lo {
            h
        } else {
            lo
        };
        (lo, hi)
    }

    /// The underlying buffer, recovered when the slice is no longer
    /// needed.
    pub fn into_inner(self) -> (b: T)
        ensures
            exists|start: int, end: int|
                0 <= start <= end <= b.buf_bytes().len() && self.buf_bytes() == b.buf_bytes().subrange(
                    start,
                    end,
                ),
    {
        proof {
            assert(0 <= self.lo() <= self.hi() <= self.buf.buf_bytes().len());
            assert(self.buf_bytes() == self.buf.buf_bytes().subrange(self.lo(), self.hi()));
        }
        self.buf
    }
}

impl<T: Buf> Buf for Slice<T> {
    closed spec fn buf_bytes(&self) -> Seq<u8> {
        self.buf.buf_bytes().subrange(self.lo(), self.hi())
    }

    fn buf_len(&self) -> (n: usize) {
        let (lo, hi) = self.range();
        hi - lo
    }

    fn buf_byte(&self, i: usize) -> (b: u8) {
        let (lo, _) = self.range();
        self.buf.buf_byte(lo + i)
    }
}

impl<T: BufMut> BufMut for Slice<T> {
    fn put(&mut self, i: usize, b: u8) {
        let (lo, _) = self.range();
        let ghost prior = self.buf.buf_bytes();
        self.buf.put(lo + i, b);
        proof {
            assert(self.buf.buf_bytes().subrange(self.lo(), self.hi()) =~= prior.subrange(
                old(self).lo(),
                old(self).hi(),
            ).update(i as int, b));
        }
    }
}

/// Slicing composes: taking `c..d` of the slice `a..b` is the same
/// view of the underlying bytes as taking `a + c .. a + d` directly,
/// whenever both ranges are in bounds.
pub proof fn lemma_slice_of_slice(s: Seq<u8>, a: int, b: int, c: int, d: int)
    requires
        0 <= a <= b <= s.len(),
        0 <= c <= d <= b - a,
    ensures
        s.subrange(a, b).subrange(c, d) == s.subrange(a + c, a + d),
{
    assert(s.subrange(a, b).subrange(c, d) =~= s.subrange(a + c, a + d));
}

} // verus!
