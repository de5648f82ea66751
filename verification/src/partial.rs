//! The partial-transfer wrapper: a stream decorator that truncates
//! every read and write request of length two or more to a random
//! sub-length, so that callers are forced to handle short transfers.
//!
//! Seek and flush pass through untouched, and the wrapper holds no
//! cursor of its own: position bookkeeping is entirely the underlying
//! stream's.  A request of length one passes through unmodified and
//! consumes no randomness; a truncated transfer is never empty, so a
//! read returning zero bytes signals end-of-stream and nothing else.

use vstd::prelude::*;

use crate::chooser::SpanChooser;
use crate::chooser::truncated_request;
use crate::stream::MemStream;
use crate::stream::SeekFrom;
use crate::stream::StreamError;
use crate::stream::read_len;
use crate::stream::seek_target;
use crate::stream::write_result;

verus! {

broadcast use crate::stream::lemma_cursor_in_range;

/// A stream that deliberately performs short reads and writes.
pub struct PartialFile<C: SpanChooser> {
    inner: MemStream,
    chooser: C,
}

impl<C: SpanChooser> PartialFile<C> {
    /// The bytes the underlying stream holds.
    pub closed spec fn contents(&self) -> Seq<u8> {
        self.inner.contents()
    }

    /// The underlying stream's cursor.
    pub closed spec fn cursor(&self) -> int {
        self.inner.cursor()
    }

    /// The wrapper's span chooser.
    pub closed spec fn chooser(&self) -> C {
        self.chooser
    }

    /// Wraps a stream, taking ownership of it and of the chooser that
    /// will pick the truncated transfer sizes.
    pub fn new(inner: MemStream, chooser: C) -> (f: PartialFile<C>)
        ensures
            f.contents() == inner.contents(),
            f.cursor() == inner.cursor(),
            f.chooser() == chooser,
    {
        PartialFile { inner, chooser }
    }

    /// Surrenders the underlying stream.
    pub fn into_inner(self) -> (s: MemStream)
        ensures
            s.contents() == self.contents(),
            s.cursor() == self.cursor(),
    {
        self.inner
    }

    /// A borrow of the wrapper's span chooser, so that a caller who
    /// injected an observable chooser can inspect it.
    pub fn chooser_ref(&self) -> (c: &C)
        ensures
            *c == self.chooser(),
    {
        &self.chooser
    }

    /// The underlying stream's length in bytes: the pass-through
    /// metadata query.
    pub fn byte_len(&self) -> (n: usize)
        ensures
            n == self.contents().len(),
    {
        self.inner.byte_len()
    }

    /// Reads up to `count` bytes into `buf[start..start + count]`.
    ///
    /// A request of at most one byte passes through unmodified and
    /// leaves the chooser untouched; a longer request is truncated to
    /// a chosen span in `[1, count - 1]` before it reaches the stream,
    /// so fewer than `count` bytes always come back.  Zero bytes come
    /// back exactly when the request is empty or the cursor is at or
    /// past the end: never as an artifact of truncation.
    pub fn read(&mut self, buf: &mut Vec<u8>, start: usize, count: usize) -> (n: usize)
        requires
            start + count <= old(buf).len(),
        ensures
            final(self).contents() == old(self).contents(),
            final(self).cursor() == old(self).cursor() + n,
            n <= count,
            count >= 2 ==> n < count,
            n <= read_len(old(self).contents(), old(self).cursor(), count as int),
            (n == 0) <==> (count == 0 || old(self).cursor() >= old(self).contents().len()),
            final(buf).len() == old(buf).len(),
            forall|i: int|
                start <= i < start + n
                    ==> #[trigger] final(buf)@[i]
                    == old(self).contents()[old(self).cursor() + (i - start)],
            forall|i: int|
                0 <= i < final(buf).len() && !(start <= i < start + n)
                    ==> #[trigger] final(buf)@[i] == old(buf)@[i],
            count <= 1 ==> n == read_len(old(self).contents(), old(self).cursor(), count as int)
                && final(self).chooser() == old(self).chooser(),
    {
        let t = truncated_request(&mut self.chooser, count);
        self.inner.read_into(buf, start, t)
    }

    /// Writes bytes from `buf[start..start + count]` at the cursor.
    ///
    /// A request of at most one byte passes through unmodified and
    /// leaves the chooser untouched; a longer request is truncated to
    /// a chosen span in `[1, count - 1]`, so the count that comes back
    /// is at least one and strictly less than `count`.  Exactly the
    /// first `n` bytes of the requested slice reach the stream.
    pub fn write(&mut self, buf: &Vec<u8>, start: usize, count: usize) -> (n: usize)
        requires
            start + count <= buf.len(),
            old(self).cursor() + count <= usize::MAX,
        ensures
            n <= count,
            count <= 1 ==> n == count && final(self).chooser() == old(self).chooser(),
            count >= 2 ==> 1 <= n < count,
            final(self).contents() == write_result(
                old(self).contents(),
                old(self).cursor(),
                buf@.subrange(start as int, start + n as int),
            ),
            final(self).cursor() == old(self).cursor() + n,
    {
        let t = truncated_request(&mut self.chooser, count);
        self.inner.write_from(buf, start, t)
    }

    /// Moves the underlying stream's cursor: a pass-through.  Fails,
    /// changing nothing, exactly when the target lies before the start
    /// of the stream or beyond the addressable range.
    pub fn seek(&mut self, from: SeekFrom) -> (r: Result<usize, StreamError>)
        ensures
            final(self).contents() == old(self).contents(),
            final(self).chooser() == old(self).chooser(),
            ({
                let t = seek_target(old(self).contents(), old(self).cursor(), from);
                if 0 <= t <= usize::MAX {
                    r == Ok::<usize, StreamError>(t as usize) && final(self).cursor() == t
                } else {
                    r == Err::<usize, StreamError>(StreamError::InvalidSeek) && final(self).cursor()
                        == old(self).cursor()
                }
            }),
    {
        self.inner.seek(from)
    }

    /// Flushes the underlying stream: a pass-through that loses no
    /// written byte and changes nothing.
    pub fn flush(&mut self)
        ensures
            *final(self) == *old(self),
    {
        self.inner.flush()
    }

    /// Writes all of `buf`, looping until every byte is accepted, as a
    /// caller of the wrapper must.  The stream ends up holding `buf`
    /// in full at the old cursor, and the cursor ends up past it.
    pub fn write_all(&mut self, buf: &Vec<u8>)
        requires
            old(self).cursor() + buf.len() <= usize::MAX,
        ensures
            final(self).contents() == write_result(
                old(self).contents(),
                old(self).cursor(),
                buf@,
            ),
            final(self).cursor() == old(self).cursor() + buf.len(),
    {
        let ghost d0 = self.contents();
        let ghost p0 = self.cursor();
        let mut done: usize = 0;
        while done < buf.len()
            invariant
                done <= buf.len(),
                0 <= p0,
                p0 + buf.len() <= usize::MAX,
                self.cursor() == p0 + done,
                self.contents() == write_result(d0, p0, buf@.subrange(0, done as int)),
            decreases buf.len() - done,
        {
            let ghost pre = self.contents();
            let n = self.write(buf, done, buf.len() - done);
            proof {
                let b1 = buf@.subrange(0, done as int);
                let b2 = buf@.subrange(done as int, done + n as int);
                crate::laws::lemma_write_result_append(d0, p0, b1, b2);
                assert(b1 + b2 =~= buf@.subrange(0, done + n as int));
            }
            done = done + n;
        }
        proof {
            assert(buf@.subrange(0, buf.len() as int) =~= buf@);
        }
    }

    /// Reads into `buf[start..start + count]`, looping until `count`
    /// bytes are gathered or the stream is exhausted, as a caller of
    /// the wrapper must.  Yields exactly the bytes the stream holds at
    /// the old cursor, `count` of them when that much data remains.
    pub fn read_full(&mut self, buf: &mut Vec<u8>, start: usize, count: usize) -> (n: usize)
        requires
            start + count <= old(buf).len(),
        ensures
            final(self).contents() == old(self).contents(),
            n == read_len(old(self).contents(), old(self).cursor(), count as int),
            final(self).cursor() == old(self).cursor() + n,
            final(buf).len() == old(buf).len(),
            forall|i: int|
                start <= i < start + n
                    ==> #[trigger] final(buf)@[i]
                    == old(self).contents()[old(self).cursor() + (i - start)],
            forall|i: int|
                0 <= i < final(buf).len() && !(start <= i < start + n)
                    ==> #[trigger] final(buf)@[i] == old(buf)@[i],
    {
        let ghost d0 = self.contents();
        let ghost p0 = self.cursor();
        let mut got: usize = 0;
        loop
            invariant
                got <= count,
                start + count <= buf.len(),
                0 <= p0,
                self.contents() == d0,
                self.cursor() == p0 + got,
                got == read_len(d0, p0, got as int),
                buf.len() == old(buf).len(),
                forall|j: int|
                    start <= j < start + got
                        ==> #[trigger] buf@[j] == d0[p0 + (j - start)],
                forall|j: int|
                    0 <= j < buf.len() && !(start <= j < start + got)
                        ==> #[trigger] buf@[j] == old(buf)@[j],
            ensures
                got == read_len(d0, p0, count as int),
                self.contents() == d0,
                self.cursor() == p0 + got,
                buf.len() == old(buf).len(),
                forall|j: int|
                    start <= j < start + got
                        ==> #[trigger] buf@[j] == d0[p0 + (j - start)],
                forall|j: int|
                    0 <= j < buf.len() && !(start <= j < start + got)
                        ==> #[trigger] buf@[j] == old(buf)@[j],
            decreases count - got,
        {
            if got == count {
                break;
            }
            let n = self.read(buf, start + got, count - got);
            if n == 0 {
                break;
            }
            got = got + n;
        }
        got
    }
}

} // verus!
