//! An in-memory byte stream: the verified model of the underlying file.
//!
//! The stream owns a byte buffer and a cursor.  Reads copy bytes out at
//! the cursor, writes copy bytes in at the cursor (zero-filling any gap
//! left by a seek past the end, as a file would), and seeks move the
//! cursor.  The wrapper in [`crate::partial`] holds no cursor of its
//! own: all position bookkeeping lives here.

use vstd::prelude::*;

verus! {

/// A position to seek to, relative to the start, the cursor, or the end
/// of the stream.
#[derive(Clone, Copy, Debug)]
pub enum SeekFrom {
    Start(usize),
    Current(isize),
    End(isize),
}

/// The one failure a stream operation can report: a seek whose target
/// lies before the start of the stream or beyond the addressable range.
#[derive(Clone, Copy, Debug, PartialEq, Eq, Structural)]
pub enum StreamError {
    InvalidSeek,
}

/// How many bytes a read of `count` bytes at `pos` yields: `count` when
/// that much data lies at or after `pos`, the remaining tail when less
/// does, and nothing at or past the end.
pub open spec fn read_len(data: Seq<u8>, pos: int, count: int) -> int {
    if pos >= data.len() || count <= 0 {
        0
    } else if pos + count <= data.len() {
        count
    } else {
        data.len() - pos
    }
}

/// The bytes a read of `count` bytes at `pos` yields.
pub open spec fn read_result(data: Seq<u8>, pos: int, count: int) -> Seq<u8> {
    if pos >= data.len() || count <= 0 {
        Seq::<u8>::empty()
    } else {
        data.subrange(pos, pos + read_len(data, pos, count))
    }
}

/// `data` padded with zero bytes up to position `pos`, as a file is
/// when it is written beyond its end.
pub open spec fn zero_extend(data: Seq<u8>, pos: int) -> Seq<u8> {
    if pos <= data.len() {
        data
    } else {
        data + Seq::<u8>::new((pos - data.len()) as nat, |i: int| 0u8)
    }
}

/// The stream contents after `bytes` are written at position `pos`:
/// the bytes overwrite the old contents in place, extending the stream
/// (zero-filling any gap a seek left past the end) when they run past
/// it.  An empty write touches nothing.
pub open spec fn write_result(data: Seq<u8>, pos: int, bytes: Seq<u8>) -> Seq<u8> {
    if bytes.len() == 0 {
        data
    } else {
        let base = zero_extend(data, pos);
        if pos + bytes.len() <= base.len() {
            base.subrange(0, pos) + bytes + base.subrange(pos + bytes.len(), base.len() as int)
        } else {
            base.subrange(0, pos) + bytes
        }
    }
}

/// The absolute position a seek asks for, before any range check.
pub open spec fn seek_target(data: Seq<u8>, pos: int, from: SeekFrom) -> int {
    match from {
        SeekFrom::Start(o) => o as int,
        SeekFrom::Current(d) => pos + d as int,
        SeekFrom::End(d) => data.len() + d as int,
    }
}

/// An in-memory byte stream with a cursor.
pub struct MemStream {
    data: Vec<u8>,
    pos: usize,
}

/// The cursor is a machine position: it is never negative.
pub broadcast proof fn lemma_cursor_in_range(s: &MemStream)
    ensures
        0 <= #[trigger] s.cursor(),
{
}

impl MemStream {
    /// The bytes the stream holds.
    pub closed spec fn contents(&self) -> Seq<u8> {
        self.data@
    }

    /// The cursor: the position the next read or write acts at.
    pub closed spec fn cursor(&self) -> int {
        self.pos as int
    }

    /// An empty stream with the cursor at the start.
    pub fn new() -> (s: MemStream)
        ensures
            s.contents() == Seq::<u8>::empty(),
            s.cursor() == 0,
    {
        MemStream { data: Vec::new(), pos: 0 }
    }

    /// A stream holding the given bytes, with the cursor at the start.
    pub fn from_vec(data: Vec<u8>) -> (s: MemStream)
        ensures
            s.contents() == data@,
            s.cursor() == 0,
    {
        MemStream { data, pos: 0 }
    }

    /// Surrenders the stream's bytes.
    pub fn into_vec(self) -> (v: Vec<u8>)
        ensures
            v@ == self.contents(),
    {
        self.data
    }

    /// The stream's length in bytes, the model of a size query against
    /// the underlying file's metadata.
    pub fn byte_len(&self) -> (n: usize)
        ensures
            n == self.contents().len(),
    {
        self.data.len()
    }

    /// Reads up to `count` bytes into `buf[start..start + count]`,
    /// advancing the cursor by the number of bytes read.  Yields fewer
    /// than `count` bytes only when the data is exhausted, and zero
    /// bytes exactly at end-of-stream (or for an empty request).
    pub fn read_into(&mut self, buf: &mut Vec<u8>, start: usize, count: usize) -> (n: usize)
        requires
            start + count <= old(buf).len(),
        ensures
            n == read_len(old(self).contents(), old(self).cursor(), count as int),
            final(self).contents() == old(self).contents(),
            final(self).cursor() == old(self).cursor() + n,
            final(buf).len() == old(buf).len(),
            forall|i: int|
                start <= i < start + n
                    ==> #[trigger] final(buf)@[i]
                    == old(self).contents()[old(self).cursor() + (i - start)],
            forall|i: int|
                0 <= i < final(buf).len() && !(start <= i < start + n)
                    ==> #[trigger] final(buf)@[i] == old(buf)@[i],
    {
        let mut i: usize = 0;
        while i < count && self.pos < self.data.len()
            invariant
                i <= count,
                start + count <= buf.len(),
                self.data@ == old(self).contents(),
                self.pos == old(self).cursor() + i,
                i == read_len(old(self).contents(), old(self).cursor(), i as int),
                buf.len() == old(buf).len(),
                forall|j: int|
                    start <= j < start + i
                        ==> #[trigger] buf@[j]
                        == old(self).contents()[old(self).cursor() + (j - start)],
                forall|j: int|
                    0 <= j < buf.len() && !(start <= j < start + i)
                        ==> #[trigger] buf@[j] == old(buf)@[j],
            decreases count - i,
        {
            let b = self.data[self.pos];
            buf.set(start + i, b);
            self.pos = self.pos + 1;
            i = i + 1;
        }
        i
    }

    /// Writes `buf[start..start + count]` at the cursor, advancing the
    /// cursor past the written bytes.  An in-memory stream never falls
    /// short: all `count` bytes are accepted.
    pub fn write_from(&mut self, buf: &Vec<u8>, start: usize, count: usize) -> (n: usize)
        requires
            start + count <= buf.len(),
            old(self).cursor() + count <= usize::MAX,
        ensures
            n == count,
            final(self).contents() == write_result(
                old(self).contents(),
                old(self).cursor(),
                buf@.subrange(start as int, start + count as int),
            ),
            final(self).cursor() == old(self).cursor() + count,
    {
        if count == 0 {
            return 0;
        }
        let ghost old_data = self.data@;
        let ghost old_pos = self.pos as int;
        while self.data.len() < self.pos
            invariant
                self.pos == old_pos,
                old_data.len() <= self.data@.len() <= old_pos || self.data@ == old_data,
                self.data@.len() >= old_data.len(),
                forall|j: int| 0 <= j < old_data.len() ==> #[trigger] self.data@[j] == old_data[j],
                forall|j: int|
                    old_data.len() <= j < self.data@.len() ==> #[trigger] self.data@[j] == 0u8,
            decreases self.pos - self.data.len(),
        {
            self.data.push(0u8);
        }
        proof {
            assert(self.data@ =~= zero_extend(old_data, old_pos));
        }
        let ghost base = self.data@;
        let mut i: usize = 0;
        while i < count
            invariant
                i <= count,
                start + count <= buf.len(),
                0 <= old_pos,
                old_pos + count <= usize::MAX,
                base == zero_extend(old_data, old_pos),
                base.len() >= old_pos,
                self.pos == old_pos + i,
                self.data@.len() == if base.len() >= old_pos + i {
                    base.len() as int
                } else {
                    old_pos + i
                },
                forall|j: int|
                    0 <= j < self.data@.len() && !(old_pos <= j < old_pos + i) && j < base.len()
                        ==> #[trigger] self.data@[j] == base[j],
                forall|j: int|
                    old_pos <= j < old_pos + i ==> #[trigger] self.data@[j] == buf@[start + (j
                        - old_pos)],
            decreases count - i,
        {
            let b = buf[start + i];
            if self.pos < self.data.len() {
                self.data.set(self.pos, b);
            } else {
                self.data.push(b);
            }
            self.pos = self.pos + 1;
            i = i + 1;
        }
        proof {
            assert(self.data@ =~= write_result(
                old_data,
                old_pos,
                buf@.subrange(start as int, start + count as int),
            ));
        }
        count
    }

    /// Moves the cursor to the given position.  Fails, leaving the
    /// stream untouched, exactly when the target lies before the start
    /// of the stream or beyond the addressable range.
    pub fn seek(&mut self, from: SeekFrom) -> (r: Result<usize, StreamError>)
        ensures
            final(self).contents() == old(self).contents(),
            ({
                let t = seek_target(old(self).contents(), old(self).cursor(), from);
                if 0 <= t <= usize::MAX {
                    r == Ok::<usize, StreamError>(t as usize) && final(self).cursor() == t
                } else {
                    r == Err::<usize, StreamError>(StreamError::InvalidSeek) && final(self).cursor()
                        == old(self).cursor()
                }
            }),
    {
        match from {
            SeekFrom::Start(o) => {
                self.pos = o;
                Ok(o)
            },
            SeekFrom::Current(d) => {
                match Self::offset_by(self.pos, d) {
                    Some(t) => {
                        self.pos = t;
                        Ok(t)
                    },
                    None => Err(StreamError::InvalidSeek),
                }
            },
            SeekFrom::End(d) => {
                match Self::offset_by(self.data.len(), d) {
                    Some(t) => {
                        self.pos = t;
                        Ok(t)
                    },
                    None => Err(StreamError::InvalidSeek),
                }
            },
        }
    }

    /// `base` moved by the signed offset `d`, when the result stays in
    /// the addressable range.
    fn offset_by(base: usize, d: isize) -> (r: Option<usize>)
        ensures
            ({
                let t = base + d as int;
                if 0 <= t <= usize::MAX {
                    r == Some(t as usize)
                } else {
                    r == None::<usize>
                }
            }),
    {
        if d >= 0 {
            let step = d as usize;
            if base <= usize::MAX - step {
                Some(base + step)
            } else {
                None
            }
        } else {
            let step = if d == isize::MIN {
                (isize::MAX as usize) + 1
            } else {
                (-d) as usize
            };
            if step <= base {
                Some(base - step)
            } else {
                None
            }
        }
    }

    /// Commits buffered bytes.  An in-memory stream buffers nothing, so
    /// this leaves the stream exactly as it is: no written byte is
    /// lost.
    pub fn flush(&mut self)
        ensures
            *final(self) == *old(self),
    {
    }
}

} // verus!
