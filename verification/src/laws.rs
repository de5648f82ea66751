//! Laws of the stream model: what a write leaves in the stream, how
//! consecutive writes compose, and that bytes written are the bytes
//! read back.

use vstd::prelude::*;

use crate::stream::read_len;
use crate::stream::read_result;
use crate::stream::write_result;
use crate::stream::zero_extend;

verus! {

/// The byte standing at position `j` after `b` is written at `p` into
/// a stream holding `d`: the written byte where the write covers `j`,
/// the old byte where the old data does, and a pad of zero elsewhere.
pub open spec fn written_byte(d: Seq<u8>, p: int, b: Seq<u8>, j: int) -> u8 {
    if p <= j < p + b.len() {
        b[j - p]
    } else if 0 <= j < d.len() {
        d[j]
    } else {
        0u8
    }
}

/// A write leaves the stream at the length the write reaches (or the
/// old length, when that is greater), holding at each position exactly
/// the byte [`written_byte`] names.
pub proof fn lemma_write_result_index(d: Seq<u8>, p: int, b: Seq<u8>)
    requires
        0 <= p,
    ensures
        write_result(d, p, b).len() == if b.len() == 0 || d.len() >= p + b.len() {
            d.len() as int
        } else {
            p + b.len()
        },
        forall|j: int|
            0 <= j < write_result(d, p, b).len()
                ==> #[trigger] write_result(d, p, b)[j] == written_byte(d, p, b, j),
{
    let base = zero_extend(d, p);
    assert(base.len() == if d.len() >= p {
        d.len() as int
    } else {
        p
    });
    assert forall|j: int| 0 <= j < write_result(d, p, b).len() implies #[trigger] write_result(
        d,
        p,
        b,
    )[j] == written_byte(d, p, b, j) by {
        if j < p {
            assert(write_result(d, p, b)[j] == base[j]);
        }
    }
}

/// Writing `b1` and then writing `b2` right after it is one write of
/// `b1 + b2`: a caller's write loop accumulates exactly the bytes it
/// set out to write.
pub proof fn lemma_write_result_append(d: Seq<u8>, p: int, b1: Seq<u8>, b2: Seq<u8>)
    requires
        0 <= p,
    ensures
        write_result(write_result(d, p, b1), p + b1.len(), b2) == write_result(d, p, b1 + b2),
{
    let w1 = write_result(d, p, b1);
    let lhs = write_result(w1, p + b1.len() as int, b2);
    let rhs = write_result(d, p, b1 + b2);
    if b1.len() == 0 {
        assert(b1 + b2 =~= b2);
    } else if b2.len() == 0 {
        assert(b1 + b2 =~= b1);
    } else {
        lemma_write_result_index(d, p, b1);
        lemma_write_result_index(w1, p + b1.len() as int, b2);
        lemma_write_result_index(d, p, b1 + b2);
        assert(lhs.len() == rhs.len());
        assert forall|j: int| 0 <= j < lhs.len() implies lhs[j] == rhs[j] by {
            assert(lhs[j] == written_byte(w1, p + b1.len() as int, b2, j));
            assert(rhs[j] == written_byte(d, p, b1 + b2, j));
            if p <= j < p + b1.len() + b2.len() {
                assert((b1 + b2)[j - p] == if j - p < b1.len() {
                    b1[j - p]
                } else {
                    b2[j - p - b1.len()]
                });
            }
            if 0 <= j < w1.len() {
                assert(w1[j] == written_byte(d, p, b1, j));
            }
        }
        assert(lhs =~= rhs);
    }
}

/// The round-trip law: the bytes written at a position are exactly the
/// bytes a read of that length at that position yields afterwards, for
/// every byte sequence, of every length.
pub proof fn lemma_round_trip(d: Seq<u8>, p: int, b: Seq<u8>)
    requires
        0 <= p,
    ensures
        read_result(write_result(d, p, b), p, b.len() as int) == b,
{
    let w = write_result(d, p, b);
    lemma_write_result_index(d, p, b);
    if b.len() == 0 {
        assert(read_result(w, p, 0) =~= b);
    } else {
        assert(w.len() >= p + b.len());
        assert(read_len(w, p, b.len() as int) == b.len());
        assert(read_result(w, p, b.len() as int) =~= b);
    }
}

/// The seek-fidelity law: a stream that was filled by one write at the
/// start holds exactly the written data, so a read at any offset
/// yields the same bytes as reading the original data at that offset.
pub proof fn lemma_offset_read(b: Seq<u8>, off: int, count: int)
    ensures
        write_result(Seq::<u8>::empty(), 0, b) == b,
        read_result(write_result(Seq::<u8>::empty(), 0, b), off, count) == read_result(
            b,
            off,
            count,
        ),
{
    if b.len() == 0 {
        assert(write_result(Seq::<u8>::empty(), 0, b) =~= b);
    } else {
        lemma_write_result_index(Seq::<u8>::empty(), 0, b);
        assert(write_result(Seq::<u8>::empty(), 0, b) =~= b);
    }
}

} // verus!
