//! Cutting a byte sequence into bounded pieces.

use vstd::prelude::*;
use vstd::slice::{slice_subrange, slice_to_vec};

verus! {

/// Splits `data` into consecutive pieces of `size` bytes; only the last piece
/// may be shorter, and no piece is empty.  With a size of zero nothing can be
/// read, so there are no pieces.
pub open spec fn split_chunks(data: Seq<u8>, size: int) -> Seq<Seq<u8>>
    decreases data.len(),
{
    if size <= 0 || data.len() == 0 {
        Seq::empty()
    } else if data.len() <= size {
        seq![data]
    } else {
        seq![data.take(size)] + split_chunks(data.skip(size), size)
    }
}

/// The pieces of a chunking laid end to end.
pub open spec fn join_chunks(chunks: Seq<Seq<u8>>) -> Seq<u8>
    decreases chunks.len(),
{
    if chunks.len() == 0 {
        Seq::empty()
    } else {
        join_chunks(chunks.drop_last()) + chunks.last()
    }
}

/// Joining distributes over concatenation of chunkings.
pub proof fn lemma_join_concat(a: Seq<Seq<u8>>, b: Seq<Seq<u8>>)
    ensures
        join_chunks(a + b) == join_chunks(a) + join_chunks(b),
    decreases b.len(),
{
    if b.len() == 0 {
        assert(a + b =~= a);
        assert(join_chunks(a) + join_chunks(b) =~= join_chunks(a));
    } else {
        lemma_join_concat(a, b.drop_last());
        assert((a + b).drop_last() =~= a + b.drop_last());
        assert((a + b).last() == b.last());
        assert(join_chunks(a) + (join_chunks(b.drop_last()) + b.last()) =~= (join_chunks(a)
            + join_chunks(b.drop_last())) + b.last());
    }
}

/// Joining a single piece gives that piece.
pub proof fn lemma_join_single(piece: Seq<u8>)
    ensures
        join_chunks(seq![piece]) == piece,
{
    let s = seq![piece];
    assert(s.drop_last() =~= Seq::<Seq<u8>>::empty());
    assert(join_chunks(s.drop_last()) =~= Seq::<u8>::empty());
    assert(join_chunks(s) =~= piece);
}

/// Pieces that are all empty join to nothing.
pub proof fn lemma_join_empty_pieces(chunks: Seq<Seq<u8>>)
    requires
        forall|i: int| 0 <= i < chunks.len() ==> (#[trigger] chunks[i]).len() == 0,
    ensures
        join_chunks(chunks) == Seq::<u8>::empty(),
    decreases chunks.len(),
{
    if chunks.len() > 0 {
        lemma_join_empty_pieces(chunks.drop_last());
        assert(chunks.last() =~= Seq::<u8>::empty());
        assert(join_chunks(chunks) =~= Seq::<u8>::empty());
    }
}

/// Splitting loses and reorders nothing: the pieces, joined, are the data;
/// every piece holds between one and `size` bytes.
pub proof fn lemma_split_join(data: Seq<u8>, size: int)
    requires
        size > 0,
    ensures
        join_chunks(split_chunks(data, size)) == data,
        forall|i: int|
            0 <= i < split_chunks(data, size).len() ==> 0 < (#[trigger] split_chunks(
                data,
                size,
            )[i]).len() <= size,
    decreases data.len(),
{
    if data.len() == 0 {
        assert(join_chunks(split_chunks(data, size)) =~= data);
    } else if data.len() <= size {
        lemma_join_single(data);
    } else {
        let rest = split_chunks(data.skip(size), size);
        lemma_split_join(data.skip(size), size);
        lemma_join_concat(seq![data.take(size)], rest);
        lemma_join_single(data.take(size));
        assert(data.take(size) + data.skip(size) =~= data);
        assert forall|i: int| 0 <= i < split_chunks(data, size).len() implies 0 < (
        #[trigger] split_chunks(data, size)[i]).len() <= size by {
            if i > 0 {
                assert(split_chunks(data, size)[i] == rest[i - 1]);
            }
        }
    }
}

/// Where the piece that starts at `start` ends: `size` bytes on, or at the end
/// of the data if that comes first.
pub open spec fn piece_end(total: int, start: int, size: int) -> int {
    if total - start <= size {
        total
    } else {
        start + size
    }
}

/// Unfolds a split at its first piece.
pub proof fn lemma_split_step(data: Seq<u8>, size: int, start: int)
    requires
        size > 0,
        0 <= start < data.len(),
    ensures
        start < piece_end(data.len() as int, start, size) <= data.len(),
        split_chunks(data.skip(start), size) == seq![
            data.subrange(start, piece_end(data.len() as int, start, size)),
        ] + split_chunks(data.skip(piece_end(data.len() as int, start, size)), size),
{
    let end = piece_end(data.len() as int, start, size);
    let tail = data.skip(start);
    if tail.len() <= size {
        assert(tail =~= data.subrange(start, end));
        assert(data.skip(end).len() == 0);
        assert(seq![tail] + Seq::<Seq<u8>>::empty() =~= seq![tail]);
    } else {
        assert(tail.take(size) =~= data.subrange(start, end));
        assert(tail.skip(size) =~= data.skip(end));
    }
}

/// Copies out the piece of `data` that starts at `start`, and says where the
/// next one starts.
pub(crate) fn take_piece(data: &[u8], start: usize, size: usize) -> (piece: (Vec<u8>, usize))
    requires
        size > 0,
        start < data@.len(),
    ensures
        piece.1 == piece_end(data@.len() as int, start as int, size as int),
        start < piece.1 <= data@.len(),
        piece.0@ == data@.subrange(start as int, piece.1 as int),
{
    let total: usize = data.len();
    let end: usize = if total - start <= size {
        total
    } else {
        start + size
    };
    (slice_to_vec(slice_subrange(data, start, end)), end)
}

} // verus!
