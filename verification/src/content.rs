//! Which bytes of a file a read returns.

use vstd::prelude::*;
use vstd::slice::{slice_subrange, slice_to_vec};

verus! {

/// The bytes of `content` that a read of at most `size` bytes at `offset`
/// returns: the part of `content` from `offset` on, cut after `size` bytes.
/// Nothing lies before the start or past the end of a file, so an offset
/// there gives the empty sequence.
pub open spec fn window(content: Seq<u8>, offset: int, size: int) -> Seq<u8> {
    if offset < 0 || offset >= content.len() || size <= 0 {
        Seq::empty()
    } else if offset + size >= content.len() {
        content.subrange(offset, content.len() as int)
    } else {
        content.subrange(offset, offset + size)
    }
}

/// Reads at most `size` bytes of `content`, starting at `offset`.
///
/// Fewer bytes than asked for mean that the end of the file was reached; an
/// offset at or past the end gives an empty buffer, never a failure.
pub fn read_at(content: &[u8], offset: i64, size: u32) -> (data: Vec<u8>)
    ensures
        data@ == window(content@, offset as int, size as int),
{
    let len: usize = content.len();
    if offset < 0 || size == 0 {
        return Vec::new();
    }
    let wide: u64 = offset as u64;
    if wide >= len as u64 {
        return Vec::new();
    }
    let start: usize = wide as usize;
    let room: usize = len - start;
    let take: usize = if (size as u64) < (room as u64) {
        size as usize
    } else {
        room
    };
    slice_to_vec(slice_subrange(content, start, start + take))
}

/// A read never returns more than was asked for, nor more than the file holds
/// past the offset.
pub proof fn lemma_window_len(content: Seq<u8>, offset: int, size: int)
    ensures
        window(content, offset, size).len() <= if size < 0 { 0 } else { size },
        0 <= offset <= content.len() ==> window(content, offset, size).len() <= content.len()
            - offset,
        0 <= offset && 0 <= size && offset + size <= content.len() ==> window(
            content,
            offset,
            size,
        ).len() == size,
{
}

/// Reading from the start with the file's length as the size returns the whole
/// file.
pub proof fn lemma_read_whole(content: Seq<u8>)
    ensures
        window(content, 0, content.len() as int) == content,
{
    assert(window(content, 0, content.len() as int) =~= content);
}

/// Reading at the end of the file returns nothing, whatever size is asked for.
pub proof fn lemma_read_at_end(content: Seq<u8>, offset: int, size: int)
    requires
        offset >= content.len(),
    ensures
        window(content, offset, size) == Seq::<u8>::empty(),
{
}

/// Two reads, the second starting where the first stopped asking, return
/// together what one read of both sizes returns.
pub proof fn lemma_read_continues(content: Seq<u8>, offset: int, first: int, second: int)
    requires
        0 <= offset,
        0 <= first,
        0 <= second,
    ensures
        window(content, offset, first) + window(content, offset + first, second) == window(
            content,
            offset,
            first + second,
        ),
{
    assert(window(content, offset, first) + window(content, offset + first, second) =~= window(
        content,
        offset,
        first + second,
    ));
}

} // verus!
