//! Directory listings that can be resumed.
//!
//! Every row of a listing carries an offset: greater than zero, and greater
//! than that of the row before it.  A listing is asked for with a resume
//! offset and answered with the rows whose offset is greater, in order.  The
//! kernel resumes with the offset of the last row it took, so that however a
//! listing is cut into calls, each row is delivered once.

use crate::async_filesystem::{views, ReadDir, ReadDirView};
use crate::attr::FileType;
use vstd::prelude::*;

verus! {

/// Offsets start above zero and increase strictly along the listing.
pub open spec fn ordered(listing: Seq<ReadDirView>) -> bool {
    &&& forall|i: int| 0 <= i < listing.len() ==> (#[trigger] listing[i]).offset > 0
    &&& forall|i: int, j: int|
        0 <= i < j < listing.len() ==> (#[trigger] listing[i]).offset < (#[trigger] listing[j]).offset
}

/// The rows of `listing` whose offset is greater than `offset`, in order.
pub open spec fn after(listing: Seq<ReadDirView>, offset: int) -> Seq<ReadDirView> {
    listing.filter(|row: ReadDirView| row.offset > offset)
}

/// The number of rows of `listing` whose offset is at most `offset`.
pub open spec fn passed(listing: Seq<ReadDirView>, offset: int) -> nat {
    listing.filter(|row: ReadDirView| row.offset <= offset).len()
}

/// The rows of `entries` whose offset is greater than `offset`, in order.
pub fn entries_after(entries: &Vec<ReadDir>, offset: i64) -> (rest: Vec<ReadDir>)
    ensures
        views(rest@) == after(views(entries@), offset as int),
{
    let ghost listing = views(entries@);
    let ghost keep = |row: ReadDirView| row.offset > offset as int;
    let mut rest: Vec<ReadDir> = Vec::new();
    let mut i: usize = 0;
    proof {
        reveal(Seq::filter);
        assert(listing.take(0).filter(keep) =~= views(rest@));
    }
    while i < entries.len()
        invariant
            i <= entries.len(),
            listing == views(entries@),
            keep == |row: ReadDirView| row.offset > offset as int,
            views(rest@) == listing.take(i as int).filter(keep),
        decreases entries.len() - i,
    {
        let ghost before = views(rest@);
        proof {
            reveal(Seq::filter);
            assert(listing.take(i + 1).drop_last() =~= listing.take(i as int));
            assert(listing.take(i + 1).last() == entries[i as int]@);
        }
        if entries[i].offset > offset {
            rest.push(entries[i].duplicate());
            proof {
                assert(views(rest@) =~= before.push(entries[i as int]@));
            }
        }
        i += 1;
    }
    proof {
        assert(listing.take(i as int) =~= listing);
    }
    rest
}

/// Makes a listing of the given children, in the given order: the first row
/// gets offset one, and each row one more than the row before it.
pub fn number_entries(children: Vec<(u64, FileType, String)>) -> (entries: Vec<ReadDir>)
    requires
        children.len() < i64::MAX,
    ensures
        entries.len() == children.len(),
        forall|i: int|
            0 <= i < entries.len() ==> (#[trigger] entries[i])@ == (ReadDirView {
                ino: children[i].0,
                offset: (i + 1) as i64,
                file_type: children[i].1,
                name: children[i].2@,
            }),
        ordered(views(entries@)),
{
    let mut entries: Vec<ReadDir> = Vec::new();
    let mut i: usize = 0;
    while i < children.len()
        invariant
            i <= children.len(),
            children.len() < i64::MAX,
            entries.len() == i,
            forall|k: int|
                0 <= k < i ==> (#[trigger] entries[k])@ == (ReadDirView {
                    ino: children[k].0,
                    offset: (k + 1) as i64,
                    file_type: children[k].1,
                    name: children[k].2@,
                }),
        decreases children.len() - i,
    {
        let child = &children[i];
        entries.push(
            ReadDir {
                ino: child.0,
                offset: (i + 1) as i64,
                file_type: child.1,
                name: child.2.clone(),
            },
        );
        i += 1;
    }
    proof {
        let listing = views(entries@);
        assert forall|k: int| 0 <= k < listing.len() implies (#[trigger] listing[k]).offset == k
            + 1 by {
            assert(listing[k] == entries[k]@);
        }
    }
    entries
}

/// In an ordered listing the rows with an offset of at most `offset` come
/// first, and the rows after them are what a call with that resume offset
/// returns.
pub proof fn lemma_after_is_rest(listing: Seq<ReadDirView>, offset: int)
    requires
        ordered(listing),
    ensures
        passed(listing, offset) <= listing.len(),
        after(listing, offset) == listing.skip(passed(listing, offset) as int),
        forall|i: int|
            0 <= i < listing.len() ==> ((#[trigger] listing[i]).offset <= offset <==> i < passed(
                listing,
                offset,
            )),
    decreases listing.len(),
{
    reveal(Seq::filter);
    let keep = |row: ReadDirView| row.offset > offset;
    let skip = |row: ReadDirView| row.offset <= offset;
    if listing.len() == 0 {
        assert(after(listing, offset) =~= listing.skip(0));
    } else {
        let front = listing.drop_last();
        let last = listing.last();
        assert forall|i: int| 0 <= i < front.len() implies (#[trigger] front[i]).offset > 0 by {
            assert(front[i] == listing[i]);
        }
        assert forall|i: int, j: int| 0 <= i < j < front.len() implies (#[trigger] front[i]).offset
            < (#[trigger] front[j]).offset by {
            assert(front[i] == listing[i]);
            assert(front[j] == listing[j]);
        }
        lemma_after_is_rest(front, offset);
        let n = passed(front, offset);
        if last.offset <= offset {
            // every row is passed
            if n < front.len() {
                assert(front[n as int] == listing[n as int]);
                assert(listing[n as int].offset < listing[listing.len() - 1].offset);
            }
            assert(n == front.len());
            assert(front.filter(keep) =~= Seq::<ReadDirView>::empty());
            assert(after(listing, offset) =~= listing.skip(listing.len() as int));
        } else {
            assert(front.skip(n as int).push(last) =~= listing.skip(n as int));
        }
        assert forall|i: int| 0 <= i < listing.len() implies ((#[trigger] listing[i]).offset
            <= offset <==> i < passed(listing, offset)) by {
            if i < front.len() {
                assert(front[i] == listing[i]);
            }
        }
    }
}

/// A fresh listing, asked for with resume offset zero, is the whole listing.
pub proof fn lemma_after_zero_is_all(listing: Seq<ReadDirView>)
    requires
        ordered(listing),
    ensures
        after(listing, 0) == listing,
{
    lemma_after_is_rest(listing, 0);
    if passed(listing, 0) > 0 {
        assert(listing[0].offset <= 0);
    }
    assert(listing.skip(0) =~= listing);
}

/// Resuming after the last row of a listing returns nothing.
pub proof fn lemma_after_last_is_empty(listing: Seq<ReadDirView>)
    requires
        ordered(listing),
        listing.len() > 0,
    ensures
        after(listing, listing.last().offset as int) == Seq::<ReadDirView>::empty(),
{
    let offset = listing.last().offset as int;
    lemma_after_is_rest(listing, offset);
    assert(listing[listing.len() - 1].offset <= offset);
    assert(after(listing, offset) =~= Seq::<ReadDirView>::empty());
}

/// Restartability: when a call with resume offset `offset` is answered and
/// the first `accepted` rows of the answer are taken, the call that resumes
/// with the offset of the last row taken is answered with exactly the rows
/// that were left: none twice, none missing.
pub proof fn lemma_resume_continues(listing: Seq<ReadDirView>, offset: int, accepted: int)
    requires
        ordered(listing),
        0 < accepted <= after(listing, offset).len(),
    ensures
        after(listing, after(listing, offset)[accepted - 1].offset as int) == after(
            listing,
            offset,
        ).skip(accepted),
{
    lemma_after_is_rest(listing, offset);
    let n = passed(listing, offset) as int;
    let answer = after(listing, offset);
    let last = answer[accepted - 1];
    assert(last == listing[n + accepted - 1]);
    let resume = last.offset as int;
    lemma_after_is_rest(listing, resume);
    let m = passed(listing, resume) as int;
    assert(m == n + accepted) by {
        assert(listing[n + accepted - 1].offset <= resume);
        if n + accepted < listing.len() {
            assert(listing[n + accepted - 1].offset < listing[n + accepted].offset);
        }
    }
    assert(listing.skip(m) =~= answer.skip(accepted));
}

/// No row comes twice in the answer to a call, and every row of the answer
/// lies after the resume offset.
pub proof fn lemma_after_has_no_repeats(listing: Seq<ReadDirView>, offset: int)
    requires
        ordered(listing),
    ensures
        ordered(after(listing, offset)),
        forall|i: int|
            0 <= i < after(listing, offset).len() ==> (#[trigger] after(listing, offset)[i]).offset
                > offset,
{
    lemma_after_is_rest(listing, offset);
    let n = passed(listing, offset) as int;
    let answer = after(listing, offset);
    assert forall|i: int| 0 <= i < answer.len() implies (#[trigger] answer[i]).offset > offset
        && answer[i].offset > 0 by {
        assert(answer[i] == listing[n + i]);
    }
    assert forall|i: int, j: int| 0 <= i < j < answer.len() implies (#[trigger] answer[i]).offset
        < (#[trigger] answer[j]).offset by {
        assert(answer[i] == listing[n + i]);
        assert(answer[j] == listing[n + j]);
    }
}

/// The rows that a run of calls delivers.  The first call resumes after
/// `offset`; of each answer the kernel takes as many rows from the front as
/// `accepted` says, and resumes after the last row it took.
pub open spec fn delivered(listing: Seq<ReadDirView>, offset: int, accepted: Seq<int>) -> Seq<
    ReadDirView,
>
    decreases accepted.len(),
{
    if accepted.len() == 0 {
        Seq::empty()
    } else {
        let answer = after(listing, offset);
        let resume = answer[accepted[0] - 1].offset as int;
        answer.take(accepted[0]) + delivered(listing, resume, accepted.drop_first())
    }
}

/// Of each answer the kernel takes one row at least and no more than there
/// are.
pub open spec fn acceptable(listing: Seq<ReadDirView>, offset: int, accepted: Seq<int>) -> bool
    decreases accepted.len(),
{
    accepted.len() == 0 || {
        let answer = after(listing, offset);
        &&& 0 < accepted[0] <= answer.len()
        &&& acceptable(listing, answer[accepted[0] - 1].offset as int, accepted.drop_first())
    }
}

/// The number of rows taken over a run of calls.
pub open spec fn total(accepted: Seq<int>) -> int
    decreases accepted.len(),
{
    if accepted.len() == 0 {
        0
    } else {
        accepted[0] + total(accepted.drop_first())
    }
}

/// However a listing is cut into calls, the calls deliver its rows in order,
/// each once: together they deliver the front of what one call would have
/// answered, as long as the rows taken add up to.
pub proof fn lemma_calls_deliver_each_row_once(
    listing: Seq<ReadDirView>,
    offset: int,
    accepted: Seq<int>,
)
    requires
        ordered(listing),
        acceptable(listing, offset, accepted),
    ensures
        0 <= total(accepted) <= after(listing, offset).len(),
        delivered(listing, offset, accepted) == after(listing, offset).take(total(accepted)),
    decreases accepted.len(),
{
    let answer = after(listing, offset);
    if accepted.len() == 0 {
        assert(answer.take(0) =~= Seq::<ReadDirView>::empty());
    } else {
        let k = accepted[0];
        let rest = accepted.drop_first();
        let resume = answer[k - 1].offset as int;
        lemma_resume_continues(listing, offset, k);
        lemma_calls_deliver_each_row_once(listing, resume, rest);
        assert(answer.take(k) + answer.skip(k).take(total(rest)) =~= answer.take(k + total(rest)));
    }
}

/// A fresh listing that is cut into calls until every row was taken is
/// delivered whole: no row twice, none left out.
pub proof fn lemma_exhausted_listing_is_whole(listing: Seq<ReadDirView>, accepted: Seq<int>)
    requires
        ordered(listing),
        acceptable(listing, 0, accepted),
        total(accepted) == listing.len(),
    ensures
        delivered(listing, 0, accepted) == listing,
{
    lemma_after_zero_is_all(listing);
    lemma_calls_deliver_each_row_once(listing, 0, accepted);
    assert(listing.take(listing.len() as int) =~= listing);
}

} // verus!
