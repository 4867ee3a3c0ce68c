//! Filling the reply buffer of a directory listing.
//!
//! The kernel hands each `readdir` callback a buffer of limited size.  Rows
//! go into it in listing order; each takes a fixed header and its name,
//! rounded up to a multiple of eight bytes.  The first row that does not fit
//! ends the filling: it and the rows behind it are served by a later callback.

use crate::async_filesystem::{views, ReadDir, ReadDirView};
use crate::attr::FileType;
use fuser::ReplyDirectory;
use vstd::prelude::*;
use vstd::utf8::encode_utf8;

verus! {

#[verifier::external_type_specification]
#[verifier::external_body]
pub struct ExReplyDirectory(ReplyDirectory);

/// The rows that were put into a directory reply buffer so far, in order.
pub uninterp spec fn directory_entries(buffer: &ReplyDirectory) -> Seq<ReadDirView>;

/// The size in bytes that a directory reply buffer was made with.
pub uninterp spec fn directory_limit(buffer: &ReplyDirectory) -> nat;

/// The bytes of a row's header: identity, offset, name length and kind.
pub const ENTRY_HEADER: usize = 24;

/// The bytes that a row with the given name takes in the buffer: header and
/// name, rounded up to a multiple of eight.
pub open spec fn entry_size(name: Seq<char>) -> nat {
    ((ENTRY_HEADER + encode_utf8(name).len() + 7) / 8 * 8) as nat
}

/// The bytes that the given rows take in the buffer.
pub open spec fn used(held: Seq<ReadDirView>) -> nat
    decreases held.len(),
{
    if held.len() == 0 {
        0
    } else {
        used(held.drop_last()) + entry_size(held.last().name)
    }
}

/// Whether a row with the given name can be added to a buffer of `limit`
/// bytes that holds `held`: its name's length fits the header's 32-bit field,
/// and the row does not take the buffer over its limit.
pub open spec fn fits(held: Seq<ReadDirView>, limit: nat, name: Seq<char>) -> bool {
    encode_utf8(name).len() <= u32::MAX && used(held) + entry_size(name) <= limit
}

/// How many rows from the front of `rows` go into a buffer of `limit` bytes
/// that holds `held`, when they are added in order until one does not fit.
pub open spec fn taken(held: Seq<ReadDirView>, limit: nat, rows: Seq<ReadDirView>) -> nat
    decreases rows.len(),
{
    if rows.len() == 0 || !fits(held, limit, rows[0].name) {
        0
    } else {
        1 + taken(held.push(rows[0]), limit, rows.drop_first())
    }
}

/// `ReplyDirectory::add`: the row is appended unless it would take the buffer
/// over the size it was made with, and the result tells whether it was left
/// out for that reason.  The name must fit the header's 32-bit length field.
#[verifier::external_body]
fn add_entry(buffer: &mut ReplyDirectory, ino: u64, offset: i64, kind: FileType, name: &str) -> (full:
    bool)
    requires
        encode_utf8(name@).len() <= u32::MAX,
    ensures
        full == (used(directory_entries(old(buffer))) + entry_size(name@) > directory_limit(
            old(buffer),
        )),
        directory_limit(final(buffer)) == directory_limit(old(buffer)),
        directory_entries(final(buffer)) == if full {
            directory_entries(old(buffer))
        } else {
            directory_entries(old(buffer)).push(
                ReadDirView { ino, offset, file_type: kind, name: name@ },
            )
        },
{
    let kind = match kind {
        FileType::NamedPipe => fuser::FileType::NamedPipe,
        FileType::CharDevice => fuser::FileType::CharDevice,
        FileType::BlockDevice => fuser::FileType::BlockDevice,
        FileType::Directory => fuser::FileType::Directory,
        FileType::RegularFile => fuser::FileType::RegularFile,
        FileType::Symlink => fuser::FileType::Symlink,
        FileType::Socket => fuser::FileType::Socket,
    };
    buffer.add(ino, offset, kind, name)
}

/// A buffer that takes the rows of a directory listing up to a limit.
pub trait DirectorySink {
    /// The rows in the buffer, in order.
    spec fn held(&self) -> Seq<ReadDirView>;

    /// The size of the buffer in bytes.
    spec fn limit(&self) -> nat;

    /// What the buffer needs to hold of itself.
    spec fn wf(&self) -> bool;

    /// Appends a row, unless it would take the buffer over its limit.
    /// Returns whether the row was left out.
    fn add(&mut self, ino: u64, offset: i64, kind: FileType, name: &str) -> (full: bool)
        requires
            old(self).wf(),
            encode_utf8(name@).len() <= u32::MAX,
        ensures
            final(self).wf(),
            full == (used(old(self).held()) + entry_size(name@) > old(self).limit()),
            final(self).limit() == old(self).limit(),
            final(self).held() == if full {
                old(self).held()
            } else {
                old(self).held().push(ReadDirView { ino, offset, file_type: kind, name: name@ })
            },
    ;
}

impl DirectorySink for ReplyDirectory {
    open spec fn held(&self) -> Seq<ReadDirView> {
        directory_entries(self)
    }

    open spec fn limit(&self) -> nat {
        directory_limit(self)
    }

    open spec fn wf(&self) -> bool {
        true
    }

    fn add(&mut self, ino: u64, offset: i64, kind: FileType, name: &str) -> (full: bool) {
        add_entry(self, ino, offset, kind, name)
    }
}

/// A directory reply buffer in memory: it takes rows by the same rule as the
/// kernel's and keeps them as they are.
pub struct DirectoryBuffer {
    limit: usize,
    used: usize,
    rows: Vec<ReadDir>,
}

impl DirectoryBuffer {
    /// An empty buffer of `limit` bytes.
    pub fn new(limit: usize) -> (buffer: DirectoryBuffer)
        ensures
            buffer.wf(),
            buffer.limit() == limit,
            buffer.held() == Seq::<ReadDirView>::empty(),
    {
        let buffer = DirectoryBuffer { limit, used: 0, rows: Vec::new() };
        assert(views(buffer.rows@) =~= Seq::<ReadDirView>::empty());
        buffer
    }

    /// The rows in the buffer, in order.
    pub fn rows(&self) -> (rows: &Vec<ReadDir>)
        ensures
            views(rows@) == self.held(),
    {
        &self.rows
    }

    /// The bytes that the rows in the buffer take.
    pub fn used_bytes(&self) -> (n: usize)
        requires
            self.wf(),
        ensures
            n == used(self.held()),
            n <= self.limit(),
    {
        self.used
    }
}

impl DirectorySink for DirectoryBuffer {
    closed spec fn held(&self) -> Seq<ReadDirView> {
        views(self.rows@)
    }

    closed spec fn limit(&self) -> nat {
        self.limit as nat
    }

    closed spec fn wf(&self) -> bool {
        self.used == used(views(self.rows@)) && self.used <= self.limit
    }

    fn add(&mut self, ino: u64, offset: i64, kind: FileType, name: &str) -> (full: bool) {
        let len: u64 = name.as_bytes().len() as u64;
        let size: u64 = (ENTRY_HEADER as u64 + len + 7) / 8 * 8;
        let room: u64 = (self.limit - self.used) as u64;
        if size > room {
            return true;
        }
        let ghost before = views(self.rows@);
        self.rows.push(ReadDir { ino, offset, file_type: kind, name: name.to_owned() });
        self.used = self.used + size as usize;
        proof {
            let row = ReadDirView { ino, offset, file_type: kind, name: name@ };
            assert(views(self.rows@) =~= before.push(row));
            assert(before.push(row).drop_last() =~= before);
        }
        false
    }
}

/// Puts `rows` into `buffer` in order, stopping at the first that does not
/// fit.  Returns how many went in.
pub fn deliver<B: DirectorySink>(rows: &Vec<ReadDir>, buffer: &mut B) -> (count: usize)
    requires
        old(buffer).wf(),
    ensures
        final(buffer).wf(),
        count == taken(old(buffer).held(), old(buffer).limit(), views(rows@)),
        count <= rows.len(),
        final(buffer).held() == old(buffer).held() + views(rows@).take(count as int),
        final(buffer).limit() == old(buffer).limit(),
{
    let ghost held = buffer.held();
    let ghost limit = buffer.limit();
    let ghost listing = views(rows@);
    let mut i: usize = 0;
    proof {
        assert(listing.skip(0) =~= listing);
        assert(held + listing.take(0) =~= held);
    }
    while i < rows.len()
        invariant
            i <= rows.len(),
            listing == views(rows@),
            held == old(buffer).held(),
            limit == old(buffer).limit(),
            buffer.wf(),
            buffer.limit() == limit,
            buffer.held() == held + listing.take(i as int),
            taken(held, limit, listing) == i + taken(buffer.held(), limit, listing.skip(i as int)),
        decreases rows.len() - i,
    {
        let row = &rows[i];
        let ghost rest = listing.skip(i as int);
        proof {
            assert(rest[0] == listing[i as int]);
            assert(listing[i as int] == row@);
            assert(rest.drop_first() =~= listing.skip(i + 1));
            assert(listing.take(i + 1) =~= listing.take(i as int).push(row@));
            assert(held + listing.take(i + 1) =~= (held + listing.take(i as int)).push(row@));
        }
        if row.name.as_str().as_bytes().len() > u32::MAX as usize {
            assert(!fits(buffer.held(), limit, rest[0].name));
            return i;
        }
        let full = buffer.add(row.ino, row.offset, row.file_type, row.name.as_str());
        if full {
            assert(!fits(buffer.held(), limit, rest[0].name));
            return i;
        }
        i += 1;
    }
    proof {
        assert(listing.skip(i as int).len() == 0);
        assert(listing.take(i as int) =~= listing);
    }
    i
}

/// The buffer never holds more than its limit, as long as rows only go in
/// through [`deliver`].
pub proof fn lemma_taken_within_limit(held: Seq<ReadDirView>, limit: nat, rows: Seq<ReadDirView>)
    requires
        used(held) <= limit,
    ensures
        taken(held, limit, rows) <= rows.len(),
        used(held + rows.take(taken(held, limit, rows) as int)) <= limit,
    decreases rows.len(),
{
    if rows.len() == 0 || !fits(held, limit, rows[0].name) {
        assert(held + rows.take(0) =~= held);
    } else {
        let next = held.push(rows[0]);
        assert(next.drop_last() =~= held);
        lemma_taken_within_limit(next, limit, rows.drop_first());
        let n = taken(next, limit, rows.drop_first());
        assert(next + rows.drop_first().take(n as int) =~= held + rows.take(n as int + 1));
    }
}

} // verus!
