//! The operations a backend offers, and the adapter that answers kernel
//! callbacks with them.
//!
//! A callback is answered in three steps: the arguments are converted (a
//! name is decoded from raw bytes to text), the backend's operation is run to
//! completion, and its outcome is mapped to a reply.  The adapter keeps no
//! state between callbacks.

use crate::attr::{FileAttr, FileType, Ttl};
use crate::directory::{deliver, taken, DirectorySink};
use crate::errors::{AsyncFilesystemError, ENOENT};
use vstd::prelude::*;
use vstd::utf8::{decode_utf8, encode_utf8, valid_utf8};

verus! {

#[verifier::external_type_specification]
#[verifier::external_body]
pub struct ExUtf8Error(core::str::Utf8Error);

/// `core::str::from_utf8` succeeds on exactly the byte strings that are valid
/// UTF-8, and the text it returns is made of the bytes it was given.
pub assume_specification<'a>[ core::str::from_utf8 ](v: &'a [u8]) -> (r: Result<
    &'a str,
    core::str::Utf8Error,
>)
    ensures
        r is Ok <==> valid_utf8(v@),
        r matches Ok(s) ==> encode_utf8(s@) == v@,
;

/// The metadata of a node, with the time for which it may be cached.
#[derive(Clone, Copy, Debug, PartialEq, Eq, Structural)]
pub struct Attr {
    /// How long the kernel may trust `attr`.
    pub ttl: Ttl,
    /// The metadata.
    pub attr: FileAttr,
}

/// The answer to a lookup: the child's metadata, and the generation that
/// tells apart two nodes that had the same identity one after the other.
#[derive(Clone, Copy, Debug, PartialEq, Eq, Structural)]
pub struct Lookup {
    /// How long the kernel may trust `attr`.
    pub ttl: Ttl,
    /// The child's metadata.
    pub attr: FileAttr,
    /// The generation of the child's identity.
    pub generation: u64,
}

/// One row of a directory listing.
#[derive(Clone, Debug, PartialEq, Eq)]
pub struct ReadDir {
    /// Identity of the child.
    pub ino: u64,
    /// The offset assigned to this row; a listing is resumed after it.
    pub offset: i64,
    /// Kind of the child.
    pub file_type: FileType,
    /// Name of the child within the directory.
    pub name: String,
}

/// A row of a directory listing as a mathematical value.
pub struct ReadDirView {
    /// Identity of the child.
    pub ino: u64,
    /// The offset assigned to this row.
    pub offset: i64,
    /// Kind of the child.
    pub file_type: FileType,
    /// Name of the child.
    pub name: Seq<char>,
}

impl View for ReadDir {
    type V = ReadDirView;

    open spec fn view(&self) -> ReadDirView {
        ReadDirView {
            ino: self.ino,
            offset: self.offset,
            file_type: self.file_type,
            name: self.name@,
        }
    }
}

impl ReadDir {
    /// A copy of this row.
    pub fn duplicate(&self) -> (copy: ReadDir)
        ensures
            copy@ == self@,
    {
        ReadDir {
            ino: self.ino,
            offset: self.offset,
            file_type: self.file_type,
            name: self.name.clone(),
        }
    }
}

/// The rows of a listing as mathematical values, in order.
pub open spec fn views(entries: Seq<ReadDir>) -> Seq<ReadDirView> {
    entries.map_values(|e: ReadDir| e@)
}

/// The read-only operations of a backend.  Each may take as long as the
/// backend's storage needs; each fails with an error of the backend's own
/// kind.
///
/// A backend says which answers it may give by the four `may_` predicates.
/// One that says nothing admits every answer.
pub trait AsyncFilesystem {
    /// The backend's error kind.
    type Error;

    /// Whether `found` is an answer that this backend may give when asked for
    /// the metadata of `ino`.
    open spec fn may_getattr(&self, ino: u64, found: Result<Attr, Self::Error>) -> bool {
        true
    }

    /// Whether `found` is an answer that this backend may give when asked for
    /// the child called `name` of `parent`.
    open spec fn may_lookup(
        &self,
        parent: u64,
        name: Seq<char>,
        found: Result<Lookup, Self::Error>,
    ) -> bool {
        true
    }

    /// Whether `listed` is an answer that this backend may give when asked to
    /// list `ino` after `offset`.
    open spec fn may_readdir(
        &self,
        ino: u64,
        fh: u64,
        offset: i64,
        listed: Result<Vec<ReadDir>, Self::Error>,
    ) -> bool {
        true
    }

    /// Whether `bytes` is an answer that this backend may give when asked for
    /// `size` bytes of `ino` at `offset`.
    open spec fn may_read(
        &self,
        ino: u64,
        fh: u64,
        offset: i64,
        size: u32,
        flags: i32,
        lock: Option<u64>,
        bytes: Result<Vec<u8>, Self::Error>,
    ) -> bool {
        true
    }

    /// The metadata of the node `ino`.
    fn getattr(&self, ino: u64) -> (found: Result<Attr, Self::Error>)
        ensures
            self.may_getattr(ino, found),
    ;

    /// The child called `name` of the directory `parent`.
    fn lookup(&self, parent: u64, name: &str) -> (found: Result<Lookup, Self::Error>)
        ensures
            self.may_lookup(parent, name@, found),
    ;

    /// The rows of the directory `ino` whose offset is greater than `offset`,
    /// in listing order.
    fn readdir(&self, ino: u64, fh: u64, offset: i64) -> (listed: Result<
        Vec<ReadDir>,
        Self::Error,
    >)
        ensures
            self.may_readdir(ino, fh, offset, listed),
    ;

    /// At most `size` bytes of the file `ino`, starting at `offset`.
    fn read(
        &self,
        ino: u64,
        fh: u64,
        offset: i64,
        size: u32,
        flags: i32,
        lock: Option<u64>,
    ) -> (bytes: Result<Vec<u8>, Self::Error>)
        ensures
            self.may_read(ino, fh, offset, size, flags, lock, bytes),
    ;
}

/// What a callback is answered with.
#[derive(Clone, Debug, PartialEq, Eq)]
pub enum Reply {
    /// Metadata, with its time to live.
    Attr(Attr),
    /// A directory entry, with its time to live and generation.
    Entry(Lookup),
    /// The directory buffer, as far as it was filled.
    Directory,
    /// File content.
    Data(Vec<u8>),
    /// A status code.
    Error(i32),
}

/// Decodes a file name from the raw bytes the kernel sends.
///
/// The name is the text that the bytes encode in UTF-8; bytes that encode no
/// text are handed back in the error.
pub fn decode_name(raw: &[u8]) -> (name: Result<String, AsyncFilesystemError>)
    ensures
        valid_utf8(raw@) ==> (name matches Ok(s) && s@ == decode_utf8(raw@)),
        !valid_utf8(raw@) ==> (name matches Err(AsyncFilesystemError::InvalidName(b)) && b@
            == raw@),
{
    match core::str::from_utf8(raw) {
        Ok(s) => {
            proof {
                vstd::utf8::encode_utf8_decode_utf8(s@);
            }
            Ok(s.to_owned())
        },
        Err(_) => Err(AsyncFilesystemError::InvalidName(vstd::slice::slice_to_vec(raw))),
    }
}

/// The reply to `getattr` for a backend outcome: the metadata on success, "no
/// such entry" on any failure.
pub open spec fn attr_reply_of<E>(outcome: Result<Attr, E>) -> Reply {
    match outcome {
        Ok(a) => Reply::Attr(a),
        Err(_) => Reply::Error(ENOENT),
    }
}

/// The reply to `lookup` for a backend outcome: the entry on success, "no
/// such entry" on any failure.
pub open spec fn entry_reply_of<E>(outcome: Result<Lookup, E>) -> Reply {
    match outcome {
        Ok(l) => Reply::Entry(l),
        Err(_) => Reply::Error(ENOENT),
    }
}

/// The reply to `read` for a backend outcome: the bytes on success, be they
/// none at all, and "no such entry" on any failure.
pub open spec fn data_reply_of<E>(outcome: Result<Vec<u8>, E>) -> Reply {
    match outcome {
        Ok(d) => Reply::Data(d),
        Err(_) => Reply::Error(ENOENT),
    }
}

/// The reply to `readdir` for a backend outcome, and the rows in the buffer
/// afterwards, for a buffer of `limit` bytes that held `held`.  On success the
/// rows go into the buffer in order until one does not fit; on failure the
/// buffer is left alone and the reply is "no such entry".
pub open spec fn directory_reply_of<E>(
    outcome: Result<Vec<ReadDir>, E>,
    held: Seq<ReadDirView>,
    limit: nat,
) -> (Reply, Seq<ReadDirView>) {
    match outcome {
        Ok(rows) => (
            Reply::Directory,
            held + views(rows@).take(taken(held, limit, views(rows@)) as int),
        ),
        Err(_) => (Reply::Error(ENOENT), held),
    }
}

/// Makes the reply to `getattr` of a backend outcome.
pub fn attr_reply<E>(outcome: Result<Attr, E>) -> (reply: Reply)
    ensures
        reply == attr_reply_of(outcome),
{
    match outcome {
        Ok(a) => Reply::Attr(a),
        Err(_) => Reply::Error(ENOENT),
    }
}

/// Makes the reply to `lookup` of a backend outcome.
pub fn entry_reply<E>(outcome: Result<Lookup, E>) -> (reply: Reply)
    ensures
        reply == entry_reply_of(outcome),
{
    match outcome {
        Ok(l) => Reply::Entry(l),
        Err(_) => Reply::Error(ENOENT),
    }
}

/// Makes the reply to `read` of a backend outcome.
pub fn data_reply<E>(outcome: Result<Vec<u8>, E>) -> (reply: Reply)
    ensures
        reply == data_reply_of(outcome),
{
    match outcome {
        Ok(d) => Reply::Data(d),
        Err(_) => Reply::Error(ENOENT),
    }
}

/// Makes the reply to `readdir` of a backend outcome, and fills `buffer`.
/// The rows that did not fit are asked for again by the next callback, which
/// resumes after the last row that went in.
pub fn directory_reply<E, B: DirectorySink>(outcome: Result<Vec<ReadDir>, E>, buffer: &mut B) -> (reply:
    Reply)
    requires
        old(buffer).wf(),
    ensures
        final(buffer).wf(),
        final(buffer).limit() == old(buffer).limit(),
        (reply, final(buffer).held()) == directory_reply_of(
            outcome,
            old(buffer).held(),
            old(buffer).limit(),
        ),
{
    match outcome {
        Ok(rows) => {
            let _ = deliver(&rows, buffer);
            Reply::Directory
        },
        Err(_) => Reply::Error(ENOENT),
    }
}

/// The adapter between kernel callbacks and a backend.
pub struct AsyncFsImpl<FS: AsyncFilesystem> {
    fs: FS,
}

impl<FS: AsyncFilesystem> AsyncFsImpl<FS> {
    /// An adapter in front of `fs`.
    pub fn new(fs: FS) -> (adapter: Self)
        ensures
            adapter.backend() == fs,
    {
        AsyncFsImpl { fs }
    }

    /// The backend behind this adapter.
    pub closed spec fn backend(&self) -> FS {
        self.fs
    }

    /// Answers a `getattr` callback with the reply for what the backend
    /// answers: metadata, or "no such entry".
    pub fn getattr(&self, ino: u64) -> (reply: Reply)
        ensures
            exists|found: Result<Attr, FS::Error>| #[trigger]
                self.backend().may_getattr(ino, found) && reply == attr_reply_of(found),
            reply is Attr || reply == Reply::Error(ENOENT),
    {
        let found = self.fs.getattr(ino);
        let ghost answer = found;
        let reply = attr_reply(found);
        assert(self.backend().may_getattr(ino, answer) && reply == attr_reply_of(answer));
        reply
    }

    /// Answers a `lookup` callback.  A name that is not valid text is answered
    /// with "no such entry" without asking the backend; for a name that is,
    /// the reply is the one for what the backend answers.
    pub fn lookup(&self, parent: u64, name: &[u8]) -> (reply: Reply)
        ensures
            !valid_utf8(name@) ==> reply == Reply::Error(ENOENT),
            valid_utf8(name@) ==> exists|found: Result<Lookup, FS::Error>| #[trigger]
                self.backend().may_lookup(parent, decode_utf8(name@), found) && reply
                    == entry_reply_of(found),
            reply is Entry || reply == Reply::Error(ENOENT),
    {
        match decode_name(name) {
            Ok(text) => {
                let found = self.fs.lookup(parent, text.as_str());
                let ghost answer = found;
                let reply = entry_reply(found);
                assert(self.backend().may_lookup(parent, decode_utf8(name@), answer) && reply
                    == entry_reply_of(answer));
                reply
            },
            Err(_) => Reply::Error(ENOENT),
        }
    }

    /// Answers a `readdir` callback: fills `buffer` with the rows that the
    /// backend lists after `offset`, as far as they fit.
    pub fn readdir<B: DirectorySink>(&self, ino: u64, fh: u64, offset: i64, buffer: &mut B) -> (reply:
        Reply)
        requires
            old(buffer).wf(),
        ensures
            final(buffer).wf(),
            final(buffer).limit() == old(buffer).limit(),
            exists|listed: Result<Vec<ReadDir>, FS::Error>| #[trigger]
                self.backend().may_readdir(ino, fh, offset, listed) && (
                reply,
                final(buffer).held(),
            ) == directory_reply_of(listed, old(buffer).held(), old(buffer).limit()),
            reply == Reply::Directory || (reply == Reply::Error(ENOENT) && final(buffer).held()
                == old(buffer).held()),
            old(buffer).held().is_prefix_of(final(buffer).held()),
    {
        let listed = self.fs.readdir(ino, fh, offset);
        let ghost answer = listed;
        let reply = directory_reply(listed, buffer);
        assert(self.backend().may_readdir(ino, fh, offset, answer) && (reply, buffer.held())
            == directory_reply_of(answer, old(buffer).held(), old(buffer).limit()));
        reply
    }

    /// Answers a `read` callback with the reply for what the backend answers:
    /// bytes, or "no such entry".
    pub fn read(
        &self,
        ino: u64,
        fh: u64,
        offset: i64,
        size: u32,
        flags: i32,
        lock_owner: Option<u64>,
    ) -> (reply: Reply)
        ensures
            exists|bytes: Result<Vec<u8>, FS::Error>| #[trigger]
                self.backend().may_read(ino, fh, offset, size, flags, lock_owner, bytes) && reply
                    == data_reply_of(bytes),
            reply is Data || reply == Reply::Error(ENOENT),
    {
        let bytes = self.fs.read(ino, fh, offset, size, flags, lock_owner);
        let ghost answer = bytes;
        let reply = data_reply(bytes);
        assert(self.backend().may_read(ino, fh, offset, size, flags, lock_owner, answer) && reply
            == data_reply_of(answer));
        reply
    }
}

} // verus!
