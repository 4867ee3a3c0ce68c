//! A backend that holds one file in memory, under the root.
//!
//! The root has identity one, the file identity two.  The root lists itself,
//! its parent and the file, at offsets one, two and three.

use crate::async_filesystem::{views, AsyncFilesystem, Attr, Lookup, ReadDir, ReadDirView};
use crate::attr::{FileAttr, FileType, Timestamp, Ttl};
use crate::content::{read_at, window};
use crate::errors::AsyncFilesystemError;
use crate::identity::ROOT_INO;
use crate::listing::{after, entries_after, number_entries, ordered};
use crate::text::same_text;
use vstd::prelude::*;

verus! {

/// The identity of the file.
pub const FILE_INO: u64 = 2;

/// The seconds for which the kernel may cache what this backend answers.
pub const TTL_SECS: u64 = 1;

/// A backend with a single file.
pub struct SimpleFS {
    name: String,
    content: Vec<u8>,
}

/// The metadata of the root directory.
pub open spec fn root_attr() -> FileAttr {
    FileAttr {
        ino: ROOT_INO,
        size: 0,
        blocks: 0,
        atime: Timestamp { secs: 0, nanos: 0 },
        mtime: Timestamp { secs: 0, nanos: 0 },
        ctime: Timestamp { secs: 0, nanos: 0 },
        crtime: Timestamp { secs: 0, nanos: 0 },
        kind: FileType::Directory,
        perm: 0o755,
        nlink: 2,
        uid: 501,
        gid: 20,
        rdev: 0,
        blksize: 512,
        flags: 0,
    }
}

/// The metadata of a file of `size` bytes.
pub open spec fn file_attr(size: u64) -> FileAttr {
    FileAttr {
        ino: FILE_INO,
        size,
        blocks: 1,
        atime: Timestamp { secs: 0, nanos: 0 },
        mtime: Timestamp { secs: 0, nanos: 0 },
        ctime: Timestamp { secs: 0, nanos: 0 },
        crtime: Timestamp { secs: 0, nanos: 0 },
        kind: FileType::RegularFile,
        perm: 0o644,
        nlink: 1,
        uid: 501,
        gid: 20,
        rdev: 0,
        blksize: 512,
        flags: 0,
    }
}

/// The full listing of the root of a backend whose file is called `name`.
pub open spec fn root_listing(name: Seq<char>) -> Seq<ReadDirView> {
    seq![
        ReadDirView { ino: ROOT_INO, offset: 1, file_type: FileType::Directory, name: seq!['.'] },
        ReadDirView {
            ino: ROOT_INO,
            offset: 2,
            file_type: FileType::Directory,
            name: seq!['.', '.'],
        },
        ReadDirView { ino: FILE_INO, offset: 3, file_type: FileType::RegularFile, name },
    ]
}

impl SimpleFS {
    /// A backend whose one file is called `name` and holds `content`.
    pub fn new(name: String, content: Vec<u8>) -> (fs: SimpleFS)
        ensures
            fs.name() == name@,
            fs.content() == content@,
    {
        SimpleFS { name, content }
    }

    /// The name of the file.
    pub closed spec fn name(&self) -> Seq<char> {
        self.name@
    }

    /// The bytes of the file.
    pub closed spec fn content(&self) -> Seq<u8> {
        self.content@
    }

    fn ttl() -> (ttl: Ttl)
        ensures
            ttl == (Ttl { secs: TTL_SECS, nanos: 0 }),
    {
        Ttl::from_secs(TTL_SECS)
    }

    fn root() -> (attr: FileAttr)
        ensures
            attr == root_attr(),
    {
        FileAttr {
            ino: ROOT_INO,
            size: 0,
            blocks: 0,
            atime: Timestamp::epoch(),
            mtime: Timestamp::epoch(),
            ctime: Timestamp::epoch(),
            crtime: Timestamp::epoch(),
            kind: FileType::Directory,
            perm: 0o755,
            nlink: 2,
            uid: 501,
            gid: 20,
            rdev: 0,
            blksize: 512,
            flags: 0,
        }
    }

    fn file(&self) -> (attr: FileAttr)
        ensures
            attr == file_attr(self.content().len() as u64),
    {
        FileAttr {
            ino: FILE_INO,
            size: self.content.len() as u64,
            blocks: 1,
            atime: Timestamp::epoch(),
            mtime: Timestamp::epoch(),
            ctime: Timestamp::epoch(),
            crtime: Timestamp::epoch(),
            kind: FileType::RegularFile,
            perm: 0o644,
            nlink: 1,
            uid: 501,
            gid: 20,
            rdev: 0,
            blksize: 512,
            flags: 0,
        }
    }

    fn listing(&self) -> (rows: Vec<ReadDir>)
        ensures
            views(rows@) == root_listing(self.name()),
    {
        proof {
            reveal_strlit(".");
            reveal_strlit("..");
        }
        let dot = ".".to_owned();
        let dots = "..".to_owned();
        assert(dot@ =~= seq!['.']);
        assert(dots@ =~= seq!['.', '.']);
        let mut children: Vec<(u64, FileType, String)> = Vec::new();
        children.push((ROOT_INO, FileType::Directory, dot));
        children.push((ROOT_INO, FileType::Directory, dots));
        children.push((FILE_INO, FileType::RegularFile, self.name.clone()));
        let rows = number_entries(children);
        assert(views(rows@) =~= root_listing(self.name()));
        rows
    }
}

impl SimpleFS {
    /// The answer to `getattr`: the root is a directory and always there; the
    /// file has the size of its content; no other identity exists.
    pub open spec fn getattr_answer(&self, ino: u64) -> Result<Attr, AsyncFilesystemError> {
        if ino == ROOT_INO {
            Ok(Attr { ttl: Ttl { secs: TTL_SECS, nanos: 0 }, attr: root_attr() })
        } else if ino == FILE_INO {
            Ok(
                Attr {
                    ttl: Ttl { secs: TTL_SECS, nanos: 0 },
                    attr: file_attr(self.content().len() as u64),
                },
            )
        } else {
            Err(AsyncFilesystemError::NotFound(ino))
        }
    }

    /// The answer to `lookup`: the file is found under the root by its name;
    /// nothing else is found anywhere.
    pub open spec fn lookup_answer(&self, parent: u64, name: Seq<char>) -> Result<
        Lookup,
        AsyncFilesystemError,
    > {
        if parent == ROOT_INO && name == self.name() {
            Ok(
                Lookup {
                    ttl: Ttl { secs: TTL_SECS, nanos: 0 },
                    attr: file_attr(self.content().len() as u64),
                    generation: 0,
                },
            )
        } else {
            Err(AsyncFilesystemError::NotFound(parent))
        }
    }
}

impl AsyncFilesystem for SimpleFS {
    type Error = AsyncFilesystemError;

    open spec fn may_getattr(&self, ino: u64, found: Result<Attr, AsyncFilesystemError>) -> bool {
        found == self.getattr_answer(ino)
    }

    open spec fn may_lookup(
        &self,
        parent: u64,
        name: Seq<char>,
        found: Result<Lookup, AsyncFilesystemError>,
    ) -> bool {
        found == self.lookup_answer(parent, name)
    }

    /// The rows of the root's listing that lie after `offset`.  The file is
    /// no directory, and other identities do not exist.
    open spec fn may_readdir(
        &self,
        ino: u64,
        fh: u64,
        offset: i64,
        listed: Result<Vec<ReadDir>, AsyncFilesystemError>,
    ) -> bool {
        if ino == ROOT_INO {
            listed matches Ok(rows) && views(rows@) == after(
                root_listing(self.name()),
                offset as int,
            )
        } else if ino == FILE_INO {
            listed == Err::<Vec<ReadDir>, AsyncFilesystemError>(
                AsyncFilesystemError::NotADirectory(ino),
            )
        } else {
            listed == Err::<Vec<ReadDir>, AsyncFilesystemError>(AsyncFilesystemError::NotFound(ino))
        }
    }

    /// At most `size` bytes of the file from `offset` on; past the end,
    /// nothing.  The root is no file, and other identities do not exist.
    open spec fn may_read(
        &self,
        ino: u64,
        fh: u64,
        offset: i64,
        size: u32,
        flags: i32,
        lock: Option<u64>,
        bytes: Result<Vec<u8>, AsyncFilesystemError>,
    ) -> bool {
        if ino == FILE_INO {
            bytes matches Ok(data) && data@ == window(self.content(), offset as int, size as int)
        } else if ino == ROOT_INO {
            bytes == Err::<Vec<u8>, AsyncFilesystemError>(AsyncFilesystemError::NotAFile(ino))
        } else {
            bytes == Err::<Vec<u8>, AsyncFilesystemError>(AsyncFilesystemError::NotFound(ino))
        }
    }

    fn getattr(&self, ino: u64) -> (found: Result<Attr, AsyncFilesystemError>) {
        if ino == ROOT_INO {
            Ok(Attr { ttl: Self::ttl(), attr: Self::root() })
        } else if ino == FILE_INO {
            Ok(Attr { ttl: Self::ttl(), attr: self.file() })
        } else {
            Err(AsyncFilesystemError::NotFound(ino))
        }
    }

    fn lookup(&self, parent: u64, name: &str) -> (found: Result<Lookup, AsyncFilesystemError>) {
        if parent == ROOT_INO && same_text(name, self.name.as_str()) {
            Ok(Lookup { ttl: Self::ttl(), attr: self.file(), generation: 0 })
        } else {
            Err(AsyncFilesystemError::NotFound(parent))
        }
    }

    fn readdir(&self, ino: u64, fh: u64, offset: i64) -> (listed: Result<
        Vec<ReadDir>,
        AsyncFilesystemError,
    >) {
        if ino == ROOT_INO {
            let rows = self.listing();
            Ok(entries_after(&rows, offset))
        } else if ino == FILE_INO {
            Err(AsyncFilesystemError::NotADirectory(ino))
        } else {
            Err(AsyncFilesystemError::NotFound(ino))
        }
    }

    fn read(
        &self,
        ino: u64,
        fh: u64,
        offset: i64,
        size: u32,
        flags: i32,
        lock: Option<u64>,
    ) -> (bytes: Result<Vec<u8>, AsyncFilesystemError>) {
        if ino == FILE_INO {
            Ok(read_at(self.content.as_slice(), offset, size))
        } else if ino == ROOT_INO {
            Err(AsyncFilesystemError::NotAFile(ino))
        } else {
            Err(AsyncFilesystemError::NotFound(ino))
        }
    }
}

/// The root invariant: whatever this backend holds, asking for the root's
/// metadata succeeds, and the answer is a directory.
pub proof fn lemma_root_is_a_directory(fs: SimpleFS, found: Result<Attr, AsyncFilesystemError>)
    requires
        fs.may_getattr(ROOT_INO, found),
    ensures
        found is Ok,
        found->Ok_0.attr.ino == ROOT_INO,
        found->Ok_0.attr.kind == FileType::Directory,
{
}

/// Reading the whole file and then reading at its end: the first read returns
/// the content, the second nothing, and neither fails.
pub proof fn lemma_read_round_trip(
    fs: SimpleFS,
    size: u32,
    whole: Result<Vec<u8>, AsyncFilesystemError>,
    rest: Result<Vec<u8>, AsyncFilesystemError>,
)
    requires
        fs.content().len() <= u32::MAX,
        fs.may_read(FILE_INO, 0, 0, fs.content().len() as u32, 0, None, whole),
        fs.may_read(FILE_INO, 0, fs.content().len() as i64, size, 0, None, rest),
    ensures
        whole is Ok,
        whole->Ok_0@ == fs.content(),
        rest is Ok,
        rest->Ok_0@ == Seq::<u8>::empty(),
{
    crate::content::lemma_read_whole(fs.content());
    crate::content::lemma_read_at_end(fs.content(), fs.content().len() as int, size as int);
}

/// The root's listing is ordered, so that it can be resumed anywhere.
pub proof fn lemma_root_listing_ordered(name: Seq<char>)
    ensures
        ordered(root_listing(name)),
{
}

} // verus!
