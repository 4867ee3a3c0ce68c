//! Node metadata as plain values.

use vstd::prelude::*;

verus! {

/// The kind of a filesystem node.
#[derive(Clone, Copy, Debug, PartialEq, Eq, Hash, Structural)]
pub enum FileType {
    /// Named pipe.
    NamedPipe,
    /// Character device.
    CharDevice,
    /// Block device.
    BlockDevice,
    /// Directory.
    Directory,
    /// Regular file.
    RegularFile,
    /// Symbolic link.
    Symlink,
    /// Unix domain socket.
    Socket,
}

/// A point in time, counted from the Unix epoch.
#[derive(Clone, Copy, Debug, PartialEq, Eq, Structural)]
pub struct Timestamp {
    /// Whole seconds since 1970-01-01 00:00:00 UTC.
    pub secs: u64,
    /// Nanoseconds past `secs`.
    pub nanos: u32,
}

impl Timestamp {
    /// 1970-01-01 00:00:00 UTC.
    pub fn epoch() -> (t: Timestamp)
        ensures
            t == (Timestamp { secs: 0, nanos: 0 }),
    {
        Timestamp { secs: 0, nanos: 0 }
    }
}

/// How long the kernel may trust a piece of metadata without asking again.
#[derive(Clone, Copy, Debug, PartialEq, Eq, Structural)]
pub struct Ttl {
    /// Whole seconds.
    pub secs: u64,
    /// Nanoseconds past `secs`.
    pub nanos: u32,
}

impl Ttl {
    /// A time to live of `secs` whole seconds.
    pub fn from_secs(secs: u64) -> (t: Ttl)
        ensures
            t == (Ttl { secs, nanos: 0 }),
    {
        Ttl { secs, nanos: 0 }
    }
}

/// The metadata of one node.
#[derive(Clone, Copy, Debug, PartialEq, Eq, Structural)]
pub struct FileAttr {
    /// Identity of the node.
    pub ino: u64,
    /// Size in bytes.
    pub size: u64,
    /// Size in blocks.
    pub blocks: u64,
    /// Time of last access.
    pub atime: Timestamp,
    /// Time of last modification.
    pub mtime: Timestamp,
    /// Time of last change.
    pub ctime: Timestamp,
    /// Time of creation.
    pub crtime: Timestamp,
    /// Kind of node.
    pub kind: FileType,
    /// Permission bits.
    pub perm: u16,
    /// Number of hard links.
    pub nlink: u32,
    /// Owning user.
    pub uid: u32,
    /// Owning group.
    pub gid: u32,
    /// Device number, for device nodes.
    pub rdev: u32,
    /// Preferred block size.
    pub blksize: u32,
    /// Platform flags.
    pub flags: u32,
}

} // verus!
