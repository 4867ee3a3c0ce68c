//! The bookkeeping of a backend over an object store.
//!
//! An object store addresses its objects by path and knows nothing of
//! identities.  This backend state gives each path it meets an identity,
//! turns what the store says of an object into metadata, and numbers the
//! children of a directory into a listing.  Asking the store is the caller's
//! part: its answers come in as plain values.

use crate::async_filesystem::{views, Attr, Lookup, ReadDir, ReadDirView};
use crate::attr::{FileAttr, FileType, Timestamp, Ttl};
use crate::content::{read_at, window};
use crate::identity::{
    lemma_identities_settled, lemma_resolve_all_grows, nth_identity, Directory, IdentityDirectory,
};
use crate::listing::{after, entries_after, ordered};
use crate::text::same_text;
use vstd::prelude::*;
use vstd::string::{StrSliceExecFns, StringExecFns};

verus! {

/// The failures of this backend.
#[derive(Clone, Debug, PartialEq, Eq)]
pub enum OpendalFsError {
    /// The store failed; its message is kept.
    OpendaError(String),
    /// No node has the given identity.
    InexistingNode(u64),
    /// The directory with the given identity has no child of the given name.
    LookupError(u64, String),
    /// The node with the given identity is no directory.
    NotADirectory(u64),
    /// The node with the given identity is a directory, not a file.
    NotAFile(u64),
}

/// What the store says of an object.
#[derive(Clone, Copy, Debug, PartialEq, Eq, Structural)]
pub struct EntryMeta {
    /// Whether the object is a directory.
    pub is_dir: bool,
    /// The size of the object's content in bytes.
    pub content_length: u64,
    /// When the object was last modified, where the store knows.
    pub last_modified: Option<Timestamp>,
}

/// An entry of a directory, as the store lists it.
#[derive(Clone, Debug, PartialEq, Eq)]
pub struct Child {
    /// The entry's path in the store.
    pub path: String,
    /// The entry's name within the directory.
    pub name: String,
    /// What the store says of the entry.
    pub meta: EntryMeta,
}

/// An entry of a directory as a mathematical value.
pub struct ChildView {
    /// The entry's path in the store.
    pub path: Seq<char>,
    /// The entry's name within the directory.
    pub name: Seq<char>,
    /// What the store says of the entry.
    pub meta: EntryMeta,
}

impl View for Child {
    type V = ChildView;

    open spec fn view(&self) -> ChildView {
        ChildView { path: self.path@, name: self.name@, meta: self.meta }
    }
}

/// The entries of a directory as mathematical values, in order.
pub open spec fn child_views(entries: Seq<Child>) -> Seq<ChildView> {
    entries.map_values(|c: Child| c@)
}

/// The seconds for which the kernel may cache what this backend answers.
pub const TTL_SECS: u64 = 1;

/// The metadata of the node `ino`, given what the store says of its object.
/// A directory can be entered by everyone and a file read by everyone; both
/// can be changed by their owner only.  All four times are the time of the
/// last modification, or the epoch where the store knows none.
pub open spec fn attr_of(ino: u64, meta: EntryMeta) -> FileAttr {
    let mtime = match meta.last_modified {
        Some(t) => t,
        None => Timestamp { secs: 0, nanos: 0 },
    };
    FileAttr {
        ino,
        size: meta.content_length,
        blocks: 1,
        atime: mtime,
        mtime,
        ctime: mtime,
        crtime: mtime,
        kind: kind_of(meta),
        perm: if meta.is_dir {
            0o755
        } else {
            0o644
        },
        nlink: 1,
        uid: 501,
        gid: 20,
        rdev: 0,
        blksize: 512,
        flags: 0,
    }
}

/// The kind of a node, given what the store says of its object.
pub open spec fn kind_of(meta: EntryMeta) -> FileType {
    if meta.is_dir {
        FileType::Directory
    } else {
        FileType::RegularFile
    }
}

/// The paths of the given children, in order.
pub open spec fn paths_of(children: Seq<ChildView>) -> Seq<Seq<char>> {
    children.map_values(|c: ChildView| c.path)
}

/// The listing of a directory with the given children, made by a backend
/// whose identity directory held `dir` before: each child has the identity
/// that resolving its path gives, after the paths of the children before it
/// were resolved, and its place in the listing as offset, counted from one.
pub open spec fn listing_of(dir: Directory, children: Seq<ChildView>) -> Seq<ReadDirView> {
    Seq::new(
        children.len(),
        |i: int|
            ReadDirView {
                ino: nth_identity(dir, paths_of(children), i),
                offset: (i + 1) as i64,
                file_type: kind_of(children[i].meta),
                name: children[i].name,
            },
    )
}

/// The path of the child called `name` of the directory at `parent`.  The
/// store names an object by its way down from the root, without a slash in
/// front and, for a directory, with one behind; only the root itself is
/// called by a single slash.
pub open spec fn child_of(parent: Seq<char>, name: Seq<char>, is_dir: bool) -> Seq<char> {
    let above = if parent == crate::identity::root_path() {
        Seq::<char>::empty()
    } else {
        parent
    };
    let behind = if is_dir {
        seq!['/']
    } else {
        Seq::<char>::empty()
    };
    above + name + behind
}

/// The path by which the store knows the child called `name` of the directory
/// at `parent`.
pub fn child_path(parent: &str, name: &str, is_dir: bool) -> (path: String)
    ensures
        path@ == child_of(parent@, name@, is_dir),
{
    proof {
        reveal_strlit("/");
        assert("/"@ =~= crate::identity::root_path());
    }
    let mut path = if same_text(parent, "/") {
        String::new()
    } else {
        String::from_str(parent)
    };
    path.append(name);
    if is_dir {
        path.append("/");
    }
    proof {
        assert(path@ =~= child_of(parent@, name@, is_dir));
    }
    path
}

/// A name without the slashes at its end.
pub open spec fn trimmed(name: Seq<char>) -> Seq<char>
    decreases name.len(),
{
    if name.len() > 0 && name.last() == '/' {
        trimmed(name.drop_last())
    } else {
        name
    }
}

/// Takes the slashes off the end of a name.
pub fn trim_slashes(name: &str) -> (out: String)
    ensures
        out@ == trimmed(name@),
{
    let mut k: usize = name.unicode_len();
    proof {
        assert(name@.take(k as int) =~= name@);
    }
    while k > 0 && name.get_char(k - 1) == '/'
        invariant
            k <= name@.len(),
            trimmed(name@) == trimmed(name@.take(k as int)),
        decreases k,
    {
        proof {
            assert(name@.take(k as int).drop_last() =~= name@.take(k - 1));
            assert(name@.take(k as int).last() == name@[k - 1]);
        }
        k -= 1;
    }
    proof {
        if k > 0 {
            assert(name@.take(k as int).last() == name@[k - 1]);
        }
        assert(name@.take(k as int) =~= name@.subrange(0, k as int));
    }
    String::from_str(name.substring_char(0, k))
}

/// An entry under its name without the slash that marks a directory.
pub open spec fn unmarked(c: ChildView) -> ChildView {
    ChildView { path: c.path, name: trimmed(c.name), meta: c.meta }
}

/// The children of the directory at `dir_path` among the entries that the
/// store lists for it: every entry but the directory itself, which some
/// stores list too, each under its name without the slash that marks a
/// directory.
pub open spec fn own_children(entries: Seq<ChildView>, dir_path: Seq<char>) -> Seq<ChildView> {
    entries.filter(|c: ChildView| c.path != dir_path).map_values(|c: ChildView| unmarked(c))
}

/// Picks the children of the directory at `dir_path` out of the entries that
/// the store lists for it.
pub fn children_of(entries: &Vec<Child>, dir_path: &str) -> (children: Vec<Child>)
    ensures
        child_views(children@) == own_children(child_views(entries@), dir_path@),
        children.len() <= entries.len(),
{
    let ghost all = child_views(entries@);
    let ghost keep = |c: ChildView| c.path != dir_path@;
    let ghost name = |c: ChildView| unmarked(c);
    let mut children: Vec<Child> = Vec::new();
    let mut i: usize = 0;
    proof {
        reveal(Seq::filter);
        assert(child_views(children@) =~= all.take(0).filter(keep).map_values(name));
    }
    while i < entries.len()
        invariant
            i <= entries.len(),
            all == child_views(entries@),
            keep == |c: ChildView| c.path != dir_path@,
            name == |c: ChildView| unmarked(c),
            child_views(children@) == all.take(i as int).filter(keep).map_values(name),
            children.len() <= i,
        decreases entries.len() - i,
    {
        let ghost before = child_views(children@);
        let ghost kept = all.take(i as int).filter(keep);
        let entry = &entries[i];
        proof {
            reveal(Seq::filter);
            assert(all.take(i + 1).drop_last() =~= all.take(i as int));
            assert(all.take(i + 1).last() == entry@);
        }
        if !same_text(entry.path.as_str(), dir_path) {
            children.push(
                Child {
                    path: entry.path.clone(),
                    name: trim_slashes(entry.name.as_str()),
                    meta: entry.meta,
                },
            );
            proof {
                assert(child_views(children@) =~= before.push(name(entry@)));
                assert(kept.push(entry@).map_values(name) =~= kept.map_values(name).push(
                    name(entry@),
                ));
            }
        }
        i += 1;
    }
    proof {
        assert(all.take(i as int) =~= all);
    }
    children
}

/// The child meant by a name, given what the store says of the object at the
/// child's path as a file and of the one at its path as a directory: the
/// file where there is one, else the directory where there is one.  The
/// first part tells whether it is the directory.
pub open spec fn chosen_child(as_file: Option<EntryMeta>, as_dir: Option<EntryMeta>) -> Option<
    (bool, EntryMeta),
> {
    match as_file {
        Some(m) if !m.is_dir => Some((false, m)),
        _ => match as_dir {
            Some(m) => Some((true, m)),
            None => None,
        },
    }
}

/// Chooses the child meant by a name between the object at its path as a
/// file and the one at its path as a directory.
pub fn choose_child(as_file: Option<EntryMeta>, as_dir: Option<EntryMeta>) -> (child: Option<
    (bool, EntryMeta),
>)
    ensures
        child == chosen_child(as_file, as_dir),
{
    match as_file {
        Some(m) => {
            if !m.is_dir {
                return Some((false, m));
            }
        },
        None => {},
    }
    match as_dir {
        Some(m) => Some((true, m)),
        None => None,
    }
}

/// The state of a backend over an object store.
pub struct OpendalFs {
    inodes: IdentityDirectory,
}

impl View for OpendalFs {
    type V = Directory;

    closed spec fn view(&self) -> Directory {
        self.inodes@
    }
}

impl OpendalFs {
    /// A backend that has met no path but the root's.
    pub fn new() -> (fs: OpendalFs)
        ensures
            fs@.wf(),
            fs@.count == 1,
            fs@.paths == Map::<u64, Seq<char>>::empty().insert(
                crate::identity::ROOT_INO,
                crate::identity::root_path(),
            ),
    {
        OpendalFs { inodes: IdentityDirectory::new() }
    }

    /// The number of identities handed out, the root's included.
    pub fn len(&self) -> (n: u64)
        ensures
            n == self@.count,
    {
        self.inodes.len()
    }

    /// The metadata of the node `ino`, given what the store says of its
    /// object.
    pub fn to_file_attr(&self, ino: u64, meta: &EntryMeta) -> (attr: FileAttr)
        ensures
            attr == attr_of(ino, *meta),
    {
        let mtime = match meta.last_modified {
            Some(t) => t,
            None => Timestamp::epoch(),
        };
        let kind = if meta.is_dir {
            FileType::Directory
        } else {
            FileType::RegularFile
        };
        let perm: u16 = if meta.is_dir {
            0o755
        } else {
            0o644
        };
        FileAttr {
            ino,
            size: meta.content_length,
            blocks: 1,
            atime: mtime,
            mtime,
            ctime: mtime,
            crtime: mtime,
            kind,
            perm,
            nlink: 1,
            uid: 501,
            gid: 20,
            rdev: 0,
            blksize: 512,
            flags: 0,
        }
    }

    /// The path that `ino` stands for, or `None` where no path was given
    /// that identity.
    pub fn path(&self, ino: u64) -> (path: Option<String>)
        ensures
            path is Some <==> self@.paths.contains_key(ino),
            path matches Some(p) ==> p@ == self@.paths[ino],
    {
        self.inodes.path(ino)
    }

    /// The identity that `path` was given, or `None` where it has none yet.
    /// Nothing is handed out.
    pub fn find(&self, path: &str) -> (ino: Option<u64>)
        requires
            self@.wf(),
        ensures
            ino is Some <==> self@.knows(path@),
            ino matches Some(i) ==> i == self@.identity_of(path@),
    {
        self.inodes.find(path)
    }

    /// The identity of `path`: the one it was given before, or else the next
    /// unused one, which it keeps from now on.
    pub fn get_inode(&mut self, path: String) -> (ino: u64)
        requires
            old(self)@.wf(),
            old(self)@.count < u64::MAX,
        ensures
            ino == old(self)@.resolve_id(path@),
            final(self)@ == old(self)@.resolve(path@),
            final(self)@.wf(),
    {
        self.inodes.get_inode(path)
    }

    /// The path of the object to ask the store about for the node `ino`.
    pub fn node_path(&self, ino: u64) -> (path: Result<String, OpendalFsError>)
        ensures
            self@.paths.contains_key(ino) ==> (path matches Ok(p) && p@ == self@.paths[ino]),
            !self@.paths.contains_key(ino) ==> path == Err::<String, OpendalFsError>(
                OpendalFsError::InexistingNode(ino),
            ),
    {
        match self.inodes.path(ino) {
            Some(p) => Ok(p),
            None => Err(OpendalFsError::InexistingNode(ino)),
        }
    }

    /// The answer to `getattr` for the node `ino`, given what the store says
    /// of its object.  An identity that was never handed out names no node.
    pub fn getattr(&self, ino: u64, meta: &EntryMeta) -> (found: Result<Attr, OpendalFsError>)
        ensures
            self@.paths.contains_key(ino) ==> found == Ok::<Attr, OpendalFsError>(
                Attr { ttl: Ttl { secs: TTL_SECS, nanos: 0 }, attr: attr_of(ino, *meta) },
            ),
            !self@.paths.contains_key(ino) ==> found == Err::<Attr, OpendalFsError>(
                OpendalFsError::InexistingNode(ino),
            ),
    {
        match self.inodes.path(ino) {
            Some(_) => Ok(
                Attr { ttl: Ttl::from_secs(TTL_SECS), attr: self.to_file_attr(ino, meta) },
            ),
            None => Err(OpendalFsError::InexistingNode(ino)),
        }
    }

    /// The answer to `lookup` for a child that has the identity `ino`, given
    /// what the store says of it.  Identities are never given a second time,
    /// so the generation is always zero.
    pub fn entry(&self, ino: u64, meta: &EntryMeta) -> (found: Lookup)
        ensures
            found == (Lookup {
                ttl: Ttl { secs: TTL_SECS, nanos: 0 },
                attr: attr_of(ino, *meta),
                generation: 0,
            }),
    {
        Lookup { ttl: Ttl::from_secs(TTL_SECS), attr: self.to_file_attr(ino, meta), generation: 0 }
    }

    /// The answer to `lookup` of `name` under `parent` where it can be given
    /// without handing out an identity: the parent is unknown, there is no
    /// such child, or the child has its identity already.  `None` where the
    /// child is new.  `as_file` and `as_dir` are what the store says of the
    /// objects at the child's path as a file and as a directory.
    pub fn lookup_known(
        &self,
        parent: u64,
        name: &str,
        as_file: Option<EntryMeta>,
        as_dir: Option<EntryMeta>,
    ) -> (known: Option<Result<Lookup, OpendalFsError>>)
        requires
            self@.wf(),
        ensures
            !self@.paths.contains_key(parent) ==> known == Some(
                Err::<Lookup, OpendalFsError>(OpendalFsError::InexistingNode(parent)),
            ),
            self@.paths.contains_key(parent) && chosen_child(as_file, as_dir) is None ==> (
            known matches Some(Err(OpendalFsError::LookupError(p, n))) && p == parent && n@
                == name@),
            self@.paths.contains_key(parent) ==> (chosen_child(as_file, as_dir) matches Some(
                (is_dir, m),
            ) ==> {
                let path = child_of(self@.paths[parent], name@, is_dir);
                if self@.knows(path) {
                    known == Some(
                        Ok::<Lookup, OpendalFsError>(
                            Lookup {
                                ttl: Ttl { secs: TTL_SECS, nanos: 0 },
                                attr: attr_of(self@.identity_of(path), m),
                                generation: 0,
                            },
                        ),
                    )
                } else {
                    known is None
                }
            }),
    {
        let above = match self.inodes.path(parent) {
            Some(p) => p,
            None => {
                return Some(Err(OpendalFsError::InexistingNode(parent)));
            },
        };
        match choose_child(as_file, as_dir) {
            None => Some(Err(OpendalFsError::LookupError(parent, name.to_owned()))),
            Some((is_dir, m)) => {
                let path = child_path(above.as_str(), name, is_dir);
                match self.inodes.find(path.as_str()) {
                    Some(ino) => Some(Ok(self.entry(ino, &m))),
                    None => None,
                }
            },
        }
    }

    /// The answer to `lookup` of `name` under `parent`, given what the store
    /// says of the objects at the child's path as a file and as a directory.
    /// A parent that was never handed out names no node; a name under which
    /// the store has neither is no child.  A child that exists gets its
    /// identity here, if it had none.
    pub fn lookup(
        &mut self,
        parent: u64,
        name: &str,
        as_file: Option<EntryMeta>,
        as_dir: Option<EntryMeta>,
    ) -> (found: Result<Lookup, OpendalFsError>)
        requires
            old(self)@.wf(),
            old(self)@.count < u64::MAX,
        ensures
            final(self)@.wf(),
            !old(self)@.paths.contains_key(parent) ==> final(self)@ == old(self)@ && found
                == Err::<Lookup, OpendalFsError>(OpendalFsError::InexistingNode(parent)),
            old(self)@.paths.contains_key(parent) && chosen_child(as_file, as_dir) is None ==> (
            final(self)@ == old(self)@ && (found matches Err(OpendalFsError::LookupError(p, n))
                && p == parent && n@ == name@)),
            old(self)@.paths.contains_key(parent) ==> (chosen_child(as_file, as_dir) matches Some(
                (is_dir, m),
            ) ==> {
                let path = child_of(old(self)@.paths[parent], name@, is_dir);
                &&& final(self)@ == old(self)@.resolve(path)
                &&& found == Ok::<Lookup, OpendalFsError>(
                    Lookup {
                        ttl: Ttl { secs: TTL_SECS, nanos: 0 },
                        attr: attr_of(old(self)@.resolve_id(path), m),
                        generation: 0,
                    },
                )
            }),
    {
        let above = match self.inodes.path(parent) {
            Some(p) => p,
            None => {
                return Err(OpendalFsError::InexistingNode(parent));
            },
        };
        match choose_child(as_file, as_dir) {
            None => Err(OpendalFsError::LookupError(parent, name.to_owned())),
            Some((is_dir, m)) => {
                let path = child_path(above.as_str(), name, is_dir);
                let ino = self.inodes.get_inode(path);
                Ok(self.entry(ino, &m))
            },
        }
    }

    /// The answer to `readdir` of the node `ino` with resume offset `offset`,
    /// given what the store says of the node's object and the entries that
    /// it lists for it, in its order.  An identity that was never handed out
    /// names no node, and a node that is no directory has no listing.  Each
    /// child gets its identity here, if it had none.
    pub fn readdir(&mut self, ino: u64, meta: &EntryMeta, entries: &Vec<Child>, offset: i64) -> (listed:
        Result<Vec<ReadDir>, OpendalFsError>)
        requires
            old(self)@.wf(),
            old(self)@.count + entries.len() <= u64::MAX,
            entries.len() < i64::MAX,
        ensures
            final(self)@.wf(),
            !old(self)@.paths.contains_key(ino) ==> final(self)@ == old(self)@ && listed == Err::<
                Vec<ReadDir>,
                OpendalFsError,
            >(OpendalFsError::InexistingNode(ino)),
            old(self)@.paths.contains_key(ino) && !meta.is_dir ==> final(self)@ == old(self)@
                && listed == Err::<Vec<ReadDir>, OpendalFsError>(
                OpendalFsError::NotADirectory(ino),
            ),
            old(self)@.paths.contains_key(ino) && meta.is_dir ==> {
                let children = own_children(child_views(entries@), old(self)@.paths[ino]);
                &&& final(self)@ == old(self)@.resolve_all(paths_of(children))
                &&& listed matches Ok(rows) && views(rows@) == after(
                    listing_of(old(self)@, children),
                    offset as int,
                )
            },
    {
        let here = match self.inodes.path(ino) {
            Some(p) => p,
            None => {
                return Err(OpendalFsError::InexistingNode(ino));
            },
        };
        if !meta.is_dir {
            return Err(OpendalFsError::NotADirectory(ino));
        }
        let children = children_of(entries, here.as_str());
        let ghost kids = child_views(children@);
        let ghost start = self@;
        let ghost paths = paths_of(kids);
        let mut all: Vec<ReadDir> = Vec::new();
        let mut i: usize = 0;
        proof {
            assert(paths.take(0) =~= Seq::<Seq<char>>::empty());
        }
        while i < children.len()
            invariant
                i <= children.len(),
                children.len() < i64::MAX,
                start.wf(),
                start.count + children.len() <= u64::MAX,
                kids == child_views(children@),
                paths == paths_of(kids),
                self@ == start.resolve_all(paths.take(i as int)),
                all.len() == i,
                forall|k: int| 0 <= k < i ==> (#[trigger] all[k])@ == listing_of(start, kids)[k],
            decreases children.len() - i,
        {
            let child = &children[i];
            proof {
                lemma_resolve_all_grows(start, paths.take(i as int));
                assert(paths.take(i + 1).drop_last() =~= paths.take(i as int));
                assert(kids[i as int] == child@);
                assert(paths.take(i + 1).last() == child.path@);
                assert(paths[i as int] == child.path@);
            }
            let ino = self.inodes.get_inode(child.path.clone());
            let kind = if child.meta.is_dir {
                FileType::Directory
            } else {
                FileType::RegularFile
            };
            all.push(
                ReadDir { ino, offset: (i + 1) as i64, file_type: kind, name: child.name.clone() },
            );
            i += 1;
        }
        proof {
            assert(paths.take(i as int) =~= paths);
            lemma_resolve_all_grows(start, paths);
            assert(views(all@) =~= listing_of(start, kids));
        }
        Ok(entries_after(&all, offset))
    }

    /// The answer to `read` of the node `ino`, given what the store says of
    /// its object and the object's content: at most `size` bytes of it, from
    /// `offset` on.  An identity that was never handed out names no node, and
    /// a directory has no content.
    pub fn read(&self, ino: u64, meta: &EntryMeta, content: &[u8], offset: i64, size: u32) -> (data:
        Result<Vec<u8>, OpendalFsError>)
        ensures
            !self@.paths.contains_key(ino) ==> data == Err::<Vec<u8>, OpendalFsError>(
                OpendalFsError::InexistingNode(ino),
            ),
            self@.paths.contains_key(ino) && meta.is_dir ==> data == Err::<
                Vec<u8>,
                OpendalFsError,
            >(OpendalFsError::NotAFile(ino)),
            self@.paths.contains_key(ino) && !meta.is_dir ==> (data matches Ok(d) && d@ == window(
                content@,
                offset as int,
                size as int,
            )),
    {
        match self.inodes.path(ino) {
            None => Err(OpendalFsError::InexistingNode(ino)),
            Some(_) => {
                if meta.is_dir {
                    Err(OpendalFsError::NotAFile(ino))
                } else {
                    Ok(read_at(content, offset, size))
                }
            },
        }
    }
}

/// The listing of a directory is ordered, so that it can be resumed
/// anywhere.
pub proof fn lemma_listing_ordered(dir: Directory, children: Seq<ChildView>)
    requires
        children.len() < i64::MAX,
    ensures
        ordered(listing_of(dir, children)),
{
}

/// Restartability of a directory's listing: once its children have their
/// identities, listing them again gives the same rows.  So the answer to a
/// resumed call is the first call's listing, cut after the resume offset, as
/// long as the store lists the same entries.
pub proof fn lemma_listing_settled(dir: Directory, children: Seq<ChildView>)
    requires
        dir.wf(),
        dir.count + children.len() <= u64::MAX,
    ensures
        listing_of(dir.resolve_all(paths_of(children)), children) == listing_of(dir, children),
        dir.resolve_all(paths_of(children)).resolve_all(paths_of(children)) == dir.resolve_all(
            paths_of(children),
        ),
{
    let paths = paths_of(children);
    let settled = dir.resolve_all(paths);
    assert forall|i: int| 0 <= i < children.len() implies nth_identity(settled, paths, i)
        == nth_identity(dir, paths, i) by {
        lemma_identities_settled(dir, paths, i);
    }
    if children.len() > 0 {
        lemma_identities_settled(dir, paths, 0);
    }
    assert(listing_of(settled, children) =~= listing_of(dir, children));
}

} // verus!
