use fuser_async::async_filesystem::{Attr, Lookup, ReadDir};
use fuser_async::attr::{FileAttr, FileType, Timestamp, Ttl};
use fuser_async::opendal_fs::{
    child_path, children_of, choose_child, trim_slashes, Child, EntryMeta, OpendalFs,
    OpendalFsError,
};

fn file(len: u64) -> EntryMeta {
    EntryMeta { is_dir: false, content_length: len, last_modified: None }
}

fn dir() -> EntryMeta {
    EntryMeta { is_dir: true, content_length: 0, last_modified: None }
}

fn child(path: &str, name: &str, meta: EntryMeta) -> Child {
    Child { path: path.to_string(), name: name.to_string(), meta }
}

#[test]
fn root_path_is_known() {
    let fs = OpendalFs::new();
    assert_eq!(fs.path(1), Some("/".to_string()));
    assert_eq!(fs.node_path(1), Ok("/".to_string()));
}

#[test]
fn unknown_identity_is_an_inexisting_node() {
    let fs = OpendalFs::new();
    assert_eq!(fs.path(42), None);
    assert_eq!(fs.node_path(42), Err(OpendalFsError::InexistingNode(42)));
}

#[test]
fn attr_of_a_file() {
    let fs = OpendalFs::new();
    let t = Timestamp { secs: 1_700_000_000, nanos: 5 };
    let meta = EntryMeta { is_dir: false, content_length: 1234, last_modified: Some(t) };
    assert_eq!(
        fs.to_file_attr(9, &meta),
        FileAttr {
            ino: 9,
            size: 1234,
            blocks: 1,
            atime: t,
            mtime: t,
            ctime: t,
            crtime: t,
            kind: FileType::RegularFile,
            perm: 0o644,
            nlink: 1,
            uid: 501,
            gid: 20,
            rdev: 0,
            blksize: 512,
            flags: 0,
        }
    );
}

#[test]
fn attr_of_a_directory_without_a_time() {
    let fs = OpendalFs::new();
    let attr = fs.to_file_attr(1, &dir());
    assert_eq!(attr.kind, FileType::Directory);
    assert_eq!(attr.perm, 0o755);
    assert_eq!(attr.mtime, Timestamp { secs: 0, nanos: 0 });
    assert_eq!(attr.atime, attr.mtime);
    assert_eq!(attr.size, 0);
}

#[test]
fn getattr_of_the_root_is_a_directory() {
    let fs = OpendalFs::new();
    let Attr { ttl, attr } = fs.getattr(1, &dir()).unwrap();
    assert_eq!(ttl, Ttl { secs: 1, nanos: 0 });
    assert_eq!(attr.ino, 1);
    assert_eq!(attr.kind, FileType::Directory);
}

#[test]
fn getattr_of_an_unknown_identity_fails() {
    let mut fs = OpendalFs::new();
    assert_eq!(fs.getattr(2, &file(3)), Err(OpendalFsError::InexistingNode(2)));
    assert_eq!(fs.getattr(0, &dir()), Err(OpendalFsError::InexistingNode(0)));
    let ino = fs.get_inode("a".to_string());
    assert_eq!(fs.getattr(ino, &file(3)).unwrap().attr.size, 3);
    assert_eq!(fs.len(), 2);
}

#[test]
fn choosing_between_file_and_directory() {
    assert_eq!(choose_child(Some(file(1)), Some(dir())), Some((false, file(1))));
    assert_eq!(choose_child(Some(file(1)), None), Some((false, file(1))));
    assert_eq!(choose_child(None, Some(dir())), Some((true, dir())));
    assert_eq!(choose_child(Some(dir()), Some(dir())), Some((true, dir())));
    assert_eq!(choose_child(Some(dir()), None), None);
    assert_eq!(choose_child(None, None), None);
}

#[test]
fn lookup_of_a_file() {
    let mut fs = OpendalFs::new();
    let found = fs.lookup(1, "a.txt", Some(file(3)), None).unwrap();
    assert_eq!(found.attr.ino, 2);
    assert_eq!(found.attr.size, 3);
    assert_eq!(found.attr.kind, FileType::RegularFile);
    assert_eq!(found.generation, 0);
    assert_eq!(fs.path(2), Some("a.txt".to_string()));
    let again: Lookup = fs.lookup(1, "a.txt", Some(file(3)), None).unwrap();
    assert_eq!(again, found);
    assert_eq!(fs.getattr(found.attr.ino, &file(3)).unwrap().attr, found.attr);
}

#[test]
fn lookup_of_a_directory_and_below_it() {
    let mut fs = OpendalFs::new();
    let docs = fs.lookup(1, "docs", None, Some(dir())).unwrap();
    assert_eq!(docs.attr.kind, FileType::Directory);
    assert_eq!(fs.path(docs.attr.ino), Some("docs/".to_string()));
    let below = fs.lookup(docs.attr.ino, "a", Some(file(1)), None).unwrap();
    assert_eq!(fs.path(below.attr.ino), Some("docs/a".to_string()));
}

#[test]
fn lookup_of_a_child_that_does_not_exist() {
    let mut fs = OpendalFs::new();
    assert_eq!(
        fs.lookup(1, "nope", None, None),
        Err(OpendalFsError::LookupError(1, "nope".to_string()))
    );
    assert_eq!(fs.len(), 1);
}

#[test]
fn lookup_under_an_unknown_parent() {
    let mut fs = OpendalFs::new();
    assert_eq!(fs.lookup(9, "a", Some(file(1)), None), Err(OpendalFsError::InexistingNode(9)));
    assert_eq!(fs.lookup_known(9, "a", Some(file(1)), None), Some(Err(OpendalFsError::InexistingNode(9))));
    assert_eq!(fs.len(), 1);
}

#[test]
fn lookup_known_answers_what_needs_no_new_identity() {
    let mut fs = OpendalFs::new();
    assert_eq!(fs.lookup_known(1, "a", Some(file(1)), None), None);
    assert_eq!(
        fs.lookup_known(1, "a", None, None),
        Some(Err(OpendalFsError::LookupError(1, "a".to_string())))
    );
    let found = fs.lookup(1, "a", Some(file(1)), None).unwrap();
    assert_eq!(fs.lookup_known(1, "a", Some(file(1)), None), Some(Ok(found)));
    assert_eq!(fs.len(), 2);
}

#[test]
fn readdir_numbers_the_children_and_gives_them_identities() {
    let mut fs = OpendalFs::new();
    let entries = vec![child("docs/", "docs/", dir()), child("a", "a", file(1)), child("b", "b", file(2))];
    let rows = fs.readdir(1, &dir(), &entries, 0).unwrap();
    assert_eq!(
        rows,
        vec![
            ReadDir { ino: 2, offset: 1, file_type: FileType::Directory, name: "docs".to_string() },
            ReadDir { ino: 3, offset: 2, file_type: FileType::RegularFile, name: "a".to_string() },
            ReadDir { ino: 4, offset: 3, file_type: FileType::RegularFile, name: "b".to_string() },
        ]
    );
    assert_eq!(fs.path(3), Some("a".to_string()));
}

#[test]
fn readdir_leaves_out_the_directory_itself() {
    let mut fs = OpendalFs::new();
    let docs = fs.get_inode("docs/".to_string());
    let entries = vec![child("docs/", "docs/", dir()), child("docs/a", "a", file(1))];
    let rows = fs.readdir(docs, &dir(), &entries, 0).unwrap();
    assert_eq!(rows, vec![ReadDir { ino: 3, offset: 1, file_type: FileType::RegularFile, name: "a".to_string() }]);
}

#[test]
fn readdir_resumed_gives_the_same_identities() {
    let mut fs = OpendalFs::new();
    let entries = vec![child("a", "a", file(1)), child("b", "b", file(2)), child("c", "c", file(3))];
    let all = fs.readdir(1, &dir(), &entries, 0).unwrap();
    let rest = fs.readdir(1, &dir(), &entries, 1).unwrap();
    assert_eq!(rest, all[1..].to_vec());
    assert!(fs.readdir(1, &dir(), &entries, 3).unwrap().is_empty());
    assert_eq!(fs.readdir(1, &dir(), &entries, 0).unwrap(), all);
    assert_eq!(fs.path(5), None);
}

#[test]
fn readdir_keeps_identities_from_lookups() {
    let mut fs = OpendalFs::new();
    let b = fs.lookup(1, "b", Some(file(2)), None).unwrap().attr.ino;
    let rows = fs.readdir(1, &dir(), &vec![child("a", "a", file(1)), child("b", "b", file(2))], 0).unwrap();
    assert_eq!(rows[0].ino, 3);
    assert_eq!(rows[1].ino, b);
}

#[test]
fn readdir_of_an_entry_listed_twice() {
    let mut fs = OpendalFs::new();
    let rows = fs.readdir(1, &dir(), &vec![child("a", "a", file(1)), child("a", "a", file(1))], 0).unwrap();
    assert_eq!(rows[0].ino, rows[1].ino);
    assert_eq!((rows[0].offset, rows[1].offset), (1, 2));
}

#[test]
fn readdir_of_a_file_is_not_a_directory() {
    let mut fs = OpendalFs::new();
    let a = fs.get_inode("a".to_string());
    assert_eq!(fs.readdir(a, &file(1), &Vec::new(), 0), Err(OpendalFsError::NotADirectory(a)));
    assert_eq!(fs.len(), 2);
}

#[test]
fn readdir_of_an_unknown_identity_fails() {
    let mut fs = OpendalFs::new();
    assert_eq!(
        fs.readdir(8, &dir(), &vec![child("a", "a", file(1))], 0),
        Err(OpendalFsError::InexistingNode(8))
    );
    assert_eq!(fs.len(), 1);
}

#[test]
fn read_is_a_window_of_the_content() {
    let mut fs = OpendalFs::new();
    let a = fs.get_inode("a".to_string());
    assert_eq!(fs.read(a, &file(10), b"0123456789", 3, 4), Ok(b"3456".to_vec()));
    assert_eq!(fs.read(a, &file(10), b"0123456789", 0, 10), Ok(b"0123456789".to_vec()));
    assert_eq!(fs.read(a, &file(10), b"0123456789", 10, 4), Ok(Vec::new()));
}

#[test]
fn read_of_a_directory_or_an_unknown_identity_fails() {
    let fs = OpendalFs::new();
    assert_eq!(fs.read(1, &dir(), b"", 0, 4), Err(OpendalFsError::NotAFile(1)));
    assert_eq!(fs.read(5, &file(1), b"x", 0, 4), Err(OpendalFsError::InexistingNode(5)));
}

#[test]
fn find_looks_without_handing_out() {
    let mut fs = OpendalFs::new();
    assert_eq!(fs.find("/"), Some(1));
    assert_eq!(fs.find("a"), None);
    assert_eq!(fs.len(), 1);
    let ino = fs.get_inode("a".to_string());
    assert_eq!(fs.find("a"), Some(ino));
    assert_eq!(fs.len(), 2);
}

#[test]
fn entry_of_a_known_child() {
    let fs = OpendalFs::new();
    let found = fs.entry(5, &file(7));
    assert_eq!(found.ttl, Ttl { secs: 1, nanos: 0 });
    assert_eq!(found.attr, fs.to_file_attr(5, &file(7)));
    assert_eq!(found.generation, 0);
}

#[test]
fn paths_of_children() {
    assert_eq!(child_path("/", "a.txt", false), "a.txt");
    assert_eq!(child_path("/", "docs", true), "docs/");
    assert_eq!(child_path("docs/", "a.txt", false), "docs/a.txt");
    assert_eq!(child_path("docs/", "sub", true), "docs/sub/");
    assert_eq!(child_path("", "x", false), "x");
}

#[test]
fn slashes_at_the_end_are_taken_off() {
    assert_eq!(trim_slashes("docs/"), "docs");
    assert_eq!(trim_slashes("docs"), "docs");
    assert_eq!(trim_slashes("a/b//"), "a/b");
    assert_eq!(trim_slashes("/"), "");
    assert_eq!(trim_slashes(""), "");
    assert_eq!(trim_slashes("été/"), "été");
}

#[test]
fn children_among_the_entries() {
    let entries = vec![child("d/", "d/", dir()), child("d/x/", "x/", dir()), child("d/y", "y", file(1))];
    assert_eq!(
        children_of(&entries, "d/"),
        vec![child("d/x/", "x", dir()), child("d/y", "y", file(1))]
    );
    assert_eq!(children_of(&entries, "other/").len(), 3);
    assert!(children_of(&Vec::new(), "d/").is_empty());
}
