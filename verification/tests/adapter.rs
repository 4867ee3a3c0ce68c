use fuser_async::async_filesystem::{
    attr_reply, data_reply, decode_name, entry_reply, AsyncFilesystem, AsyncFsImpl, Attr, Lookup,
    ReadDir, Reply,
};
use fuser_async::attr::{FileAttr, FileType, Timestamp, Ttl};
use fuser_async::directory::DirectoryBuffer;
use fuser_async::errors::{AsyncFilesystemError, ENOENT};
use fuser_async::hello::SimpleFS;

fn hello() -> AsyncFsImpl<SimpleFS> {
    AsyncFsImpl::new(SimpleFS::new("hello.txt".to_string(), b"Hello World!\n".to_vec()))
}

fn epoch() -> Timestamp {
    Timestamp { secs: 0, nanos: 0 }
}

fn hello_txt_attr() -> FileAttr {
    FileAttr {
        ino: 2,
        size: 13,
        blocks: 1,
        atime: epoch(),
        mtime: epoch(),
        ctime: epoch(),
        crtime: epoch(),
        kind: FileType::RegularFile,
        perm: 0o644,
        nlink: 1,
        uid: 501,
        gid: 20,
        rdev: 0,
        blksize: 512,
        flags: 0,
    }
}

fn hello_dir_attr() -> FileAttr {
    FileAttr {
        ino: 1,
        size: 0,
        blocks: 0,
        atime: epoch(),
        mtime: epoch(),
        ctime: epoch(),
        crtime: epoch(),
        kind: FileType::Directory,
        perm: 0o755,
        nlink: 2,
        uid: 501,
        gid: 20,
        rdev: 0,
        blksize: 512,
        flags: 0,
    }
}

#[test]
fn enoent_is_two() {
    assert_eq!(ENOENT, 2);
}

#[test]
fn root_is_a_directory() {
    let reply = hello().getattr(1);
    assert_eq!(reply, Reply::Attr(Attr { ttl: Ttl { secs: 1, nanos: 0 }, attr: hello_dir_attr() }));
}

#[test]
fn hello_world_end_to_end() {
    let fs = hello();
    let ino = match fs.lookup(1, b"hello.txt") {
        Reply::Entry(Lookup { ttl, attr, generation }) => {
            assert_eq!(ttl, Ttl { secs: 1, nanos: 0 });
            assert_eq!(attr, hello_txt_attr());
            assert_eq!(generation, 0);
            attr.ino
        }
        other => panic!("lookup answered {:?}", other),
    };
    assert_eq!(ino, 2);
    match fs.getattr(ino) {
        Reply::Attr(Attr { attr, .. }) => assert_eq!(attr.size, 13),
        other => panic!("getattr answered {:?}", other),
    }
    assert_eq!(fs.read(ino, 0, 0, 64, 0, None), Reply::Data(b"Hello World!\n".to_vec()));
    assert_eq!(fs.read(ino, 0, 13, 64, 0, None), Reply::Data(Vec::new()));
}

#[test]
fn read_whole_then_read_at_end() {
    let content: Vec<u8> = (0..200u8).collect();
    let fs = AsyncFsImpl::new(SimpleFS::new("blob".to_string(), content.clone()));
    assert_eq!(fs.read(2, 0, 0, 200, 0, None), Reply::Data(content));
    assert_eq!(fs.read(2, 0, 200, 1, 0, None), Reply::Data(Vec::new()));
    assert_eq!(fs.read(2, 0, 200, u32::MAX, 0, Some(7)), Reply::Data(Vec::new()));
}

#[test]
fn lookup_of_a_name_that_is_no_text_is_no_such_entry() {
    let fs = hello();
    assert_eq!(fs.lookup(1, &[0x68, 0x65, 0xff, 0x6c]), Reply::Error(ENOENT));
    assert_eq!(fs.lookup(1, &[0xc3]), Reply::Error(ENOENT));
    assert_eq!(fs.lookup(1, &[0xed, 0xa0, 0x80]), Reply::Error(ENOENT));
}

#[test]
fn lookup_of_an_unknown_name_is_no_such_entry() {
    let fs = hello();
    assert_eq!(fs.lookup(1, b"other.txt"), Reply::Error(ENOENT));
    assert_eq!(fs.lookup(1, b""), Reply::Error(ENOENT));
    assert_eq!(fs.lookup(2, b"hello.txt"), Reply::Error(ENOENT));
}

#[test]
fn getattr_of_an_unknown_identity_is_no_such_entry() {
    assert_eq!(hello().getattr(3), Reply::Error(ENOENT));
    assert_eq!(hello().getattr(0), Reply::Error(ENOENT));
}

#[test]
fn read_of_a_directory_is_no_such_entry() {
    assert_eq!(hello().read(1, 0, 0, 10, 0, None), Reply::Error(ENOENT));
    assert_eq!(hello().read(9, 0, 0, 10, 0, None), Reply::Error(ENOENT));
}

#[test]
fn readdir_of_the_root_fills_the_buffer() {
    let mut buffer = DirectoryBuffer::new(4096);
    assert_eq!(hello().readdir(1, 0, 0, &mut buffer), Reply::Directory);
    let names: Vec<&str> = buffer.rows().iter().map(|r| r.name.as_str()).collect();
    assert_eq!(names, vec![".", "..", "hello.txt"]);
    assert_eq!(buffer.used_bytes(), 32 + 32 + 40);
}

#[test]
fn readdir_resumes_after_the_offset() {
    let mut buffer = DirectoryBuffer::new(4096);
    assert_eq!(hello().readdir(1, 0, 2, &mut buffer), Reply::Directory);
    let names: Vec<&str> = buffer.rows().iter().map(|r| r.name.as_str()).collect();
    assert_eq!(names, vec!["hello.txt"]);
}

#[test]
fn readdir_into_small_buffers_delivers_each_row_once() {
    let fs = hello();
    let mut seen = Vec::new();
    let mut offset = 0;
    loop {
        let mut buffer = DirectoryBuffer::new(64);
        assert_eq!(fs.readdir(1, 0, offset, &mut buffer), Reply::Directory);
        match buffer.rows().last() {
            Some(last) => offset = last.offset,
            None => break,
        }
        seen.extend(buffer.rows().iter().map(|r| r.name.clone()));
    }
    assert_eq!(seen, vec![".", "..", "hello.txt"]);
}

#[test]
fn readdir_of_a_file_is_no_such_entry() {
    let mut buffer = DirectoryBuffer::new(4096);
    assert_eq!(hello().readdir(2, 0, 0, &mut buffer), Reply::Error(ENOENT));
    assert!(buffer.rows().is_empty());
}

#[test]
fn simple_fs_answers_by_kind_of_failure() {
    let fs = SimpleFS::new("hello.txt".to_string(), b"Hello World!\n".to_vec());
    assert!(matches!(fs.getattr(7), Err(AsyncFilesystemError::NotFound(7))));
    assert!(matches!(fs.lookup(1, "nope"), Err(AsyncFilesystemError::NotFound(1))));
    assert!(matches!(fs.readdir(2, 0, 0), Err(AsyncFilesystemError::NotADirectory(2))));
    assert!(matches!(fs.readdir(5, 0, 0), Err(AsyncFilesystemError::NotFound(5))));
    assert!(matches!(fs.read(1, 0, 0, 1, 0, None), Err(AsyncFilesystemError::NotAFile(1))));
    assert!(matches!(fs.read(5, 0, 0, 1, 0, None), Err(AsyncFilesystemError::NotFound(5))));
}

#[test]
fn simple_fs_lists_dot_dotdot_and_the_file() {
    let fs = SimpleFS::new("a".to_string(), Vec::new());
    let all = fs.readdir(1, 0, 0).unwrap();
    assert_eq!(
        all,
        vec![
            ReadDir { ino: 1, offset: 1, file_type: FileType::Directory, name: ".".to_string() },
            ReadDir { ino: 1, offset: 2, file_type: FileType::Directory, name: "..".to_string() },
            ReadDir { ino: 2, offset: 3, file_type: FileType::RegularFile, name: "a".to_string() },
        ]
    );
    let rest: Vec<String> = fs.readdir(1, 0, 1).unwrap().into_iter().map(|r| r.name).collect();
    assert_eq!(rest, vec!["..", "a"]);
    assert!(fs.readdir(1, 0, 3).unwrap().is_empty());
}

#[test]
fn decode_name_gives_the_text() {
    assert_eq!(decode_name(b"hello.txt").unwrap(), "hello.txt");
    assert_eq!(decode_name("grüße".as_bytes()).unwrap(), "grüße");
    assert_eq!(decode_name(b"").unwrap(), "");
}

#[test]
fn decode_name_hands_back_bytes_that_are_no_text() {
    match decode_name(&[0x61, 0x80]) {
        Err(AsyncFilesystemError::InvalidName(raw)) => assert_eq!(raw, vec![0x61, 0x80]),
        other => panic!("decoded to {:?}", other),
    }
}

#[test]
fn replies_for_outcomes() {
    let attr = Attr { ttl: Ttl::from_secs(5), attr: hello_txt_attr() };
    assert_eq!(attr_reply::<()>(Ok(attr)), Reply::Attr(attr));
    assert_eq!(attr_reply(Err("broken")), Reply::Error(2));
    let found = Lookup { ttl: Ttl::from_secs(5), attr: hello_txt_attr(), generation: 9 };
    assert_eq!(entry_reply::<()>(Ok(found)), Reply::Entry(found));
    assert_eq!(entry_reply(Err(17)), Reply::Error(2));
    assert_eq!(data_reply::<()>(Ok(vec![1, 2, 3])), Reply::Data(vec![1, 2, 3]));
    assert_eq!(data_reply::<()>(Ok(Vec::new())), Reply::Data(Vec::new()));
    assert_eq!(data_reply(Err(())), Reply::Error(2));
}

struct Failing;

impl AsyncFilesystem for Failing {
    type Error = String;

    fn getattr(&self, ino: u64) -> Result<Attr, String> {
        Err(format!("no attr for {}", ino))
    }

    fn lookup(&self, parent: u64, name: &str) -> Result<Lookup, String> {
        Err(format!("no {} under {}", name, parent))
    }

    fn readdir(&self, ino: u64, _fh: u64, _offset: i64) -> Result<Vec<ReadDir>, String> {
        Err(format!("no listing for {}", ino))
    }

    fn read(
        &self,
        ino: u64,
        _fh: u64,
        _offset: i64,
        _size: u32,
        _flags: i32,
        _lock: Option<u64>,
    ) -> Result<Vec<u8>, String> {
        Err(format!("no content for {}", ino))
    }
}

#[test]
fn every_backend_failure_is_no_such_entry() {
    let fs = AsyncFsImpl::new(Failing);
    assert_eq!(fs.getattr(1), Reply::Error(ENOENT));
    assert_eq!(fs.lookup(1, b"x"), Reply::Error(ENOENT));
    assert_eq!(fs.read(1, 0, 0, 1, 0, None), Reply::Error(ENOENT));
    let mut buffer = DirectoryBuffer::new(4096);
    assert_eq!(fs.readdir(1, 0, 0, &mut buffer), Reply::Error(ENOENT));
    assert!(buffer.rows().is_empty());
}
