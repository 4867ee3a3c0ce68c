use fuser_async::async_filesystem::ReadDir;
use fuser_async::attr::{FileType, Ttl};
use fuser_async::conversion::{
    directory_rows, file_content, gather, getattr_answer, is_directory, lookup_answer,
    parse_file_type,
    read_answer, readdir_answer, to_file_attr, BatchesIterators, Column, DatafusionFsError,
    RecordBatch,
};

fn text(cells: &[Option<&str>]) -> Column {
    Column::Utf8(cells.iter().map(|c| c.map(|s| s.to_string())).collect())
}

fn batch(columns: Vec<Column>) -> RecordBatch {
    RecordBatch { columns }
}

#[test]
fn names_of_kinds() {
    assert_eq!(parse_file_type("Directory"), Some(FileType::Directory));
    assert_eq!(parse_file_type("RegularFile"), Some(FileType::RegularFile));
    assert_eq!(parse_file_type("Symlink"), Some(FileType::Symlink));
    assert_eq!(parse_file_type("Socket"), Some(FileType::Socket));
    assert_eq!(parse_file_type("CharDevice"), Some(FileType::CharDevice));
    assert_eq!(parse_file_type("BlockDevice"), Some(FileType::BlockDevice));
    assert_eq!(parse_file_type("NamePipe"), Some(FileType::NamedPipe));
}

#[test]
fn what_is_no_name_of_a_kind() {
    assert_eq!(parse_file_type("NamedPipe"), None);
    assert_eq!(parse_file_type("directory"), None);
    assert_eq!(parse_file_type("Directory "), None);
    assert_eq!(parse_file_type(""), None);
}

#[test]
fn cells_of_a_column_over_all_batches() {
    let batches = vec![
        batch(vec![Column::UInt64(vec![Some(1), None]), text(&[Some("a"), Some("b")])]),
        batch(vec![Column::UInt64(vec![]), text(&[])]),
        batch(vec![Column::UInt64(vec![Some(7)]), text(&[None])]),
    ];
    assert_eq!(batches.inos(0), vec![Some(1), None, Some(7)]);
    assert_eq!(batches.names(1), vec![Some("a".to_string()), Some("b".to_string()), None]);
}

#[test]
fn a_column_of_another_type_gives_no_cells() {
    let batches = vec![
        batch(vec![Column::UInt64(vec![Some(1)]), Column::Binary(vec![Some(vec![9])])]),
        batch(vec![text(&[Some("x")]), Column::UInt64(vec![Some(2)])]),
    ];
    assert_eq!(batches.inos(0), vec![Some(1)]);
    assert_eq!(batches.inos(1), vec![Some(2)]);
    assert_eq!(batches.names(0), vec![Some("x".to_string())]);
    assert_eq!(batches.content(1), vec![Some(vec![9])]);
    assert!(batches.content(0).is_empty());
}

#[test]
fn kinds_of_a_column() {
    let batches = vec![batch(vec![text(&[Some("Directory"), Some("bogus"), None, Some("Symlink")])])];
    assert_eq!(batches.kinds(0), vec![Some(FileType::Directory), None, None, Some(FileType::Symlink)]);
}

#[test]
fn no_batches_no_cells() {
    let batches: Vec<RecordBatch> = Vec::new();
    assert!(batches.inos(0).is_empty());
    assert!(batches.kinds(3).is_empty());
    assert!(batches.names(1).is_empty());
    assert!(batches.content(2).is_empty());
}

#[test]
fn attr_of_the_first_row_that_stands_for_a_node() {
    let batches = vec![
        batch(vec![
            Column::UInt64(vec![None, Some(4)]),
            text(&[Some("Directory"), Some("what")]),
            Column::UInt64(vec![Some(100), Some(200)]),
        ]),
        batch(vec![
            Column::UInt64(vec![Some(5), Some(6)]),
            text(&[Some("RegularFile"), Some("Directory")]),
            Column::UInt64(vec![Some(77), Some(88)]),
        ]),
    ];
    let found = to_file_attr(batches).unwrap();
    assert_eq!(found.ttl, Ttl { secs: 3600, nanos: 0 });
    assert_eq!(found.attr.ino, 5);
    assert_eq!(found.attr.size, 77);
    assert_eq!(found.attr.kind, FileType::RegularFile);
    assert_eq!(found.attr.perm, 0o755);
    assert_eq!(found.attr.nlink, 2);
    assert_eq!((found.attr.uid, found.attr.gid, found.attr.blksize, found.attr.blocks), (501, 20, 512, 1));
}

#[test]
fn attr_of_a_file_of_thirteen_bytes() {
    let batches = vec![batch(vec![
        Column::UInt64(vec![Some(2)]),
        text(&[Some("RegularFile")]),
        Column::UInt64(vec![Some(13)]),
    ])];
    let found = to_file_attr(batches).unwrap();
    assert_eq!(found.attr.ino, 2);
    assert_eq!(found.attr.kind, FileType::RegularFile);
    assert_eq!(found.attr.size, 13);
}

#[test]
fn attr_without_a_size_has_size_zero() {
    let no_column = vec![batch(vec![Column::UInt64(vec![Some(2)]), text(&[Some("RegularFile")])])];
    assert_eq!(to_file_attr(no_column).unwrap().attr.size, 0);
    let empty_cell = vec![batch(vec![
        Column::UInt64(vec![Some(2)]),
        text(&[Some("RegularFile")]),
        Column::UInt64(vec![None]),
    ])];
    assert_eq!(to_file_attr(empty_cell).unwrap().attr.size, 0);
    let other_type = vec![batch(vec![
        Column::UInt64(vec![Some(2)]),
        text(&[Some("RegularFile")]),
        text(&[Some("13")]),
    ])];
    assert_eq!(to_file_attr(other_type).unwrap().attr.size, 0);
    let short_column = vec![batch(vec![
        Column::UInt64(vec![None, Some(2)]),
        text(&[None, Some("RegularFile")]),
        Column::UInt64(vec![Some(9)]),
    ])];
    assert_eq!(to_file_attr(short_column).unwrap().attr.size, 0);
}

#[test]
fn attr_of_no_rows_is_not_found() {
    assert_eq!(to_file_attr(Vec::new()), Err(DatafusionFsError::NotFound));
    let empty = vec![batch(vec![Column::UInt64(vec![]), text(&[])])];
    assert_eq!(to_file_attr(empty), Err(DatafusionFsError::NotFound));
}

#[test]
fn attr_of_columns_of_the_wrong_type_is_not_found() {
    let batches = vec![batch(vec![text(&[Some("1")]), text(&[Some("Directory")])])];
    assert_eq!(to_file_attr(batches), Err(DatafusionFsError::NotFound));
}

#[test]
fn attr_stops_at_the_shorter_column() {
    let batches = vec![batch(vec![Column::UInt64(vec![None, Some(2)]), text(&[Some("Directory")])])];
    assert_eq!(to_file_attr(batches), Err(DatafusionFsError::NotFound));
}

fn node(ino: u64, kind: &str, size: u64) -> Vec<RecordBatch> {
    vec![batch(vec![
        Column::UInt64(vec![Some(ino)]),
        text(&[Some(kind)]),
        Column::UInt64(vec![Some(size)]),
    ])]
}

#[test]
fn getattr_of_a_node_in_the_tables() {
    let found = getattr_answer(2, node(2, "RegularFile", 13)).unwrap();
    assert_eq!((found.attr.ino, found.attr.kind, found.attr.size), (2, FileType::RegularFile, 13));
    assert_eq!(found.ttl, Ttl { secs: 3600, nanos: 0 });
}

#[test]
fn getattr_of_a_node_not_in_the_tables() {
    assert_eq!(getattr_answer(2, Vec::new()), Err(DatafusionFsError::NotFound));
}

#[test]
fn getattr_of_the_root_in_the_tables() {
    let found = getattr_answer(1, node(1, "Directory", 4096)).unwrap();
    assert_eq!((found.attr.ino, found.attr.kind, found.attr.size), (1, FileType::Directory, 4096));
}

#[test]
fn getattr_of_the_root_always_gives_a_directory() {
    for batches in [Vec::new(), node(1, "RegularFile", 5), node(7, "Directory", 5), node(1, "bogus", 5)] {
        let found = getattr_answer(1, batches).unwrap();
        assert_eq!(found.attr.ino, 1);
        assert_eq!(found.attr.kind, FileType::Directory);
        assert_eq!(found.attr.size, 0);
        assert_eq!(found.attr.perm, 0o755);
    }
}

#[test]
fn lookup_of_a_child_in_the_tables() {
    let found = lookup_answer(node(2, "RegularFile", 13)).unwrap();
    assert_eq!((found.attr.ino, found.attr.kind, found.attr.size), (2, FileType::RegularFile, 13));
    assert_eq!(found.generation, 0);
    assert_eq!(found.ttl, Ttl { secs: 3600, nanos: 0 });
    assert_eq!(found.attr, getattr_answer(2, node(2, "RegularFile", 13)).unwrap().attr);
}

#[test]
fn lookup_of_a_child_not_in_the_tables() {
    assert_eq!(lookup_answer(Vec::new()), Err(DatafusionFsError::NotFound));
}

#[test]
fn readdir_of_a_node_that_is_no_directory() {
    let inos = vec![Some(3)];
    let kinds = vec![Some(FileType::RegularFile)];
    let names = vec![Some("x".to_string())];
    for kind in [FileType::RegularFile, FileType::Symlink, FileType::Socket] {
        assert_eq!(readdir_answer(kind, &inos, &kinds, &names, 0), Err(DatafusionFsError::NotADirectory));
    }
}

#[test]
fn readdir_of_a_directory() {
    let inos = vec![Some(3), Some(4)];
    let kinds = vec![Some(FileType::RegularFile), Some(FileType::Directory)];
    let names = vec![Some("x".to_string()), Some("y".to_string())];
    let rows = readdir_answer(FileType::Directory, &inos, &kinds, &names, 0).unwrap();
    assert_eq!(rows, directory_rows(&inos, &kinds, &names, 0));
    assert_eq!(rows.len(), 2);
}

#[test]
fn resumed_rows_are_the_fresh_rows_behind_the_offset() {
    let inos: Vec<Option<u64>> = vec![Some(10), None, Some(12), Some(13), Some(14)];
    let kinds = vec![Some(FileType::RegularFile); 5];
    let names: Vec<Option<String>> = (0..5).map(|i| Some(format!("n{}", i))).collect();
    let fresh = directory_rows(&inos, &kinds, &names, 0);
    for o in 0..=5usize {
        let resumed = directory_rows(&inos[o..].to_vec(), &kinds[o..].to_vec(), &names[o..].to_vec(), o as i64);
        let behind: Vec<ReadDir> = fresh.iter().filter(|r| r.offset > o as i64).cloned().collect();
        assert_eq!(resumed, behind);
    }
}

#[test]
fn read_of_a_directory_is_not_a_file() {
    let cells = vec![Some(b"abc".to_vec())];
    assert_eq!(read_answer(FileType::Directory, &cells, 0, 3), Err(DatafusionFsError::NotAFile));
}

#[test]
fn read_of_a_file() {
    let cells = vec![Some(b"Hello World!\n".to_vec())];
    assert_eq!(read_answer(FileType::RegularFile, &cells, 0, 64), Ok(b"Hello World!\n".to_vec()));
    assert_eq!(read_answer(FileType::RegularFile, &cells, 13, 64), Ok(Vec::new()));
    assert_eq!(read_answer(FileType::RegularFile, &vec![None], 0, 64), Err(DatafusionFsError::NotFound));
}

#[test]
fn rows_of_a_fresh_listing() {
    let rows = directory_rows(
        &vec![Some(10), Some(11), Some(12)],
        &vec![Some(FileType::Directory), None, Some(FileType::RegularFile)],
        &vec![Some("d".to_string()), Some("x".to_string()), Some("f".to_string())],
        0,
    );
    assert_eq!(
        rows,
        vec![
            ReadDir { ino: 10, offset: 1, file_type: FileType::Directory, name: "d".to_string() },
            ReadDir { ino: 12, offset: 3, file_type: FileType::RegularFile, name: "f".to_string() },
        ]
    );
}

#[test]
fn rows_of_a_resumed_listing_count_on() {
    let rows = directory_rows(
        &vec![Some(12), Some(13)],
        &vec![Some(FileType::RegularFile), Some(FileType::RegularFile)],
        &vec![Some("f".to_string()), Some("g".to_string())],
        2,
    );
    assert_eq!(rows.iter().map(|r| r.offset).collect::<Vec<_>>(), vec![3, 4]);
}

#[test]
fn rows_stop_at_the_shortest_column() {
    let rows = directory_rows(
        &vec![Some(1), Some(2), Some(3)],
        &vec![Some(FileType::RegularFile)],
        &vec![Some("a".to_string()), Some("b".to_string())],
        0,
    );
    assert_eq!(rows.len(), 1);
    assert!(directory_rows(&vec![], &vec![], &vec![], 0).is_empty());
}

#[test]
fn content_is_the_first_cell_that_is_not_empty() {
    let cells = vec![None, Some(b"Hello World!\n".to_vec()), Some(b"other".to_vec())];
    assert_eq!(file_content(&cells, 0, 64), Ok(b"Hello World!\n".to_vec()));
    assert_eq!(file_content(&cells, 6, 5), Ok(b"World".to_vec()));
    assert_eq!(file_content(&cells, 13, 64), Ok(Vec::new()));
}

#[test]
fn content_of_no_cells_is_not_found() {
    assert_eq!(file_content(&vec![], 0, 1), Err(DatafusionFsError::NotFound));
    assert_eq!(file_content(&vec![None, None], 0, 1), Err(DatafusionFsError::NotFound));
}

#[test]
fn only_a_directory_is_a_directory() {
    assert!(is_directory(FileType::Directory));
    assert!(!is_directory(FileType::RegularFile));
    assert!(!is_directory(FileType::Symlink));
    assert!(!is_directory(FileType::NamedPipe));
}

#[test]
fn gathering_cells_of_one_type() {
    let batches = vec![
        batch(vec![Column::UInt64(vec![Some(1)]), Column::Other]),
        batch(vec![Column::Binary(vec![None, Some(vec![7, 8])]), Column::UInt64(vec![Some(3)])]),
    ];
    assert_eq!(gather::<u64>(&batches, 0), vec![Some(1)]);
    assert_eq!(gather::<u64>(&batches, 1), vec![Some(3)]);
    assert_eq!(gather::<Vec<u8>>(&batches, 0), vec![None, Some(vec![7, 8])]);
    assert!(gather::<String>(&batches, 0).is_empty());
}
