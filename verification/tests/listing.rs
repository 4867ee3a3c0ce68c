use fuser_async::async_filesystem::ReadDir;
use fuser_async::attr::FileType;
use fuser_async::listing::{entries_after, number_entries};

fn sample() -> Vec<ReadDir> {
    number_entries(vec![
        (1, FileType::Directory, ".".to_string()),
        (1, FileType::Directory, "..".to_string()),
        (2, FileType::RegularFile, "a".to_string()),
    ])
}

fn names(rows: &[ReadDir]) -> Vec<String> {
    rows.iter().map(|r| r.name.clone()).collect()
}

#[test]
fn numbering_starts_at_one() {
    let rows = sample();
    assert_eq!(rows.len(), 3);
    assert_eq!(rows[0], ReadDir { ino: 1, offset: 1, file_type: FileType::Directory, name: ".".to_string() });
    assert_eq!(rows[1], ReadDir { ino: 1, offset: 2, file_type: FileType::Directory, name: "..".to_string() });
    assert_eq!(rows[2], ReadDir { ino: 2, offset: 3, file_type: FileType::RegularFile, name: "a".to_string() });
}

#[test]
fn numbering_of_nothing_is_nothing() {
    assert!(number_entries(Vec::new()).is_empty());
}

#[test]
fn resume_offset_zero_returns_all() {
    assert_eq!(names(&entries_after(&sample(), 0)), vec![".", "..", "a"]);
}

#[test]
fn resume_offset_one_returns_the_rest() {
    assert_eq!(names(&entries_after(&sample(), 1)), vec!["..", "a"]);
}

#[test]
fn resume_offset_three_returns_nothing() {
    assert!(entries_after(&sample(), 3).is_empty());
    assert!(entries_after(&sample(), 4).is_empty());
    assert!(entries_after(&sample(), i64::MAX).is_empty());
}

#[test]
fn negative_resume_offset_returns_all() {
    assert_eq!(entries_after(&sample(), -5), sample());
    assert_eq!(entries_after(&sample(), i64::MIN), sample());
}

#[test]
fn listing_cut_into_calls_of_one_row_delivers_each_row_once() {
    let full = sample();
    let mut seen = Vec::new();
    let mut offset = 0;
    loop {
        let answer = entries_after(&full, offset);
        if answer.is_empty() {
            break;
        }
        offset = answer[0].offset;
        seen.push(answer[0].clone());
    }
    assert_eq!(seen, full);
}

#[test]
fn listing_cut_into_uneven_calls_delivers_each_row_once() {
    let children = (0..10u64).map(|i| (i + 10, FileType::RegularFile, format!("f{}", i))).collect();
    let full = number_entries(children);
    let mut seen = Vec::new();
    let mut offset = 0;
    let mut take = 1;
    loop {
        let answer = entries_after(&full, offset);
        if answer.is_empty() {
            break;
        }
        let n = take.min(answer.len());
        seen.extend_from_slice(&answer[..n]);
        offset = answer[n - 1].offset;
        take += 2;
    }
    assert_eq!(seen, full);
}

#[test]
fn rows_with_gaps_in_their_offsets() {
    let rows = vec![
        ReadDir { ino: 5, offset: 10, file_type: FileType::RegularFile, name: "x".to_string() },
        ReadDir { ino: 6, offset: 20, file_type: FileType::Symlink, name: "y".to_string() },
    ];
    assert_eq!(names(&entries_after(&rows, 9)), vec!["x", "y"]);
    assert_eq!(names(&entries_after(&rows, 10)), vec!["y"]);
    assert_eq!(names(&entries_after(&rows, 15)), vec!["y"]);
    assert!(entries_after(&rows, 20).is_empty());
}
