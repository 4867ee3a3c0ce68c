use fuser_async::content::read_at;

#[test]
fn read_whole_then_end_of_file() {
    let content = b"Hello World!\n";
    assert_eq!(read_at(content, 0, 13), content.to_vec());
    assert_eq!(read_at(content, 13, 64), Vec::<u8>::new());
    assert_eq!(read_at(content, 13, 0), Vec::<u8>::new());
}

#[test]
fn read_asks_for_more_than_there_is() {
    assert_eq!(read_at(b"Hello World!\n", 0, 64), b"Hello World!\n".to_vec());
    assert_eq!(read_at(b"abcdef", 4, 10), b"ef".to_vec());
}

#[test]
fn read_in_the_middle() {
    assert_eq!(read_at(b"abcdef", 2, 3), b"cde".to_vec());
    assert_eq!(read_at(b"abcdef", 5, 1), b"f".to_vec());
}

#[test]
fn read_past_the_end_is_empty() {
    assert_eq!(read_at(b"abcdef", 6, 1), Vec::<u8>::new());
    assert_eq!(read_at(b"abcdef", 7, 1), Vec::<u8>::new());
    assert_eq!(read_at(b"abcdef", i64::MAX, u32::MAX), Vec::<u8>::new());
    assert_eq!(read_at(b"", 0, 10), Vec::<u8>::new());
}

#[test]
fn read_before_the_start_is_empty() {
    assert_eq!(read_at(b"abcdef", -1, 3), Vec::<u8>::new());
    assert_eq!(read_at(b"abcdef", i64::MIN, 3), Vec::<u8>::new());
}

#[test]
fn read_of_size_zero_is_empty() {
    assert_eq!(read_at(b"abcdef", 0, 0), Vec::<u8>::new());
}

#[test]
fn two_reads_join_up() {
    let content = b"0123456789";
    let mut both = read_at(content, 2, 3);
    both.extend(read_at(content, 5, 4));
    assert_eq!(both, read_at(content, 2, 7));
}
