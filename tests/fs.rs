use aether_kernel::fs::{init, open, FileSystem, FileType, FsError, Inode, RamFS, RamNode};

#[test]
fn files_are_found_by_name_and_path() {
    let mut fs = RamFS::new();
    fs.add_file(b"init", b"abc".to_vec());
    fs.add_file(b"data", b"xyz".to_vec());
    assert_eq!(fs.lookup(0, b"init"), Ok(1));
    assert_eq!(fs.lookup(0, b"data"), Ok(2));
    assert_eq!(fs.lookup(0, b"none"), Err(FsError::NotFound));
    assert_eq!(fs.lookup(1, b"x"), Err(FsError::NotADirectory));
    assert_eq!(open(&fs, b"/data"), Ok(2));
    assert_eq!(open(&fs, b"init"), Ok(1));
    assert_eq!(open(&fs, b"/"), Ok(0));
    assert_eq!(open(&fs, b"/missing"), Err(FsError::NotFound));
    assert_eq!(fs.root_inode(), 0);
}

#[test]
fn adding_a_file_again_replaces_it() {
    let mut fs = RamFS::new();
    fs.add_file(b"a", b"1".to_vec());
    fs.add_file(b"a", b"22".to_vec());
    assert_eq!(open(&fs, b"/a"), Ok(2));
    assert_eq!(fs.read_at(2, 0, 10), b"22".to_vec());
}

#[test]
fn reads_stop_at_end_of_file() {
    let fs = init(b"hello world".to_vec());
    assert_eq!(fs.read_at(1, 0, 5), b"hello".to_vec());
    assert_eq!(fs.read_at(1, 6, 100), b"world".to_vec());
    assert_eq!(fs.read_at(1, 11, 4), Vec::<u8>::new());
    assert_eq!(fs.read_at(1, 50, 4), Vec::<u8>::new());
    assert_eq!(fs.read_at(0, 0, 4), Vec::<u8>::new());
}

#[test]
fn writes_grow_the_file_with_zeros() {
    let mut fs = init(b"ab".to_vec());
    assert_eq!(fs.write_at(1, 4, b"cd"), 2);
    assert_eq!(fs.read_at(1, 0, 10), vec![b'a', b'b', 0, 0, b'c', b'd']);
    assert_eq!(fs.write_at(1, 1, b"Z"), 1);
    assert_eq!(fs.read_at(1, 0, 3), vec![b'a', b'Z', 0]);
    assert_eq!(fs.write_at(0, 0, b"x"), 0);
}

#[test]
fn metadata_reports_type_and_size() {
    let fs = init(vec![1, 2, 3]);
    let m = fs.metadata(1);
    assert_eq!(m.file_type, FileType::File);
    assert_eq!(m.size, 3);
    assert_eq!(m.mode.0, 6);
    let d = fs.metadata(0);
    assert_eq!(d.file_type, FileType::Directory);
    assert_eq!(d.mode.0, 7);
}

#[test]
fn node_capabilities() {
    let mut n = RamNode::File { content: b"xy".to_vec() };
    assert_eq!(n.read_at(1, 5), b"y".to_vec());
    assert_eq!(n.write_at(2, b"z"), 1);
    assert_eq!(n.metadata().size, 3);
}

#[test]
fn directory_listing_in_order() {
    let mut fs = RamFS::new();
    fs.add_file(b"b", vec![]);
    fs.add_file(b"a", vec![]);
    assert_eq!(fs.poll(0), Ok(vec![b"b".to_vec(), b"a".to_vec()]));
    assert_eq!(fs.poll(1), Err(FsError::NotADirectory));
}
