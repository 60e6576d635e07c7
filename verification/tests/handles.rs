use ruxfs::fops::{
    create_dir, create_file, lookup, open, open_check, open_dir, open_file, seek_target, DirEntry,
    OpenOptions, SeekFrom,
};
use ruxfs::structs::{VfsNodeAttr, VfsNodePerm};
use ruxfs::node::VfsNodeOps;
use ruxfs::path::AbsPath;
use ruxfs::ramfs::RamFileSystem;
use ruxfs::root::RootDirectory;
use ruxfs::structs::{VfsError, VfsNodeType};

fn fresh_root() -> RootDirectory<RamFileSystem> {
    RootDirectory::new(RamFileSystem::new())
}

fn rw() -> OpenOptions {
    let mut o = OpenOptions::new();
    o.read(true);
    o.write(true);
    o
}

fn ro() -> OpenOptions {
    let mut o = OpenOptions::new();
    o.read(true);
    o
}

#[test]
fn write_seek_read_round_trip() {
    let mut root = fresh_root();
    let p = AbsPath::new("/f");
    create_file(&mut root, &p).unwrap();
    let loc = lookup(&root, &p).unwrap();
    let mut f = open_file(&p, &mut root, loc, &rw()).unwrap();
    let payload = b"the quick brown fox";
    assert_eq!(f.write(&mut root, payload), Ok(payload.len()));
    assert_eq!(f.seek(&root, SeekFrom::Start(0)), Ok(0));
    let mut buf = vec![0u8; payload.len()];
    assert_eq!(f.read(&root, &mut buf), Ok(payload.len()));
    assert_eq!(buf, payload.to_vec());
    f.release(&mut root);
}

#[test]
fn open_file_rejects_a_directory() {
    let mut root = fresh_root();
    let p = AbsPath::new("/d");
    create_dir(&mut root, &p).unwrap();
    let loc = lookup(&root, &p).unwrap();
    match open_file(&p, &mut root, loc, &ro()) {
        Err(e) => assert_eq!(e, VfsError::IsADirectory),
        Ok(_) => panic!("a directory must not open as a file"),
    }
}

#[test]
fn open_dir_rejects_a_file() {
    let mut root = fresh_root();
    let p = AbsPath::new("/f");
    create_file(&mut root, &p).unwrap();
    let loc = lookup(&root, &p).unwrap();
    match open_dir(&p, &mut root, loc, &ro()) {
        Err(e) => assert_eq!(e, VfsError::NotADirectory),
        Ok(_) => panic!("a file must not open as a directory"),
    }
}

#[test]
fn read_only_handle_cannot_write() {
    let mut root = fresh_root();
    let p = AbsPath::new("/f");
    create_file(&mut root, &p).unwrap();
    let loc = lookup(&root, &p).unwrap();
    let mut f = open_file(&p, &mut root, loc, &ro()).unwrap();
    assert_eq!(f.write(&mut root, b"nope"), Err(VfsError::PermissionDenied));
    assert_eq!(f.write_at(&mut root, 0, b"nope"), Err(VfsError::PermissionDenied));
    assert_eq!(f.truncate(&mut root, 0), Err(VfsError::PermissionDenied));
    assert_eq!(f.flush(&mut root), Err(VfsError::PermissionDenied));
    // the underlying node was never touched
    assert_eq!(f.get_attr(&root).unwrap().size(), 0);
}

#[test]
fn open_denied_when_permissions_do_not_cover_the_request() {
    let mut root = fresh_root();
    let p = AbsPath::new("/f");
    create_file(&mut root, &p).unwrap();
    let loc = lookup(&root, &p).unwrap();
    // drop the owner-write bit on the node itself
    root.main.setattr(loc.node, Some(0o444), None, None, None).unwrap();
    match open_file(&p, &mut root, loc, &rw()) {
        Err(e) => assert_eq!(e, VfsError::PermissionDenied),
        Ok(_) => panic!("write access must be denied by the node's permission bits"),
    }
    assert!(open_file(&p, &mut root, loc, &ro()).is_ok());
}

#[test]
fn cursor_advances_with_reads_and_writes() {
    let mut root = fresh_root();
    let p = AbsPath::new("/f");
    create_file(&mut root, &p).unwrap();
    let loc = lookup(&root, &p).unwrap();
    let mut f = open_file(&p, &mut root, loc, &rw()).unwrap();
    f.write(&mut root, b"abc").unwrap();
    f.write(&mut root, b"def").unwrap();
    f.seek(&root, SeekFrom::Start(0)).unwrap();
    let mut buf = vec![0u8; 6];
    f.read(&root, &mut buf).unwrap();
    assert_eq!(buf, b"abcdef".to_vec());
    // read_at and write_at bypass the cursor
    let mut two = vec![0u8; 2];
    f.read_at(&root, 2, &mut two).unwrap();
    assert_eq!(two, b"cd".to_vec());
    assert_eq!(f.seek(&root, SeekFrom::Current(0)), Ok(6));
}

#[test]
fn seek_positions_and_errors() {
    let mut root = fresh_root();
    let p = AbsPath::new("/f");
    create_file(&mut root, &p).unwrap();
    let loc = lookup(&root, &p).unwrap();
    let mut f = open_file(&p, &mut root, loc, &rw()).unwrap();
    f.write(&mut root, b"0123456789").unwrap();
    assert_eq!(f.seek(&root, SeekFrom::End(-4)), Ok(6));
    assert_eq!(f.seek(&root, SeekFrom::Current(2)), Ok(8));
    assert_eq!(f.seek(&root, SeekFrom::Current(-8)), Ok(0));
    assert_eq!(f.seek(&root, SeekFrom::Current(-1)), Err(VfsError::InvalidInput));
    assert_eq!(f.seek(&root, SeekFrom::End(-11)), Err(VfsError::InvalidInput));
    // a failed seek leaves the cursor alone
    let mut buf = vec![0u8; 3];
    f.read(&root, &mut buf).unwrap();
    assert_eq!(buf, b"012".to_vec());
    // seeking past the end is allowed; a later read finds nothing
    assert_eq!(f.seek(&root, SeekFrom::Start(100)), Ok(100));
    assert_eq!(f.read(&root, &mut buf), Ok(0));
    // an overflowing target is rejected like a negative one
    assert_eq!(f.seek(&root, SeekFrom::Start(u64::MAX)), Ok(u64::MAX));
    assert_eq!(f.seek(&root, SeekFrom::Current(1)), Err(VfsError::InvalidInput));
}

#[test]
fn append_mode_recomputes_the_offset_before_each_write() {
    let mut root = fresh_root();
    let p = AbsPath::new("/log");
    create_file(&mut root, &p).unwrap();
    let loc = lookup(&root, &p).unwrap();
    let mut opts = OpenOptions::new();
    opts.write(true);
    opts.append(true);
    let mut a = open_file(&p, &mut root, loc, &opts).unwrap();
    let other = open_file(&p, &mut root, loc, &rw()).unwrap();
    a.write(&mut root, b"AAA").unwrap();
    // the file grows through a different handle between the appends
    other.write_at(&mut root, 3, b"xxxx").unwrap();
    a.write(&mut root, b"BBB").unwrap();
    let mut buf = vec![0u8; 10];
    other.read_at(&root, 0, &mut buf).unwrap();
    // the two appended records never overlap: AAA at 0, BBB at the
    // size the file had right before the second append
    assert_eq!(buf, b"AAAxxxxBBB".to_vec());
}

#[test]
fn truncate_and_flush_through_a_writable_handle() {
    let mut root = fresh_root();
    let p = AbsPath::new("/f");
    create_file(&mut root, &p).unwrap();
    let loc = lookup(&root, &p).unwrap();
    let mut f = open_file(&p, &mut root, loc, &rw()).unwrap();
    f.write(&mut root, b"abcdef").unwrap();
    f.truncate(&mut root, 2).unwrap();
    assert_eq!(f.get_attr(&root).unwrap().size(), 2);
    assert_eq!(f.flush(&mut root), Ok(()));
    // the cursor does not move on truncate; reading at the cursor
    // past the new end finds nothing
    let mut buf = vec![0u8; 4];
    assert_eq!(f.read(&root, &mut buf), Ok(0));
}

#[test]
fn handle_reports_its_path() {
    let mut root = fresh_root();
    let p = AbsPath::new("/a");
    create_file(&mut root, &p).unwrap();
    let loc = lookup(&root, &p).unwrap();
    let f = open_file(&p, &mut root, loc, &ro()).unwrap();
    assert_eq!(f.path().as_bytes().clone(), b"/a".to_vec());
}

#[test]
fn open_resolves_relative_paths_against_the_working_directory() {
    let mut root = fresh_root();
    create_dir(&mut root, &AbsPath::new("/home")).unwrap();
    create_file(&mut root, &AbsPath::new("/home/f")).unwrap();
    let cwd = AbsPath::new("/home");
    let mut f = open(&mut root, &cwd, "f", &ro()).unwrap();
    assert_eq!(f.path().as_bytes().clone(), b"/home/f".to_vec());
    let mut buf = vec![0u8; 1];
    assert_eq!(f.read(&root, &mut buf), Ok(0));
    assert_eq!(open(&mut root, &cwd, "nosuch", &ro()).err(), Some(VfsError::NotFound));
}

#[test]
fn directory_listing_is_resumable_with_capacity_one() {
    let mut root = fresh_root();
    let d = AbsPath::new("/d");
    create_dir(&mut root, &d).unwrap();
    create_file(&mut root, &AbsPath::new("/d/x")).unwrap();
    create_file(&mut root, &AbsPath::new("/d/y")).unwrap();
    create_file(&mut root, &AbsPath::new("/d/z")).unwrap();
    let loc = lookup(&root, &d).unwrap();
    let mut dir = open_dir(&d, &mut root, loc, &ro()).unwrap();
    let mut seen: Vec<Vec<u8>> = Vec::new();
    let mut ents = vec![DirEntry::empty(); 1];
    loop {
        let n = dir.read_dir(&root, &mut ents).unwrap();
        if n == 0 {
            break;
        }
        assert_eq!(n, 1);
        seen.push(ents[0].entry_name().clone());
    }
    assert_eq!(seen, vec![b"x".to_vec(), b"y".to_vec(), b"z".to_vec()]);
    // exhausted: the count stays zero
    assert_eq!(dir.read_dir(&root, &mut ents), Ok(0));
    assert_eq!(dir.entry_idx(), 3);
    // the cursor can be rewound
    dir.set_entry_idx(1);
    assert_eq!(dir.read_dir(&root, &mut ents), Ok(1));
    assert_eq!(ents[0].entry_name().clone(), b"y".to_vec());
    assert_eq!(ents[0].entry_type(), VfsNodeType::File);
    dir.release(&mut root);
}

#[test]
fn directory_handle_checks_the_traversal_right() {
    let mut root = fresh_root();
    let d = AbsPath::new("/d");
    create_dir(&mut root, &d).unwrap();
    let loc = lookup(&root, &d).unwrap();
    let mut dir = open_dir(&d, &mut root, loc, &ro()).unwrap();
    assert!(dir.get_attr(&root).unwrap().is_dir());
    // the stamped mask always carries the traversal right for a
    // directory opened through open_dir
    let mut ents = vec![DirEntry::empty(); 1];
    assert_eq!(dir.read_dir(&root, &mut ents), Ok(0));
}

#[test]
fn open_check_decides_type_and_permission() {
    let dir_attr = VfsNodeAttr::new(VfsNodePerm::default_dir(), VfsNodeType::Dir, 0, 0);
    let file_attr = VfsNodeAttr::new(VfsNodePerm::default_file(), VfsNodeType::File, 0, 0);
    let locked = VfsNodeAttr::new(VfsNodePerm::from_bits(0o444), VfsNodeType::File, 0, 0);
    assert_eq!(open_check(&dir_attr, &ro(), false), Err(VfsError::IsADirectory));
    assert_eq!(open_check(&file_attr, &ro(), true), Err(VfsError::NotADirectory));
    assert_eq!(open_check(&locked, &rw(), false), Err(VfsError::PermissionDenied));
    let cap = open_check(&file_attr, &rw(), false).unwrap();
    assert!(cap.read && cap.write && !cap.execute);
    assert!(open_check(&dir_attr, &ro(), true).is_ok());
}

#[test]
fn seek_target_decides_range() {
    assert_eq!(seek_target(5, 10, SeekFrom::Start(3)), Some(3));
    assert_eq!(seek_target(5, 10, SeekFrom::Current(-5)), Some(0));
    assert_eq!(seek_target(5, 10, SeekFrom::Current(-6)), None);
    assert_eq!(seek_target(5, 10, SeekFrom::End(-10)), Some(0));
    assert_eq!(seek_target(5, 10, SeekFrom::End(-11)), None);
    assert_eq!(seek_target(u64::MAX, 10, SeekFrom::Current(1)), None);
    assert_eq!(seek_target(0, u64::MAX, SeekFrom::End(1)), None);
}
