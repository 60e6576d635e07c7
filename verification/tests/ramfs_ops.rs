use ruxfs::node::{VfsNodeOps, VfsOps};
use ruxfs::path::RelPath;
use ruxfs::ramfs::RamFileSystem;
use ruxfs::structs::{VfsDirEntry, VfsError, VfsNodeType};

fn rel(s: &str) -> RelPath {
    RelPath::new(s)
}

#[test]
fn fresh_filesystem_has_a_root_directory() {
    let fs = RamFileSystem::new();
    let root = fs.root_dir();
    let attr = fs.get_attr(root).unwrap();
    assert!(attr.is_dir());
    assert_eq!(attr.perm().bits(), 0o755);
    assert_eq!(fs.lookup(root, &rel("")).unwrap(), root);
}

#[test]
fn create_then_lookup() {
    let mut fs = RamFileSystem::new();
    let root = fs.root_dir();
    fs.create(root, &rel("f"), VfsNodeType::File).unwrap();
    let f = fs.lookup(root, &rel("f")).unwrap();
    let attr = fs.get_attr(f).unwrap();
    assert!(attr.is_file());
    assert_eq!(attr.size(), 0);
    assert_eq!(attr.perm().bits(), 0o666);
    assert_eq!(fs.lookup(root, &rel("missing")), Err(VfsError::NotFound));
}

#[test]
fn create_needs_an_existing_parent_directory() {
    let mut fs = RamFileSystem::new();
    let root = fs.root_dir();
    assert_eq!(fs.create(root, &rel("a/b"), VfsNodeType::File), Err(VfsError::NotFound));
    fs.create(root, &rel("f"), VfsNodeType::File).unwrap();
    assert_eq!(fs.create(root, &rel("f/x"), VfsNodeType::File), Err(VfsError::NotADirectory));
}

#[test]
fn create_tolerates_an_existing_path() {
    let mut fs = RamFileSystem::new();
    let root = fs.root_dir();
    fs.create(root, &rel("d"), VfsNodeType::Dir).unwrap();
    assert_eq!(fs.create(root, &rel("d"), VfsNodeType::Dir), Ok(()));
    assert_eq!(fs.create(root, &rel("d"), VfsNodeType::File), Ok(()));
    let d = fs.lookup(root, &rel("d")).unwrap();
    assert!(fs.get_attr(d).unwrap().is_dir());
}

#[test]
fn create_recursive_builds_the_whole_chain() {
    let mut fs = RamFileSystem::new();
    let root = fs.root_dir();
    fs.create_recursive(root, &rel("a/b/c"), VfsNodeType::File).unwrap();
    let a = fs.lookup(root, &rel("a")).unwrap();
    let b = fs.lookup(root, &rel("a/b")).unwrap();
    let c = fs.lookup(root, &rel("a/b/c")).unwrap();
    assert!(fs.get_attr(a).unwrap().is_dir());
    assert!(fs.get_attr(b).unwrap().is_dir());
    assert!(fs.get_attr(c).unwrap().is_file());
}

#[test]
fn create_recursive_is_idempotent() {
    let mut fs = RamFileSystem::new();
    let root = fs.root_dir();
    fs.create_recursive(root, &rel("a/b/c"), VfsNodeType::File).unwrap();
    let c = fs.lookup(root, &rel("a/b/c")).unwrap();
    // the prefixes exist now; the final create tolerates the existing
    // path, so the repeat succeeds as a whole
    assert_eq!(fs.create_recursive(root, &rel("a/b/c"), VfsNodeType::File), Ok(()));
    assert_eq!(fs.lookup(root, &rel("a/b/c")).unwrap(), c);
}

#[test]
fn node_ids_stay_valid_across_unrelated_changes() {
    let mut fs = RamFileSystem::new();
    let root = fs.root_dir();
    fs.create(root, &rel("keep"), VfsNodeType::File).unwrap();
    fs.create(root, &rel("gone"), VfsNodeType::File).unwrap();
    let keep = fs.lookup(root, &rel("keep")).unwrap();
    fs.write_at(keep, 0, b"data").unwrap();
    fs.unlink(root, &rel("gone")).unwrap();
    let mut buf = vec![0u8; 4];
    assert_eq!(fs.read_at(keep, 0, &mut buf), Ok(4));
    assert_eq!(buf, b"data".to_vec());
}

#[test]
fn write_then_read_at_offsets() {
    let mut fs = RamFileSystem::new();
    let root = fs.root_dir();
    fs.create(root, &rel("f"), VfsNodeType::File).unwrap();
    let f = fs.lookup(root, &rel("f")).unwrap();
    assert_eq!(fs.write_at(f, 0, b"hello world"), Ok(11));
    let mut buf = vec![0u8; 5];
    assert_eq!(fs.read_at(f, 6, &mut buf), Ok(5));
    assert_eq!(buf, b"world".to_vec());
    // overwrite in the middle
    assert_eq!(fs.write_at(f, 6, b"earth"), Ok(5));
    let mut buf = vec![0u8; 11];
    assert_eq!(fs.read_at(f, 0, &mut buf), Ok(11));
    assert_eq!(buf, b"hello earth".to_vec());
    // a short buffer reads a prefix; reading past the end reads nothing
    let mut buf = vec![0u8; 64];
    assert_eq!(fs.read_at(f, 0, &mut buf), Ok(11));
    assert_eq!(fs.read_at(f, 100, &mut buf), Ok(0));
}

#[test]
fn write_past_the_end_fills_the_gap_with_zeros() {
    let mut fs = RamFileSystem::new();
    let root = fs.root_dir();
    fs.create(root, &rel("f"), VfsNodeType::File).unwrap();
    let f = fs.lookup(root, &rel("f")).unwrap();
    fs.write_at(f, 3, b"xy").unwrap();
    assert_eq!(fs.get_attr(f).unwrap().size(), 5);
    let mut buf = vec![9u8; 5];
    fs.read_at(f, 0, &mut buf).unwrap();
    assert_eq!(buf, vec![0, 0, 0, b'x', b'y']);
}

#[test]
fn truncate_shrinks_and_zero_extends() {
    let mut fs = RamFileSystem::new();
    let root = fs.root_dir();
    fs.create(root, &rel("f"), VfsNodeType::File).unwrap();
    let f = fs.lookup(root, &rel("f")).unwrap();
    fs.write_at(f, 0, b"abcdef").unwrap();
    fs.truncate(f, 3).unwrap();
    assert_eq!(fs.get_attr(f).unwrap().size(), 3);
    fs.truncate(f, 5).unwrap();
    let mut buf = vec![9u8; 5];
    fs.read_at(f, 0, &mut buf).unwrap();
    assert_eq!(buf, vec![b'a', b'b', b'c', 0, 0]);
}

#[test]
fn file_operations_reject_directories() {
    let mut fs = RamFileSystem::new();
    let root = fs.root_dir();
    let mut buf = vec![0u8; 1];
    assert_eq!(fs.read_at(root, 0, &mut buf), Err(VfsError::Unsupported));
    assert_eq!(fs.write_at(root, 0, b"x"), Err(VfsError::Unsupported));
    assert_eq!(fs.truncate(root, 0), Err(VfsError::Unsupported));
    assert_eq!(fs.fsync(root), Err(VfsError::Unsupported));
}

#[test]
fn fsync_succeeds_on_a_file() {
    let mut fs = RamFileSystem::new();
    let root = fs.root_dir();
    fs.create(root, &rel("f"), VfsNodeType::File).unwrap();
    let f = fs.lookup(root, &rel("f")).unwrap();
    assert_eq!(fs.fsync(f), Ok(()));
}

#[test]
fn unlink_removes_a_file() {
    let mut fs = RamFileSystem::new();
    let root = fs.root_dir();
    fs.create(root, &rel("f"), VfsNodeType::File).unwrap();
    fs.unlink(root, &rel("f")).unwrap();
    assert_eq!(fs.lookup(root, &rel("f")), Err(VfsError::NotFound));
    assert_eq!(fs.unlink(root, &rel("f")), Err(VfsError::NotFound));
}

#[test]
fn unlink_refuses_a_directory_with_entries() {
    let mut fs = RamFileSystem::new();
    let root = fs.root_dir();
    fs.create_recursive(root, &rel("d/f"), VfsNodeType::File).unwrap();
    assert_eq!(fs.unlink(root, &rel("d")), Err(VfsError::DirectoryNotEmpty));
    fs.unlink(root, &rel("d/f")).unwrap();
    assert_eq!(fs.unlink(root, &rel("d")), Ok(()));
}

#[test]
fn rename_moves_a_file_with_its_content() {
    let mut fs = RamFileSystem::new();
    let root = fs.root_dir();
    fs.create(root, &rel("old"), VfsNodeType::File).unwrap();
    let id = fs.lookup(root, &rel("old")).unwrap();
    fs.write_at(id, 0, b"payload").unwrap();
    fs.rename(root, &rel("old"), &rel("new")).unwrap();
    assert_eq!(fs.lookup(root, &rel("old")), Err(VfsError::NotFound));
    // the node keeps its id and content under the new name
    assert_eq!(fs.lookup(root, &rel("new")).unwrap(), id);
    let mut buf = vec![0u8; 7];
    fs.read_at(id, 0, &mut buf).unwrap();
    assert_eq!(buf, b"payload".to_vec());
}

#[test]
fn rename_errors() {
    let mut fs = RamFileSystem::new();
    let root = fs.root_dir();
    fs.create(root, &rel("a"), VfsNodeType::File).unwrap();
    fs.create(root, &rel("b"), VfsNodeType::File).unwrap();
    assert_eq!(fs.rename(root, &rel("missing"), &rel("c")), Err(VfsError::NotFound));
    assert_eq!(fs.rename(root, &rel("a"), &rel("b")), Err(VfsError::AlreadyExists));
    assert_eq!(fs.rename(root, &rel("a"), &rel("nosuch/dir")), Err(VfsError::NotFound));
    assert_eq!(fs.rename(root, &rel("a"), &rel("a")), Ok(()));
    fs.create_recursive(root, &rel("d/f"), VfsNodeType::File).unwrap();
    // this flat store cannot relocate a whole subtree
    assert_eq!(fs.rename(root, &rel("d"), &rel("e")), Err(VfsError::Unsupported));
}

#[test]
fn setattr_updates_mode_and_size() {
    let mut fs = RamFileSystem::new();
    let root = fs.root_dir();
    fs.create(root, &rel("f"), VfsNodeType::File).unwrap();
    let f = fs.lookup(root, &rel("f")).unwrap();
    fs.write_at(f, 0, b"abcdef").unwrap();
    fs.setattr(f, Some(0o400), None, None, Some(2)).unwrap();
    let attr = fs.get_attr(f).unwrap();
    assert_eq!(attr.perm().bits(), 0o400);
    assert_eq!(attr.size(), 2);
    assert_eq!(fs.setattr(root, None, None, None, Some(0)), Err(VfsError::InvalidInput));
}

#[test]
fn link_is_unsupported() {
    let mut fs = RamFileSystem::new();
    let root = fs.root_dir();
    fs.create(root, &rel("f"), VfsNodeType::File).unwrap();
    let f = fs.lookup(root, &rel("f")).unwrap();
    assert_eq!(fs.link(root, &rel("l"), f), Err(VfsError::Unsupported));
    assert_eq!(fs.parent(root), None);
}

#[test]
fn read_dir_lists_direct_children_only() {
    let mut fs = RamFileSystem::new();
    let root = fs.root_dir();
    fs.create(root, &rel("a"), VfsNodeType::Dir).unwrap();
    fs.create(root, &rel("b"), VfsNodeType::File).unwrap();
    fs.create(root, &rel("a/inner"), VfsNodeType::File).unwrap();
    let mut ents = vec![VfsDirEntry::empty(); 8];
    let n = fs.read_dir(root, 0, &mut ents).unwrap();
    assert_eq!(n, 2);
    assert_eq!(ents[0].entry_name().clone(), b"a".to_vec());
    assert_eq!(ents[0].entry_type(), VfsNodeType::Dir);
    assert_eq!(ents[1].entry_name().clone(), b"b".to_vec());
    assert_eq!(ents[1].entry_type(), VfsNodeType::File);
    let a = fs.lookup(root, &rel("a")).unwrap();
    let n = fs.read_dir(a, 0, &mut ents).unwrap();
    assert_eq!(n, 1);
    assert_eq!(ents[0].entry_name().clone(), b"inner".to_vec());
}

#[test]
fn statfs_counts_nodes_and_format_wipes() {
    let mut fs = RamFileSystem::new();
    let root = fs.root_dir();
    fs.create(root, &rel("a"), VfsNodeType::File).unwrap();
    fs.create(root, &rel("b"), VfsNodeType::File).unwrap();
    assert_eq!(fs.statfs().unwrap().files, 3);
    fs.format().unwrap();
    assert_eq!(fs.statfs().unwrap().files, 1);
    assert_eq!(fs.lookup(root, &rel("a")), Err(VfsError::NotFound));
    assert_eq!(fs.mount(&ruxfs::path::AbsPath::new("/x")), Ok(()));
    assert_eq!(fs.umount(), Ok(()));
}

#[test]
fn write_at_an_impossible_offset_reports_no_memory() {
    let mut fs = RamFileSystem::new();
    let root = fs.root_dir();
    fs.create(root, &rel("f"), VfsNodeType::File).unwrap();
    let f = fs.lookup(root, &rel("f")).unwrap();
    assert_eq!(fs.write_at(f, u64::MAX, b"x"), Err(VfsError::NoMemory));
    assert_eq!(fs.get_attr(f).unwrap().size(), 0);
}

#[test]
fn create_rejects_a_malformed_fragment() {
    let mut fs = RamFileSystem::new();
    let root = fs.root_dir();
    fs.create(root, &rel("a"), VfsNodeType::Dir).unwrap();
    assert_eq!(fs.create(root, &rel("a//b"), VfsNodeType::File), Err(VfsError::InvalidInput));
    assert_eq!(fs.create(root, &rel("/a/b"), VfsNodeType::File), Err(VfsError::InvalidInput));
    assert_eq!(fs.create(root, &rel("a/b/"), VfsNodeType::File), Err(VfsError::InvalidInput));
    assert_eq!(
        fs.rename(root, &rel("a"), &rel("b//c")),
        Err(VfsError::InvalidInput)
    );
}

#[test]
fn create_recursive_rejects_a_file_prefix() {
    let mut fs = RamFileSystem::new();
    let root = fs.root_dir();
    fs.create(root, &rel("f"), VfsNodeType::File).unwrap();
    assert_eq!(
        fs.create_recursive(root, &rel("f/x/y"), VfsNodeType::Dir),
        Err(VfsError::NotADirectory)
    );
    assert_eq!(
        fs.create_recursive(root, &rel("a//b"), VfsNodeType::File),
        Err(VfsError::InvalidInput)
    );
    // an existing path is tolerated outright, whatever its shape
    assert_eq!(fs.create_recursive(root, &rel("f"), VfsNodeType::Dir), Ok(()));
}
