use ruxfs::fops::{
    create_file, get_attr, is_mount_point, lookup, open_file, remove_dir, remove_file, rename,
    OpenOptions,
};
use ruxfs::node::{VfsNodeOps, VfsOps};
use ruxfs::path::AbsPath;
use ruxfs::ramfs::RamFileSystem;
use ruxfs::root::{MountId, MountPoint, RootDirectory};
use ruxfs::structs::VfsError;

/// A namespace with the main filesystem at `/` holding `/etc/passwd`,
/// and a second filesystem mounted at `/dev` holding `null`.
fn two_mounts() -> RootDirectory<RamFileSystem> {
    let mut root = RootDirectory::new(RamFileSystem::new());
    ruxfs::fops::create_dir_all(&mut root, &AbsPath::new("/etc")).unwrap();
    create_file(&mut root, &AbsPath::new("/etc/passwd")).unwrap();
    ruxfs::fops::create_dir(&mut root, &AbsPath::new("/dev")).unwrap();
    let mut dev = RamFileSystem::new();
    let r = dev.root_dir();
    dev.create(r, &ruxfs::path::RelPath::new("null"), ruxfs::structs::VfsNodeType::File)
        .unwrap();
    root.mount(AbsPath::new("/dev"), dev).unwrap();
    root
}

#[test]
fn longest_prefix_dispatch() {
    let root = two_mounts();
    // /dev/null resolves through the /dev mount
    let loc = lookup(&root, &AbsPath::new("/dev/null")).unwrap();
    assert_eq!(loc.mnt, MountId::Sub(0));
    // /etc/passwd resolves through the main mount at /
    let loc = lookup(&root, &AbsPath::new("/etc/passwd")).unwrap();
    assert_eq!(loc.mnt, MountId::Main);
    // the mount path itself resolves to the mounted root directory
    let loc = lookup(&root, &AbsPath::new("/dev")).unwrap();
    assert_eq!(loc.mnt, MountId::Sub(0));
    assert!(get_attr(&root, &AbsPath::new("/dev")).unwrap().is_dir());
}

#[test]
fn nested_mounts_pick_the_more_specific_one() {
    let mut root = two_mounts();
    ruxfs::fops::create_dir(&mut root, &AbsPath::new("/dev/shm")).unwrap();
    let mut shm = RamFileSystem::new();
    let r = shm.root_dir();
    shm.create(r, &ruxfs::path::RelPath::new("seg"), ruxfs::structs::VfsNodeType::File)
        .unwrap();
    root.mount(AbsPath::new("/dev/shm"), shm).unwrap();
    let loc = lookup(&root, &AbsPath::new("/dev/shm/seg")).unwrap();
    assert_eq!(loc.mnt, MountId::Sub(1));
    let loc = lookup(&root, &AbsPath::new("/dev/null")).unwrap();
    assert_eq!(loc.mnt, MountId::Sub(0));
}

#[test]
fn mount_registration_errors() {
    let mut root = two_mounts();
    // mounting at an already-mounted path never silently shadows
    assert_eq!(
        root.mount(AbsPath::new("/dev"), RamFileSystem::new()),
        Err(VfsError::AlreadyExists)
    );
    // the namespace root belongs to the main mount
    assert_eq!(root.mount(AbsPath::new("/"), RamFileSystem::new()), Err(VfsError::InvalidInput));
}

#[test]
fn mount_point_test() {
    let root = two_mounts();
    assert!(is_mount_point(&root, &AbsPath::new("/dev")));
    assert!(!is_mount_point(&root, &AbsPath::new("/etc")));
    assert!(!is_mount_point(&root, &AbsPath::new("/dev/null")));
    assert!(!is_mount_point(&root, &AbsPath::new("/")));
}

#[test]
fn operations_cross_the_mount_boundary() {
    let mut root = two_mounts();
    create_file(&mut root, &AbsPath::new("/dev/zero")).unwrap();
    let loc = lookup(&root, &AbsPath::new("/dev/zero")).unwrap();
    assert_eq!(loc.mnt, MountId::Sub(0));
    remove_file(&mut root, &AbsPath::new("/dev/zero")).unwrap();
    assert_eq!(lookup(&root, &AbsPath::new("/dev/zero")).err(), Some(VfsError::NotFound));
    // the main mount's files are untouched
    assert!(lookup(&root, &AbsPath::new("/etc/passwd")).is_ok());
}

#[test]
fn rename_within_one_mount_succeeds() {
    let mut root = two_mounts();
    rename(&mut root, &AbsPath::new("/etc/passwd"), &AbsPath::new("/etc/shadow")).unwrap();
    assert_eq!(lookup(&root, &AbsPath::new("/etc/passwd")).err(), Some(VfsError::NotFound));
    assert!(lookup(&root, &AbsPath::new("/etc/shadow")).is_ok());
    rename(&mut root, &AbsPath::new("/dev/null"), &AbsPath::new("/dev/nil")).unwrap();
    assert!(lookup(&root, &AbsPath::new("/dev/nil")).is_ok());
}

#[test]
fn rename_across_mounts_fails_without_moving_anything() {
    let mut root = two_mounts();
    assert_eq!(
        rename(&mut root, &AbsPath::new("/dev/null"), &AbsPath::new("/etc/null")),
        Err(VfsError::InvalidInput)
    );
    assert_eq!(
        rename(&mut root, &AbsPath::new("/etc/passwd"), &AbsPath::new("/dev/passwd")),
        Err(VfsError::InvalidInput)
    );
    // nothing was relocated, nothing was lost
    assert!(lookup(&root, &AbsPath::new("/dev/null")).is_ok());
    assert!(lookup(&root, &AbsPath::new("/etc/passwd")).is_ok());
    assert_eq!(lookup(&root, &AbsPath::new("/etc/null")).err(), Some(VfsError::NotFound));
    assert_eq!(lookup(&root, &AbsPath::new("/dev/passwd")).err(), Some(VfsError::NotFound));
}

#[test]
fn a_mount_point_cannot_be_removed_or_renamed() {
    let mut root = two_mounts();
    assert_eq!(remove_dir(&mut root, &AbsPath::new("/dev")), Err(VfsError::PermissionDenied));
    // a destination under the same mount reaches the mount-point check
    assert_eq!(
        rename(&mut root, &AbsPath::new("/dev"), &AbsPath::new("/dev/devices")),
        Err(VfsError::PermissionDenied)
    );
    // a destination on another mount is already a cross-mount rename
    assert_eq!(
        rename(&mut root, &AbsPath::new("/dev"), &AbsPath::new("/devices")),
        Err(VfsError::InvalidInput)
    );
    assert!(lookup(&root, &AbsPath::new("/dev/null")).is_ok());
}

#[test]
fn files_on_different_mounts_are_independent() {
    let mut root = two_mounts();
    let mut o = OpenOptions::new();
    o.read(true);
    o.write(true);
    let p = AbsPath::new("/dev/null");
    let loc = lookup(&root, &p).unwrap();
    let mut f = open_file(&p, &mut root, loc, &o).unwrap();
    f.write(&mut root, b"discarded?").unwrap();
    assert_eq!(f.get_attr(&root).unwrap().size(), 10);
    // the same name on the main mount is a different node
    create_file(&mut root, &AbsPath::new("/null")).unwrap();
    assert_eq!(get_attr(&root, &AbsPath::new("/null")).unwrap().size(), 0);
}

#[test]
fn init_rootfs_registers_every_mount() {
    let mut main = RamFileSystem::new();
    let r = main.root_dir();
    main.create(r, &ruxfs::path::RelPath::new("dev"), ruxfs::structs::VfsNodeType::Dir)
        .unwrap();
    let root = ruxfs::fops::init_rootfs(
        main,
        vec![MountPoint { path: AbsPath::new("/dev"), fs: RamFileSystem::new() }],
    )
    .unwrap();
    assert!(is_mount_point(&root, &AbsPath::new("/dev")));
}

#[test]
fn init_rootfs_surfaces_a_duplicate_mount() {
    let out = ruxfs::fops::init_rootfs(
        RamFileSystem::new(),
        vec![
            MountPoint { path: AbsPath::new("/m"), fs: RamFileSystem::new() },
            MountPoint { path: AbsPath::new("/m"), fs: RamFileSystem::new() },
        ],
    );
    assert_eq!(out.err(), Some(VfsError::AlreadyExists));
}
