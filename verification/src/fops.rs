//! Low-level filesystem operations: capability-gated file and directory
//! handles, open options, and the path-addressed facade over a
//! [`RootDirectory`](crate::root::RootDirectory).
//!
//! Every delegated operation of a handle first asserts that the required
//! right is present in the rights mask stamped on the handle at open
//! time; absence fails with a permission error before the underlying
//! node is ever touched.

use vstd::prelude::*;

use crate::node::{read_bytes, read_len, truncate_bytes, write_bytes, VfsModel, VfsNodeOps, VfsOps};
use crate::path::{normalize_abs, AbsPath, SEP};
use crate::root::{root_unchanged, root_unchanged_except_data, NodeLoc, RootDirectory};
use crate::structs::{VfsError, VfsNodePerm, VfsResult};
use vstd::string::StringSliceAdditionalSpecFns;

verus! {

/// Alias of [`crate::structs::VfsNodeType`].
pub type FileType = crate::structs::VfsNodeType;

/// Alias of [`crate::structs::VfsDirEntry`].
pub type DirEntry = crate::structs::VfsDirEntry;

/// Alias of [`crate::structs::VfsNodeAttr`].
pub type FileAttr = crate::structs::VfsNodeAttr;

/// Alias of [`crate::structs::VfsNodePerm`].
pub type FilePerm = crate::structs::VfsNodePerm;

/// The rights a handle is permitted to exercise on its node.
#[derive(Clone, Copy, Debug, PartialEq, Eq, Structural)]
pub struct Cap {
    /// The right to read.
    pub read: bool,
    /// The right to write.
    pub write: bool,
    /// The right to execute (for a directory: to traverse it).
    pub execute: bool,
}

impl Cap {
    /// Whether every right of `other` is present in `self`.
    pub open spec fn spec_contains(self, other: Cap) -> bool {
        &&& other.read ==> self.read
        &&& other.write ==> self.write
        &&& other.execute ==> self.execute
    }

    /// The empty rights mask.
    pub fn empty() -> (r: Cap)
        ensures
            r == (Cap { read: false, write: false, execute: false }),
    {
        Cap { read: false, write: false, execute: false }
    }

    /// Whether every right of `other` is present in `self`.
    pub fn contains(&self, other: &Cap) -> (r: bool)
        ensures
            r == self.spec_contains(*other),
    {
        (!other.read || self.read) && (!other.write || self.write) && (!other.execute
            || self.execute)
    }

    /// The union of two rights masks.
    pub fn union(self, other: Cap) -> (r: Cap)
        ensures
            r == (Cap {
                read: self.read || other.read,
                write: self.write || other.write,
                execute: self.execute || other.execute,
            }),
    {
        Cap {
            read: self.read || other.read,
            write: self.write || other.write,
            execute: self.execute || other.execute,
        }
    }
}

/// The rights a node's owner-class permission bits grant.
pub open spec fn spec_perm_to_cap(perm: VfsNodePerm) -> Cap {
    Cap {
        read: perm.spec_owner_readable(),
        write: perm.spec_owner_writable(),
        execute: perm.spec_owner_executable(),
    }
}

/// Derives the rights mask a node's owner-class permission bits grant.
fn perm_to_cap(perm: FilePerm) -> (r: Cap)
    ensures
        r == spec_perm_to_cap(perm),
{
    let mut cap = Cap::empty();
    if perm.owner_readable() {
        cap.read = true;
    }
    if perm.owner_writable() {
        cap.write = true;
    }
    if perm.owner_executable() {
        cap.execute = true;
    }
    cap
}

/// The open-time gate: what opening a node with attributes `attr`
/// under options `opt` decides, before the node is ever touched.  A
/// type mismatch is a hard error (`IsADirectory`/`NotADirectory`), an
/// owner permission mask that does not cover every demanded right is
/// `PermissionDenied`, and otherwise the handle's rights mask is
/// exactly the demanded one.
pub fn open_check(attr: &FileAttr, opt: &OpenOptions, as_dir: bool) -> (r: VfsResult<Cap>)
    ensures
        r == (if !as_dir && attr.ty is Dir {
            Err::<Cap, VfsError>(VfsError::IsADirectory)
        } else if as_dir && !(attr.ty is Dir) {
            Err::<Cap, VfsError>(VfsError::NotADirectory)
        } else if !spec_perm_to_cap(attr.mode).spec_contains(opt.spec_to_cap()) {
            Err::<Cap, VfsError>(VfsError::PermissionDenied)
        } else {
            Ok::<Cap, VfsError>(opt.spec_to_cap())
        }),
{
    if !as_dir && attr.is_dir() {
        return Err(VfsError::IsADirectory);
    }
    if as_dir && !attr.is_dir() {
        return Err(VfsError::NotADirectory);
    }
    let cap = opt.to_cap();
    if !perm_to_cap(attr.perm()).contains(&cap) {
        return Err(VfsError::PermissionDenied);
    }
    Ok(cap)
}

/// A position to seek to within a file.
#[derive(Clone, Copy, Debug, PartialEq, Eq, Structural)]
pub enum SeekFrom {
    /// An absolute offset from the start of the file.
    Start(u64),
    /// A signed offset from the current cursor.
    Current(i64),
    /// A signed offset from the end of the file.
    End(i64),
}

/// Options and flags which can be used to configure how a file is
/// opened.
#[derive(Clone, Copy, Debug, PartialEq, Eq, Structural)]
pub struct OpenOptions {
    /// Open for reading.
    pub read: bool,
    /// Open for writing.
    pub write: bool,
    /// Every write appends at the file's current end.
    pub append: bool,
    /// Truncate the file to zero length on open.
    pub truncate: bool,
    /// Create the file if it does not exist.
    pub create: bool,
    /// Create the file, failing if it already exists.
    pub create_new: bool,
    /// Close the handle when a new program is executed.
    pub cloexec: bool,
}

impl OpenOptions {
    /// The consistency rules on an option set: at least one of
    /// read/write/append is requested, and truncate/create/create-new
    /// only come together with write, or (for truncate) with append
    /// plus create-new.
    pub open spec fn spec_is_valid(&self) -> bool {
        &&& self.read || self.write || self.append
        &&& if self.write && !self.append {
            true
        } else if !self.write && !self.append {
            !(self.truncate || self.create || self.create_new)
        } else {
            !(self.truncate && !self.create_new)
        }
    }

    /// The minimal rights mask the option set demands.
    pub open spec fn spec_to_cap(&self) -> Cap {
        Cap { read: self.read, write: self.write, execute: false }
    }

    /// Creates a blank new set of options ready for configuration.
    pub fn new() -> (r: Self)
        ensures
            r == (OpenOptions {
                read: false,
                write: false,
                append: false,
                truncate: false,
                create: false,
                create_new: false,
                cloexec: false,
            }),
    {
        OpenOptions {
            read: false,
            write: false,
            append: false,
            truncate: false,
            create: false,
            create_new: false,
            cloexec: false,
        }
    }

    /// Sets the option for read access.
    pub fn read(&mut self, read: bool)
        ensures
            *final(self) == (OpenOptions { read, ..*old(self) }),
    {
        self.read = read;
    }

    /// Sets the option for write access.
    pub fn write(&mut self, write: bool)
        ensures
            *final(self) == (OpenOptions { write, ..*old(self) }),
    {
        self.write = write;
    }

    /// Sets the option for the append mode.
    pub fn append(&mut self, append: bool)
        ensures
            *final(self) == (OpenOptions { append, ..*old(self) }),
    {
        self.append = append;
    }

    /// Sets the option for truncating a previous file.
    pub fn truncate(&mut self, truncate: bool)
        ensures
            *final(self) == (OpenOptions { truncate, ..*old(self) }),
    {
        self.truncate = truncate;
    }

    /// Sets the option to create a new file, or open it if it already
    /// exists.
    pub fn create(&mut self, create: bool)
        ensures
            *final(self) == (OpenOptions { create, ..*old(self) }),
    {
        self.create = create;
    }

    /// Sets the option to create a new file, failing if it already
    /// exists.
    pub fn create_new(&mut self, create_new: bool)
        ensures
            *final(self) == (OpenOptions { create_new, ..*old(self) }),
    {
        self.create_new = create_new;
    }

    /// Sets the option to close the file after exec.
    pub fn cloexec(&mut self, cloexec: bool)
        ensures
            *final(self) == (OpenOptions { cloexec, ..*old(self) }),
    {
        self.cloexec = cloexec;
    }

    /// The minimal rights mask the option set demands.
    pub fn to_cap(&self) -> (r: Cap)
        ensures
            r == self.spec_to_cap(),
    {
        let mut cap = Cap::empty();
        if self.read {
            cap.read = true;
        }
        if self.write {
            cap.write = true;
        }
        cap
    }

    /// Whether the option set is consistent: some access is requested,
    /// and truncate/create/create-new appear only in combinations that
    /// can honor them.
    pub fn is_valid(&self) -> (r: bool)
        ensures
            r == self.spec_is_valid(),
    {
        if !self.read && !self.write && !self.append {
            return false;
        }
        match (self.write, self.append) {
            (true, false) => {},
            (false, false) => {
                if self.truncate || self.create || self.create_new {
                    return false;
                }
            },
            (_, true) => {
                if self.truncate && !self.create_new {
                    return false;
                }
            },
        }
        true
    }
}

/// What a seek request aims at: an absolute position, or a signed
/// offset from the cursor or from the end of the file.
pub open spec fn seek_result(pos: SeekFrom, cur: int, size: int) -> int {
    match pos {
        SeekFrom::Start(p) => p as int,
        SeekFrom::Current(d) => cur + d,
        SeekFrom::End(d) => size + d,
    }
}

/// The seek decision: the position a request aims at from the current
/// cursor and file size, or nothing when the target is negative or
/// does not fit the cursor's range.
pub fn seek_target(cur: u64, size: u64, pos: SeekFrom) -> (r: Option<u64>)
    ensures
        r is Some <==> 0 <= seek_result(pos, cur as int, size as int) <= u64::MAX as int,
        r matches Some(p) ==> p as int == seek_result(pos, cur as int, size as int),
{
    match pos {
        SeekFrom::Start(p) => Some(p),
        SeekFrom::Current(d) => cur.checked_add_signed(d),
        SeekFrom::End(d) => size.checked_add_signed(d),
    }
}

/// An opened file object, with open permissions and a cursor.
///
/// Every operation first checks the required right against the rights
/// mask stamped on the handle when it was opened; a denied operation
/// fails before the underlying node is touched.  The cursor advances
/// with `read`/`write` and is repositioned by `seek`; `read_at` and
/// `write_at` bypass it.  Closing is explicit: [`File::release`]
/// consumes the handle and runs the node's release hook, so no
/// operation can follow it.
pub struct File {
    /// The absolute path the file was opened under (for reporting).
    pub path: AbsPath,
    /// The node the handle operates on.
    pub loc: NodeLoc,
    /// The rights stamped on the handle at open time.
    pub cap: Cap,
    /// Whether every write appends at the file's current end.
    pub append: bool,
    /// The byte cursor.
    pub offset: u64,
}

impl File {
    /// Creates an opened file.
    pub fn new(path: AbsPath, loc: NodeLoc, cap: Cap, append: bool) -> (r: Self)
        ensures
            r.path@ == path@,
            r.loc == loc,
            r.cap == cap,
            r.append == append,
            r.offset == 0,
    {
        File { path, loc, cap, append, offset: 0 }
    }

    /// The absolute path of the file.
    pub fn path(&self) -> (r: AbsPath)
        ensures
            r@ == self.path@,
    {
        self.path.clone()
    }

    /// Gets the file attributes.
    pub fn get_attr<F: VfsModel + VfsNodeOps + VfsOps>(&self, root: &RootDirectory<F>) -> (r:
        VfsResult<FileAttr>)
        requires
            root.wf(),
        ensures
            r matches Ok(a) ==> {
                &&& root.loc_valid(self.loc)
                &&& a.ty == root.loc_ty(self.loc)
                &&& a.mode == root.loc_perm(self.loc)
                &&& root.loc_ty(self.loc) is File ==> a.size == root.loc_data(self.loc).len()
            },
    {
        root.get_attr_at(self.loc)
    }

    /// Truncates the file to the specified size.  Requires the write
    /// right; a denied call leaves the namespace untouched.
    pub fn truncate<F: VfsModel + VfsNodeOps + VfsOps>(
        &self,
        root: &mut RootDirectory<F>,
        size: u64,
    ) -> (r: VfsResult)
        requires
            old(root).wf(),
        ensures
            final(root).wf(),
            !self.cap.write ==> r == Err::<(), VfsError>(VfsError::PermissionDenied)
                && *final(root) == *old(root),
            r is Ok ==> {
                &&& self.cap.write
                &&& old(root).loc_valid(self.loc)
                &&& old(root).loc_ty(self.loc) is File
                &&& final(root).loc_data(self.loc) == truncate_bytes(
                    old(root).loc_data(self.loc),
                    size as nat,
                )
                &&& root_unchanged_except_data(old(root), final(root), self.loc)
            },
            r is Err ==> root_unchanged(old(root), final(root)),
    {
        if !self.cap.write {
            proof {
                crate::root::lemma_root_refl(old(root));
            }
            return Err(VfsError::PermissionDenied);
        }
        root.truncate_at(self.loc, size)
    }

    /// Reads the file at the current position into `buf` and advances
    /// the cursor by the number of bytes read.  Requires the read
    /// right.
    pub fn read<F: VfsModel + VfsNodeOps + VfsOps>(
        &mut self,
        root: &RootDirectory<F>,
        buf: &mut Vec<u8>,
    ) -> (r: VfsResult<usize>)
        requires
            root.wf(),
        ensures
            final(self).path@ == old(self).path@,
            final(self).loc == old(self).loc,
            final(self).cap == old(self).cap,
            final(self).append == old(self).append,
            final(buf)@.len() == old(buf)@.len(),
            !old(self).cap.read ==> r == Err::<usize, VfsError>(VfsError::PermissionDenied)
                && *final(self) == *old(self) && final(buf)@ == old(buf)@,
            r matches Ok(n) ==> {
                &&& old(self).cap.read
                &&& root.loc_valid(old(self).loc)
                &&& root.loc_ty(old(self).loc) is File
                &&& n as nat == read_len(
                    root.loc_data(old(self).loc).len(),
                    old(self).offset as nat,
                    old(buf)@.len(),
                )
                &&& final(buf)@ == read_bytes(
                    root.loc_data(old(self).loc),
                    old(self).offset as nat,
                    old(buf)@,
                )
                &&& final(self).offset == old(self).offset + n
            },
            r is Err ==> final(buf)@ == old(buf)@ && final(self).offset == old(self).offset,
    {
        if !self.cap.read {
            return Err(VfsError::PermissionDenied);
        }
        match root.read_at(self.loc, self.offset, buf) {
            Ok(n) => {
                self.offset = self.offset + n as u64;
                Ok(n)
            },
            Err(e) => Err(e),
        }
    }

    /// Reads the file at the given position into `buf` without
    /// touching the cursor.  Requires the read right.
    pub fn read_at<F: VfsModel + VfsNodeOps + VfsOps>(
        &self,
        root: &RootDirectory<F>,
        offset: u64,
        buf: &mut Vec<u8>,
    ) -> (r: VfsResult<usize>)
        requires
            root.wf(),
        ensures
            final(buf)@.len() == old(buf)@.len(),
            !self.cap.read ==> r == Err::<usize, VfsError>(VfsError::PermissionDenied)
                && final(buf)@ == old(buf)@,
            r matches Ok(n) ==> {
                &&& self.cap.read
                &&& root.loc_valid(self.loc)
                &&& root.loc_ty(self.loc) is File
                &&& n as nat == read_len(
                    root.loc_data(self.loc).len(),
                    offset as nat,
                    old(buf)@.len(),
                )
                &&& final(buf)@ == read_bytes(root.loc_data(self.loc), offset as nat, old(buf)@)
            },
            r is Err ==> final(buf)@ == old(buf)@,
    {
        if !self.cap.read {
            return Err(VfsError::PermissionDenied);
        }
        root.read_at(self.loc, offset, buf)
    }

    /// Writes `buf` at the current position and advances the cursor by
    /// the number of bytes written.  In append mode the write position
    /// is recomputed to the file's current size immediately before the
    /// write, so growth through another handle is respected.  Requires
    /// the write right; a denied call leaves the namespace untouched.
    pub fn write<F: VfsModel + VfsNodeOps + VfsOps>(
        &mut self,
        root: &mut RootDirectory<F>,
        buf: &[u8],
    ) -> (r: VfsResult<usize>)
        requires
            old(root).wf(),
        ensures
            final(root).wf(),
            final(self).path@ == old(self).path@,
            final(self).loc == old(self).loc,
            final(self).cap == old(self).cap,
            final(self).append == old(self).append,
            !old(self).cap.write ==> r == Err::<usize, VfsError>(VfsError::PermissionDenied)
                && *final(root) == *old(root) && *final(self) == *old(self),
            r matches Ok(n) ==> {
                &&& old(self).cap.write
                &&& old(root).loc_valid(old(self).loc)
                &&& old(root).loc_ty(old(self).loc) is File
                &&& n == buf@.len()
                &&& old(self).append ==> {
                    &&& final(root).loc_data(old(self).loc) == old(root).loc_data(old(self).loc)
                        + buf@
                    &&& final(self).offset as nat == old(root).loc_data(old(self).loc).len()
                        + buf@.len()
                }
                &&& !old(self).append ==> {
                    &&& final(root).loc_data(old(self).loc) == write_bytes(
                        old(root).loc_data(old(self).loc),
                        old(self).offset as nat,
                        buf@,
                    )
                    &&& final(self).offset == old(self).offset + n
                }
                &&& root_unchanged_except_data(old(root), final(root), old(self).loc)
            },
            r is Err ==> root_unchanged(old(root), final(root))
                && final(self).offset == old(self).offset,
    {
        if !self.cap.write {
            proof {
                crate::root::lemma_root_refl(old(root));
            }
            return Err(VfsError::PermissionDenied);
        }
        let off: u64 = if self.append {
            let attr = match root.get_attr_at(self.loc) {
                Ok(a) => a,
                Err(e) => {
                    proof {
                        crate::root::lemma_root_refl(old(root));
                    }
                    return Err(e);
                },
            };
            attr.size()
        } else {
            self.offset
        };
        match root.write_at(self.loc, off, buf) {
            Ok(n) => {
                proof {
                    if self.append {
                        let d = old(root).loc_data(self.loc);
                        assert(write_bytes(d, d.len(), buf@) =~= d + buf@);
                    }
                }
                self.offset = off + n as u64;
                Ok(n)
            },
            Err(e) => Err(e),
        }
    }

    /// Writes `buf` at the given position without touching the cursor.
    /// Requires the write right; a denied call leaves the namespace
    /// untouched.
    pub fn write_at<F: VfsModel + VfsNodeOps + VfsOps>(
        &self,
        root: &mut RootDirectory<F>,
        offset: u64,
        buf: &[u8],
    ) -> (r: VfsResult<usize>)
        requires
            old(root).wf(),
        ensures
            final(root).wf(),
            !self.cap.write ==> r == Err::<usize, VfsError>(VfsError::PermissionDenied)
                && *final(root) == *old(root),
            r matches Ok(n) ==> {
                &&& self.cap.write
                &&& old(root).loc_valid(self.loc)
                &&& old(root).loc_ty(self.loc) is File
                &&& n == buf@.len()
                &&& final(root).loc_data(self.loc) == write_bytes(
                    old(root).loc_data(self.loc),
                    offset as nat,
                    buf@,
                )
                &&& root_unchanged_except_data(old(root), final(root), self.loc)
            },
            r is Err ==> root_unchanged(old(root), final(root)),
    {
        if !self.cap.write {
            proof {
                crate::root::lemma_root_refl(old(root));
            }
            return Err(VfsError::PermissionDenied);
        }
        root.write_at(self.loc, offset, buf)
    }

    /// Flushes the file, synchronizing its data to the underlying
    /// device.  Requires the write right.
    pub fn flush<F: VfsModel + VfsNodeOps + VfsOps>(&self, root: &mut RootDirectory<F>) -> (r:
        VfsResult)
        requires
            old(root).wf(),
        ensures
            final(root).wf(),
            root_unchanged(old(root), final(root)),
            !self.cap.write ==> r == Err::<(), VfsError>(VfsError::PermissionDenied),
    {
        if !self.cap.write {
            proof {
                crate::root::lemma_root_refl(old(root));
            }
            return Err(VfsError::PermissionDenied);
        }
        root.fsync_at(self.loc)
    }

    /// Sets the cursor to the given position, computed from the start,
    /// the current cursor, or the end of the file.  A negative or
    /// overflowing target fails with `InvalidInput` and leaves the
    /// cursor alone.  Returns the new position.
    pub fn seek<F: VfsModel + VfsNodeOps + VfsOps>(
        &mut self,
        root: &RootDirectory<F>,
        pos: SeekFrom,
    ) -> (r: VfsResult<u64>)
        requires
            root.wf(),
        ensures
            final(self).path@ == old(self).path@,
            final(self).loc == old(self).loc,
            final(self).cap == old(self).cap,
            final(self).append == old(self).append,
            r matches Ok(p) ==> {
                &&& final(self).offset == p
                &&& pos matches SeekFrom::Start(q) ==> p == q
                &&& root.loc_ty(old(self).loc) is File ==> p as int == seek_result(
                    pos,
                    old(self).offset as int,
                    root.loc_data(old(self).loc).len() as int,
                )
            },
            r is Err ==> final(self).offset == old(self).offset,
            root.loc_ty(old(self).loc) is File && root.loc_valid(old(self).loc) && !(
            0 <= seek_result(
                pos,
                old(self).offset as int,
                root.loc_data(old(self).loc).len() as int,
            ) <= u64::MAX as int) ==> r is Err,
    {
        let attr = match root.get_attr_at(self.loc) {
            Ok(a) => a,
            Err(e) => {
                return Err(e);
            },
        };
        let size = attr.size();
        match seek_target(self.offset, size, pos) {
            Some(p) => {
                self.offset = p;
                Ok(p)
            },
            None => Err(VfsError::InvalidInput),
        }
    }

    /// Closes the handle, running the node's release hook.  A release
    /// failure is discarded: release is best-effort cleanup.
    pub fn release<F: VfsModel + VfsNodeOps + VfsOps>(self, root: &mut RootDirectory<F>)
        requires
            old(root).wf(),
        ensures
            final(root).wf(),
            root_unchanged(old(root), final(root)),
    {
        let _ = root.release_at(self.loc);
    }
}

/// An opened directory object, with open permissions and an
/// entry-index cursor for resumable listing.  Closing is explicit:
/// [`Directory::release`] consumes the handle and runs the node's
/// release hook.
pub struct Directory {
    /// The absolute path the directory was opened under.
    pub path: AbsPath,
    /// The node the handle operates on.
    pub loc: NodeLoc,
    /// The rights stamped on the handle at open time.
    pub cap: Cap,
    /// The entry-index cursor: how many entries were already consumed.
    pub entry_idx: usize,
}

impl Directory {
    /// Creates an opened directory.
    pub fn new(path: AbsPath, loc: NodeLoc, cap: Cap) -> (r: Self)
        ensures
            r.path@ == path@,
            r.loc == loc,
            r.cap == cap,
            r.entry_idx == 0,
    {
        Directory { path, loc, cap, entry_idx: 0 }
    }

    /// The absolute path of the directory.
    pub fn path(&self) -> (r: AbsPath)
        ensures
            r@ == self.path@,
    {
        self.path.clone()
    }

    /// Gets the directory attributes.
    pub fn get_attr<F: VfsModel + VfsNodeOps + VfsOps>(&self, root: &RootDirectory<F>) -> (r:
        VfsResult<FileAttr>)
        requires
            root.wf(),
        ensures
            r matches Ok(a) ==> {
                &&& root.loc_valid(self.loc)
                &&& a.ty == root.loc_ty(self.loc)
                &&& a.mode == root.loc_perm(self.loc)
            },
    {
        root.get_attr_at(self.loc)
    }

    /// Reads directory entries starting at the cursor into `dirents`
    /// and advances the cursor by the number of entries read; for a
    /// buffer with capacity at least one, `0` entries means the
    /// listing is exhausted.  Requires the execute (traversal) right.
    pub fn read_dir<F: VfsModel + VfsNodeOps + VfsOps>(
        &mut self,
        root: &RootDirectory<F>,
        dirents: &mut Vec<DirEntry>,
    ) -> (r: VfsResult<usize>)
        requires
            root.wf(),
        ensures
            final(self).path@ == old(self).path@,
            final(self).loc == old(self).loc,
            final(self).cap == old(self).cap,
            final(dirents)@.len() == old(dirents)@.len(),
            !old(self).cap.execute ==> r == Err::<usize, VfsError>(VfsError::PermissionDenied)
                && *final(self) == *old(self) && final(dirents)@ == old(dirents)@,
            r matches Ok(n) ==> {
                &&& old(self).cap.execute
                &&& root.loc_valid(old(self).loc)
                &&& root.loc_ty(old(self).loc) is Dir
                &&& n as nat == read_len(
                    root.loc_entries(old(self).loc).len(),
                    old(self).entry_idx as nat,
                    old(dirents)@.len(),
                )
                &&& forall|t: int| #![auto] 0 <= t < n ==> crate::node::entry_models(
                    final(dirents)@[t],
                    root.loc_entries(old(self).loc)[old(self).entry_idx + t],
                )
                &&& forall|t: int| n <= t < old(dirents)@.len() ==> final(dirents)@[t] == old(
                    dirents,
                )@[t]
                &&& final(self).entry_idx == old(self).entry_idx + n
            },
            r is Err ==> final(dirents)@ == old(dirents)@
                && final(self).entry_idx == old(self).entry_idx,
    {
        if !self.cap.execute {
            return Err(VfsError::PermissionDenied);
        }
        match root.read_dir_at(self.loc, self.entry_idx, dirents) {
            Ok(n) => {
                self.entry_idx = self.entry_idx + n;
                Ok(n)
            },
            Err(e) => Err(e),
        }
    }

    /// The entry cursor of the directory.
    pub fn entry_idx(&self) -> (r: usize)
        ensures
            r == self.entry_idx,
    {
        self.entry_idx
    }

    /// Sets the entry cursor of the directory.
    pub fn set_entry_idx(&mut self, idx: usize)
        ensures
            *final(self) == (Directory { entry_idx: idx, ..*old(self) }),
    {
        self.entry_idx = idx;
    }

    /// Closes the handle, running the node's release hook.  A release
    /// failure is discarded: release is best-effort cleanup.
    pub fn release<F: VfsModel + VfsNodeOps + VfsOps>(self, root: &mut RootDirectory<F>)
        requires
            old(root).wf(),
        ensures
            final(root).wf(),
            root_unchanged(old(root), final(root)),
    {
        let _ = root.release_at(self.loc);
    }
}

/// The working-directory state the surrounding runtime owns, supplied
/// to the facade when relative paths must be resolved.
pub struct Cwd {
    dir: AbsPath,
}

impl Cwd {
    /// A working directory at the namespace root.
    pub fn new() -> (r: Cwd)
        ensures
            r.current() == seq![SEP],
    {
        let dir = AbsPath::from_bytes(&[]);
        proof {
            assert(dir@ =~= seq![SEP]);
        }
        Cwd { dir }
    }

    /// The current working directory.
    pub closed spec fn current(&self) -> Seq<u8> {
        self.dir@
    }

    /// Returns the current working directory.
    pub fn current_dir(&self) -> (r: AbsPath)
        ensures
            r@ == self.current(),
    {
        self.dir.clone()
    }

    /// Sets the current working directory.
    pub fn set_current_dir(&mut self, path: AbsPath)
        ensures
            final(self).current() == path@,
    {
        self.dir = path;
    }
}

/// What a raw path resolves to against a working directory: an
/// absolute input normalizes as it is, a relative one under `cwd`.
pub open spec fn spec_resolved_path(cwd: Seq<u8>, raw: Seq<u8>) -> Seq<u8> {
    if raw.len() > 0 && raw[0] == SEP {
        normalize_abs(raw)
    } else {
        normalize_abs(cwd + seq![SEP] + raw)
    }
}

/// Resolves a raw path against the working directory: an absolute
/// input is normalized as it is, a relative one is resolved under
/// `cwd`.
pub fn absolute_path(cwd: &AbsPath, raw: &str) -> (r: AbsPath)
    ensures
        r@ == spec_resolved_path(cwd@, raw.spec_bytes()),
{
    let b = raw.as_bytes();
    if b.len() > 0 && b[0] == SEP {
        AbsPath::from_bytes(b)
    } else {
        let mut joined = crate::path::clone_bytes(cwd.as_bytes());
        joined.push(SEP);
        let mut i: usize = 0;
        while i < b.len()
            invariant
                i <= b@.len(),
                joined@ == cwd@ + seq![SEP] + b@.take(i as int),
            decreases b@.len() - i,
        {
            joined.push(b[i]);
            i += 1;
            proof {
                assert(joined@ =~= cwd@ + seq![SEP] + b@.take(i as int));
            }
        }
        proof {
            assert(b@.take(b@.len() as int) =~= b@);
        }
        AbsPath::from_bytes(joined.as_slice())
    }
}

/// Builds the namespace: the main filesystem serves the root, and
/// each given mount point is registered in order.  On success the
/// result holds exactly the given mount points, in the given order;
/// the first registration failure (a root or duplicate mount path, or
/// a failing mount hook) surfaces unchanged.
pub fn init_rootfs<F: VfsModel + VfsNodeOps + VfsOps>(
    main: F,
    mount_points: Vec<crate::root::MountPoint<F>>,
) -> (r: VfsResult<RootDirectory<F>>)
    requires
        main.wf(),
        forall|i: int| 0 <= i < mount_points@.len() ==> (#[trigger] mount_points@[i].fs).wf(),
    ensures
        r matches Ok(root) ==> {
            &&& root.wf()
            &&& root.mounts@.len() == mount_points@.len()
            &&& root.mount_paths() == mount_points@.map_values(
                |m: crate::root::MountPoint<F>| m.path@,
            )
        },
{
    let ghost all = mount_points@.map_values(|m: crate::root::MountPoint<F>| m.path@);
    let mut root = RootDirectory::new(main);
    let mut rest = mount_points;
    proof {
        assert(root.mount_paths() =~= all.take(0));
    }
    while rest.len() > 0
        invariant
            root.wf(),
            rest@.len() <= all.len(),
            forall|i: int| 0 <= i < rest@.len() ==> (#[trigger] rest@[i].fs).wf(),
            forall|i: int|
                0 <= i < rest@.len() ==> (#[trigger] rest@[i].path@) == all[all.len() - rest@.len()
                    + i],
            root.mount_paths() == all.take((all.len() - rest@.len()) as int),
        decreases rest@.len(),
    {
        let ghost prev = rest@;
        let ghost k = all.len() - prev.len();
        let mp = rest.remove(0);
        proof {
            assert(mp.fs.wf());
            assert(mp.path@ == all[k as int]);
            assert forall|i: int| 0 <= i < rest@.len() implies (#[trigger] rest@[i].fs).wf() && (
            #[trigger] rest@[i].path@) == all[all.len() - rest@.len() + i] by {
                assert(rest@[i] == prev[i + 1]);
            }
        }
        match root.mount(mp.path, mp.fs) {
            Ok(()) => {
                proof {
                    assert(root.mount_paths() =~= all.take((k + 1) as int));
                }
            },
            Err(e) => {
                return Err(e);
            },
        }
    }
    proof {
        assert(all.take(all.len() as int) =~= all);
    }
    Ok(root)
}

/// Looks up the node at an absolute path.
pub fn lookup<F: VfsModel + VfsNodeOps + VfsOps>(
    root: &RootDirectory<F>,
    path: &AbsPath,
) -> (r: VfsResult<NodeLoc>)
    requires
        root.wf(),
    ensures
        r matches Ok(loc) ==> root.resolve_abs(path@) == Some(loc) && root.loc_valid(loc),
        r == Err::<NodeLoc, VfsError>(VfsError::NotFound) ==> root.resolve_abs(path@) is None,
{
    root.lookup(path)
}

/// Gets the attributes of the node at an absolute path.
pub fn get_attr<F: VfsModel + VfsNodeOps + VfsOps>(
    root: &RootDirectory<F>,
    path: &AbsPath,
) -> (r: VfsResult<FileAttr>)
    requires
        root.wf(),
    ensures
        r matches Ok(a) ==> root.resolve_abs(path@) matches Some(loc) && a.ty == root.loc_ty(loc)
            && a.mode == root.loc_perm(loc) && (root.loc_ty(loc) is File ==> a.size
            == root.loc_data(loc).len()),
{
    let loc = match root.lookup(path) {
        Ok(loc) => loc,
        Err(e) => {
            return Err(e);
        },
    };
    root.get_attr_at(loc)
}

/// Opens the node `loc` as a file under `path`, with permission
/// checked: a directory is rejected, and the node's owner permission
/// bits must cover every right the options demand.  On success the
/// node's open hook has run and the handle's rights mask is exactly
/// the demanded one.
pub fn open_file<F: VfsModel + VfsNodeOps + VfsOps>(
    path: &AbsPath,
    root: &mut RootDirectory<F>,
    loc: NodeLoc,
    opt: &OpenOptions,
) -> (r: VfsResult<File>)
    requires
        old(root).wf(),
    ensures
        final(root).wf(),
        root_unchanged(old(root), final(root)),
        r matches Ok(f) ==> {
            &&& f.path@ == path@
            &&& f.loc == loc
            &&& f.cap == opt.spec_to_cap()
            &&& f.append == opt.append
            &&& f.offset == 0
            &&& old(root).loc_valid(loc)
            &&& !(old(root).loc_ty(loc) is Dir)
            &&& spec_perm_to_cap(old(root).loc_perm(loc)).spec_contains(opt.spec_to_cap())
        },
        old(root).loc_valid(loc) && old(root).loc_ty(loc) is Dir ==> r is Err,
        old(root).loc_valid(loc) && !(old(root).loc_ty(loc) is Dir) && !spec_perm_to_cap(
            old(root).loc_perm(loc),
        ).spec_contains(opt.spec_to_cap()) ==> r is Err,
{
    let attr = match root.get_attr_at(loc) {
        Ok(a) => a,
        Err(e) => {
            proof {
                crate::root::lemma_root_refl(old(root));
            }
            return Err(e);
        },
    };
    let cap = match open_check(&attr, opt, false) {
        Ok(c) => c,
        Err(e) => {
            proof {
                crate::root::lemma_root_refl(old(root));
            }
            return Err(e);
        },
    };
    match root.open_at(loc) {
        Ok(()) => {},
        Err(e) => {
            return Err(e);
        },
    }
    Ok(File::new(path.clone(), loc, cap, opt.append))
}

/// Opens the node `loc` as a directory under `path`, with permission
/// checked: a non-directory is rejected, and the node's owner
/// permission bits must cover every right the options demand.  The
/// handle's rights mask additionally carries the execute (traversal)
/// right.
pub fn open_dir<F: VfsModel + VfsNodeOps + VfsOps>(
    path: &AbsPath,
    root: &mut RootDirectory<F>,
    loc: NodeLoc,
    opt: &OpenOptions,
) -> (r: VfsResult<Directory>)
    requires
        old(root).wf(),
    ensures
        final(root).wf(),
        root_unchanged(old(root), final(root)),
        r matches Ok(d) ==> {
            &&& d.path@ == path@
            &&& d.loc == loc
            &&& d.cap == (Cap { execute: true, ..opt.spec_to_cap() })
            &&& d.entry_idx == 0
            &&& old(root).loc_valid(loc)
            &&& old(root).loc_ty(loc) is Dir
            &&& spec_perm_to_cap(old(root).loc_perm(loc)).spec_contains(opt.spec_to_cap())
        },
        old(root).loc_valid(loc) && !(old(root).loc_ty(loc) is Dir) ==> r is Err,
        old(root).loc_valid(loc) && old(root).loc_ty(loc) is Dir && !spec_perm_to_cap(
            old(root).loc_perm(loc),
        ).spec_contains(opt.spec_to_cap()) ==> r is Err,
{
    let attr = match root.get_attr_at(loc) {
        Ok(a) => a,
        Err(e) => {
            proof {
                crate::root::lemma_root_refl(old(root));
            }
            return Err(e);
        },
    };
    let cap = match open_check(&attr, opt, true) {
        Ok(c) => c,
        Err(e) => {
            proof {
                crate::root::lemma_root_refl(old(root));
            }
            return Err(e);
        },
    };
    match root.open_at(loc) {
        Ok(()) => {},
        Err(e) => {
            return Err(e);
        },
    }
    Ok(Directory::new(path.clone(), loc, cap.union(Cap { read: false, write: false, execute: true })))
}

/// Looks up and opens a file at an arbitrary path.
///
/// A relative path is resolved against the working directory; an
/// absolute path is used as it is.
pub fn open<F: VfsModel + VfsNodeOps + VfsOps>(
    root: &mut RootDirectory<F>,
    cwd: &AbsPath,
    path: &str,
    opt: &OpenOptions,
) -> (r: VfsResult<File>)
    requires
        old(root).wf(),
    ensures
        final(root).wf(),
        root_unchanged(old(root), final(root)),
        r matches Ok(f) ==> {
            &&& f.cap == opt.spec_to_cap()
            &&& f.append == opt.append
            &&& f.offset == 0
            &&& old(root).loc_valid(f.loc)
            &&& !(old(root).loc_ty(f.loc) is Dir)
            &&& spec_perm_to_cap(old(root).loc_perm(f.loc)).spec_contains(opt.spec_to_cap())
            &&& f.path@ == spec_resolved_path(cwd@, path.spec_bytes())
            &&& old(root).resolve_abs(spec_resolved_path(cwd@, path.spec_bytes())) == Some(f.loc)
        },
        old(root).resolve_abs(spec_resolved_path(cwd@, path.spec_bytes())) is None ==> r is Err,
{
    let abs = absolute_path(cwd, path);
    let loc = match root.lookup(&abs) {
        Ok(loc) => loc,
        Err(e) => {
            proof {
                crate::root::lemma_root_refl(old(root));
            }
            return Err(e);
        },
    };
    open_file(&abs, root, loc, opt)
}

/// Creates a regular file at an absolute path.
///
/// Whether an existing path is tolerated is the owning filesystem's
/// `create` behavior; this call does not check beforehand.
pub fn create_file<F: VfsModel + VfsNodeOps + VfsOps>(
    root: &mut RootDirectory<F>,
    path: &AbsPath,
) -> (r: VfsResult)
    requires
        old(root).wf(),
    ensures
        final(root).wf(),
        final(root).mount_paths() == old(root).mount_paths(),
        r is Ok ==> final(root).resolve_abs(path@) is Some,
        r is Ok && old(root).resolve_abs(path@) is None ==> (final(root).resolve_abs(
            path@,
        ) matches Some(loc) && final(root).loc_ty(loc) is File),
        r is Err ==> root_unchanged(old(root), final(root)),
{
    root.create(path, FileType::File)
}

/// Creates a directory at an absolute path.
pub fn create_dir<F: VfsModel + VfsNodeOps + VfsOps>(
    root: &mut RootDirectory<F>,
    path: &AbsPath,
) -> (r: VfsResult)
    requires
        old(root).wf(),
    ensures
        final(root).wf(),
        final(root).mount_paths() == old(root).mount_paths(),
        r is Ok ==> final(root).resolve_abs(path@) is Some,
        r is Ok && old(root).resolve_abs(path@) is None ==> (final(root).resolve_abs(
            path@,
        ) matches Some(loc) && final(root).loc_ty(loc) is Dir),
        r is Err ==> root_unchanged(old(root), final(root)),
{
    root.create(path, FileType::Dir)
}

/// Creates a directory at an absolute path, together with every
/// missing parent; parents that already exist are tolerated.
pub fn create_dir_all<F: VfsModel + VfsNodeOps + VfsOps>(
    root: &mut RootDirectory<F>,
    path: &AbsPath,
) -> (r: VfsResult)
    requires
        old(root).wf(),
    ensures
        final(root).wf(),
        final(root).mount_paths() == old(root).mount_paths(),
        r is Ok ==> final(root).resolve_abs(path@) is Some,
        r is Ok && old(root).resolve_abs(path@) is None ==> (final(root).resolve_abs(
            path@,
        ) matches Some(loc) && final(root).loc_ty(loc) is Dir),
        forall|q: Seq<u8>| (#[trigger] old(root).resolve_abs(q)) is Some
            ==> final(root).resolve_abs(q) == old(root).resolve_abs(q),
{
    root.create_recursive(path, FileType::Dir)
}

/// Removes the file at an absolute path.  A mount point cannot be
/// removed.
pub fn remove_file<F: VfsModel + VfsNodeOps + VfsOps>(
    root: &mut RootDirectory<F>,
    path: &AbsPath,
) -> (r: VfsResult)
    requires
        old(root).wf(),
    ensures
        final(root).wf(),
        final(root).mount_paths() == old(root).mount_paths(),
        r is Ok ==> final(root).resolve_abs(path@) is None,
        r is Err ==> root_unchanged(old(root), final(root)),
{
    root.unlink(path)
}

/// Removes the directory at an absolute path.  The owning filesystem
/// rejects a directory that is not empty; a mount point cannot be
/// removed.
pub fn remove_dir<F: VfsModel + VfsNodeOps + VfsOps>(
    root: &mut RootDirectory<F>,
    path: &AbsPath,
) -> (r: VfsResult)
    requires
        old(root).wf(),
    ensures
        final(root).wf(),
        final(root).mount_paths() == old(root).mount_paths(),
        r is Ok ==> final(root).resolve_abs(path@) is None,
        r is Err ==> root_unchanged(old(root), final(root)),
{
    root.unlink(path)
}

/// Whether an absolute path is a mount point.
pub fn is_mount_point<F: VfsModel + VfsNodeOps + VfsOps>(
    root: &RootDirectory<F>,
    path: &AbsPath,
) -> (r: bool)
    ensures
        r == exists|i: int|
            0 <= i < root.mounts@.len() && (#[trigger] root.mounts@[i].path@) == path@,
{
    root.contains(path)
}

/// Renames a node from one absolute path to another.  Both paths must
/// belong to the same mount; a rename across two different mounts
/// fails with `InvalidInput` rather than relocating data.
pub fn rename<F: VfsModel + VfsNodeOps + VfsOps>(
    root: &mut RootDirectory<F>,
    old_path: &AbsPath,
    new_path: &AbsPath,
) -> (r: VfsResult)
    requires
        old(root).wf(),
    ensures
        final(root).wf(),
        final(root).mount_paths() == old(root).mount_paths(),
        crate::root::spec_best_mount(old(root).mount_paths(), old_path@)
            != crate::root::spec_best_mount(old(root).mount_paths(), new_path@) ==> r == Err::<
            (),
            VfsError,
        >(VfsError::InvalidInput),
        r is Ok ==> {
            &&& old(root).resolve_abs(old_path@) is Some
            &&& final(root).resolve_abs(new_path@) == old(root).resolve_abs(old_path@)
            &&& crate::root::dispatch_rest(old(root), old_path@) != crate::root::dispatch_rest(
                old(root),
                new_path@,
            ) ==> final(root).resolve_abs(old_path@) is None
        },
        r is Err ==> root_unchanged(old(root), final(root)),
{
    root.rename(old_path, new_path)
}

} // verus!
