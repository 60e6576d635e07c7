//! Plain attribute records shared by every part of the VFS: node types,
//! permission bits, node attributes, directory entries, filesystem stats,
//! and the error taxonomy.

use vstd::prelude::*;

verus! {

/// The type of a filesystem node. A node's type is immutable for its
/// lifetime; operations inapplicable to that type fail rather than panic.
#[derive(Clone, Copy, Debug, PartialEq, Eq, Structural)]
pub enum VfsNodeType {
    /// A regular file.
    File,
    /// A directory.
    Dir,
}

impl VfsNodeType {
    /// Whether this is the directory type.
    pub fn is_dir(&self) -> (r: bool)
        ensures
            r == (*self is Dir),
    {
        matches!(self, VfsNodeType::Dir)
    }

    /// Whether this is the regular-file type.
    pub fn is_file(&self) -> (r: bool)
        ensures
            r == (*self is File),
    {
        matches!(self, VfsNodeType::File)
    }
}

/// POSIX-style permission bits of a node (`rwxrwxrwx`). Only the
/// owner-class bits are interpreted by the VFS core.
#[derive(Clone, Copy, Debug, PartialEq, Eq, Structural)]
pub struct VfsNodePerm {
    /// Raw mode bits.
    pub bits: u16,
}

impl View for VfsNodePerm {
    type V = u16;

    open spec fn view(&self) -> u16 {
        self.bits
    }
}

impl VfsNodePerm {
    /// Whether the owner-read bit is set.
    pub open spec fn spec_owner_readable(&self) -> bool {
        self.bits & 0o400 != 0
    }

    /// Whether the owner-write bit is set.
    pub open spec fn spec_owner_writable(&self) -> bool {
        self.bits & 0o200 != 0
    }

    /// Whether the owner-execute bit is set.
    pub open spec fn spec_owner_executable(&self) -> bool {
        self.bits & 0o100 != 0
    }

    /// Builds a permission value from raw mode bits (only the low nine
    /// bits are kept).
    pub fn from_bits(bits: u16) -> (r: Self)
        ensures
            r@ == bits & 0o777,
    {
        VfsNodePerm { bits: bits & 0o777 }
    }

    /// The raw mode bits.
    pub fn bits(&self) -> (r: u16)
        ensures
            r == self@,
    {
        self.bits
    }

    /// The default permission of a regular file: `rw-rw-rw-`.
    pub fn default_file() -> (r: Self)
        ensures
            r@ == 0o666,
    {
        VfsNodePerm { bits: 0o666 }
    }

    /// The default permission of a directory: `rwxr-xr-x`.
    pub fn default_dir() -> (r: Self)
        ensures
            r@ == 0o755,
    {
        VfsNodePerm { bits: 0o755 }
    }

    /// Whether the owner may read.
    pub fn owner_readable(&self) -> (r: bool)
        ensures
            r == self.spec_owner_readable(),
    {
        self.bits & 0o400 != 0
    }

    /// Whether the owner may write.
    pub fn owner_writable(&self) -> (r: bool)
        ensures
            r == self.spec_owner_writable(),
    {
        self.bits & 0o200 != 0
    }

    /// Whether the owner may execute (for a directory: traverse).
    pub fn owner_executable(&self) -> (r: bool)
        ensures
            r == self.spec_owner_executable(),
    {
        self.bits & 0o100 != 0
    }
}

/// Per-node metadata: permission bits, type, byte size and block usage.
/// A value type with no identity beyond its contents.
#[derive(Clone, Copy, Debug, PartialEq, Eq, Structural)]
pub struct VfsNodeAttr {
    /// Permission bits of the node.
    pub mode: VfsNodePerm,
    /// Type of the node.
    pub ty: VfsNodeType,
    /// Size of the node's content in bytes.
    pub size: u64,
    /// Number of 512-byte blocks the content occupies.
    pub blocks: u64,
}

impl VfsNodeAttr {
    /// Builds an attribute record.
    pub fn new(mode: VfsNodePerm, ty: VfsNodeType, size: u64, blocks: u64) -> (r: Self)
        ensures
            r == (VfsNodeAttr { mode, ty, size, blocks }),
    {
        VfsNodeAttr { mode, ty, size, blocks }
    }

    /// The node's size in bytes.
    pub fn size(&self) -> (r: u64)
        ensures
            r == self.size,
    {
        self.size
    }

    /// The node's permission bits.
    pub fn perm(&self) -> (r: VfsNodePerm)
        ensures
            r == self.mode,
    {
        self.mode
    }

    /// The node's type.
    pub fn file_type(&self) -> (r: VfsNodeType)
        ensures
            r == self.ty,
    {
        self.ty
    }

    /// Whether the node is a directory.
    pub fn is_dir(&self) -> (r: bool)
        ensures
            r == (self.ty is Dir),
    {
        self.ty.is_dir()
    }

    /// Whether the node is a regular file.
    pub fn is_file(&self) -> (r: bool)
        ensures
            r == (self.ty is File),
    {
        self.ty.is_file()
    }
}

/// One directory entry: a name (bytes, without any separator) and the
/// type of the named node.
#[derive(Debug, PartialEq, Eq)]
pub struct VfsDirEntry {
    /// Name of the entry, relative to the directory that was read.
    pub name: Vec<u8>,
    /// Type of the named node.
    pub ty: VfsNodeType,
}

impl Clone for VfsDirEntry {
    /// Cloning keeps the name and the type.
    fn clone(&self) -> (r: Self)
        ensures
            r.name@ == self.name@,
            r.ty == self.ty,
    {
        VfsDirEntry { name: crate::path::clone_bytes(&self.name), ty: self.ty }
    }
}

impl VfsDirEntry {
    /// Builds a directory entry.
    pub fn new(name: Vec<u8>, ty: VfsNodeType) -> (r: Self)
        ensures
            r.name == name,
            r.ty == ty,
    {
        VfsDirEntry { name, ty }
    }

    /// An empty placeholder entry, used to size an output buffer.
    pub fn empty() -> (r: Self)
        ensures
            r.name@.len() == 0,
            r.ty is File,
    {
        VfsDirEntry { name: Vec::new(), ty: VfsNodeType::File }
    }

    /// The entry's name.
    pub fn entry_name(&self) -> (r: &Vec<u8>)
        ensures
            r == &self.name,
    {
        &self.name
    }

    /// The entry's node type.
    pub fn entry_type(&self) -> (r: VfsNodeType)
        ensures
            r == self.ty,
    {
        self.ty
    }
}

/// Filesystem-level statistics, as reported by a mounted filesystem.
#[derive(Clone, Copy, Debug, PartialEq, Eq, Structural)]
pub struct FileSystemInfo {
    /// Size of a storage block in bytes.
    pub block_size: u64,
    /// Total number of blocks.
    pub total_blocks: u64,
    /// Number of free blocks.
    pub free_blocks: u64,
    /// Number of nodes the filesystem holds.
    pub files: u64,
}

/// The error taxonomy surfaced uniformly across the VFS interface.
#[derive(Clone, Copy, Debug, PartialEq, Eq, Structural)]
pub enum VfsError {
    /// Operation not implemented by this node or filesystem kind.
    Unsupported,
    /// Malformed argument: bad seek target, invalid open-option
    /// combination, or a non-directory path component.
    InvalidInput,
    /// A directory was required but the node is not one.
    NotADirectory,
    /// A non-directory was required but the node is a directory.
    IsADirectory,
    /// The requested capability exceeds the node's permission bits.
    PermissionDenied,
    /// Create on an already existing path.
    AlreadyExists,
    /// Lookup failure.
    NotFound,
    /// Removal of a directory that still has entries.
    DirectoryNotEmpty,
    /// An error passed through opaquely from a storage device.
    Io,
    /// Out of memory while growing a node.
    NoMemory,
}

/// Result type used across the VFS interface.
pub type VfsResult<T = ()> = Result<T, VfsError>;

} // verus!
