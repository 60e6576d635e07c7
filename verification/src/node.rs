//! The node interface: the polymorphic contract every filesystem
//! implementation satisfies.
//!
//! A filesystem owns its nodes and addresses them by stable index
//! ([`NodeId`]); a node's id stays valid for the node's lifetime, also
//! across renames.  The [`VfsNodeOps`] trait carries the per-node
//! operations together with an abstract model (type, permission bits,
//! file content, directory listing, path resolution) that the contracts
//! speak of.  Every operation not applicable to a node's kind defaults to
//! a safe "unsupported" failure, so an implementation overrides only what
//! it needs.  The [`VfsOps`] trait carries the filesystem-level
//! operations.

use vstd::prelude::*;

use crate::path::{AbsPath, RelPath, SEP};
use crate::structs::{FileSystemInfo, VfsDirEntry, VfsError, VfsNodePerm, VfsNodeType, VfsResult};

verus! {

/// A stable index naming a node within its filesystem.
pub type NodeId = usize;

/// The abstract form of one directory entry.
pub struct DirEntryModel {
    /// The entry's name.
    pub name: Seq<u8>,
    /// The entry's node type.
    pub ty: VfsNodeType,
}

/// Whether the concrete directory entry `e` carries the abstract entry
/// `m`.
pub open spec fn entry_models(e: VfsDirEntry, m: DirEntryModel) -> bool {
    e.name@ == m.name && e.ty == m.ty
}

/// A sequence of `n` zero bytes.
pub open spec fn zeros(n: nat) -> Seq<u8> {
    Seq::new(n, |i: int| 0u8)
}

/// How many bytes (or entries) a read starting at `off` with capacity
/// `cap` takes from a source of length `len`: all that remain, bounded
/// by the capacity; nothing beyond the end.
pub open spec fn read_len(len: nat, off: nat, cap: nat) -> nat {
    if off >= len {
        0
    } else if len - off < cap {
        (len - off) as nat
    } else {
        cap
    }
}

/// The buffer after reading from `data` at `off` into a buffer that
/// held `buf`: the bytes read, then the untouched tail of the buffer.
pub open spec fn read_bytes(data: Seq<u8>, off: nat, buf: Seq<u8>) -> Seq<u8> {
    let n = read_len(data.len(), off, buf.len());
    if n == 0 {
        buf
    } else {
        data.subrange(off as int, (off + n) as int) + buf.skip(n as int)
    }
}

/// The file content after writing `b` at offset `off` into `data`: a
/// write past the end first fills the gap with zeros, a write inside
/// splices.
pub open spec fn write_bytes(data: Seq<u8>, off: nat, b: Seq<u8>) -> Seq<u8> {
    let prefix = if off <= data.len() {
        data.take(off as int)
    } else {
        data + zeros((off - data.len()) as nat)
    };
    let suffix = if off + b.len() < data.len() {
        data.skip((off + b.len()) as int)
    } else {
        Seq::<u8>::empty()
    };
    prefix + b + suffix
}

/// The file content after truncating `data` to `size` bytes: shrunk, or
/// zero-extended.
pub open spec fn truncate_bytes(data: Seq<u8>, size: nat) -> Seq<u8> {
    if size <= data.len() {
        data.take(size as int)
    } else {
        data + zeros((size - data.len()) as nat)
    }
}

/// Whether the whole abstract model of `b` equals that of `a`.
pub open spec fn model_unchanged<F: VfsModel>(a: &F, b: &F) -> bool {
    &&& forall|id: NodeId| #[trigger] b.has_node(id) == a.has_node(id)
    &&& forall|id: NodeId| a.has_node(id) ==> #[trigger] b.node_ty(id) == a.node_ty(id)
    &&& forall|id: NodeId| a.has_node(id) ==> #[trigger] b.node_perm(id) == a.node_perm(id)
    &&& forall|id: NodeId| a.has_node(id) ==> #[trigger] b.node_data(id) == a.node_data(id)
    &&& forall|id: NodeId| a.has_node(id) ==> #[trigger] b.dir_entries(id) == a.dir_entries(id)
    &&& forall|id: NodeId, rel: Seq<u8>| #[trigger] b.resolve(id, rel) == a.resolve(id, rel)
    &&& b.root_id() == a.root_id()
}

/// Whether every node of `a` survives in `b` with the same identity,
/// type, permission and content.
pub open spec fn nodes_kept<F: VfsModel>(a: &F, b: &F) -> bool {
    forall|id: NodeId| #[trigger] a.has_node(id) ==> b.has_node(id)
        && b.node_ty(id) == a.node_ty(id)
        && b.node_perm(id) == a.node_perm(id)
        && b.node_data(id) == a.node_data(id)
}

/// Whether every path that resolved in `a` still resolves to the same
/// node in `b`.
pub open spec fn resolve_kept<F: VfsModel>(a: &F, b: &F) -> bool {
    forall|id: NodeId, rel: Seq<u8>| (#[trigger] a.resolve(id, rel)) is Some
        ==> b.resolve(id, rel) == a.resolve(id, rel)
}

/// Whether the model of `b` equals that of `a` except for the file
/// content of node `id`.
pub open spec fn unchanged_except_data<F: VfsModel>(a: &F, b: &F, id: NodeId) -> bool {
    &&& forall|j: NodeId| #[trigger] b.has_node(j) == a.has_node(j)
    &&& forall|j: NodeId| a.has_node(j) ==> #[trigger] b.node_ty(j) == a.node_ty(j)
    &&& forall|j: NodeId| a.has_node(j) ==> #[trigger] b.node_perm(j) == a.node_perm(j)
    &&& forall|j: NodeId| a.has_node(j) && j != id ==> #[trigger] b.node_data(j) == a.node_data(
        j,
    )
    &&& forall|j: NodeId| a.has_node(j) ==> #[trigger] b.dir_entries(j) == a.dir_entries(j)
    &&& forall|j: NodeId, rel: Seq<u8>| #[trigger] b.resolve(j, rel) == a.resolve(j, rel)
    &&& b.root_id() == a.root_id()
}

/// The abstract model of a filesystem: what its nodes are, what they
/// hold, and how paths resolve.  Contracts of the node and filesystem
/// operations are stated over this model; each implementation gives the
/// model a concrete meaning.
pub trait VfsModel: Sized {
    /// The implementation's structural invariant.
    spec fn wf(&self) -> bool;

    /// The id of the filesystem's root directory.
    spec fn root_id(&self) -> NodeId;

    /// Whether `id` names a live node.
    spec fn has_node(&self, id: NodeId) -> bool;

    /// The type of node `id`.
    spec fn node_ty(&self, id: NodeId) -> VfsNodeType;

    /// The permission bits of node `id`.
    spec fn node_perm(&self, id: NodeId) -> VfsNodePerm;

    /// The content of file node `id`.
    spec fn node_data(&self, id: NodeId) -> Seq<u8>;

    /// The listing of directory node `id`, in the implementation's
    /// stable enumeration order.
    spec fn dir_entries(&self, id: NodeId) -> Seq<DirEntryModel>;

    /// The node that the fragment `rel` names, resolved against
    /// directory `id` (`rel` must be free of `.`/`..`; the empty
    /// fragment names `id` itself).
    spec fn resolve(&self, id: NodeId, rel: Seq<u8>) -> Option<NodeId>;
}

/// Node (file/directory) operations.
///
/// The contracts of the executable operations are stated over the
/// [`VfsModel`] supertrait.  Every operation defaults to a safe failure
/// (or no-op), so a concrete filesystem overrides only the operations
/// its nodes support.
pub trait VfsNodeOps: VfsModel {

    /// Hook run when the node is opened.  The default does nothing.
    fn open(&mut self, id: NodeId) -> (r: VfsResult)
        requires
            old(self).wf(),
        ensures
            final(self).wf(),
            model_unchanged(old(self), final(self)),
    {
        Ok(())
    }

    /// Hook run when the node is closed.  The default does nothing.
    fn release(&mut self, id: NodeId) -> (r: VfsResult)
        requires
            old(self).wf(),
        ensures
            final(self).wf(),
            model_unchanged(old(self), final(self)),
    {
        Ok(())
    }

    /// Gets the attributes of node `id`.  The default is unsupported.
    fn get_attr(&self, id: NodeId) -> (r: VfsResult<crate::structs::VfsNodeAttr>)
        requires
            self.wf(),
        ensures
            r matches Ok(a) ==> {
                &&& self.has_node(id)
                &&& a.ty == self.node_ty(id)
                &&& a.mode == self.node_perm(id)
                &&& self.node_ty(id) is File ==> a.size == self.node_data(id).len()
            },
    {
        Err(VfsError::Unsupported)
    }

    /// Sets attributes of node `id` (mode, owner, group, size; `None`
    /// leaves the attribute as it is).  The default is unsupported.
    fn setattr(
        &mut self,
        id: NodeId,
        mode: Option<u32>,
        uid: Option<u32>,
        gid: Option<u32>,
        size: Option<u64>,
    ) -> (r: VfsResult)
        requires
            old(self).wf(),
        ensures
            final(self).wf(),
            r is Err ==> model_unchanged(old(self), final(self)),
    {
        Err(VfsError::Unsupported)
    }

    /// Reads file node `id` at byte offset `offset` into `buf`.
    /// Returns the number of bytes read; the tail of `buf` beyond that
    /// count is untouched.  The default is unsupported, the behavior
    /// of every node kind the operation does not apply to.
    fn read_at(&self, id: NodeId, offset: u64, buf: &mut Vec<u8>) -> (r: VfsResult<usize>)
        requires
            self.wf(),
        ensures
            final(buf)@.len() == old(buf)@.len(),
            r matches Ok(n) ==> {
                &&& self.has_node(id)
                &&& self.node_ty(id) is File
                &&& n as nat == read_len(self.node_data(id).len(), offset as nat, old(buf)@.len())
                &&& offset as nat + n as nat <= u64::MAX as nat
                &&& final(buf)@ == read_bytes(self.node_data(id), offset as nat, old(buf)@)
            },
            r is Err ==> final(buf)@ == old(buf)@,
    {
        Err(VfsError::Unsupported)
    }

    /// Writes `buf` to file node `id` at byte offset `offset`, zero
    /// filling any gap past the current end.  Returns the number of
    /// bytes written, which is all of them.  The default is
    /// unsupported, the behavior of every node kind the operation does
    /// not apply to.
    fn write_at(&mut self, id: NodeId, offset: u64, buf: &[u8]) -> (r: VfsResult<usize>)
        requires
            old(self).wf(),
        ensures
            final(self).wf(),
            r matches Ok(n) ==> {
                &&& old(self).has_node(id)
                &&& old(self).node_ty(id) is File
                &&& n == buf@.len()
                &&& offset as nat + buf@.len() <= usize::MAX as nat
                &&& final(self).node_data(id) == write_bytes(
                    old(self).node_data(id),
                    offset as nat,
                    buf@,
                )
                &&& unchanged_except_data(old(self), final(self), id)
            },
            r is Err ==> model_unchanged(old(self), final(self)),
    {
        Err(VfsError::Unsupported)
    }

    /// Synchronizes file node `id` to its backing store.  The default
    /// is unsupported, the behavior of every node kind the operation
    /// does not apply to.
    fn fsync(&mut self, id: NodeId) -> (r: VfsResult)
        requires
            old(self).wf(),
        ensures
            final(self).wf(),
            model_unchanged(old(self), final(self)),
            r is Ok ==> old(self).has_node(id) && old(self).node_ty(id) is File,
    {
        Err(VfsError::Unsupported)
    }

    /// Truncates file node `id` to `size` bytes, zero extending a
    /// shorter file.  The default is unsupported, the behavior of
    /// every node kind the operation does not apply to.
    fn truncate(&mut self, id: NodeId, size: u64) -> (r: VfsResult)
        requires
            old(self).wf(),
        ensures
            final(self).wf(),
            r is Ok ==> {
                &&& old(self).has_node(id)
                &&& old(self).node_ty(id) is File
                &&& size as nat <= usize::MAX as nat
                &&& final(self).node_data(id) == truncate_bytes(old(self).node_data(id), size as nat)
                &&& unchanged_except_data(old(self), final(self), id)
            },
            r is Err ==> model_unchanged(old(self), final(self)),
    {
        Err(VfsError::Unsupported)
    }

    /// The parent directory of directory `id`, if the implementation
    /// tracks it.  The default, the correct answer for a file, is
    /// `None`.
    fn parent(&self, id: NodeId) -> (r: Option<NodeId>)
        requires
            self.wf(),
        ensures
            r matches Some(p) ==> self.has_node(p) && self.node_ty(p) is Dir,
    {
        None
    }

    /// Looks up the node named by `path` under directory `id`.  The
    /// default is unsupported.
    fn lookup(&self, id: NodeId, path: &RelPath) -> (r: VfsResult<NodeId>)
        requires
            self.wf(),
        ensures
            r matches Ok(n) ==> self.resolve(id, path@) == Some(n) && self.has_node(n),
            r == Err::<NodeId, VfsError>(VfsError::NotFound) ==> self.resolve(id, path@) is None,
    {
        Err(VfsError::Unsupported)
    }

    /// Creates a node of type `ty` named by `path` under directory
    /// `id`.  Returns success if the path already exists, whatever its
    /// type; `AlreadyExists` is only for a path that does exist.  A
    /// successful creation resolves no path under `id` other than the
    /// named one that did not resolve before.  The default is
    /// unsupported.
    fn create(&mut self, id: NodeId, path: &RelPath, ty: VfsNodeType) -> (r: VfsResult)
        requires
            old(self).wf(),
        ensures
            final(self).wf(),
            r is Ok ==> {
                &&& final(self).resolve(id, path@) is Some
                &&& final(self).has_node(final(self).resolve(id, path@)->Some_0)
                &&& nodes_kept(old(self), final(self))
                &&& resolve_kept(old(self), final(self))
                &&& final(self).root_id() == old(self).root_id()
                &&& old(self).resolve(id, path@) is None ==> {
                    &&& final(self).node_ty(final(self).resolve(id, path@)->Some_0) == ty
                    &&& final(self).node_data(final(self).resolve(id, path@)->Some_0) == Seq::<
                        u8,
                    >::empty()
                }
                &&& forall|rel: Seq<u8>|
                    rel != path@ && (#[trigger] old(self).resolve(id, rel)) is None
                        ==> final(self).resolve(id, rel) is None
            },
            r == Err::<(), VfsError>(VfsError::AlreadyExists) ==> old(self).resolve(id, path@)
                is Some,
            r is Err ==> model_unchanged(old(self), final(self)),
    {
        Err(VfsError::Unsupported)
    }

    /// Makes `name` under directory `id` a new hard link to the node
    /// `src`.  The default is unsupported.
    fn link(&mut self, id: NodeId, name: &RelPath, src: NodeId) -> (r: VfsResult<NodeId>)
        requires
            old(self).wf(),
        ensures
            final(self).wf(),
            r matches Ok(n) ==> final(self).has_node(n),
            r is Err ==> model_unchanged(old(self), final(self)),
    {
        Err(VfsError::Unsupported)
    }

    /// Removes the node named by `path` under directory `id`.  The
    /// default is unsupported.
    fn unlink(&mut self, id: NodeId, path: &RelPath) -> (r: VfsResult)
        requires
            old(self).wf(),
        ensures
            final(self).wf(),
            r is Ok ==> {
                &&& final(self).resolve(id, path@) is None
                &&& final(self).root_id() == old(self).root_id()
                &&& forall|j: NodeId| #[trigger] final(self).has_node(j) ==> old(self).has_node(j)
                    && final(self).node_ty(j) == old(self).node_ty(j)
                    && final(self).node_perm(j) == old(self).node_perm(j)
                    && final(self).node_data(j) == old(self).node_data(j)
            },
            r is Err ==> model_unchanged(old(self), final(self)),
    {
        Err(VfsError::Unsupported)
    }

    /// Renames the node `src_path` to `dst_path`, both under directory
    /// `id`.  The renamed node keeps its id and content.  The default
    /// is unsupported.
    fn rename(&mut self, id: NodeId, src_path: &RelPath, dst_path: &RelPath) -> (r: VfsResult)
        requires
            old(self).wf(),
        ensures
            final(self).wf(),
            r is Ok ==> {
                &&& old(self).resolve(id, src_path@) is Some
                &&& final(self).resolve(id, dst_path@) == old(self).resolve(id, src_path@)
                &&& src_path@ != dst_path@ ==> final(self).resolve(id, src_path@) is None
                &&& final(self).root_id() == old(self).root_id()
                &&& forall|j: NodeId| #[trigger] final(self).has_node(j) == old(self).has_node(j)
                &&& forall|j: NodeId| old(self).has_node(j) ==> #[trigger] final(self).node_ty(j)
                    == old(self).node_ty(j)
                &&& forall|j: NodeId| old(self).has_node(j) ==> #[trigger] final(self).node_perm(
                    j,
                ) == old(self).node_perm(j)
                &&& forall|j: NodeId| old(self).has_node(j) ==> #[trigger] final(self).node_data(
                    j,
                ) == old(self).node_data(j)
            },
            r is Err ==> model_unchanged(old(self), final(self)),
    {
        Err(VfsError::Unsupported)
    }

    /// Reads the listing of directory `id` into `dirents`, starting at
    /// entry index `start_idx`.  Returns how many entries were filled;
    /// for a buffer with capacity at least one, `0` means the listing
    /// is exhausted.  The default is unsupported.
    fn read_dir(&self, id: NodeId, start_idx: usize, dirents: &mut Vec<VfsDirEntry>) -> (r:
        VfsResult<usize>)
        requires
            self.wf(),
        ensures
            final(dirents)@.len() == old(dirents)@.len(),
            r matches Ok(n) ==> {
                &&& self.has_node(id)
                &&& self.node_ty(id) is Dir
                &&& n as nat == read_len(
                    self.dir_entries(id).len(),
                    start_idx as nat,
                    old(dirents)@.len(),
                )
                &&& start_idx as nat + n as nat <= usize::MAX as nat
                &&& forall|i: int| #![auto] 0 <= i < n ==> entry_models(
                    final(dirents)@[i],
                    self.dir_entries(id)[start_idx + i],
                )
                &&& forall|i: int| n <= i < old(dirents)@.len() ==> final(dirents)@[i] == old(
                    dirents,
                )@[i]
            },
            r is Err ==> final(dirents)@ == old(dirents)@,
    {
        Err(VfsError::Unsupported)
    }

    /// Creates the node named by `path` under directory `id`,
    /// recursively: every separator-terminated prefix is created as a
    /// directory first, tolerating prefixes that already exist, then
    /// the final component is created with the requested type.  Any
    /// other prefix failure, and any failure of the final creation,
    /// surfaces unchanged.  An implementation may override this with a
    /// single-pass equivalent, but must keep the tolerance of existing
    /// prefixes.
    fn create_recursive(&mut self, id: NodeId, path: &RelPath, ty: VfsNodeType) -> (r: VfsResult)
        requires
            old(self).wf(),
        ensures
            final(self).wf(),
            nodes_kept(old(self), final(self)),
            resolve_kept(old(self), final(self)),
            final(self).root_id() == old(self).root_id(),
            r is Ok ==> final(self).resolve(id, path@) is Some,
            r is Ok && old(self).resolve(id, path@) is None ==> forall|c: int|
                #![trigger path@.take(c)]
                0 <= c < path@.len() && path@[c] == SEP ==> final(self).resolve(
                    id,
                    path@.take(c),
                ) is Some,
            r is Ok && old(self).resolve(id, path@) is None ==> forall|c: int|
                #![trigger path@.take(c)]
                0 <= c < path@.len() && path@[c] == SEP && old(self).resolve(id, path@.take(c))
                    is None ==> final(self).node_ty(
                    final(self).resolve(id, path@.take(c))->Some_0,
                ) is Dir,
            r is Ok && old(self).resolve(id, path@) is None ==> final(self).node_ty(
                final(self).resolve(id, path@)->Some_0,
            ) == ty,
    {
        let mut i: usize = 0;
        while i < path.len()
            invariant
                old(self).wf(),
                self.wf(),
                i <= path@.len(),
                nodes_kept(old(self), &*self),
                resolve_kept(old(self), &*self),
                self.root_id() == old(self).root_id(),
                forall|c: int|
                    #![trigger path@.take(c)]
                    0 <= c < i && path@[c] == SEP ==> self.resolve(id, path@.take(c)) is Some,
                forall|c: int|
                    #![trigger path@.take(c)]
                    0 <= c < i && path@[c] == SEP && old(self).resolve(id, path@.take(c)) is None
                        ==> self.node_ty(self.resolve(id, path@.take(c))->Some_0) is Dir
                        && self.has_node(self.resolve(id, path@.take(c))->Some_0),
                forall|c: int|
                    #![trigger path@.take(c)]
                    i <= c < path@.len() && path@[c] == SEP && old(self).resolve(
                        id,
                        path@.take(c),
                    ) is None ==> self.resolve(id, path@.take(c)) is None,
                old(self).resolve(id, path@) is None ==> self.resolve(id, path@) is None,
            decreases path@.len() - i,
        {
            if path.as_bytes()[i] == SEP {
                let part = path.prefix(i);
                proof {
                    assert(part@.len() < path@.len());
                    assert(part@ != path@);
                    assert forall|c: int|
                        i < c < path@.len() && path@[c] == SEP implies #[trigger] path@.take(c)
                        != part@ by {
                        assert(path@.take(c).len() == c);
                    }
                }
                match self.create(id, &part, VfsNodeType::Dir) {
                    Ok(()) => {},
                    Err(VfsError::AlreadyExists) => {},
                    Err(e) => {
                        return Err(e);
                    },
                }
            }
            i += 1;
        }
        proof {
            assert forall|c: int|
                0 <= c < path@.len() && #[trigger] path@[c] == SEP implies path@.take(c)
                != path@ by {
                assert(path@.take(c).len() == c);
            }
        }
        match self.create(id, path, ty) {
            Ok(()) => Ok(()),
            Err(e) => Err(e),
        }
    }
}

/// Filesystem-level operations.
pub trait VfsOps: VfsModel {
    /// Hook run when the filesystem is mounted at `path`.  The default
    /// does nothing.
    fn mount(&mut self, path: &AbsPath) -> (r: VfsResult)
        requires
            old(self).wf(),
        ensures
            final(self).wf(),
            model_unchanged(old(self), final(self)),
    {
        Ok(())
    }

    /// Hook run when the filesystem is unmounted.  The default does
    /// nothing.
    fn umount(&mut self) -> (r: VfsResult)
        requires
            old(self).wf(),
        ensures
            final(self).wf(),
            model_unchanged(old(self), final(self)),
    {
        Ok(())
    }

    /// Formats the filesystem.  The default is unsupported.
    fn format(&mut self) -> (r: VfsResult)
        requires
            old(self).wf(),
        ensures
            final(self).wf(),
            r is Err ==> model_unchanged(old(self), final(self)),
    {
        Err(VfsError::Unsupported)
    }

    /// Gets the attributes of the filesystem.  The default is
    /// unsupported.
    fn statfs(&self) -> (r: VfsResult<FileSystemInfo>)
        requires
            self.wf(),
    {
        Err(VfsError::Unsupported)
    }

    /// The root directory of the filesystem.
    fn root_dir(&self) -> (n: NodeId)
        requires
            self.wf(),
        ensures
            n == self.root_id(),
            self.has_node(n),
            self.node_ty(n) is Dir,
    ;
}

} // verus!
