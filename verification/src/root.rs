//! The root directory and mount table: one "main" filesystem mounted at
//! the namespace root plus zero or more additional mount points at
//! sub-paths.
//!
//! Every absolute path belongs to exactly one mount: the one whose mount
//! path is the longest matching prefix; the main mount matches everything
//! not covered by a more specific mount.  All operations dispatch the
//! path's suffix to the owning filesystem.

use vstd::prelude::*;

use crate::node::{
    model_unchanged, read_len, unchanged_except_data, DirEntryModel, NodeId, VfsModel,
    VfsNodeOps, VfsOps,
};
use crate::path::{bytes_eq, AbsPath, RelPath, SEP};
use crate::structs::{VfsDirEntry, VfsError, VfsNodeAttr, VfsNodeType, VfsResult};

verus! {

/// Which mounted filesystem a node belongs to: the main mount, or one
/// of the additional mount points by index.
#[derive(Clone, Copy, Debug, PartialEq, Eq, Structural)]
pub enum MountId {
    /// The main mount, at the namespace root.
    Main,
    /// The additional mount point with the given index.
    Sub(usize),
}

/// A reference to a node somewhere in the namespace: the mount that
/// owns it and its id within that mount's filesystem.
#[derive(Clone, Copy, Debug, PartialEq, Eq, Structural)]
pub struct NodeLoc {
    /// The owning mount.
    pub mnt: MountId,
    /// The node's id within the owning filesystem.
    pub node: NodeId,
}

/// The binding of an absolute path to a mounted filesystem's root.
pub struct MountPoint<F> {
    /// Where the filesystem is mounted.
    pub path: AbsPath,
    /// The mounted filesystem.
    pub fs: F,
}

/// The aggregate namespace: the main filesystem plus the additional
/// mount points, in registration order.
pub struct RootDirectory<F> {
    /// The filesystem serving everything not covered by a mount point.
    pub main: F,
    /// The additional mount points, in registration order.
    pub mounts: Vec<MountPoint<F>>,
}

/// Whether the mount path `mp` matches the absolute path `p`: either
/// exactly, or as a proper prefix followed by a separator.
pub open spec fn matches_mount(mp: Seq<u8>, p: Seq<u8>) -> bool {
    p == mp || (p.len() > mp.len() && p.take(mp.len() as int) == mp && p[mp.len() as int] == SEP)
}

/// The best (longest-matching) mount among the first `i`, if any.
/// Among equally long matches the earlier one wins, but under distinct
/// mount paths equal-length matches cannot differ.
pub open spec fn best_upto(ms: Seq<Seq<u8>>, p: Seq<u8>, i: nat) -> Option<usize>
    decreases i,
{
    if i == 0 {
        None
    } else {
        let prev = best_upto(ms, p, (i - 1) as nat);
        if matches_mount(ms[i - 1], p) {
            match prev {
                None => Some((i - 1) as usize),
                Some(j) => if ms[i - 1].len() > ms[j as int].len() {
                    Some((i - 1) as usize)
                } else {
                    prev
                },
            }
        } else {
            prev
        }
    }
}

/// The mount that owns the absolute path `p`: the longest matching
/// mount path, or none (the main mount) when no mount path matches.
pub open spec fn spec_best_mount(ms: Seq<Seq<u8>>, p: Seq<u8>) -> Option<usize> {
    best_upto(ms, p, ms.len())
}

/// The longest-prefix dispatch law: the selected mount matches the
/// path and no matching mount path is longer; when none is selected,
/// no mount path matches at all.
pub proof fn lemma_longest_prefix_dispatch(ms: Seq<Seq<u8>>, p: Seq<u8>, i: nat)
    requires
        i <= ms.len(),
        ms.len() <= usize::MAX,
    ensures
        best_upto(ms, p, i) matches Some(j) ==> {
            &&& 0 <= j < i
            &&& matches_mount(ms[j as int], p)
            &&& forall|k: int|
                0 <= k < i && matches_mount(ms[k], p) ==> ms[k].len() <= ms[j as int].len()
        },
        best_upto(ms, p, i) is None ==> forall|k: int| 0 <= k < i ==> !matches_mount(ms[k], p),
    decreases i,
{
    if i > 0 {
        lemma_longest_prefix_dispatch(ms, p, (i - 1) as nat);
    }
}

/// The path suffix that a mount with path `mp` hands to its
/// filesystem, for an absolute path that `mp` matches.
pub open spec fn rest_rel(p: Seq<u8>, mp: Seq<u8>) -> Seq<u8> {
    if p == mp {
        Seq::empty()
    } else {
        p.skip(mp.len() + 1 as int)
    }
}

/// The path suffix the main mount hands to its filesystem: the
/// absolute path without its leading separator.
pub open spec fn main_rest(p: Seq<u8>) -> Seq<u8> {
    if p.len() > 0 && p[0] == SEP {
        p.skip(1)
    } else {
        p
    }
}

/// Whether the models of two namespaces agree everywhere.
pub open spec fn root_unchanged<F: VfsModel>(a: &RootDirectory<F>, b: &RootDirectory<F>) -> bool {
    &&& b.mounts@.len() == a.mounts@.len()
    &&& forall|i: int|
        0 <= i < a.mounts@.len() ==> #[trigger] b.mounts@[i].path@ == a.mounts@[i].path@
            && model_unchanged(&a.mounts@[i].fs, &b.mounts@[i].fs)
    &&& model_unchanged(&a.main, &b.main)
}

/// Whether the models of two namespaces agree everywhere except for
/// the file content of the node `loc`.
pub open spec fn root_unchanged_except_data<F: VfsModel>(
    a: &RootDirectory<F>,
    b: &RootDirectory<F>,
    loc: NodeLoc,
) -> bool {
    &&& b.mounts@.len() == a.mounts@.len()
    &&& forall|i: int|
        0 <= i < a.mounts@.len() ==> #[trigger] b.mounts@[i].path@ == a.mounts@[i].path@
    &&& match loc.mnt {
        MountId::Main => {
            &&& unchanged_except_data(&a.main, &b.main, loc.node)
            &&& forall|i: int|
                0 <= i < a.mounts@.len() ==> model_unchanged(
                    &a.mounts@[i].fs,
                    #[trigger] &b.mounts@[i].fs,
                )
        },
        MountId::Sub(m) => {
            &&& m < a.mounts@.len()
            &&& unchanged_except_data(&a.mounts@[m as int].fs, &b.mounts@[m as int].fs, loc.node)
            &&& model_unchanged(&a.main, &b.main)
            &&& forall|i: int|
                0 <= i < a.mounts@.len() && i != m ==> model_unchanged(
                    &a.mounts@[i].fs,
                    #[trigger] &b.mounts@[i].fs,
                )
        },
    }
}

impl<F: VfsModel> RootDirectory<F> {
    /// The mount paths, in registration order.
    pub open spec fn mount_paths(&self) -> Seq<Seq<u8>> {
        self.mounts@.map_values(|m: MountPoint<F>| m.path@)
    }

    /// The namespace's structural invariant: every filesystem is well
    /// formed and the mount paths are absolute non-root paths, no two
    /// alike.
    pub open spec fn wf(&self) -> bool {
        &&& self.main.wf()
        &&& forall|i: int| 0 <= i < self.mounts@.len() ==> (#[trigger] self.mounts@[i].fs).wf()
        &&& forall|i: int|
            0 <= i < self.mounts@.len() ==> (#[trigger] self.mounts@[i].path@).len() >= 2
                && self.mounts@[i].path@[0] == SEP
        &&& forall|i: int, j: int|
            0 <= i < j < self.mounts@.len() ==> self.mounts@[i].path@ != self.mounts@[j].path@
    }

    /// Whether `loc` names a live node of the namespace.
    pub open spec fn loc_valid(&self, loc: NodeLoc) -> bool {
        match loc.mnt {
            MountId::Main => self.main.has_node(loc.node),
            MountId::Sub(i) => i < self.mounts@.len() && self.mounts@[i as int].fs.has_node(
                loc.node,
            ),
        }
    }

    /// The type of the node `loc`.
    pub open spec fn loc_ty(&self, loc: NodeLoc) -> VfsNodeType {
        match loc.mnt {
            MountId::Main => self.main.node_ty(loc.node),
            MountId::Sub(i) => self.mounts@[i as int].fs.node_ty(loc.node),
        }
    }

    /// The permission bits of the node `loc`.
    pub open spec fn loc_perm(&self, loc: NodeLoc) -> crate::structs::VfsNodePerm {
        match loc.mnt {
            MountId::Main => self.main.node_perm(loc.node),
            MountId::Sub(i) => self.mounts@[i as int].fs.node_perm(loc.node),
        }
    }

    /// The file content of the node `loc`.
    pub open spec fn loc_data(&self, loc: NodeLoc) -> Seq<u8> {
        match loc.mnt {
            MountId::Main => self.main.node_data(loc.node),
            MountId::Sub(i) => self.mounts@[i as int].fs.node_data(loc.node),
        }
    }

    /// The directory listing of the node `loc`.
    pub open spec fn loc_entries(&self, loc: NodeLoc) -> Seq<DirEntryModel> {
        match loc.mnt {
            MountId::Main => self.main.dir_entries(loc.node),
            MountId::Sub(i) => self.mounts@[i as int].fs.dir_entries(loc.node),
        }
    }

    /// The node an absolute path resolves to: the owning mount is
    /// selected by longest prefix, and the remaining suffix is
    /// resolved by that mount's filesystem against its root.
    pub open spec fn resolve_abs(&self, p: Seq<u8>) -> Option<NodeLoc> {
        match spec_best_mount(self.mount_paths(), p) {
            Some(i) => {
                let f = &self.mounts@[i as int].fs;
                match f.resolve(f.root_id(), rest_rel(p, self.mount_paths()[i as int])) {
                    Some(n) => Some(NodeLoc { mnt: MountId::Sub(i), node: n }),
                    None => None,
                }
            },
            None => {
                match self.main.resolve(self.main.root_id(), main_rest(p)) {
                    Some(n) => Some(NodeLoc { mnt: MountId::Main, node: n }),
                    None => None,
                }
            },
        }
    }
}

/// Whether the mount path `mp` matches the absolute path `p`.
fn match_mount(mp: &Vec<u8>, p: &Vec<u8>) -> (r: bool)
    ensures
        r == matches_mount(mp@, p@),
{
    if mp.len() > p.len() {
        return false;
    }
    if mp.len() == p.len() {
        return bytes_eq(mp, p);
    }
    let mut t: usize = 0;
    while t < mp.len()
        invariant
            t <= mp@.len() < p@.len(),
            forall|k: int| 0 <= k < t ==> p@[k] == mp@[k],
        decreases mp@.len() - t,
    {
        if p[t] != mp[t] {
            proof {
                assert(p@.take(mp@.len() as int)[t as int] != mp@[t as int]);
            }
            return false;
        }
        t += 1;
    }
    proof {
        assert(p@.take(mp@.len() as int) =~= mp@);
    }
    p[mp.len()] == SEP
}

impl<F: VfsModel + VfsNodeOps + VfsOps> RootDirectory<F> {
    /// Builds a namespace whose whole tree is served by `main`.
    pub fn new(main: F) -> (r: Self)
        requires
            main.wf(),
        ensures
            r.wf(),
            r.mounts@.len() == 0,
            model_unchanged(&main, &r.main),
    {
        RootDirectory { main, mounts: Vec::new() }
    }

    /// Whether `path` is one of the additional mount points.
    pub fn contains(&self, path: &AbsPath) -> (r: bool)
        ensures
            r == exists|i: int|
                0 <= i < self.mounts@.len() && (#[trigger] self.mounts@[i].path@) == path@,
    {
        let mut i: usize = 0;
        while i < self.mounts.len()
            invariant
                i <= self.mounts@.len(),
                forall|k: int| 0 <= k < i ==> (#[trigger] self.mounts@[k].path@) != path@,
            decreases self.mounts@.len() - i,
        {
            if bytes_eq(self.mounts[i].path.as_bytes(), path.as_bytes()) {
                return true;
            }
            i += 1;
        }
        false
    }

    /// Registers `fs` at `path`.  Mounting at the namespace root or at
    /// an already-mounted path is an error; on success the new mount is
    /// appended and the filesystem's mount hook has run.
    pub fn mount(&mut self, path: AbsPath, fs: F) -> (r: VfsResult)
        requires
            old(self).wf(),
            fs.wf(),
        ensures
            final(self).wf(),
            r is Err ==> root_unchanged(old(self), final(self)),
            path@.len() < 2 || path@[0] != SEP ==> r == Err::<(), VfsError>(
                VfsError::InvalidInput,
            ),
            path@.len() >= 2 && path@[0] == SEP && (exists|i: int|
                0 <= i < old(self).mounts@.len() && (#[trigger] old(self).mounts@[i].path@)
                    == path@) ==> r == Err::<(), VfsError>(VfsError::AlreadyExists),
            r is Ok ==> {
                &&& final(self).mounts@.len() == old(self).mounts@.len() + 1
                &&& final(self).mount_paths() == old(self).mount_paths().push(path@)
                &&& forall|i: int|
                    0 <= i < old(self).mounts@.len() ==> (#[trigger] old(self).mounts@[i].path@)
                        != path@
            },
            r is Ok ==> path@.len() >= 2 && path@[0] == SEP,
    {
        if path.len() < 2 {
            return Err(VfsError::InvalidInput);
        }
        if path.as_bytes()[0] != SEP {
            return Err(VfsError::InvalidInput);
        }
        if self.contains(&path) {
            return Err(VfsError::AlreadyExists);
        }
        let mut fs = fs;
        match fs.mount(&path) {
            Ok(()) => {},
            Err(e) => {
                return Err(e);
            },
        }
        let ghost ms = self.mount_paths();
        self.mounts.push(MountPoint { path, fs });
        proof {
            assert(final(self).mount_paths() =~= ms.push(
                final(self).mounts@[ms.len() as int].path@,
            ));
        }
        Ok(())
    }

    /// The index of the mount whose path is the longest prefix
    /// matching `path`, or none when only the main mount matches.
    fn resolve_mount(&self, path: &AbsPath) -> (r: Option<usize>)
        ensures
            r == spec_best_mount(self.mount_paths(), path@),
            r matches Some(i) ==> i < self.mounts@.len(),
    {
        let ghost ms = self.mount_paths();
        let mut best: Option<usize> = None;
        let mut i: usize = 0;
        while i < self.mounts.len()
            invariant
                i <= self.mounts@.len(),
                ms == self.mount_paths(),
                best == best_upto(ms, path@, i as nat),
                best matches Some(j) ==> j < i,
            decreases self.mounts@.len() - i,
        {
            if match_mount(self.mounts[i].path.as_bytes(), path.as_bytes()) {
                best = match best {
                    None => Some(i),
                    Some(j) => {
                        if self.mounts[i].path.len() > self.mounts[j].path.len() {
                            Some(i)
                        } else {
                            Some(j)
                        }
                    },
                };
            }
            i += 1;
        }
        best
    }

    /// The path suffix that the mount with index `idx` (or the main
    /// mount, for `None`) hands to its filesystem for `path`.
    fn rest_of(&self, path: &AbsPath, idx: Option<usize>) -> (r: RelPath)
        requires
            idx matches Some(i) ==> i < self.mounts@.len() && matches_mount(
                self.mount_paths()[i as int],
                path@,
            ),
        ensures
            idx matches Some(i) ==> r@ == rest_rel(path@, self.mount_paths()[i as int]),
            idx is None ==> r@ == main_rest(path@),
    {
        match idx {
            Some(i) => {
                let mp_len = self.mounts[i].path.len();
                let b = path.as_bytes();
                if b.len() == mp_len {
                    proof {
                        assert(path@ == self.mount_paths()[i as int]) by {
                            assert(matches_mount(self.mount_paths()[i as int], path@));
                            assert(path@.take(mp_len as int) =~= path@);
                        }
                    }
                    RelPath::from_bytes(&[])
                } else {
                    let s = b.as_slice();
                    let r = RelPath::from_bytes(&s[(mp_len + 1)..b.len()]);
                    proof {
                        assert(r@ =~= path@.skip(mp_len + 1 as int));
                    }
                    r
                }
            },
            None => path.to_rel(),
        }
    }
}

/// A model always agrees with itself.
proof fn lemma_model_refl<F: VfsModel>(a: &F)
    ensures
        model_unchanged(a, a),
{
}

/// A namespace always agrees with itself.
pub proof fn lemma_root_refl<F: VfsModel>(a: &RootDirectory<F>)
    ensures
        root_unchanged(a, a),
{
    assert forall|i: int| 0 <= i < a.mounts@.len() implies #[trigger] a.mounts@[i].path@
        == a.mounts@[i].path@ && model_unchanged(&a.mounts@[i].fs, &a.mounts@[i].fs) by {
        lemma_model_refl(&a.mounts@[i].fs);
    }
    lemma_model_refl(&a.main);
}

/// The path suffix that the mount owning `p` hands to its filesystem.
pub open spec fn dispatch_rest<F: VfsModel>(r: &RootDirectory<F>, p: Seq<u8>) -> Seq<u8> {
    match spec_best_mount(r.mount_paths(), p) {
        Some(i) => rest_rel(p, r.mount_paths()[i as int]),
        None => main_rest(p),
    }
}

impl<F: VfsModel + VfsNodeOps + VfsOps> RootDirectory<F> {
    /// Looks up the node an absolute path resolves to.
    pub fn lookup(&self, path: &AbsPath) -> (r: VfsResult<NodeLoc>)
        requires
            self.wf(),
        ensures
            r matches Ok(loc) ==> self.resolve_abs(path@) == Some(loc) && self.loc_valid(loc),
            r == Err::<NodeLoc, VfsError>(VfsError::NotFound) ==> self.resolve_abs(path@)
                is None,
    {
        let idx = self.resolve_mount(path);
        proof {
            vstd::std_specs::vec::axiom_spec_len(&self.mounts);
            lemma_longest_prefix_dispatch(self.mount_paths(), path@, self.mounts@.len() as nat);
        }
        let rest = self.rest_of(path, idx);
        match idx {
            Some(i) => {
                let rootid = self.mounts[i].fs.root_dir();
                match self.mounts[i].fs.lookup(rootid, &rest) {
                    Ok(n) => Ok(NodeLoc { mnt: MountId::Sub(i), node: n }),
                    Err(e) => Err(e),
                }
            },
            None => {
                let rootid = self.main.root_dir();
                match self.main.lookup(rootid, &rest) {
                    Ok(n) => Ok(NodeLoc { mnt: MountId::Main, node: n }),
                    Err(e) => Err(e),
                }
            },
        }
    }

    /// Gets the attributes of the node `loc`.
    pub fn get_attr_at(&self, loc: NodeLoc) -> (r: VfsResult<VfsNodeAttr>)
        requires
            self.wf(),
        ensures
            loc.mnt matches MountId::Sub(i) && i >= self.mounts@.len() ==> r == Err::<
                VfsNodeAttr,
                VfsError,
            >(VfsError::NotFound),
            r matches Ok(a) ==> {
                &&& self.loc_valid(loc)
                &&& a.ty == self.loc_ty(loc)
                &&& a.mode == self.loc_perm(loc)
                &&& self.loc_ty(loc) is File ==> a.size == self.loc_data(loc).len()
            },
    {
        match loc.mnt {
            MountId::Main => self.main.get_attr(loc.node),
            MountId::Sub(i) => {
                if i >= self.mounts.len() {
                    return Err(VfsError::NotFound);
                }
                self.mounts[i].fs.get_attr(loc.node)
            },
        }
    }

    /// Runs the open hook of the node `loc`.
    pub fn open_at(&mut self, loc: NodeLoc) -> (r: VfsResult)
        requires
            old(self).wf(),
        ensures
            final(self).wf(),
            root_unchanged(old(self), final(self)),
            loc.mnt matches MountId::Sub(i) && i >= old(self).mounts@.len() ==> r == Err::<
                (),
                VfsError,
            >(VfsError::NotFound),
    {
        let r = match loc.mnt {
            MountId::Main => self.main.open(loc.node),
            MountId::Sub(i) => {
                if i >= self.mounts.len() {
                    return Err(VfsError::NotFound);
                }
                let mp = &mut self.mounts[i];
                mp.fs.open(loc.node)
            },
        };
        proof {
            self.lemma_frame(old(self));
        }
        r
    }

    /// Runs the release hook of the node `loc`.
    pub fn release_at(&mut self, loc: NodeLoc) -> (r: VfsResult)
        requires
            old(self).wf(),
        ensures
            final(self).wf(),
            root_unchanged(old(self), final(self)),
            loc.mnt matches MountId::Sub(i) && i >= old(self).mounts@.len() ==> r == Err::<
                (),
                VfsError,
            >(VfsError::NotFound),
    {
        let r = match loc.mnt {
            MountId::Main => self.main.release(loc.node),
            MountId::Sub(i) => {
                if i >= self.mounts.len() {
                    return Err(VfsError::NotFound);
                }
                let mp = &mut self.mounts[i];
                mp.fs.release(loc.node)
            },
        };
        proof {
            self.lemma_frame(old(self));
        }
        r
    }

    /// Reads the file node `loc` at `offset` into `buf`.
    pub fn read_at(&self, loc: NodeLoc, offset: u64, buf: &mut Vec<u8>) -> (r: VfsResult<usize>)
        requires
            self.wf(),
        ensures
            final(buf)@.len() == old(buf)@.len(),
            loc.mnt matches MountId::Sub(i) && i >= self.mounts@.len() ==> r == Err::<
                usize,
                VfsError,
            >(VfsError::NotFound),
            r matches Ok(n) ==> {
                &&& self.loc_valid(loc)
                &&& self.loc_ty(loc) is File
                &&& n as nat == read_len(self.loc_data(loc).len(), offset as nat, old(buf)@.len())
                &&& offset as nat + n as nat <= u64::MAX as nat
                &&& final(buf)@ == crate::node::read_bytes(
                    self.loc_data(loc),
                    offset as nat,
                    old(buf)@,
                )
            },
            r is Err ==> final(buf)@ == old(buf)@,
    {
        match loc.mnt {
            MountId::Main => self.main.read_at(loc.node, offset, buf),
            MountId::Sub(i) => {
                if i >= self.mounts.len() {
                    return Err(VfsError::NotFound);
                }
                self.mounts[i].fs.read_at(loc.node, offset, buf)
            },
        }
    }

    /// Writes `buf` to the file node `loc` at `offset`.
    pub fn write_at(&mut self, loc: NodeLoc, offset: u64, buf: &[u8]) -> (r: VfsResult<usize>)
        requires
            old(self).wf(),
        ensures
            final(self).wf(),
            loc.mnt matches MountId::Sub(i) && i >= old(self).mounts@.len() ==> r == Err::<
                usize,
                VfsError,
            >(VfsError::NotFound),
            r matches Ok(n) ==> {
                &&& old(self).loc_valid(loc)
                &&& old(self).loc_ty(loc) is File
                &&& n == buf@.len()
                &&& offset as nat + buf@.len() <= usize::MAX as nat
                &&& final(self).loc_data(loc) == crate::node::write_bytes(
                    old(self).loc_data(loc),
                    offset as nat,
                    buf@,
                )
                &&& root_unchanged_except_data(old(self), final(self), loc)
            },
            r is Err ==> root_unchanged(old(self), final(self)),
    {
        let r = match loc.mnt {
            MountId::Main => self.main.write_at(loc.node, offset, buf),
            MountId::Sub(i) => {
                if i >= self.mounts.len() {
                    return Err(VfsError::NotFound);
                }
                let mp = &mut self.mounts[i];
                mp.fs.write_at(loc.node, offset, buf)
            },
        };
        proof {
            self.lemma_frame(old(self));
        }
        r
    }

    /// Truncates the file node `loc` to `size` bytes.
    pub fn truncate_at(&mut self, loc: NodeLoc, size: u64) -> (r: VfsResult)
        requires
            old(self).wf(),
        ensures
            final(self).wf(),
            loc.mnt matches MountId::Sub(i) && i >= old(self).mounts@.len() ==> r == Err::<
                (),
                VfsError,
            >(VfsError::NotFound),
            r is Ok ==> {
                &&& old(self).loc_valid(loc)
                &&& old(self).loc_ty(loc) is File
                &&& size as nat <= usize::MAX as nat
                &&& final(self).loc_data(loc) == crate::node::truncate_bytes(
                    old(self).loc_data(loc),
                    size as nat,
                )
                &&& root_unchanged_except_data(old(self), final(self), loc)
            },
            r is Err ==> root_unchanged(old(self), final(self)),
    {
        let r = match loc.mnt {
            MountId::Main => self.main.truncate(loc.node, size),
            MountId::Sub(i) => {
                if i >= self.mounts.len() {
                    return Err(VfsError::NotFound);
                }
                let mp = &mut self.mounts[i];
                mp.fs.truncate(loc.node, size)
            },
        };
        proof {
            self.lemma_frame(old(self));
        }
        r
    }

    /// Synchronizes the file node `loc` to its backing store.
    pub fn fsync_at(&mut self, loc: NodeLoc) -> (r: VfsResult)
        requires
            old(self).wf(),
        ensures
            final(self).wf(),
            root_unchanged(old(self), final(self)),
            loc.mnt matches MountId::Sub(i) && i >= old(self).mounts@.len() ==> r == Err::<
                (),
                VfsError,
            >(VfsError::NotFound),
    {
        let r = match loc.mnt {
            MountId::Main => self.main.fsync(loc.node),
            MountId::Sub(i) => {
                if i >= self.mounts.len() {
                    return Err(VfsError::NotFound);
                }
                let mp = &mut self.mounts[i];
                mp.fs.fsync(loc.node)
            },
        };
        proof {
            self.lemma_frame(old(self));
        }
        r
    }

    /// Reads the listing of the directory node `loc` into `dirents`,
    /// starting at entry index `start_idx`.
    pub fn read_dir_at(&self, loc: NodeLoc, start_idx: usize, dirents: &mut Vec<VfsDirEntry>) -> (r:
        VfsResult<usize>)
        requires
            self.wf(),
        ensures
            final(dirents)@.len() == old(dirents)@.len(),
            loc.mnt matches MountId::Sub(i) && i >= self.mounts@.len() ==> r == Err::<
                usize,
                VfsError,
            >(VfsError::NotFound),
            r matches Ok(n) ==> {
                &&& self.loc_valid(loc)
                &&& self.loc_ty(loc) is Dir
                &&& n as nat == read_len(
                    self.loc_entries(loc).len(),
                    start_idx as nat,
                    old(dirents)@.len(),
                )
                &&& start_idx as nat + n as nat <= usize::MAX as nat
                &&& forall|t: int| #![auto] 0 <= t < n ==> crate::node::entry_models(
                    final(dirents)@[t],
                    self.loc_entries(loc)[start_idx + t],
                )
                &&& forall|t: int| n <= t < old(dirents)@.len() ==> final(dirents)@[t] == old(
                    dirents,
                )@[t]
            },
            r is Err ==> final(dirents)@ == old(dirents)@,
    {
        match loc.mnt {
            MountId::Main => self.main.read_dir(loc.node, start_idx, dirents),
            MountId::Sub(i) => {
                if i >= self.mounts.len() {
                    return Err(VfsError::NotFound);
                }
                self.mounts[i].fs.read_dir(loc.node, start_idx, dirents)
            },
        }
    }

    /// Frame: after an operation that touched at most one mounted
    /// filesystem, everything the callee's contract left unchanged is
    /// unchanged at the namespace level too.
    proof fn lemma_frame(&self, prev: &Self)
        requires
            prev.mounts@.len() == self.mounts@.len(),
        ensures
            forall|i: int|
                0 <= i < prev.mounts@.len() && self.mounts@[i] == prev.mounts@[i]
                    ==> #[trigger] self.mounts@[i].path@ == prev.mounts@[i].path@
                    && model_unchanged(&prev.mounts@[i].fs, &self.mounts@[i].fs),
    {
        assert forall|i: int|
            0 <= i < prev.mounts@.len() && self.mounts@[i] == prev.mounts@[i]
                implies #[trigger] self.mounts@[i].path@ == prev.mounts@[i].path@
                && model_unchanged(&prev.mounts@[i].fs, &self.mounts@[i].fs) by {
            lemma_model_refl(&prev.mounts@[i].fs);
        }
    }

    /// Lifts preservation of resolution from the one touched
    /// filesystem to the whole namespace.
    proof fn lemma_resolve_lift(&self, prev: &Self)
        requires
            prev.mounts@.len() == self.mounts@.len(),
            prev.mounts@.len() <= usize::MAX,
            self.mount_paths() == prev.mount_paths(),
            forall|i: int|
                #![trigger self.mounts@[i]]
                0 <= i < prev.mounts@.len() ==> crate::node::resolve_kept(
                    &prev.mounts@[i].fs,
                    &self.mounts@[i].fs,
                ) && self.mounts@[i].fs.root_id() == prev.mounts@[i].fs.root_id(),
            crate::node::resolve_kept(&prev.main, &self.main),
            self.main.root_id() == prev.main.root_id(),
        ensures
            forall|q: Seq<u8>| (#[trigger] prev.resolve_abs(q)) is Some ==> self.resolve_abs(q)
                == prev.resolve_abs(q),
    {
        assert forall|q: Seq<u8>| (#[trigger] prev.resolve_abs(q)) is Some implies self
            .resolve_abs(q) == prev.resolve_abs(q) by {
            let ms = prev.mount_paths();
            lemma_longest_prefix_dispatch(ms, q, ms.len());
            match spec_best_mount(ms, q) {
                Some(j) => {
                    assert(0 <= j < prev.mounts@.len());
                    let rid = prev.mounts@[j as int].fs.root_id();
                    let rest = rest_rel(q, ms[j as int]);
                    assert(crate::node::resolve_kept(
                        &prev.mounts@[j as int].fs,
                        &self.mounts@[j as int].fs,
                    ));
                    assert(prev.mounts@[j as int].fs.resolve(rid, rest) is Some);
                    assert(self.mounts@[j as int].fs.resolve(rid, rest) == prev.mounts@[
                        j as int
                    ].fs.resolve(rid, rest));
                },
                None => {
                    let rid = prev.main.root_id();
                    let rest = main_rest(q);
                    assert(prev.main.resolve(rid, rest) is Some);
                    assert(self.main.resolve(rid, rest) == prev.main.resolve(rid, rest));
                },
            }
        }
    }

    /// Creates a node of type `ty` at the absolute path `path`, in the
    /// owning mount.  Success covers a path that already exists.
    pub fn create(&mut self, path: &AbsPath, ty: VfsNodeType) -> (r: VfsResult)
        requires
            old(self).wf(),
        ensures
            final(self).wf(),
            final(self).mount_paths() == old(self).mount_paths(),
            r is Ok ==> final(self).resolve_abs(path@) is Some,
            r is Ok && old(self).resolve_abs(path@) is None ==> (final(self).resolve_abs(
                path@,
            ) matches Some(loc) && final(self).loc_ty(loc) == ty),
            r is Ok ==> forall|q: Seq<u8>| (#[trigger] old(self).resolve_abs(q)) is Some
                ==> final(self).resolve_abs(q) == old(self).resolve_abs(q),
            r is Err ==> root_unchanged(old(self), final(self)),
    {
        let idx = self.resolve_mount(path);
        proof {
            vstd::std_specs::vec::axiom_spec_len(&self.mounts);
            lemma_longest_prefix_dispatch(self.mount_paths(), path@, self.mounts@.len() as nat);
        }
        let rest = self.rest_of(path, idx);
        let r = match idx {
            Some(i) => {
                let rootid = self.mounts[i].fs.root_dir();
                let mp = &mut self.mounts[i];
                mp.fs.create(rootid, &rest, ty)
            },
            None => {
                let rootid = self.main.root_dir();
                self.main.create(rootid, &rest, ty)
            },
        };
        proof {
            assert(self.mount_paths() =~= old(self).mount_paths());
            self.lemma_frame(old(self));
            if r is Ok {
                self.lemma_resolve_lift(old(self));
            }
        }
        r
    }

    /// Creates the node at the absolute path `path` recursively,
    /// creating missing intermediate directories and tolerating those
    /// that already exist.
    pub fn create_recursive(&mut self, path: &AbsPath, ty: VfsNodeType) -> (r: VfsResult)
        requires
            old(self).wf(),
        ensures
            final(self).wf(),
            final(self).mount_paths() == old(self).mount_paths(),
            r is Ok ==> final(self).resolve_abs(path@) is Some,
            r is Ok && old(self).resolve_abs(path@) is None ==> (final(self).resolve_abs(
                path@,
            ) matches Some(loc) && final(self).loc_ty(loc) == ty),
            forall|q: Seq<u8>| (#[trigger] old(self).resolve_abs(q)) is Some
                ==> final(self).resolve_abs(q) == old(self).resolve_abs(q),
    {
        let idx = self.resolve_mount(path);
        proof {
            vstd::std_specs::vec::axiom_spec_len(&self.mounts);
            lemma_longest_prefix_dispatch(self.mount_paths(), path@, self.mounts@.len() as nat);
        }
        let rest = self.rest_of(path, idx);
        let r = match idx {
            Some(i) => {
                let rootid = self.mounts[i].fs.root_dir();
                let mp = &mut self.mounts[i];
                mp.fs.create_recursive(rootid, &rest, ty)
            },
            None => {
                let rootid = self.main.root_dir();
                self.main.create_recursive(rootid, &rest, ty)
            },
        };
        proof {
            assert(self.mount_paths() =~= old(self).mount_paths());
            self.lemma_frame(old(self));
            self.lemma_resolve_lift(old(self));
        }
        r
    }

    /// Removes the node at the absolute path `path` from its owning
    /// mount.  A mount point itself cannot be removed.
    pub fn unlink(&mut self, path: &AbsPath) -> (r: VfsResult)
        requires
            old(self).wf(),
        ensures
            final(self).wf(),
            final(self).mount_paths() == old(self).mount_paths(),
            (exists|i: int|
                0 <= i < old(self).mounts@.len() && (#[trigger] old(self).mounts@[i].path@)
                    == path@) ==> r == Err::<(), VfsError>(VfsError::PermissionDenied),
            r is Ok ==> final(self).resolve_abs(path@) is None,
            r is Err ==> root_unchanged(old(self), final(self)),
    {
        if self.contains(path) {
            return Err(VfsError::PermissionDenied);
        }
        let idx = self.resolve_mount(path);
        proof {
            vstd::std_specs::vec::axiom_spec_len(&self.mounts);
            lemma_longest_prefix_dispatch(self.mount_paths(), path@, self.mounts@.len() as nat);
        }
        let rest = self.rest_of(path, idx);
        let r = match idx {
            Some(i) => {
                let rootid = self.mounts[i].fs.root_dir();
                let mp = &mut self.mounts[i];
                mp.fs.unlink(rootid, &rest)
            },
            None => {
                let rootid = self.main.root_dir();
                self.main.unlink(rootid, &rest)
            },
        };
        proof {
            assert(self.mount_paths() =~= old(self).mount_paths());
            self.lemma_frame(old(self));
        }
        r
    }

    /// Renames the node at `old_path` to `new_path`.  Both paths must
    /// belong to the same mount: a rename across two different mounts
    /// fails with `InvalidInput` and relocates nothing.  A mount point
    /// itself cannot be renamed.
    pub fn rename(&mut self, old_path: &AbsPath, new_path: &AbsPath) -> (r: VfsResult)
        requires
            old(self).wf(),
        ensures
            final(self).wf(),
            final(self).mount_paths() == old(self).mount_paths(),
            spec_best_mount(old(self).mount_paths(), old_path@) != spec_best_mount(
                old(self).mount_paths(),
                new_path@,
            ) ==> r == Err::<(), VfsError>(VfsError::InvalidInput),
            spec_best_mount(old(self).mount_paths(), old_path@) == spec_best_mount(
                old(self).mount_paths(),
                new_path@,
            ) && ((exists|i: int|
                0 <= i < old(self).mounts@.len() && (#[trigger] old(self).mounts@[i].path@)
                    == old_path@) || (exists|i: int|
                0 <= i < old(self).mounts@.len() && (#[trigger] old(self).mounts@[i].path@)
                    == new_path@)) ==> r == Err::<(), VfsError>(VfsError::PermissionDenied),
            r is Ok ==> {
                &&& old(self).resolve_abs(old_path@) is Some
                &&& final(self).resolve_abs(new_path@) == old(self).resolve_abs(old_path@)
                &&& dispatch_rest(old(self), old_path@) != dispatch_rest(old(self), new_path@)
                    ==> final(self).resolve_abs(old_path@) is None
            },
            r is Err ==> root_unchanged(old(self), final(self)),
    {
        let io = self.resolve_mount(old_path);
        let in_ = self.resolve_mount(new_path);
        proof {
            vstd::std_specs::vec::axiom_spec_len(&self.mounts);
            lemma_longest_prefix_dispatch(
                self.mount_paths(),
                old_path@,
                self.mounts@.len() as nat,
            );
            lemma_longest_prefix_dispatch(
                self.mount_paths(),
                new_path@,
                self.mounts@.len() as nat,
            );
        }
        let same: bool = match (io, in_) {
            (Some(a), Some(b)) => a == b,
            (None, None) => true,
            _ => false,
        };
        if !same {
            return Err(VfsError::InvalidInput);
        }
        if self.contains(old_path) || self.contains(new_path) {
            return Err(VfsError::PermissionDenied);
        }
        let rest_old = self.rest_of(old_path, io);
        let rest_new = self.rest_of(new_path, in_);
        let r = match io {
            Some(i) => {
                let rootid = self.mounts[i].fs.root_dir();
                let mp = &mut self.mounts[i];
                mp.fs.rename(rootid, &rest_old, &rest_new)
            },
            None => {
                let rootid = self.main.root_dir();
                self.main.rename(rootid, &rest_old, &rest_new)
            },
        };
        proof {
            assert(self.mount_paths() =~= old(self).mount_paths());
            self.lemma_frame(old(self));
        }
        r
    }
}

} // verus!
