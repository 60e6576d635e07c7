//! A RAM-backed filesystem implementing the node interface.
//!
//! Nodes live in an arena indexed by [`NodeId`]; each holds its path
//! relative to the filesystem root (the root itself holds the empty
//! path).  A node's id is stable for its lifetime, also across renames.

use vstd::prelude::*;

use crate::node::{
    entry_models, nodes_kept, read_bytes, read_len, resolve_kept, truncate_bytes, write_bytes,
    zeros, DirEntryModel, NodeId, VfsModel, VfsNodeOps, VfsOps,
};
use crate::path::{bytes_eq, clone_bytes, RelPath, SEP};
use crate::structs::{
    FileSystemInfo, VfsDirEntry, VfsError, VfsNodeAttr, VfsNodePerm, VfsNodeType, VfsResult,
};

verus! {

/// One node of the RAM filesystem.
pub struct RamNode {
    /// The node's path relative to the filesystem root; the root holds
    /// the empty path.
    pub path: Vec<u8>,
    /// The node's type.
    pub ty: VfsNodeType,
    /// The node's permission bits.
    pub perm: VfsNodePerm,
    /// The node's content (empty for a directory).
    pub data: Vec<u8>,
}

/// A RAM-backed filesystem: an arena of nodes addressed by stable
/// index.  Slot 0 is the root directory; a removed node leaves a free
/// slot behind, so the other ids stay valid.
pub struct RamFileSystem {
    nodes: Vec<Option<RamNode>>,
}

/// Whether slot `i` of the arena holds a live node.
pub open spec fn used(ns: Seq<Option<RamNode>>, i: int) -> bool {
    0 <= i < ns.len() && ns[i] is Some
}

/// The path of the node in slot `i`.
pub open spec fn pth(ns: Seq<Option<RamNode>>, i: int) -> Seq<u8> {
    ns[i]->Some_0.path@
}

/// The type of the node in slot `i`.
pub open spec fn nty(ns: Seq<Option<RamNode>>, i: int) -> VfsNodeType {
    ns[i]->Some_0.ty
}

/// The permission bits of the node in slot `i`.
pub open spec fn nperm(ns: Seq<Option<RamNode>>, i: int) -> VfsNodePerm {
    ns[i]->Some_0.perm
}

/// The content of the node in slot `i`.
pub open spec fn ndata(ns: Seq<Option<RamNode>>, i: int) -> Seq<u8> {
    ns[i]->Some_0.data@
}

/// Whether no two live nodes share a path.
pub open spec fn distinct_paths(ns: Seq<Option<RamNode>>) -> bool {
    forall|i: int, j: int|
        used(ns, i) && used(ns, j) && i != j ==> pth(ns, i) != pth(ns, j)
}

/// The arena's structural invariant: slot 0 is the root directory,
/// holding the empty path, and no two live nodes share a path.
pub open spec fn ram_wf(ns: Seq<Option<RamNode>>) -> bool {
    &&& ns.len() >= 1
    &&& ns[0] is Some
    &&& pth(ns, 0) == Seq::<u8>::empty()
    &&& nty(ns, 0) is Dir
    &&& distinct_paths(ns)
}

/// A directory path extended by a child name (the root's children keep
/// their bare names).
pub open spec fn join_rel(base: Seq<u8>, rel: Seq<u8>) -> Seq<u8> {
    if base.len() == 0 {
        rel
    } else {
        base + seq![SEP] + rel
    }
}

/// Whether some byte of `s` is the separator.
pub open spec fn contains_sep(s: Seq<u8>) -> bool {
    exists|k: int| 0 <= k < s.len() && s[k] == SEP
}

/// Whether path `p` names a direct child of the directory whose path
/// is `dp`.
pub open spec fn is_child(p: Seq<u8>, dp: Seq<u8>) -> bool {
    if dp.len() == 0 {
        p.len() > 0 && !contains_sep(p)
    } else {
        &&& p.len() > dp.len() + 1
        &&& p.take(dp.len() as int) == dp
        &&& p[dp.len() as int] == SEP
        &&& !contains_sep(p.skip(dp.len() + 1 as int))
    }
}

/// The name under which `p` appears in the directory whose path is
/// `dp`.
pub open spec fn child_name(p: Seq<u8>, dp: Seq<u8>) -> Seq<u8> {
    if dp.len() == 0 {
        p
    } else {
        p.skip(dp.len() + 1 as int)
    }
}

/// The first live slot at or after `i` whose node holds path `full`.
pub open spec fn find_node(ns: Seq<Option<RamNode>>, full: Seq<u8>, i: nat) -> Option<NodeId>
    decreases ns.len() - i,
{
    if i >= ns.len() {
        None
    } else if ns[i as int] is Some && pth(ns, i as int) == full {
        Some(i as NodeId)
    } else {
        find_node(ns, full, i + 1)
    }
}

/// How many of the first `i` slots hold live nodes.
pub open spec fn live_upto(ns: Seq<Option<RamNode>>, i: nat) -> nat
    decreases i,
{
    if i == 0 {
        0
    } else {
        live_upto(ns, (i - 1) as nat) + (if used(ns, i - 1) {
            1nat
        } else {
            0nat
        })
    }
}

/// The listing of the directory whose path is `dp`, restricted to the
/// first `i` slots of the arena, in slot order.
pub open spec fn ents_upto(ns: Seq<Option<RamNode>>, dp: Seq<u8>, i: nat) -> Seq<DirEntryModel>
    decreases i,
{
    if i == 0 {
        Seq::empty()
    } else {
        let prev = ents_upto(ns, dp, (i - 1) as nat);
        if used(ns, i - 1) && is_child(pth(ns, i - 1), dp) {
            prev.push(
                DirEntryModel { name: child_name(pth(ns, i - 1), dp), ty: nty(ns, i - 1) },
            )
        } else {
            prev
        }
    }
}

/// A find misses exactly when no live slot at or after `i` holds the
/// path.
proof fn lemma_find_none_iff(ns: Seq<Option<RamNode>>, full: Seq<u8>, i: nat)
    ensures
        (find_node(ns, full, i) is None) <==> (forall|j: int|
            i <= j < ns.len() && used(ns, j) ==> pth(ns, j) != full),
    decreases ns.len() - i,
{
    if i < ns.len() {
        lemma_find_none_iff(ns, full, i + 1);
    }
}

/// What a successful find pins down: the slot is live, at or after
/// `i`, and holds the path.
proof fn lemma_find_some_props(ns: Seq<Option<RamNode>>, full: Seq<u8>, i: nat, k: NodeId)
    requires
        ns.len() <= usize::MAX,
        find_node(ns, full, i) == Some(k),
    ensures
        i <= k < ns.len(),
        used(ns, k as int),
        pth(ns, k as int) == full,
    decreases ns.len() - i,
{
    if i < ns.len() {
        if !(ns[i as int] is Some && pth(ns, i as int) == full) {
            lemma_find_some_props(ns, full, i + 1, k);
        }
    }
}

/// Under distinct paths, a find returns exactly the live slot holding
/// the path, whenever one exists.
proof fn lemma_find_unique(ns: Seq<Option<RamNode>>, full: Seq<u8>, k: NodeId)
    requires
        ns.len() <= usize::MAX,
        distinct_paths(ns),
        used(ns, k as int),
        pth(ns, k as int) == full,
    ensures
        find_node(ns, full, 0) == Some(k),
{
    lemma_find_none_iff(ns, full, 0);
    let r = find_node(ns, full, 0);
    if r is Some {
        lemma_find_some_props(ns, full, 0, r->Some_0);
        assert(r->Some_0 == k);
    }
}

/// Two arenas of the same shape (same live slots, paths and types)
/// find the same slots.
proof fn lemma_find_same_shape(
    a: Seq<Option<RamNode>>,
    b: Seq<Option<RamNode>>,
    full: Seq<u8>,
    i: nat,
)
    requires
        a.len() == b.len(),
        forall|j: int| 0 <= j < a.len() ==> (used(a, j) == used(b, j)),
        forall|j: int| used(a, j) ==> pth(a, j) == pth(b, j),
    ensures
        find_node(a, full, i) == find_node(b, full, i),
    decreases a.len() - i,
{
    if i < a.len() {
        assert(used(a, i as int) == used(b, i as int));
        if used(a, i as int) {
            assert(pth(a, i as int) == pth(b, i as int));
        }
        lemma_find_same_shape(a, b, full, i + 1);
    }
}

/// Two arenas of the same shape list the same directory entries.
proof fn lemma_ents_same_shape(
    a: Seq<Option<RamNode>>,
    b: Seq<Option<RamNode>>,
    dp: Seq<u8>,
    i: nat,
)
    requires
        a.len() == b.len(),
        forall|j: int| 0 <= j < a.len() ==> (used(a, j) == used(b, j)),
        forall|j: int| used(a, j) ==> pth(a, j) == pth(b, j) && nty(a, j) == nty(b, j),
        i <= a.len(),
    ensures
        ents_upto(a, dp, i) == ents_upto(b, dp, i),
    decreases i,
{
    if i > 0 {
        assert(used(a, i - 1) == used(b, i - 1));
        if used(a, i - 1) {
            assert(pth(a, i - 1) == pth(b, i - 1) && nty(a, i - 1) == nty(b, i - 1));
        }
        lemma_ents_same_shape(a, b, dp, (i - 1) as nat);
    }
}

/// A directory's listing only grows as more slots are scanned.
proof fn lemma_ents_monotone(ns: Seq<Option<RamNode>>, dp: Seq<u8>, i: nat, j: nat)
    requires
        i <= j,
    ensures
        ents_upto(ns, dp, i).len() <= ents_upto(ns, dp, j).len(),
    decreases j,
{
    if i < j {
        lemma_ents_monotone(ns, dp, i, (j - 1) as nat);
    }
}


/// Whether `s` can stand as a stored relative path: nonempty, with no
/// leading, trailing or doubled separator.
pub open spec fn rel_shaped(s: Seq<u8>) -> bool {
    &&& s.len() > 0
    &&& s[0] != SEP
    &&& s[s.len() - 1] != SEP
    &&& forall|k: int| 0 < k < s.len() ==> !(s[k - 1] == SEP && #[trigger] s[k] == SEP)
}

/// The fragment naming the directory that holds the node `s` names:
/// the bytes before the last separator, or the empty fragment (the
/// base directory itself) when `s` is a bare name.
pub open spec fn parent_rel(s: Seq<u8>) -> Seq<u8>
    decreases s.len(),
{
    if s.len() == 0 {
        s
    } else if s[s.len() - 1] == SEP {
        s.take(s.len() - 1)
    } else {
        parent_rel(s.take(s.len() - 1))
    }
}

/// Where the last separator of `s` sits, the parent fragment is what
/// stands before it.
pub proof fn lemma_parent_rel_at(s: Seq<u8>, cut: int)
    requires
        0 <= cut < s.len(),
        s[cut] == SEP,
        forall|k: int| cut < k < s.len() ==> s[k] != SEP,
    ensures
        parent_rel(s) == s.take(cut),
    decreases s.len(),
{
    if cut < s.len() - 1 {
        lemma_parent_rel_at(s.take(s.len() - 1), cut);
        assert(s.take(s.len() - 1).take(cut) =~= s.take(cut));
    }
}

/// Without a separator the parent fragment is empty.
proof fn lemma_parent_rel_none(s: Seq<u8>)
    requires
        forall|k: int| 0 <= k < s.len() ==> s[k] != SEP,
    ensures
        parent_rel(s) == Seq::<u8>::empty(),
    decreases s.len(),
{
    if s.len() == 0 {
        assert(s =~= Seq::<u8>::empty());
    } else {
        lemma_parent_rel_none(s.take(s.len() - 1));
    }
}

/// Whether `p` is a well-shaped relative path.
fn is_rel_shaped(p: &Vec<u8>) -> (r: bool)
    ensures
        r == rel_shaped(p@),
{
    if p.len() == 0 {
        return false;
    }
    if p[0] == SEP {
        return false;
    }
    if p[p.len() - 1] == SEP {
        return false;
    }
    let mut k: usize = 1;
    while k < p.len()
        invariant
            1 <= k <= p@.len(),
            forall|t: int| 0 < t < k ==> !(p@[t - 1] == SEP && #[trigger] p@[t] == SEP),
        decreases p@.len() - k,
    {
        if p[k - 1] == SEP && p[k] == SEP {
            return false;
        }
        k += 1;
    }
    true
}

/// The position of the last separator of `p`, if any.
fn last_sep(p: &Vec<u8>) -> (r: Option<usize>)
    ensures
        r matches Some(c) ==> c < p@.len() && p@[c as int] == SEP && (forall|k: int|
            c < k < p@.len() ==> p@[k] != SEP),
        r is None ==> forall|k: int| 0 <= k < p@.len() ==> p@[k] != SEP,
{
    let mut i: usize = p.len();
    while i > 0
        invariant
            i <= p@.len(),
            forall|k: int| i <= k < p@.len() ==> p@[k] != SEP,
        decreases i,
    {
        i -= 1;
        if p[i] == SEP {
            return Some(i);
        }
    }
    None
}

impl VfsModel for RamFileSystem {
    closed spec fn wf(&self) -> bool {
        ram_wf(self.nodes@)
    }

    closed spec fn root_id(&self) -> NodeId {
        0
    }

    closed spec fn has_node(&self, id: NodeId) -> bool {
        used(self.nodes@, id as int)
    }

    closed spec fn node_ty(&self, id: NodeId) -> VfsNodeType {
        nty(self.nodes@, id as int)
    }

    closed spec fn node_perm(&self, id: NodeId) -> VfsNodePerm {
        nperm(self.nodes@, id as int)
    }

    closed spec fn node_data(&self, id: NodeId) -> Seq<u8> {
        ndata(self.nodes@, id as int)
    }

    closed spec fn dir_entries(&self, id: NodeId) -> Seq<DirEntryModel> {
        if used(self.nodes@, id as int) && nty(self.nodes@, id as int) is Dir {
            ents_upto(self.nodes@, pth(self.nodes@, id as int), self.nodes@.len() as nat)
        } else {
            Seq::empty()
        }
    }

    closed spec fn resolve(&self, id: NodeId, rel: Seq<u8>) -> Option<NodeId> {
        if !used(self.nodes@, id as int) {
            None
        } else if rel.len() == 0 {
            Some(id)
        } else if !(nty(self.nodes@, id as int) is Dir) {
            None
        } else {
            find_node(self.nodes@, join_rel(pth(self.nodes@, id as int), rel), 0)
        }
    }
}

impl RamFileSystem {
    /// How many live nodes the filesystem holds (the root included).
    pub closed spec fn live_nodes(&self) -> nat {
        live_upto(self.nodes@, self.nodes@.len() as nat)
    }

    /// Creates an empty filesystem: a root directory and nothing else.
    pub fn new() -> (r: Self)
        ensures
            r.wf(),
            forall|id: NodeId| #[trigger] r.has_node(id) <==> id == 0,
            r.node_ty(0) is Dir,
            r.node_perm(0)@ == 0o755,
            r.dir_entries(0) == Seq::<DirEntryModel>::empty(),
            r.resolve(0, Seq::<u8>::empty()) == Some(0 as NodeId),
            forall|rel: Seq<u8>| rel.len() != 0 ==> #[trigger] r.resolve(0, rel) is None,
    {
        let root = RamNode {
            path: Vec::new(),
            ty: VfsNodeType::Dir,
            perm: VfsNodePerm::default_dir(),
            data: Vec::new(),
        };
        let mut nodes: Vec<Option<RamNode>> = Vec::new();
        nodes.push(Some(root));
        let r = RamFileSystem { nodes };
        proof {
            assert(ents_upto(r.nodes@, Seq::<u8>::empty(), 0) == Seq::<DirEntryModel>::empty());
            assert(!is_child(pth(r.nodes@, 0), Seq::<u8>::empty()));
            assert(r.dir_entries(0) =~= Seq::<DirEntryModel>::empty());
            assert forall|rel: Seq<u8>| rel.len() != 0 implies #[trigger] r.resolve(0, rel)
                is None by {
                lemma_find_none_iff(r.nodes@, join_rel(pth(r.nodes@, 0), rel), 0);
                assert(pth(r.nodes@, 0).len() == 0);
                assert(join_rel(pth(r.nodes@, 0), rel) == rel);
            }
        }
        r
    }

    /// The node in slot `id`, if the slot is live.
    fn slot(&self, id: NodeId) -> (r: Option<&RamNode>)
        ensures
            r is Some <==> self.has_node(id),
            r matches Some(n) ==> {
                &&& n.path@ == pth(self.nodes@, id as int)
                &&& n.ty == self.node_ty(id)
                &&& n.perm == self.node_perm(id)
                &&& n.data@ == self.node_data(id)
            },
    {
        if id < self.nodes.len() {
            match &self.nodes[id] {
                Some(n) => Some(n),
                None => None,
            }
        } else {
            None
        }
    }

    /// The live slot holding exactly the path `full`.
    fn find(&self, full: &Vec<u8>) -> (r: Option<NodeId>)
        ensures
            r == find_node(self.nodes@, full@, 0),
    {
        let mut i: usize = 0;
        while i < self.nodes.len()
            invariant
                i <= self.nodes@.len(),
                find_node(self.nodes@, full@, 0) == find_node(self.nodes@, full@, i as nat),
            decreases self.nodes@.len() - i,
        {
            match &self.nodes[i] {
                Some(n) => {
                    if bytes_eq(&n.path, full) {
                        return Some(i);
                    }
                },
                None => {},
            }
            i += 1;
        }
        None
    }
}

/// Copies the bytes of `p` from `from` to the end.
fn clone_suffix(p: &Vec<u8>, from: usize) -> (r: Vec<u8>)
    requires
        from <= p@.len(),
    ensures
        r@ == p@.skip(from as int),
{
    let mut r: Vec<u8> = Vec::new();
    let mut i: usize = from;
    while i < p.len()
        invariant
            from <= i <= p@.len(),
            r@ == p@.subrange(from as int, i as int),
        decreases p@.len() - i,
    {
        r.push(p[i]);
        i += 1;
        proof {
            assert(r@ =~= p@.subrange(from as int, i as int));
        }
    }
    proof {
        assert(p@.subrange(from as int, p@.len() as int) =~= p@.skip(from as int));
    }
    r
}

/// Whether a separator occurs in `p` at or after position `from`.
fn seg_has_sep(p: &Vec<u8>, from: usize) -> (r: bool)
    requires
        from <= p@.len(),
    ensures
        r == contains_sep(p@.skip(from as int)),
{
    let mut i: usize = from;
    while i < p.len()
        invariant
            from <= i <= p@.len(),
            forall|k: int| from <= k < i ==> p@[k] != SEP,
        decreases p@.len() - i,
    {
        if p[i] == SEP {
            proof {
                assert(p@.skip(from as int)[i - from] == SEP);
            }
            return true;
        }
        i += 1;
    }
    proof {
        assert forall|k: int| 0 <= k < p@.skip(from as int).len() implies p@.skip(from as int)[k]
            != SEP by {
            assert(p@.skip(from as int)[k] == p@[from + k]);
        }
    }
    false
}

/// The directory path `base` extended by the fragment `rel`.
fn join_path(base: &Vec<u8>, rel: &Vec<u8>) -> (r: Vec<u8>)
    ensures
        r@ == join_rel(base@, rel@),
{
    if base.len() == 0 {
        return clone_bytes(rel);
    }
    let mut r = clone_bytes(base);
    r.push(SEP);
    let mut i: usize = 0;
    while i < rel.len()
        invariant
            i <= rel@.len(),
            r@ == base@ + seq![SEP] + rel@.take(i as int),
        decreases rel@.len() - i,
    {
        r.push(rel[i]);
        i += 1;
        proof {
            assert(r@ =~= base@ + seq![SEP] + rel@.take(i as int));
        }
    }
    proof {
        assert(rel@.take(rel@.len() as int) =~= rel@);
    }
    r
}

/// The name under which `p` is a direct child of the directory whose
/// path is `dp`, if it is one.
fn child_name_of(p: &Vec<u8>, dp: &Vec<u8>) -> (r: Option<Vec<u8>>)
    ensures
        r is Some <==> is_child(p@, dp@),
        r matches Some(name) ==> name@ == child_name(p@, dp@),
{
    if dp.len() == 0 {
        if p.len() == 0 {
            return None;
        }
        if seg_has_sep(p, 0) {
            proof {
                assert(p@.skip(0) =~= p@);
            }
            return None;
        }
        proof {
            assert(p@.skip(0) =~= p@);
        }
        return Some(clone_bytes(p));
    }
    if p.len() <= dp.len() {
        return None;
    }
    if p.len() - dp.len() < 2 {
        return None;
    }
    let mut t: usize = 0;
    while t < dp.len()
        invariant
            t <= dp@.len() < p@.len(),
            forall|k: int| 0 <= k < t ==> p@[k] == dp@[k],
        decreases dp@.len() - t,
    {
        if p[t] != dp[t] {
            proof {
                assert(p@.take(dp@.len() as int)[t as int] != dp@[t as int]);
            }
            return None;
        }
        t += 1;
    }
    proof {
        assert(p@.take(dp@.len() as int) =~= dp@);
    }
    if p[dp.len()] != SEP {
        return None;
    }
    if seg_has_sep(p, dp.len() + 1) {
        return None;
    }
    Some(clone_suffix(p, dp.len() + 1))
}

impl VfsNodeOps for RamFileSystem {
    fn get_attr(&self, id: NodeId) -> (r: VfsResult<VfsNodeAttr>)
        ensures
            r is Ok <==> self.has_node(id),
            !self.has_node(id) ==> r == Err::<VfsNodeAttr, VfsError>(VfsError::NotFound),
    {
        let n = match self.slot(id) {
            None => {
                return Err(VfsError::NotFound);
            },
            Some(n) => n,
        };
        let size: u64 = if n.ty.is_file() {
            n.data.len() as u64
        } else {
            0
        };
        let blocks: u64 = size / 512 + (if size % 512 != 0 {
            1
        } else {
            0
        });
        Ok(VfsNodeAttr::new(n.perm, n.ty, size, blocks))
    }

    fn lookup(&self, id: NodeId, path: &RelPath) -> (r: VfsResult<NodeId>)
        ensures
            r is Ok <==> self.resolve(id, path@) is Some,
    {
        let n = match self.slot(id) {
            None => {
                return Err(VfsError::NotFound);
            },
            Some(n) => n,
        };
        if path.len() == 0 {
            return Ok(id);
        }
        if !n.ty.is_dir() {
            return Err(VfsError::NotADirectory);
        }
        let full = join_path(&n.path, path.as_bytes());
        match self.find(&full) {
            Some(k) => {
                proof {
                    vstd::std_specs::vec::axiom_spec_len(&self.nodes);
                    lemma_find_some_props(self.nodes@, full@, 0, k);
                }
                Ok(k)
            },
            None => Err(VfsError::NotFound),
        }
    }

    fn read_at(&self, id: NodeId, offset: u64, buf: &mut Vec<u8>) -> (r: VfsResult<usize>)
        ensures
            r is Ok <==> self.has_node(id) && self.node_ty(id) is File,
    {
        let ghost buf0 = buf@;
        let n = match self.slot(id) {
            None => {
                return Err(VfsError::NotFound);
            },
            Some(n) => n,
        };
        if !n.ty.is_file() {
            return Err(VfsError::Unsupported);
        }
        let flen = n.data.len();
        if offset >= flen as u64 {
            proof {
                assert(read_bytes(self.node_data(id), offset as nat, buf0) =~= buf0);
            }
            return Ok(0);
        }
        let off = offset as usize;
        let m: usize = if buf.len() < flen - off {
            buf.len()
        } else {
            flen - off
        };
        let mut j: usize = 0;
        while j < m
            invariant
                j <= m,
                off + m <= flen,
                flen == n.data@.len(),
                buf@.len() == buf0.len(),
                m == read_len(n.data@.len(), off as nat, buf0.len()),
                buf@ == n.data@.subrange(off as int, off + j) + buf0.skip(j as int),
            decreases m - j,
        {
            let b = n.data[off + j];
            buf.set(j, b);
            j += 1;
            proof {
                assert(buf@ =~= n.data@.subrange(off as int, off + j) + buf0.skip(j as int));
            }
        }
        proof {
            if m == 0 {
                assert(buf@ =~= buf0);
            }
            assert(buf@ =~= read_bytes(self.node_data(id), offset as nat, buf0));
        }
        Ok(m)
    }

    fn read_dir(&self, id: NodeId, start_idx: usize, dirents: &mut Vec<VfsDirEntry>) -> (r:
        VfsResult<usize>)
        ensures
            r is Ok <==> self.has_node(id) && self.node_ty(id) is Dir,
    {
        let ghost dirents0 = dirents@;
        let n = match self.slot(id) {
            None => {
                return Err(VfsError::NotFound);
            },
            Some(n) => n,
        };
        if !n.ty.is_dir() {
            return Err(VfsError::NotADirectory);
        }
        let dp = &n.path;
        let ghost ns = self.nodes@;
        let ghost dpv = dp@;
        let cap = dirents.len();
        let mut count: usize = 0;
        let mut filled: usize = 0;
        let mut i: usize = 0;
        while i < self.nodes.len()
            invariant
                i <= ns.len(),
                ns == self.nodes@,
                dpv == pth(ns, id as int),
                dp@ == dpv,
                count <= i,
                cap == dirents0.len(),
                count as nat == ents_upto(ns, dpv, i as nat).len(),
                filled == (if count <= start_idx {
                    0int
                } else if count - start_idx < cap {
                    count - start_idx
                } else {
                    cap as int
                }),
                dirents@.len() == dirents0.len(),
                forall|t: int| #![auto] 0 <= t < filled ==> entry_models(
                    dirents@[t],
                    ents_upto(ns, dpv, i as nat)[start_idx + t],
                ),
                forall|t: int| filled <= t < dirents0.len() ==> dirents@[t] == dirents0[t],
            decreases ns.len() - i,
        {
            match &self.nodes[i] {
                Some(node) => {
                    proof {
                        assert(node.path@ == pth(ns, i as int));
                        assert(node.ty == nty(ns, i as int));
                    }
                    match child_name_of(&node.path, dp) {
                        Some(name) => {
                            proof {
                                assert(is_child(pth(ns, i as int), dpv));
                                assert(ents_upto(ns, dpv, (i + 1) as nat) == ents_upto(
                                    ns,
                                    dpv,
                                    i as nat,
                                ).push(
                                    DirEntryModel {
                                        name: child_name(pth(ns, i as int), dpv),
                                        ty: nty(ns, i as int),
                                    },
                                ));
                                assert(name@ == child_name(pth(ns, i as int), dpv));
                            }
                            if count >= start_idx && filled < cap {
                                dirents.set(filled, VfsDirEntry::new(name, node.ty));
                                filled += 1;
                            }
                            count += 1;
                        },
                        None => {
                            proof {
                                assert(!is_child(pth(ns, i as int), dpv));
                                assert(ents_upto(ns, dpv, (i + 1) as nat) == ents_upto(
                                    ns,
                                    dpv,
                                    i as nat,
                                ));
                            }
                        },
                    }
                },
                None => {
                    proof {
                        assert(!used(ns, i as int));
                        assert(ents_upto(ns, dpv, (i + 1) as nat) == ents_upto(ns, dpv, i as nat));
                    }
                },
            }
            i += 1;
        }
        let r: usize = if start_idx >= count {
            0
        } else if count - start_idx < cap {
            count - start_idx
        } else {
            cap
        };
        Ok(r)
    }

    fn write_at(&mut self, id: NodeId, offset: u64, buf: &[u8]) -> (r: VfsResult<usize>)
        ensures
            r is Ok <==> old(self).has_node(id) && old(self).node_ty(id) is File && offset as nat
                + buf@.len() <= usize::MAX as nat,
    {
        let n = match self.slot(id) {
            None => {
                return Err(VfsError::NotFound);
            },
            Some(n) => n,
        };
        if !n.ty.is_file() {
            return Err(VfsError::Unsupported);
        }
        if offset > (usize::MAX as u64) - (buf.len() as u64) {
            return Err(VfsError::NoMemory);
        }
        let off = offset as usize;
        let newdata = spliced(&n.data, off, buf);
        let len = buf.len();
        self.put_data(id, newdata);
        Ok(len)
    }

    fn fsync(&mut self, id: NodeId) -> (r: VfsResult)
        ensures
            r is Ok <==> old(self).has_node(id) && old(self).node_ty(id) is File,
    {
        let n = match self.slot(id) {
            None => {
                return Err(VfsError::NotFound);
            },
            Some(n) => n,
        };
        if !n.ty.is_file() {
            return Err(VfsError::Unsupported);
        }
        Ok(())
    }

    fn truncate(&mut self, id: NodeId, size: u64) -> (r: VfsResult)
        ensures
            r is Ok <==> old(self).has_node(id) && old(self).node_ty(id) is File && size as nat
                <= usize::MAX as nat,
    {
        let n = match self.slot(id) {
            None => {
                return Err(VfsError::NotFound);
            },
            Some(n) => n,
        };
        if !n.ty.is_file() {
            return Err(VfsError::Unsupported);
        }
        if size > usize::MAX as u64 {
            return Err(VfsError::NoMemory);
        }
        let newdata = shrunk(&n.data, size as usize);
        self.put_data(id, newdata);
        Ok(())
    }

    fn setattr(
        &mut self,
        id: NodeId,
        mode: Option<u32>,
        _uid: Option<u32>,
        _gid: Option<u32>,
        size: Option<u64>,
    ) -> (r: VfsResult)
        ensures
            r is Ok <==> old(self).has_node(id) && (size matches Some(sz) ==> old(
                self,
            ).node_ty(id) is File && sz as nat <= usize::MAX as nat),
    {
        let n = match self.slot(id) {
            None => {
                return Err(VfsError::NotFound);
            },
            Some(n) => n,
        };
        let is_file = n.ty.is_file();
        let sz: Option<u64> = match size {
            Some(sz) => {
                if !is_file {
                    return Err(VfsError::InvalidInput);
                }
                if sz > usize::MAX as u64 {
                    return Err(VfsError::NoMemory);
                }
                Some(sz)
            },
            None => None,
        };
        let path2 = clone_bytes(&n.path);
        let ty2 = n.ty;
        let perm2 = match mode {
            Some(m) => VfsNodePerm::from_bits((m % 512) as u16),
            None => n.perm,
        };
        let data2 = match sz {
            Some(v) => shrunk(&n.data, v as usize),
            None => clone_bytes(&n.data),
        };
        let ghost ns = self.nodes@;
        self.nodes.set(id, Some(RamNode { path: path2, ty: ty2, perm: perm2, data: data2 }));
        proof {
            let ns2 = self.nodes@;
            assert forall|i: int, j: int|
                used(ns2, i) && used(ns2, j) && i != j implies pth(ns2, i) != pth(ns2, j) by {
                assert(used(ns, i) && used(ns, j));
                assert(pth(ns2, i) == pth(ns, i) && pth(ns2, j) == pth(ns, j));
            }
            assert(ram_wf(ns2));
        }
        Ok(())
    }

    fn create(&mut self, id: NodeId, path: &RelPath, ty: VfsNodeType) -> (r: VfsResult)
        ensures
            r is Ok <==> (old(self).resolve(id, path@) is Some || (old(self).has_node(id) && old(
                self,
            ).node_ty(id) is Dir && rel_shaped(path@) && (old(self).resolve(
                id,
                parent_rel(path@),
            ) matches Some(p) && old(self).node_ty(p) is Dir))),
    {
        let n = match self.slot(id) {
            None => {
                return Err(VfsError::NotFound);
            },
            Some(n) => n,
        };
        if path.len() == 0 {
            return Ok(());
        }
        if !n.ty.is_dir() {
            return Err(VfsError::NotADirectory);
        }
        let full = join_path(&n.path, path.as_bytes());
        match self.find(&full) {
            Some(k) => {
                proof {
                    vstd::std_specs::vec::axiom_spec_len(&self.nodes);
                    lemma_find_some_props(self.nodes@, full@, 0, k);
                }
                return Ok(());
            },
            None => {},
        }
        if !is_rel_shaped(path.as_bytes()) {
            return Err(VfsError::InvalidInput);
        }
        // the parent must exist and be a directory
        match last_sep(path.as_bytes()) {
            None => {
                // a bare name: the parent is `id` itself, a directory
                proof {
                    lemma_parent_rel_none(path@);
                }
            },
            Some(cut) => {
                proof {
                    lemma_parent_rel_at(path@, cut as int);
                    assert(cut != 0);
                }
                let prel = path.prefix(cut);
                let pfull = join_path(&n.path, prel.as_bytes());
                let p = match self.find(&pfull) {
                    None => {
                        return Err(VfsError::NotFound);
                    },
                    Some(p) => p,
                };
                proof {
                    vstd::std_specs::vec::axiom_spec_len(&self.nodes);
                    lemma_find_some_props(self.nodes@, pfull@, 0, p);
                }
                let pn = match self.slot(p) {
                    None => {
                        return Err(VfsError::NotFound);
                    },
                    Some(pn) => pn,
                };
                if !pn.ty.is_dir() {
                    return Err(VfsError::NotADirectory);
                }
            },
        }
        let perm = if ty.is_dir() {
            VfsNodePerm::default_dir()
        } else {
            VfsNodePerm::default_file()
        };
        let ghost ns = self.nodes@;
        let ghost fullv = full@;
        proof {
            vstd::std_specs::vec::axiom_spec_len(&self.nodes);
            lemma_find_none_iff(ns, fullv, 0);
        }
        let node = RamNode { path: full, ty, perm, data: Vec::new() };
        self.nodes.push(Some(node));
        proof {
            let ns2 = self.nodes@;
            let newid = ns.len() as NodeId;
            vstd::std_specs::vec::axiom_spec_len(&self.nodes);
            assert(used(ns2, newid as int) && pth(ns2, newid as int) == fullv);
            assert(nty(ns2, newid as int) == ty && ndata(ns2, newid as int) == Seq::<u8>::empty());
            assert forall|i: int, j: int|
                used(ns2, i) && used(ns2, j) && i != j implies pth(ns2, i) != pth(ns2, j) by {
                if i < ns.len() && j < ns.len() {
                    assert(used(ns, i) && used(ns, j));
                } else if i == ns.len() {
                    assert(used(ns, j) && pth(ns, j) != fullv);
                } else {
                    assert(used(ns, i) && pth(ns, i) != fullv);
                }
            }
            assert(ram_wf(ns2));
            assert(pth(ns2, id as int) == pth(ns, id as int));
            assert(join_rel(pth(ns2, id as int), path@) == fullv);
            lemma_find_unique(ns2, fullv, newid);
            assert(self.resolve(id, path@) == Some(newid));
            assert forall|j2: NodeId, rel: Seq<u8>|
                (#[trigger] old(self).resolve(j2, rel)) is Some implies self.resolve(j2, rel)
                == old(self).resolve(j2, rel) by {
                if used(ns, j2 as int) && rel.len() != 0 && nty(ns, j2 as int) is Dir {
                    let f2 = join_rel(pth(ns, j2 as int), rel);
                    let m = find_node(ns, f2, 0);
                    if m is Some {
                        lemma_find_some_props(ns, f2, 0, m->Some_0);
                        lemma_find_unique(ns2, f2, m->Some_0);
                    }
                }
            }
            assert forall|rel: Seq<u8>|
                rel != path@ && (#[trigger] old(self).resolve(id, rel)) is None implies self
                .resolve(id, rel) is None by {
                if used(ns, id as int) && rel.len() != 0 && nty(ns, id as int) is Dir {
                    let basep = pth(ns, id as int);
                    let f2 = join_rel(basep, rel);
                    let m = find_node(ns2, f2, 0);
                    if m is Some {
                        lemma_find_some_props(ns2, f2, 0, m->Some_0);
                        if (m->Some_0 as int) < ns.len() as int {
                            assert(used(ns, m->Some_0 as int) && pth(ns, m->Some_0 as int) == f2);
                            lemma_find_unique(ns, f2, m->Some_0);
                        } else {
                            assert(m->Some_0 == newid);
                            assert(f2 == fullv);
                            if basep.len() == 0 {
                                assert(rel == path@);
                            } else {
                                assert((basep + seq![SEP] + rel).skip(
                                    basep.len() + 1 as int,
                                ) =~= rel);
                                assert((basep + seq![SEP] + path@).skip(
                                    basep.len() + 1 as int,
                                ) =~= path@);
                                assert(rel == path@);
                            }
                        }
                    }
                }
            }
        }
        Ok(())
    }

    /// A single pass that checks each prefix itself: existing prefixes
    /// must be directories, missing ones are created as directories,
    /// and the final component is created with the requested type.  It
    /// preserves the default's tolerance of existing prefixes and of
    /// an already existing path, and pins the exact success condition:
    /// the path already resolves, or the base is a directory, the
    /// fragment is well shaped, and every prefix that already exists
    /// is a directory.
    fn create_recursive(&mut self, id: NodeId, path: &RelPath, ty: VfsNodeType) -> (r: VfsResult)
        ensures
            r is Ok <==> (old(self).resolve(id, path@) is Some || (old(self).has_node(id) && old(
                self,
            ).node_ty(id) is Dir && rel_shaped(path@) && (forall|c: int|
                #![trigger path@.take(c)]
                0 <= c < path@.len() && path@[c] == SEP ==> (old(self).resolve(
                    id,
                    path@.take(c),
                ) is Some ==> old(self).node_ty(
                    old(self).resolve(id, path@.take(c))->Some_0,
                ) is Dir)))),
    {
        let n = match self.slot(id) {
            None => {
                return Err(VfsError::NotFound);
            },
            Some(n) => n,
        };
        if path.len() == 0 {
            return Ok(());
        }
        if !n.ty.is_dir() {
            return Err(VfsError::NotADirectory);
        }
        let full = join_path(&n.path, path.as_bytes());
        match self.find(&full) {
            Some(k) => {
                proof {
                    vstd::std_specs::vec::axiom_spec_len(&self.nodes);
                    lemma_find_some_props(self.nodes@, full@, 0, k);
                }
                return Ok(());
            },
            None => {},
        }
        if !is_rel_shaped(path.as_bytes()) {
            return Err(VfsError::InvalidInput);
        }
        proof {
            vstd::std_specs::vec::axiom_spec_len(&self.nodes);
            assert forall|c: int|
                0 <= c < path@.len() && #[trigger] path@[c] == SEP && self.resolve(
                    id,
                    path@.take(c),
                ) is Some implies self.has_node(self.resolve(id, path@.take(c))->Some_0) by {
                let f2 = join_rel(pth(self.nodes@, id as int), path@.take(c));
                let m = find_node(self.nodes@, f2, 0);
                if m is Some {
                    lemma_find_some_props(self.nodes@, f2, 0, m->Some_0);
                }
            }
        }
        let mut prev: Option<usize> = None;
        let mut i: usize = 0;
        while i < path.len()
            invariant
                old(self).wf(),
                self.wf(),
                i <= path@.len(),
                rel_shaped(path@),
                old(self).has_node(id),
                old(self).node_ty(id) is Dir,
                self.has_node(id),
                self.node_ty(id) is Dir,
                nodes_kept(old(self), &*self),
                resolve_kept(old(self), &*self),
                self.root_id() == old(self).root_id(),
                self.resolve(id, path@) is None,
                old(self).resolve(id, path@) is None,
                forall|c: int|
                    #![trigger path@.take(c)]
                    0 <= c < i && path@[c] == SEP ==> (self.resolve(id, path@.take(c)) is Some
                        && self.node_ty(self.resolve(id, path@.take(c))->Some_0) is Dir
                        && self.has_node(self.resolve(id, path@.take(c))->Some_0)),
                forall|c: int|
                    #![trigger path@.take(c)]
                    i <= c < path@.len() && path@[c] == SEP ==> self.resolve(id, path@.take(c))
                        == old(self).resolve(id, path@.take(c)),
                forall|c: int|
                    #![trigger path@.take(c)]
                    0 <= c < path@.len() && path@[c] == SEP && old(self).resolve(
                        id,
                        path@.take(c),
                    ) is Some ==> old(self).has_node(
                        old(self).resolve(id, path@.take(c))->Some_0,
                    ),
                forall|c: int|
                    #![trigger path@.take(c)]
                    0 <= c < i && path@[c] == SEP && old(self).resolve(id, path@.take(c))
                        is Some ==> old(self).node_ty(
                        old(self).resolve(id, path@.take(c))->Some_0,
                    ) is Dir,
                prev matches Some(c0) ==> c0 < i && path@[c0 as int] == SEP && (forall|k: int|
                    c0 < k < i ==> path@[k] != SEP),
                prev is None ==> forall|k: int| 0 <= k < i ==> path@[k] != SEP,
            decreases path@.len() - i,
        {
            if path.as_bytes()[i] == SEP {
                let part = path.prefix(i);
                proof {
                    crate::laws::lemma_create_recursive_prefixes(path@, i as int);
                    assert(part@.len() < path@.len());
                    assert(part@ != path@);
                    assert forall|c: int|
                        i < c < path@.len() && path@[c] == SEP implies #[trigger] path@.take(c)
                        != part@ by {
                        assert(path@.take(c).len() == c);
                    }
                    match prev {
                        Some(c0) => {
                            lemma_parent_rel_at(part@, c0 as int);
                            assert(part@.take(c0 as int) =~= path@.take(c0 as int));
                        },
                        None => {
                            lemma_parent_rel_none(part@);
                        },
                    }
                }
                match self.lookup(id, &part) {
                    Ok(p) => {
                        let pn = match self.slot(p) {
                            None => {
                                return Err(VfsError::NotFound);
                            },
                            Some(pn) => pn,
                        };
                        if !pn.ty.is_dir() {
                            return Err(VfsError::NotADirectory);
                        }
                    },
                    Err(_) => {
                        proof {
                            assert(self.resolve(id, part@) is None);
                            assert(self.resolve(id, parent_rel(part@)) matches Some(q)
                                && self.node_ty(q) is Dir);
                        }
                        match self.create(id, &part, VfsNodeType::Dir) {
                            Ok(()) => {},
                            Err(e) => {
                                proof {
                                    assert(false);
                                }
                                return Err(e);
                            },
                        }
                    },
                }
                prev = Some(i);
            }
            i += 1;
        }
        proof {
            assert forall|c: int|
                0 <= c < path@.len() && #[trigger] path@[c] == SEP implies path@.take(c)
                != path@ by {
                assert(path@.take(c).len() == c);
            }
            match prev {
                Some(c0) => {
                    lemma_parent_rel_at(path@, c0 as int);
                },
                None => {
                    lemma_parent_rel_none(path@);
                },
            }
            assert(self.resolve(id, parent_rel(path@)) matches Some(q) && self.node_ty(q)
                is Dir);
        }
        match self.create(id, path, ty) {
            Ok(()) => Ok(()),
            Err(e) => {
                proof {
                    assert(false);
                }
                Err(e)
            },
        }
    }

    fn unlink(&mut self, id: NodeId, path: &RelPath) -> (r: VfsResult)
        ensures
            r is Ok <==> (old(self).resolve(id, path@) matches Some(k) && k != old(
                self,
            ).root_id() && (old(self).node_ty(k) is Dir ==> old(self).dir_entries(k).len()
                == 0)),
    {
        let n = match self.slot(id) {
            None => {
                return Err(VfsError::NotFound);
            },
            Some(n) => n,
        };
        let full: Vec<u8> = if path.len() == 0 {
            clone_bytes(&n.path)
        } else {
            if !n.ty.is_dir() {
                return Err(VfsError::NotADirectory);
            }
            join_path(&n.path, path.as_bytes())
        };
        proof {
            vstd::std_specs::vec::axiom_spec_len(&self.nodes);
            if path@.len() == 0 {
                lemma_find_unique(self.nodes@, full@, id);
            }
        }
        let k = match self.find(&full) {
            None => {
                return Err(VfsError::NotFound);
            },
            Some(k) => k,
        };
        proof {
            lemma_find_some_props(self.nodes@, full@, 0, k);
            if path@.len() == 0 {
                assert(k == id);
            } else {
                assert(full@.len() > 0);
                assert(k != 0);
            }
        }
        if k == 0 {
            return Err(VfsError::InvalidInput);
        }
        let kn = match self.slot(k) {
            None => {
                return Err(VfsError::NotFound);
            },
            Some(kn) => kn,
        };
        if kn.ty.is_dir() {
            let kpath = clone_bytes(&kn.path);
            if self.any_child(&kpath) {
                return Err(VfsError::DirectoryNotEmpty);
            }
        }
        let ghost ns = self.nodes@;
        self.nodes.set(k, None);
        proof {
            let ns2 = self.nodes@;
            assert forall|i: int, j: int|
                used(ns2, i) && used(ns2, j) && i != j implies pth(ns2, i) != pth(ns2, j) by {
                assert(used(ns, i) && used(ns, j));
            }
            assert(ram_wf(ns2));
            if path@.len() == 0 {
                assert(pth(ns, k as int) == pth(ns, id as int));
                assert(k == id);
            } else {
                assert(full@ == join_rel(pth(ns, id as int), path@));
                assert(full@.len() > pth(ns, id as int).len());
                assert(k != id);
                assert forall|j: int| used(ns2, j) implies pth(ns2, j) != full@ by {
                    assert(used(ns, j));
                    if j != k {
                        assert(pth(ns, j) != pth(ns, k as int));
                    }
                }
                lemma_find_none_iff(ns2, full@, 0);
                assert(self.resolve(id, path@) is None);
            }
        }
        Ok(())
    }

    fn rename(&mut self, id: NodeId, src_path: &RelPath, dst_path: &RelPath) -> (r: VfsResult)
        ensures
            r is Ok <==> (old(self).resolve(id, src_path@) matches Some(k) && rel_shaped(
                src_path@,
            ) && rel_shaped(dst_path@) && (src_path@ == dst_path@ || (old(self).resolve(
                id,
                dst_path@,
            ) is None && (old(self).resolve(id, parent_rel(dst_path@)) matches Some(p) && old(
                self,
            ).node_ty(p) is Dir) && (old(self).node_ty(k) is Dir ==> old(self).dir_entries(
                k,
            ).len() == 0)))),
    {
        let n = match self.slot(id) {
            None => {
                return Err(VfsError::NotFound);
            },
            Some(n) => n,
        };
        if !is_rel_shaped(src_path.as_bytes()) || !is_rel_shaped(dst_path.as_bytes()) {
            return Err(VfsError::InvalidInput);
        }
        if !n.ty.is_dir() {
            return Err(VfsError::NotADirectory);
        }
        let ghost base = n.path@;
        let src_full = join_path(&n.path, src_path.as_bytes());
        let dst_full = join_path(&n.path, dst_path.as_bytes());
        let k = match self.find(&src_full) {
            None => {
                return Err(VfsError::NotFound);
            },
            Some(k) => k,
        };
        proof {
            vstd::std_specs::vec::axiom_spec_len(&self.nodes);
            lemma_find_some_props(self.nodes@, src_full@, 0, k);
        }
        if bytes_eq(src_path.as_bytes(), dst_path.as_bytes()) {
            return Ok(());
        }
        proof {
            if base.len() != 0 {
                assert((base + seq![SEP] + src_path@).skip(base.len() + 1 as int) =~= src_path@);
                assert((base + seq![SEP] + dst_path@).skip(base.len() + 1 as int) =~= dst_path@);
            }
            assert(src_full@ != dst_full@);
        }
        let kn = match self.slot(k) {
            None => {
                return Err(VfsError::NotFound);
            },
            Some(kn) => kn,
        };
        let kty = kn.ty;
        let kperm = kn.perm;
        if kty.is_dir() {
            let kpath = clone_bytes(&kn.path);
            // a flat path store cannot relocate a whole subtree
            if self.any_child(&kpath) {
                return Err(VfsError::Unsupported);
            }
        }
        match self.find(&dst_full) {
            Some(_) => {
                return Err(VfsError::AlreadyExists);
            },
            None => {},
        }
        // the destination's parent must exist and be a directory
        match last_sep(dst_path.as_bytes()) {
            None => {
                // a bare name: the parent is `id` itself, a directory
                proof {
                    lemma_parent_rel_none(dst_path@);
                }
            },
            Some(cut) => {
                proof {
                    lemma_parent_rel_at(dst_path@, cut as int);
                    assert(cut != 0);
                }
                let prel = dst_path.prefix(cut);
                let pfull = join_path(&n.path, prel.as_bytes());
                let p = match self.find(&pfull) {
                    None => {
                        return Err(VfsError::NotFound);
                    },
                    Some(p) => p,
                };
                proof {
                    lemma_find_some_props(self.nodes@, pfull@, 0, p);
                }
                let pn = match self.slot(p) {
                    None => {
                        return Err(VfsError::NotFound);
                    },
                    Some(pn) => pn,
                };
                if !pn.ty.is_dir() {
                    return Err(VfsError::NotADirectory);
                }
            },
        }
        let kn2 = match self.slot(k) {
            None => {
                return Err(VfsError::NotFound);
            },
            Some(kn2) => kn2,
        };
        let data2 = clone_bytes(&kn2.data);
        let ghost ns = self.nodes@;
        let ghost dstv = dst_full@;
        proof {
            lemma_find_none_iff(ns, dstv, 0);
        }
        self.nodes.set(k, Some(RamNode { path: dst_full, ty: kty, perm: kperm, data: data2 }));
        proof {
            let ns2 = self.nodes@;
            assert(used(ns2, k as int) && pth(ns2, k as int) == dstv);
            assert forall|i: int, j: int|
                used(ns2, i) && used(ns2, j) && i != j implies pth(ns2, i) != pth(ns2, j) by {
                assert(used(ns, i) && used(ns, j));
                if i == k {
                    assert(pth(ns, j) != dstv);
                } else if j == k {
                    assert(pth(ns, i) != dstv);
                }
            }
            assert(pth(ns, k as int) == src_full@ && src_full@ != Seq::<u8>::empty());
            assert(k != 0);
            assert(ram_wf(ns2));
            assert(pth(ns, k as int) != pth(ns, id as int));
            assert(k != id);
            assert(pth(ns2, id as int) == pth(ns, id as int));
            lemma_find_unique(ns2, dstv, k);
            assert(self.resolve(id, dst_path@) == Some(k));
            assert forall|j: int| used(ns2, j) implies pth(ns2, j) != src_full@ by {
                assert(used(ns, j));
                if j != k {
                    assert(pth(ns, j) != pth(ns, k as int));
                }
            }
            lemma_find_none_iff(ns2, src_full@, 0);
            assert(self.resolve(id, src_path@) is None);
        }
        Ok(())
    }
}

impl RamFileSystem {
    /// Whether the directory whose path is `dp` has any entry.
    fn any_child(&self, dp: &Vec<u8>) -> (r: bool)
        ensures
            r == (ents_upto(self.nodes@, dp@, self.nodes@.len() as nat).len() > 0),
    {
        let ghost ns = self.nodes@;
        let mut i: usize = 0;
        while i < self.nodes.len()
            invariant
                i <= ns.len(),
                ns == self.nodes@,
                ents_upto(ns, dp@, i as nat).len() == 0,
            decreases ns.len() - i,
        {
            match &self.nodes[i] {
                Some(node) => {
                    proof {
                        assert(node.path@ == pth(ns, i as int));
                        assert(node.ty == nty(ns, i as int));
                    }
                    match child_name_of(&node.path, dp) {
                        Some(_) => {
                            proof {
                                assert(ents_upto(ns, dp@, (i + 1) as nat).len() > 0);
                                lemma_ents_monotone(ns, dp@, (i + 1) as nat, ns.len() as nat);
                            }
                            return true;
                        },
                        None => {
                            proof {
                                assert(ents_upto(ns, dp@, (i + 1) as nat) == ents_upto(
                                    ns,
                                    dp@,
                                    i as nat,
                                ));
                            }
                        },
                    }
                },
                None => {
                    proof {
                        assert(!used(ns, i as int));
                        assert(ents_upto(ns, dp@, (i + 1) as nat) == ents_upto(ns, dp@, i as nat));
                    }
                },
            }
            i += 1;
        }
        false
    }
}

/// A data-only update (same live slots, paths, types) leaves every find
/// and every directory listing as it was.
proof fn lemma_same_shape_model(a: Seq<Option<RamNode>>, b: Seq<Option<RamNode>>)
    requires
        a.len() == b.len(),
        forall|j: int| 0 <= j < a.len() ==> (used(a, j) == used(b, j)),
        forall|j: int| used(a, j) ==> pth(a, j) == pth(b, j) && nty(a, j) == nty(b, j),
    ensures
        forall|full: Seq<u8>, i: nat| i <= a.len() ==> #[trigger] find_node(b, full, i)
            == find_node(a, full, i),
        forall|dp: Seq<u8>, i: nat| i <= a.len() ==> #[trigger] ents_upto(b, dp, i) == ents_upto(
            a,
            dp,
            i,
        ),
{
    assert forall|full: Seq<u8>, i: nat| i <= a.len() implies #[trigger] find_node(b, full, i)
        == find_node(a, full, i) by {
        lemma_find_same_shape(a, b, full, i);
    }
    assert forall|dp: Seq<u8>, i: nat| i <= a.len() implies #[trigger] ents_upto(b, dp, i)
        == ents_upto(a, dp, i) by {
        lemma_ents_same_shape(a, b, dp, i);
    }
}

/// The content of a file after writing `buf` at `off` into `data`:
/// copied prefix, zero fill up to the offset, the written bytes, and
/// whatever tail survives.
fn spliced(data: &Vec<u8>, off: usize, buf: &[u8]) -> (r: Vec<u8>)
    requires
        off + buf@.len() <= usize::MAX,
    ensures
        r@ == write_bytes(data@, off as nat, buf@),
{
    let dlen = data.len();
    let ghost pfx = if off <= data@.len() {
        data@.take(off as int)
    } else {
        data@ + zeros((off - data@.len()) as nat)
    };
    let mut out: Vec<u8> = Vec::new();
    let m1: usize = if off < dlen {
        off
    } else {
        dlen
    };
    let mut i: usize = 0;
    while i < m1
        invariant
            i <= m1 <= data@.len(),
            out@ == data@.take(i as int),
        decreases m1 - i,
    {
        out.push(data[i]);
        i += 1;
        proof {
            assert(out@ =~= data@.take(i as int));
        }
    }
    while out.len() < off
        invariant
            out@.len() >= m1,
            m1 == (if off < data@.len() {
                off as int
            } else {
                data@.len() as int
            }),
            out@.len() <= off,
            out@ == data@.take(m1 as int) + zeros((out@.len() - m1) as nat),
        decreases off - out.len(),
    {
        out.push(0);
        proof {
            assert(out@ =~= data@.take(m1 as int) + zeros((out@.len() - m1) as nat));
        }
    }
    proof {
        assert(out@ =~= pfx);
    }
    let ghost mid = out@;
    let mut j: usize = 0;
    while j < buf.len()
        invariant
            j <= buf@.len(),
            off + buf@.len() <= usize::MAX,
            out@ == mid + buf@.take(j as int),
        decreases buf@.len() - j,
    {
        out.push(buf[j]);
        j += 1;
        proof {
            assert(out@ =~= mid + buf@.take(j as int));
        }
    }
    proof {
        assert(buf@.take(buf@.len() as int) =~= buf@);
        assert(out@ =~= pfx + buf@);
    }
    let ghost mid2 = out@;
    let end = off + buf.len();
    if end < dlen {
        let mut t: usize = end;
        while t < dlen
            invariant
                end <= t <= dlen,
                dlen == data@.len(),
                out@ == mid2 + data@.subrange(end as int, t as int),
            decreases dlen - t,
        {
            out.push(data[t]);
            t += 1;
            proof {
                assert(out@ =~= mid2 + data@.subrange(end as int, t as int));
            }
        }
    }
    proof {
        assert(out@ =~= write_bytes(data@, off as nat, buf@));
    }
    out
}

/// The content of a file after truncating `data` to `size` bytes.
fn shrunk(data: &Vec<u8>, size: usize) -> (r: Vec<u8>)
    ensures
        r@ == truncate_bytes(data@, size as nat),
{
    let dlen = data.len();
    let m1: usize = if size < dlen {
        size
    } else {
        dlen
    };
    let mut out: Vec<u8> = Vec::new();
    let mut i: usize = 0;
    while i < m1
        invariant
            i <= m1 <= data@.len(),
            out@ == data@.take(i as int),
        decreases m1 - i,
    {
        out.push(data[i]);
        i += 1;
        proof {
            assert(out@ =~= data@.take(i as int));
        }
    }
    while out.len() < size
        invariant
            out@.len() >= m1,
            m1 == (if size < data@.len() {
                size as int
            } else {
                data@.len() as int
            }),
            out@.len() <= size,
            out@ == data@.take(m1 as int) + zeros((out@.len() - m1) as nat),
        decreases size - out.len(),
    {
        out.push(0);
        proof {
            assert(out@ =~= data@.take(m1 as int) + zeros((out@.len() - m1) as nat));
        }
    }
    proof {
        if m1 < size {
            assert(out@ =~= truncate_bytes(data@, size as nat));
        } else {
            assert(out@ =~= data@.take(m1 as int) + zeros(0));
            assert(out@ =~= truncate_bytes(data@, size as nat));
        }
    }
    out
}

impl RamFileSystem {
    /// Replaces the content of file node `k`, leaving everything else
    /// of the model as it was.
    fn put_data(&mut self, k: NodeId, newdata: Vec<u8>)
        requires
            old(self).wf(),
            old(self).has_node(k),
            old(self).node_ty(k) is File,
        ensures
            final(self).wf(),
            final(self).node_data(k) == newdata@,
            crate::node::unchanged_except_data(old(self), final(self), k),
    {
        let ghost ns = self.nodes@;
        let n = match self.slot(k) {
            None => {
                return ;
            },
            Some(n) => n,
        };
        let path2 = clone_bytes(&n.path);
        let ty2 = n.ty;
        let perm2 = n.perm;
        self.nodes.set(k, Some(RamNode { path: path2, ty: ty2, perm: perm2, data: newdata }));
        proof {
            let ns2 = self.nodes@;
            assert forall|j: int| 0 <= j < ns.len() implies used(ns2, j) == used(ns, j) by {}
            assert forall|j: int| used(ns, j) implies pth(ns2, j) == pth(ns, j) && nty(ns2, j)
                == nty(ns, j) by {}
            lemma_same_shape_model(ns, ns2, );
            assert(ram_wf(ns2));
            assert forall|j: NodeId, rel: Seq<u8>| true implies #[trigger] self.resolve(j, rel)
                == old(self).resolve(j, rel) by {
                assert(find_node(ns2, join_rel(pth(ns, j as int), rel), 0) == find_node(
                    ns,
                    join_rel(pth(ns, j as int), rel),
                    0,
                ));
            }
            assert forall|j: NodeId| true implies #[trigger] self.dir_entries(j) == old(
                self,
            ).dir_entries(j) by {
                assert(ents_upto(ns2, pth(ns, j as int), ns.len() as nat) == ents_upto(
                    ns,
                    pth(ns, j as int),
                    ns.len() as nat,
                ));
            }
        }
    }
}

impl VfsOps for RamFileSystem {
    fn statfs(&self) -> (r: VfsResult<FileSystemInfo>)
        ensures
            r matches Ok(info) ==> info.files == self.live_nodes(),
            r is Ok,
    {
        let mut files: usize = 0;
        let mut i: usize = 0;
        while i < self.nodes.len()
            invariant
                files <= i <= self.nodes@.len(),
                files as nat == live_upto(self.nodes@, i as nat),
            decreases self.nodes@.len() - i,
        {
            match &self.nodes[i] {
                Some(_) => {
                    files += 1;
                },
                None => {},
            }
            i += 1;
        }
        Ok(
            FileSystemInfo {
                block_size: 512,
                total_blocks: 0,
                free_blocks: 0,
                files: files as u64,
            },
        )
    }

    fn format(&mut self) -> (r: VfsResult)
        ensures
            r is Ok,
            forall|j: NodeId| #[trigger] final(self).has_node(j) <==> j == 0,
            final(self).node_ty(0) is Dir,
            final(self).dir_entries(0) == Seq::<DirEntryModel>::empty(),
    {
        self.nodes.truncate(1);
        proof {
            let ns2 = self.nodes@;
            assert(ns2 =~= old(self).nodes@.subrange(0, 1));
            assert(ram_wf(ns2));
            assert(pth(ns2, 0) == Seq::<u8>::empty());
            assert(ents_upto(ns2, Seq::<u8>::empty(), 0) == Seq::<DirEntryModel>::empty());
            assert(!is_child(pth(ns2, 0), Seq::<u8>::empty()));
            assert(ents_upto(ns2, Seq::<u8>::empty(), 1) =~= Seq::<DirEntryModel>::empty());
            assert(self.dir_entries(0) =~= Seq::<DirEntryModel>::empty());
        }
        Ok(())
    }

    fn root_dir(&self) -> NodeId {
        0
    }
}

} // verus!

