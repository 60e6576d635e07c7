//! The path model.
//!
//! An [`AbsPath`] always begins at the namespace root and is normalized on
//! construction: `.` and `..` components are resolved, repeated and
//! trailing separators collapse.  A [`RelPath`] is an opaque fragment,
//! resolved only by a directory node.
//!
//! Paths are byte strings; the separator is the byte `/` (47).

use vstd::prelude::*;
use vstd::string::StringSliceAdditionalSpecFns;

verus! {

/// The path separator byte, `/`.
pub const SEP: u8 = 47;

/// The `.` byte.
pub const DOT: u8 = 46;

/// One normalization step over a finished component: empty and `.`
/// components vanish, `..` pops the last component (or nothing at the
/// root), anything else is stacked.
pub open spec fn apply_comp(stack: Seq<Seq<u8>>, comp: Seq<u8>) -> Seq<Seq<u8>> {
    if comp.len() == 0 || comp == seq![DOT] {
        stack
    } else if comp == seq![DOT, DOT] {
        if stack.len() == 0 {
            stack
        } else {
            stack.drop_last()
        }
    } else {
        stack.push(comp)
    }
}

/// The state of the normalization fold after reading `i` bytes of `s`:
/// the stack of finished components and the component being read.
pub open spec fn norm_state(s: Seq<u8>, i: nat) -> (Seq<Seq<u8>>, Seq<u8>)
    decreases i,
{
    if i == 0 {
        (seq![], seq![])
    } else {
        let prev = norm_state(s, (i - 1) as nat);
        let b = s[i - 1];
        if b == SEP {
            (apply_comp(prev.0, prev.1), seq![])
        } else {
            (prev.0, prev.1.push(b))
        }
    }
}

/// The component stack a byte string normalizes to.
pub open spec fn norm_comps(s: Seq<u8>) -> Seq<Seq<u8>> {
    let st = norm_state(s, s.len());
    apply_comp(st.0, st.1)
}

/// The first `k` components of `cs` joined with separators (no leading
/// separator).
pub open spec fn join_upto(cs: Seq<Seq<u8>>, k: nat) -> Seq<u8>
    decreases k,
{
    if k == 0 {
        seq![]
    } else if k == 1 {
        cs[0]
    } else {
        join_upto(cs, (k - 1) as nat) + seq![SEP] + cs[k - 1]
    }
}

/// All components of `cs` joined with separators.
pub open spec fn join_comps(cs: Seq<Seq<u8>>) -> Seq<u8> {
    join_upto(cs, cs.len())
}

/// What normalizing `s` into an absolute path yields: a leading
/// separator followed by the joined component stack.
pub open spec fn normalize_abs(s: Seq<u8>) -> Seq<u8> {
    seq![SEP] + join_comps(norm_comps(s))
}

/// Whether `c` can stand as one component of a normalized path:
/// nonempty, free of separators, and neither `.` nor `..`.
pub open spec fn canonical_comp(c: Seq<u8>) -> bool {
    &&& c.len() > 0
    &&& forall|k: int| 0 <= k < c.len() ==> c[k] != SEP
    &&& c != seq![DOT]
    &&& c != seq![DOT, DOT]
}

/// Normalization only stacks canonical components: every component of
/// a normalized path is nonempty, separator-free, and neither `.` nor
/// `..`.
pub proof fn lemma_norm_comps_canonical(s: Seq<u8>, i: nat)
    requires
        i <= s.len(),
    ensures
        forall|k: int|
            0 <= k < norm_state(s, i).0.len() ==> canonical_comp(#[trigger] norm_state(s, i).0[k]),
        forall|k: int| 0 <= k < norm_state(s, i).1.len() ==> norm_state(s, i).1[k] != SEP,
        forall|k: int| 0 <= k < norm_comps(s).len() ==> canonical_comp(#[trigger] norm_comps(s)[k]),
    decreases s.len() - i,
{
    if i > 0 {
        lemma_norm_comps_canonical_upto(s, i);
    }
    lemma_norm_comps_canonical_upto(s, s.len());
    let st = norm_state(s, s.len());
    lemma_apply_comp_canonical(st.0, st.1);
}

/// The invariant of the normalization fold, up to position `i`.
proof fn lemma_norm_comps_canonical_upto(s: Seq<u8>, i: nat)
    requires
        i <= s.len(),
    ensures
        forall|k: int|
            0 <= k < norm_state(s, i).0.len() ==> canonical_comp(#[trigger] norm_state(s, i).0[k]),
        forall|k: int| 0 <= k < norm_state(s, i).1.len() ==> norm_state(s, i).1[k] != SEP,
    decreases i,
{
    if i > 0 {
        lemma_norm_comps_canonical_upto(s, (i - 1) as nat);
        let prev = norm_state(s, (i - 1) as nat);
        if s[i - 1] == SEP {
            lemma_apply_comp_canonical(prev.0, prev.1);
        }
    }
}

/// One normalization step preserves canonical components.
proof fn lemma_apply_comp_canonical(stack: Seq<Seq<u8>>, comp: Seq<u8>)
    requires
        forall|k: int| 0 <= k < stack.len() ==> canonical_comp(#[trigger] stack[k]),
        forall|k: int| 0 <= k < comp.len() ==> comp[k] != SEP,
    ensures
        forall|k: int|
            0 <= k < apply_comp(stack, comp).len() ==> canonical_comp(
                #[trigger] apply_comp(stack, comp)[k],
            ),
{
}

/// The normalization fold reads only the bytes before `i`: a longer
/// string folds the same up to there.
proof fn lemma_norm_state_prefix(s: Seq<u8>, t: Seq<u8>, i: nat)
    requires
        i <= s.len(),
        i <= t.len(),
        forall|k: int| 0 <= k < i ==> s[k] == t[k],
    ensures
        norm_state(s, i) == norm_state(t, i),
    decreases i,
{
    if i > 0 {
        lemma_norm_state_prefix(s, t, (i - 1) as nat);
    }
}

/// Folding separator-free bytes only extends the component being
/// read.
proof fn lemma_norm_state_sepfree(s: Seq<u8>, c: Seq<u8>)
    requires
        forall|k: int| 0 <= k < c.len() ==> c[k] != SEP,
    ensures
        norm_state(s + c, s.len() + c.len()) == (norm_state(s, s.len()).0, norm_state(
            s,
            s.len(),
        ).1 + c),
    decreases c.len(),
{
    if c.len() == 0 {
        assert(s + c =~= s);
        assert(norm_state(s, s.len()).1 + c =~= norm_state(s, s.len()).1);
    } else {
        let c0 = c.drop_last();
        lemma_norm_state_sepfree(s, c0);
        assert(s + c0 =~= (s + c).take((s.len() + c0.len()) as int));
        lemma_norm_state_prefix(s + c0, s + c, s.len() + c0.len());
        assert((s + c)[(s.len() + c.len() - 1) as int] == c.last());
        assert(norm_state(s + c, s.len() + c.len()).1 =~= norm_state(s, s.len()).1 + c);
    }
}

/// Folding one separator finishes the component being read.
proof fn lemma_norm_state_sep(s: Seq<u8>)
    ensures
        norm_state(s + seq![SEP], s.len() + 1) == (
            apply_comp(norm_state(s, s.len()).0, norm_state(s, s.len()).1),
            Seq::<u8>::empty(),
        ),
{
    lemma_norm_state_prefix(s, s + seq![SEP], s.len());
}

/// Folding a joined stack of canonical components recovers the stack:
/// after the leading separator and the first `k` components, the fold
/// holds the first `k - 1` components finished and the `k`-th in hand.
proof fn lemma_fold_join(cs: Seq<Seq<u8>>, k: nat)
    requires
        1 <= k <= cs.len(),
        forall|j: int| 0 <= j < cs.len() ==> canonical_comp(#[trigger] cs[j]),
    ensures
        ({
            let j = seq![SEP] + join_upto(cs, k);
            norm_state(j, j.len()) == (cs.take(k - 1), cs[k - 1])
        }),
    decreases k,
{
    if k == 1 {
        let j = seq![SEP] + join_upto(cs, 1);
        assert(j =~= (seq![SEP]) + cs[0]);
        lemma_norm_state_sep(Seq::<u8>::empty());
        assert(Seq::<u8>::empty() + seq![SEP] =~= seq![SEP]);
        assert(norm_state(seq![SEP], 1) == (Seq::<Seq<u8>>::empty(), Seq::<u8>::empty()));
        lemma_norm_state_sepfree(seq![SEP], cs[0]);
        assert(Seq::<u8>::empty() + cs[0] =~= cs[0]);
        assert(cs.take(0) =~= Seq::<Seq<u8>>::empty());
    } else {
        lemma_fold_join(cs, (k - 1) as nat);
        let prev = seq![SEP] + join_upto(cs, (k - 1) as nat);
        let j = seq![SEP] + join_upto(cs, k);
        assert(j =~= prev + seq![SEP] + cs[k - 1]);
        lemma_norm_state_sep(prev);
        lemma_norm_state_prefix(prev + seq![SEP], j, prev.len() + 1);
        assert(apply_comp(cs.take(k - 2), cs[k - 2]) =~= cs.take(k - 1)) by {
            assert(canonical_comp(cs[k - 2]));
            assert(cs.take(k - 2).push(cs[k - 2]) =~= cs.take(k - 1));
        }
        lemma_norm_state_sepfree(prev + seq![SEP], cs[k - 1]);
        assert(prev + seq![SEP] + cs[k - 1] =~= j);
        lemma_norm_state_prefix(prev + seq![SEP] + cs[k - 1], j, j.len());
        assert(Seq::<u8>::empty() + cs[k - 1] =~= cs[k - 1]);
    }
}

/// Splitting a joined stack of canonical components recovers the
/// stack.
proof fn lemma_split_join(cs: Seq<Seq<u8>>)
    requires
        forall|j: int| 0 <= j < cs.len() ==> canonical_comp(#[trigger] cs[j]),
    ensures
        norm_comps(seq![SEP] + join_comps(cs)) == cs,
{
    if cs.len() == 0 {
        let j = seq![SEP] + join_comps(cs);
        assert(j =~= seq![SEP]);
        lemma_norm_state_sep(Seq::<u8>::empty());
        assert(Seq::<u8>::empty() + seq![SEP] =~= seq![SEP]);
        assert(norm_comps(j) =~= cs);
    } else {
        lemma_fold_join(cs, cs.len());
        let j = seq![SEP] + join_comps(cs);
        assert(norm_state(j, j.len()) == (cs.take(cs.len() - 1), cs[cs.len() - 1]));
        assert(canonical_comp(cs[cs.len() - 1]));
        assert(cs.take(cs.len() - 1).push(cs[cs.len() - 1]) =~= cs);
    }
}

/// Normalization is idempotent: a normalized absolute path normalizes
/// to itself, so `AbsPath` values are fixed points of their own
/// constructor.
pub proof fn lemma_normalize_idempotent(s: Seq<u8>)
    ensures
        normalize_abs(normalize_abs(s)) == normalize_abs(s),
{
    let cs = norm_comps(s);
    lemma_norm_comps_canonical(s, 0);
    lemma_split_join(cs);
}

/// The views of a vector of byte vectors.
pub open spec fn views(s: Seq<Vec<u8>>) -> Seq<Seq<u8>> {
    s.map_values(|v: Vec<u8>| v@)
}

/// An absolute path, normalized on construction.
#[derive(Debug)]
pub struct AbsPath {
    buf: Vec<u8>,
}

impl View for AbsPath {
    type V = Seq<u8>;

    closed spec fn view(&self) -> Seq<u8> {
        self.buf@
    }
}

impl Clone for AbsPath {
    /// Cloning keeps the bytes.
    fn clone(&self) -> (r: Self)
        ensures
            r@ == self@,
    {
        AbsPath { buf: clone_bytes(&self.buf) }
    }
}

/// A relative path: an opaque fragment, resolved against a directory
/// node.  The empty fragment names the directory itself.
#[derive(Debug)]
pub struct RelPath {
    buf: Vec<u8>,
}

impl View for RelPath {
    type V = Seq<u8>;

    closed spec fn view(&self) -> Seq<u8> {
        self.buf@
    }
}

impl Clone for RelPath {
    /// Cloning keeps the bytes.
    fn clone(&self) -> (r: Self)
        ensures
            r@ == self@,
    {
        RelPath { buf: clone_bytes(&self.buf) }
    }
}

/// Copies a byte vector.
pub(crate) fn clone_bytes(v: &Vec<u8>) -> (r: Vec<u8>)
    ensures
        r@ == v@,
{
    let mut r: Vec<u8> = Vec::new();
    let mut i: usize = 0;
    while i < v.len()
        invariant
            i <= v@.len(),
            r@ == v@.take(i as int),
        decreases v@.len() - i,
    {
        r.push(v[i]);
        i += 1;
        proof {
            assert(r@ =~= v@.take(i as int));
        }
    }
    proof {
        assert(v@.take(v@.len() as int) =~= v@);
    }
    r
}

/// Compares two byte vectors for equality.
pub(crate) fn bytes_eq(a: &Vec<u8>, b: &Vec<u8>) -> (r: bool)
    ensures
        r == (a@ == b@),
{
    if a.len() != b.len() {
        return false;
    }
    let mut i: usize = 0;
    while i < a.len()
        invariant
            i <= a@.len(),
            a@.len() == b@.len(),
            forall|k: int| 0 <= k < i ==> a@[k] == b@[k],
        decreases a@.len() - i,
    {
        if a[i] != b[i] {
            return false;
        }
        i += 1;
    }
    proof {
        assert(a@ =~= b@);
    }
    true
}

/// Appends the finished component `cur` to the component stack,
/// resolving `.` and `..`.
fn push_comp(stack: &mut Vec<Vec<u8>>, cur: Vec<u8>)
    ensures
        views(final(stack)@) == apply_comp(views(old(stack)@), cur@),
{
    if cur.len() == 0 || (cur.len() == 1 && cur[0] == DOT) {
        proof {
            if cur@.len() == 1 && cur@[0] == DOT {
                assert(cur@ =~= seq![DOT]);
            }
        }
    } else if cur.len() == 2 && cur[0] == DOT && cur[1] == DOT {
        proof {
            assert(cur@ =~= seq![DOT, DOT]);
        }
        if stack.len() > 0 {
            stack.pop();
            proof {
                assert(views(stack@) =~= views(old(stack)@).drop_last());
            }
        }
    } else {
        proof {
            assert(cur@ != seq![DOT] && cur@ != seq![DOT, DOT]) by {
                if cur@.len() == 1 {
                    assert(cur@[0] != DOT);
                }
                if cur@.len() == 2 {
                    assert(cur@[0] != DOT || cur@[1] != DOT);
                }
            }
        }
        stack.push(cur);
        proof {
            assert(views(stack@) =~= views(old(stack)@).push(cur@));
        }
    }
}

/// Splits `raw` into its component stack with `.` and `..` resolved.
fn normalize_stack(raw: &[u8]) -> (r: Vec<Vec<u8>>)
    ensures
        views(r@) == norm_comps(raw@),
{
    let mut stack: Vec<Vec<u8>> = Vec::new();
    let mut cur: Vec<u8> = Vec::new();
    let mut i: usize = 0;
    while i < raw.len()
        invariant
            i <= raw@.len(),
            (views(stack@), cur@) == norm_state(raw@, i as nat),
        decreases raw@.len() - i,
    {
        let b = raw[i];
        if b == SEP {
            push_comp(&mut stack, cur);
            cur = Vec::new();
        } else {
            cur.push(b);
        }
        i += 1;
    }
    push_comp(&mut stack, cur);
    stack
}

/// Joins a component stack under a leading separator.
fn join_stack(stack: &Vec<Vec<u8>>) -> (r: Vec<u8>)
    ensures
        r@ == seq![SEP] + join_comps(views(stack@)),
{
    let ghost cs = views(stack@);
    let mut out: Vec<u8> = Vec::new();
    out.push(SEP);
    proof {
        assert(out@ =~= seq![SEP] + join_upto(cs, 0));
    }
    let mut k: usize = 0;
    while k < stack.len()
        invariant
            k <= stack@.len(),
            cs == views(stack@),
            out@ == seq![SEP] + join_upto(cs, k as nat),
        decreases stack@.len() - k,
    {
        if k > 0 {
            out.push(SEP);
        }
        let comp = &stack[k];
        let ghost mid = out@;
        let mut j: usize = 0;
        while j < comp.len()
            invariant
                j <= comp@.len(),
                comp@ == cs[k as int],
                out@ == mid + comp@.take(j as int),
            decreases comp@.len() - j,
        {
            out.push(comp[j]);
            j += 1;
            proof {
                assert(out@ =~= mid + comp@.take(j as int));
            }
        }
        proof {
            assert(comp@.take(comp@.len() as int) =~= comp@);
            if k == 0 {
                assert(join_upto(cs, 1) == cs[0]);
                assert(out@ =~= seq![SEP] + join_upto(cs, 1));
            } else {
                assert(out@ =~= seq![SEP] + (join_upto(cs, k as nat) + seq![SEP] + cs[k as int]));
            }
        }
        k += 1;
    }
    out
}

impl AbsPath {
    /// Builds a normalized absolute path from raw bytes. A leading
    /// separator in the input is not required: the result always begins
    /// at the root.
    pub fn from_bytes(raw: &[u8]) -> (r: Self)
        ensures
            r@ == normalize_abs(raw@),
    {
        let stack = normalize_stack(raw);
        let buf = join_stack(&stack);
        AbsPath { buf }
    }

    /// Builds a normalized absolute path from a string.
    pub fn new(raw: &str) -> (r: Self)
        ensures
            r@ == normalize_abs(raw.spec_bytes()),
    {
        AbsPath::from_bytes(raw.as_bytes())
    }

    /// The path's bytes.
    pub fn as_bytes(&self) -> (r: &Vec<u8>)
        ensures
            r@ == self@,
    {
        &self.buf
    }

    /// The number of bytes in the path.
    pub fn len(&self) -> (r: usize)
        ensures
            r == self@.len(),
    {
        self.buf.len()
    }

    /// The path relative to the namespace root: the same bytes without
    /// the leading separator (the root itself becomes the empty
    /// fragment).
    pub fn to_rel(&self) -> (r: RelPath)
        ensures
            self@.len() > 0 && self@[0] == SEP ==> r@ == self@.skip(1),
            !(self@.len() > 0 && self@[0] == SEP) ==> r@ == self@,
    {
        let mut buf: Vec<u8> = Vec::new();
        let start: usize = if self.buf.len() > 0 && self.buf[0] == SEP {
            1
        } else {
            0
        };
        let mut i: usize = start;
        while i < self.buf.len()
            invariant
                start <= i <= self.buf@.len(),
                buf@ == self.buf@.subrange(start as int, i as int),
            decreases self.buf@.len() - i,
        {
            buf.push(self.buf[i]);
            i += 1;
            proof {
                assert(buf@ =~= self.buf@.subrange(start as int, i as int));
            }
        }
        proof {
            if start == 1 {
                assert(self.buf@.subrange(1, self.buf@.len() as int) =~= self.buf@.skip(1));
            } else {
                assert(self.buf@.subrange(0, self.buf@.len() as int) =~= self.buf@);
            }
        }
        RelPath { buf }
    }
}

impl RelPath {
    /// Wraps raw bytes as an opaque relative fragment.
    pub fn from_bytes(raw: &[u8]) -> (r: Self)
        ensures
            r@ == raw@,
    {
        let mut buf: Vec<u8> = Vec::new();
        let mut i: usize = 0;
        while i < raw.len()
            invariant
                i <= raw@.len(),
                buf@ == raw@.take(i as int),
            decreases raw@.len() - i,
        {
            buf.push(raw[i]);
            i += 1;
            proof {
                assert(buf@ =~= raw@.take(i as int));
            }
        }
        proof {
            assert(raw@.take(raw@.len() as int) =~= raw@);
        }
        RelPath { buf }
    }

    /// Wraps a string as an opaque relative fragment.
    pub fn new(raw: &str) -> (r: Self)
        ensures
            r@ == raw.spec_bytes(),
    {
        RelPath::from_bytes(raw.as_bytes())
    }

    /// Wraps an owned byte vector as an opaque relative fragment.
    pub fn from_vec(raw: Vec<u8>) -> (r: Self)
        ensures
            r@ == raw@,
    {
        RelPath { buf: raw }
    }

    /// The fragment's bytes.
    pub fn as_bytes(&self) -> (r: &Vec<u8>)
        ensures
            r@ == self@,
    {
        &self.buf
    }

    /// The number of bytes in the fragment.
    pub fn len(&self) -> (r: usize)
        ensures
            r == self@.len(),
    {
        self.buf.len()
    }

    /// The fragment's first `end` bytes, as a fragment of its own.
    pub fn prefix(&self, end: usize) -> (r: RelPath)
        requires
            end <= self@.len(),
        ensures
            r@ == self@.take(end as int),
    {
        let mut buf: Vec<u8> = Vec::new();
        let mut i: usize = 0;
        while i < end
            invariant
                i <= end <= self.buf@.len(),
                buf@ == self.buf@.take(i as int),
            decreases end - i,
        {
            buf.push(self.buf[i]);
            i += 1;
            proof {
                assert(buf@ =~= self.buf@.take(i as int));
            }
        }
        RelPath { buf }
    }
}

} // verus!
