//! Laws that relate several operations of the VFS, proved once and for
//! all over the content model that the operation contracts use.
//!
//! The longest-prefix dispatch law lives next to the mount table: see
//! [`crate::root::lemma_longest_prefix_dispatch`].

use vstd::prelude::*;

use crate::node::{read_bytes, read_len, write_bytes};
use crate::path::SEP;
use crate::ramfs::{parent_rel, rel_shaped};

verus! {

/// Round trip: writing `bytes` at offset 0 and then reading
/// `bytes.len()` bytes from offset 0 returns exactly `bytes`, whatever
/// the file held before.  Together with the cursor contracts of
/// `File::write`, `File::seek` and `File::read` this pins the
/// write-seek-read round trip of a file handle.
pub proof fn lemma_write_read_round_trip(data: Seq<u8>, bytes: Seq<u8>, buf: Seq<u8>)
    requires
        buf.len() == bytes.len(),
    ensures
        read_len(write_bytes(data, 0, bytes).len(), 0, buf.len()) == bytes.len(),
        read_bytes(write_bytes(data, 0, bytes), 0, buf) == bytes,
{
    let d2 = write_bytes(data, 0, bytes);
    assert(d2.len() >= bytes.len());
    if bytes.len() > 0 {
        assert(read_bytes(d2, 0, buf) =~= bytes);
    } else {
        assert(read_bytes(d2, 0, buf) =~= bytes);
    }
}

/// An append never overlaps what the file already holds: writing at
/// the file's current size extends the content and leaves every
/// existing byte in place.  `File::write` in append mode recomputes
/// its offset to the current size immediately before each write, so
/// two sequential appends occupy disjoint ranges even when the file
/// grew in between through another handle.
pub proof fn lemma_append_extends(data: Seq<u8>, bytes: Seq<u8>)
    ensures
        write_bytes(data, data.len(), bytes) == data + bytes,
        write_bytes(data, data.len(), bytes).subrange(0, data.len() as int) == data,
        write_bytes(data, data.len(), bytes).subrange(
            data.len() as int,
            (data.len() + bytes.len()) as int,
        ) == bytes,
{
    assert(write_bytes(data, data.len(), bytes) =~= data + bytes);
    assert((data + bytes).subrange(0, data.len() as int) =~= data);
    assert((data + bytes).subrange(data.len() as int, (data.len() + bytes.len()) as int) =~= bytes);
}

/// Two sequential appends occupy disjoint byte ranges: after the first
/// append ends at `d0.len() + b1.len()`, any later growth only raises
/// the size, so the second append starts at or beyond that end and the
/// first append's bytes survive it untouched.
pub proof fn lemma_append_ordering(d0: Seq<u8>, b1: Seq<u8>, d1: Seq<u8>, b2: Seq<u8>)
    requires
        d1.len() >= d0.len() + b1.len(),
        d1.subrange(d0.len() as int, (d0.len() + b1.len()) as int) == b1,
    ensures
        write_bytes(d1, d1.len(), b2).subrange(d0.len() as int, (d0.len() + b1.len()) as int) == b1,
        write_bytes(d1, d1.len(), b2).subrange(d1.len() as int, (d1.len() + b2.len()) as int) == b2,
        d0.len() + b1.len() <= d1.len(),
{
    lemma_append_extends(d1, b2);
    assert(write_bytes(d1, d1.len(), b2).subrange(d0.len() as int, (d0.len() + b1.len()) as int) =~= d1
        .subrange(d0.len() as int, (d0.len() + b1.len()) as int));
}

/// Resumable directory listing with a one-entry buffer: as long as
/// entries remain past the cursor, one entry is delivered, and once
/// the cursor reaches the end the count is zero.  With the cursor
/// contract of `Directory::read_dir` (the cursor advances by exactly
/// the delivered count, and the entry delivered at cursor `i` is the
/// listing's entry `i`), repeated calls enumerate every entry exactly
/// once and then terminate with a zero count.
pub proof fn lemma_read_dir_resumable(total: nat, cursor: nat)
    ensures
        cursor < total ==> read_len(total, cursor, 1) == 1,
        cursor >= total ==> read_len(total, cursor, 1) == 0,
{
}

/// The ground of recursive creation.  In a well-shaped fragment,
/// what stands before any separator is again well-shaped, and when
/// that separator is the last one it names the fragment's parent.
/// `create_recursive` walks the separators left to right, creating
/// exactly these prefixes as directories: by this law each prefix's
/// parent is the prefix created just before it (or the base directory
/// itself, for a bare first component), so against a filesystem whose
/// `create` succeeds whenever the named parent is a live directory —
/// as the RAM filesystem's contract states — the whole chain builds,
/// and prefixes that already exist are tolerated by the walk.
pub proof fn lemma_create_recursive_prefixes(s: Seq<u8>, c: int)
    requires
        rel_shaped(s),
        0 <= c < s.len(),
        s[c] == SEP,
    ensures
        0 < c,
        rel_shaped(s.take(c)),
        (forall|k: int| c < k < s.len() ==> s[k] != SEP) ==> parent_rel(s) == s.take(c),
{
    assert(s[0] != SEP);
    assert(rel_shaped(s.take(c))) by {
        assert(s.take(c)[0] != SEP);
        assert(!(s[c - 1] == SEP && s[c] == SEP));
        assert(s.take(c)[c - 1] != SEP);
    }
    if forall|k: int| c < k < s.len() ==> s[k] != SEP {
        crate::ramfs::lemma_parent_rel_at(s, c);
    }
}

} // verus!

