//! The checksum of a source that resume compares: SHA-256 of a file's
//! content, or of a directory's files taken in path order, each as its
//! relative path, a zero byte and its content; written in lowercase hex.

use vstd::prelude::*;
use crate::bytes::{copy_range, push_bytes};
use crate::primitives::{sha256, sha256_digest};
use crate::text::{hex_lower, hex_text};

verus! {

/// A file of a directory: its relative path and its content.
pub type FileEntry = (Vec<u8>, Vec<u8>);

/// The contents of the entries.
pub open spec fn entry_views(entries: Seq<FileEntry>) -> Seq<(Seq<u8>, Seq<u8>)> {
    entries.map_values(|e: FileEntry| (e.0@, e.1@))
}

/// The rank of a byte when paths are compared component by component: the
/// separator `/` ranks below every other byte.
pub open spec fn path_rank(b: u8) -> int {
    if b == 0x2f {
        -1
    } else {
        b as int
    }
}

/// Whether path `a` comes before path `b` in the order of `Path`, which
/// compares paths component by component; for paths without empty or `.`
/// components that is the byte order with the separator ranked lowest.
pub open spec fn path_before(a: Seq<u8>, b: Seq<u8>) -> bool
    decreases a.len(),
{
    if b.len() == 0 {
        false
    } else if a.len() == 0 {
        true
    } else if path_rank(a[0]) != path_rank(b[0]) {
        path_rank(a[0]) < path_rank(b[0])
    } else {
        path_before(a.drop_first(), b.drop_first())
    }
}

/// `e` placed into `s` before the first entry whose path comes after its own.
pub open spec fn insert_by_path(s: Seq<(Seq<u8>, Seq<u8>)>, e: (Seq<u8>, Seq<u8>)) -> Seq<(Seq<u8>, Seq<u8>)>
    decreases s.len(),
{
    if s.len() == 0 {
        seq![e]
    } else if path_before(e.0, s[0].0) {
        seq![e] + s
    } else {
        seq![s[0]] + insert_by_path(s.drop_first(), e)
    }
}

/// The entries sorted by path, stably: entries with equal paths keep their
/// order.
pub open spec fn sorted_by_path(entries: Seq<(Seq<u8>, Seq<u8>)>) -> Seq<(Seq<u8>, Seq<u8>)>
    decreases entries.len(),
{
    if entries.len() == 0 {
        Seq::empty()
    } else {
        insert_by_path(sorted_by_path(entries.drop_last()), entries.last())
    }
}

/// The bytes hashed for entries taken in the given order: each path, a zero
/// byte, then the content.
pub open spec fn checksum_input(entries: Seq<(Seq<u8>, Seq<u8>)>) -> Seq<u8>
    decreases entries.len(),
{
    if entries.len() == 0 {
        Seq::empty()
    } else {
        checksum_input(entries.drop_last()) + entries.last().0 + seq![0u8] + entries.last().1
    }
}

/// A path comes before every longer path that it starts (`README` before
/// `README.md`), and never after it.
pub proof fn law_prefix_comes_first(a: Seq<u8>, s: Seq<u8>)
    requires
        s.len() > 0,
    ensures
        path_before(a, a + s),
        !path_before(a + s, a),
    decreases a.len(),
{
    if a.len() == 0 {
        assert(a + s =~= s);
    } else {
        law_prefix_comes_first(a.drop_first(), s);
        assert((a + s).drop_first() =~= a.drop_first() + s);
        assert((a + s)[0] == a[0]);
    }
}

/// No path comes before itself.
pub proof fn law_path_order_irreflexive(a: Seq<u8>)
    ensures
        !path_before(a, a),
    decreases a.len(),
{
    if a.len() > 0 {
        law_path_order_irreflexive(a.drop_first());
    }
}

/// Two paths that agree up to position `i` and differ there are ordered by
/// that byte: the separator `/` comes before every other byte, and other
/// bytes compare by value.
pub proof fn law_first_difference_decides(a: Seq<u8>, b: Seq<u8>, i: int)
    requires
        0 <= i < a.len(),
        i < b.len(),
        a.take(i) == b.take(i),
        a[i] != b[i],
    ensures
        path_before(a, b) <==> (a[i] == 0x2f || (b[i] != 0x2f && a[i] < b[i])),
    decreases i,
{
    if i > 0 {
        assert(a[0] == a.take(i)[0]);
        assert(b[0] == b.take(i)[0]);
        assert(a.drop_first().take(i - 1) =~= b.drop_first().take(i - 1)) by {
            assert forall|k: int| 0 <= k < i - 1 implies a.drop_first()[k] == b.drop_first()[k] by {
                assert(a.take(i)[k + 1] == a[k + 1]);
                assert(b.take(i)[k + 1] == b[k + 1]);
                assert(a.take(i)[k + 1] == b.take(i)[k + 1]);
            }
        }
        law_first_difference_decides(a.drop_first(), b.drop_first(), i - 1);
    }
}

/// A directory holding a file `p` and a file whose path is `p` followed by
/// more bytes (`README` and `README.md`) is hashed with `p` first, whichever
/// order the two entries come in.
pub proof fn law_prefix_entry_hashed_first(p: Seq<u8>, s: Seq<u8>, c1: Seq<u8>, c2: Seq<u8>)
    requires
        s.len() > 0,
    ensures
        sorted_by_path(seq![(p + s, c1), (p, c2)]) == seq![(p, c2), (p + s, c1)],
        sorted_by_path(seq![(p, c2), (p + s, c1)]) == seq![(p, c2), (p + s, c1)],
        checksum_input(sorted_by_path(seq![(p + s, c1), (p, c2)])) == p + seq![0u8] + c2 + (p + s)
            + seq![0u8] + c1,
{
    law_prefix_comes_first(p, s);
    let x = (p + s, c1);
    let y = (p, c2);
    let one_x = seq![x];
    let one_y = seq![y];
    assert(one_x.drop_last() =~= Seq::<(Seq<u8>, Seq<u8>)>::empty());
    assert(one_y.drop_last() =~= Seq::<(Seq<u8>, Seq<u8>)>::empty());
    let none = Seq::<(Seq<u8>, Seq<u8>)>::empty();
    assert(sorted_by_path(none) == none);
    assert(insert_by_path(none, x) == seq![x]);
    assert(insert_by_path(none, y) == seq![y]);
    assert(one_x.last() == x);
    assert(one_y.last() == y);
    assert(sorted_by_path(one_x) == seq![x]);
    assert(sorted_by_path(one_y) == seq![y]);
    assert(seq![x, y].drop_last() =~= one_x);
    assert(seq![y, x].drop_last() =~= one_y);
    assert(insert_by_path(seq![x], y) =~= seq![y, x]);
    assert(one_y.drop_first() =~= none);
    assert(one_y[0] == y);
    assert(insert_by_path(one_y, x) == seq![y] + insert_by_path(none, x));
    assert(insert_by_path(seq![y], x) =~= seq![y, x]);
    let both = seq![y, x];
    assert(both.drop_last() =~= one_y);
    assert(checksum_input(one_y) =~= p + seq![0u8] + c2) by {
        assert(checksum_input(Seq::<(Seq<u8>, Seq<u8>)>::empty()) == Seq::<u8>::empty());
    }
    assert(checksum_input(both) =~= p + seq![0u8] + c2 + (p + s) + seq![0u8] + c1);
}

/// Inserting before the first later entry is placing at that index.
proof fn lemma_insert_at(s: Seq<(Seq<u8>, Seq<u8>)>, e: (Seq<u8>, Seq<u8>), j: int)
    requires
        0 <= j <= s.len(),
        forall|k: int| 0 <= k < j ==> !path_before(e.0, #[trigger] s[k].0),
        j < s.len() ==> path_before(e.0, s[j].0),
    ensures
        insert_by_path(s, e) == s.take(j) + seq![e] + s.skip(j),
    decreases j,
{
    if j == 0 {
        assert(s.take(0) + seq![e] + s.skip(0) =~= if s.len() == 0 {
            seq![e]
        } else {
            seq![e] + s
        });
    } else {
        let t = s.drop_first();
        assert forall|k: int| 0 <= k < j - 1 implies !path_before(e.0, #[trigger] t[k].0) by {
            assert(t[k] == s[k + 1]);
        }
        lemma_insert_at(t, e, j - 1);
        assert(!path_before(e.0, s[0].0));
        assert(seq![s[0]] + (t.take(j - 1) + seq![e] + t.skip(j - 1)) =~= s.take(j) + seq![e] + s.skip(j));
    }
}

/// Whether path `a` comes before path `b`.
fn path_less(a: &[u8], b: &[u8]) -> (r: bool)
    ensures
        r == path_before(a@, b@),
{
    let mut i: usize = 0;
    assert(a@.subrange(0, a@.len() as int) =~= a@);
    assert(b@.subrange(0, b@.len() as int) =~= b@);
    while i < a.len() && i < b.len()
        invariant
            i <= a@.len(),
            i <= b@.len(),
            path_before(a@, b@) == path_before(
                a@.subrange(i as int, a@.len() as int),
                b@.subrange(i as int, b@.len() as int),
            ),
        decreases a.len() - i,
    {
        let ra: i32 = if a[i] == 0x2f {
            -1
        } else {
            a[i] as i32
        };
        let rb: i32 = if b[i] == 0x2f {
            -1
        } else {
            b[i] as i32
        };
        let ghost sa = a@.subrange(i as int, a@.len() as int);
        let ghost sb = b@.subrange(i as int, b@.len() as int);
        assert(sa[0] == a@[i as int] && sb[0] == b@[i as int]);
        if ra != rb {
            return ra < rb;
        }
        assert(sa.drop_first() =~= a@.subrange(i + 1, a@.len() as int));
        assert(sb.drop_first() =~= b@.subrange(i + 1, b@.len() as int));
        i = i + 1;
    }
    i < b.len()
}

/// The entries sorted by path.
fn sort_by_path(entries: &[FileEntry]) -> (out: Vec<FileEntry>)
    ensures
        entry_views(out@) == sorted_by_path(entry_views(entries@)),
{
    let ghost all = entry_views(entries@);
    let mut out: Vec<FileEntry> = Vec::new();
    let mut i: usize = 0;
    while i < entries.len()
        invariant
            i <= entries@.len(),
            all == entry_views(entries@),
            entry_views(out@) == sorted_by_path(all.take(i as int)),
        decreases entries.len() - i,
    {
        let path = copy_range(entries[i].0.as_slice(), 0, entries[i].0.len());
        let content = copy_range(entries[i].1.as_slice(), 0, entries[i].1.len());
        assert(path@ =~= entries@[i as int].0@);
        assert(content@ =~= entries@[i as int].1@);
        let ghost e = (path@, content@);
        let ghost s = entry_views(out@);
        let mut j: usize = 0;
        while j < out.len() && !path_less(path.as_slice(), out[j].0.as_slice())
            invariant
                j <= out@.len(),
                s == entry_views(out@),
                e == (path@, content@),
                forall|k: int| 0 <= k < j ==> !path_before(e.0, #[trigger] s[k].0),
            decreases out.len() - j,
        {
            assert(s[j as int] == (out@[j as int].0@, out@[j as int].1@));
            j = j + 1;
        }
        proof {
            lemma_insert_at(s, e, j as int);
            assert(all.take(i + 1).drop_last() =~= all.take(i as int));
            assert(all.take(i + 1).last() == e);
        }
        out.insert(j, (path, content));
        assert(entry_views(out@) =~= s.take(j as int) + seq![e] + s.skip(j as int));
        i = i + 1;
    }
    assert(all.take(entries@.len() as int) =~= all);
    out
}

/// The checksum of a directory's files: SHA-256, in lowercase hex, of each
/// file's relative path, a zero byte and its content, the files taken in
/// path order.
pub fn tree_checksum(entries: &[FileEntry]) -> (r: String)
    ensures
        r@ == hex_text(sha256_digest(checksum_input(sorted_by_path(entry_views(entries@))))),
{
    let sorted = sort_by_path(entries);
    let ghost ordered = entry_views(sorted@);
    let mut msg: Vec<u8> = Vec::new();
    let mut i: usize = 0;
    while i < sorted.len()
        invariant
            i <= sorted@.len(),
            ordered == entry_views(sorted@),
            msg@ == checksum_input(ordered.take(i as int)),
        decreases sorted.len() - i,
    {
        assert(ordered.take(i + 1).drop_last() =~= ordered.take(i as int));
        push_bytes(&mut msg, sorted[i].0.as_slice());
        msg.push(0u8);
        push_bytes(&mut msg, sorted[i].1.as_slice());
        assert(msg@ =~= checksum_input(ordered.take(i + 1)));
        i = i + 1;
    }
    assert(ordered.take(sorted@.len() as int) =~= ordered);
    let digest = sha256(msg.as_slice());
    hex_lower(digest.as_slice())
}

/// The checksum of a single file: SHA-256 of its content, in lowercase hex.
pub fn file_checksum(content: &[u8]) -> (r: String)
    ensures
        r@ == hex_text(sha256_digest(content@)),
{
    let digest = sha256(content);
    hex_lower(digest.as_slice())
}

} // verus!
