//! The tree copied into a FAT volume and its directory entry streams.
use vstd::prelude::*;

use crate::bytes::{append_bytes, append_zeros, le16_bytes, le32_bytes, zeros};
use crate::fat_names::{
    dot_entry, dot_entry_spec, lfn_entries, lfn_entries_spec, make_short_name, needs_lfn,
    needs_lfn_spec, short_name_spec, UsedNames,
};
use crate::text::{chars_eq, str_chars};

verus! {

/// A file or directory of the tree copied into the volume.
pub struct FatNode {
    pub name: String,
    pub parent: usize,
    pub is_dir: bool,
    pub size: u64,
    pub children: Vec<usize>,
    pub first_cluster: u32,
    pub chain_len: u32,
    pub short: [u8; 11],
    pub needs_lfn: bool,
}

/// The tree is well formed: a root directory at index 0, every child index
/// lies after its parent and inside the tree, and every other node comes
/// after its parent and is one of its children.
pub open spec fn tree_wf(nodes: Seq<FatNode>) -> bool {
    &&& 1 <= nodes.len() <= usize::MAX
    &&& nodes[0].is_dir
    &&& forall|i: int, j: int|
        0 <= i < nodes.len() && 0 <= j < nodes[i].children@.len() ==> i < #[trigger] nodes[i].children@[j] < nodes.len()
    &&& forall|i: int| 0 <= i < nodes.len() ==> #[trigger] nodes[i].parent < nodes.len()
    &&& forall|i: int|
        1 <= i < nodes.len() ==> #[trigger] nodes[i].parent < i && nodes[nodes[i].parent as int].children@.contains(
            i as usize,
        )
}

/// The root node: an unnamed directory starting at `root_cluster`.
pub fn root_node(root_cluster: u32) -> (n: FatNode)
    ensures
        n.name@ == Seq::<char>::empty(),
        n.parent == 0,
        n.is_dir,
        n.size == 0,
        n.children@ == Seq::<usize>::empty(),
        n.first_cluster == root_cluster,
        n.chain_len == 0,
        n.short@ == Seq::new(11, |i: int| 0x20u8),
        !n.needs_lfn,
{
    let n = FatNode {
        name: String::new(),
        parent: 0,
        is_dir: true,
        size: 0,
        children: Vec::new(),
        first_cluster: root_cluster,
        chain_len: 0,
        short: [0x20; 11],
        needs_lfn: false,
    };
    assert(n.short@ =~= Seq::new(11, |i: int| 0x20u8));
    n
}

/// Whether two strings are equal.
fn str_eq(a: &str, b: &str) -> (r: bool)
    ensures
        r == (a@ == b@),
{
    let ac = str_chars(a);
    let bc = str_chars(b);
    chars_eq(&ac, &bc)
}

/// Whether a top-level entry named `name` is copied: every entry when `only`
/// is empty, else those named in `only`.
pub fn included(only: &[&str], name: &str) -> (b: bool)
    ensures
        b == (only@.len() == 0 || exists|i: int| 0 <= i < only@.len() && (#[trigger] only@[i])@ == name@),
{
    if only.len() == 0 {
        return true;
    }
    let mut i: usize = 0;
    while i < only.len()
        invariant
            0 <= i <= only@.len(),
            forall|j: int| 0 <= j < i ==> (#[trigger] only@[j])@ != name@,
        decreases only@.len() - i,
    {
        if str_eq(only[i], name) {
            return true;
        }
        i += 1;
    }
    false
}

/// Appends a node for `name` under `parent`, with its 8.3 name (recorded in
/// `used`) and whether it needs long-name entries; returns its index.
pub fn add_node(
    nodes: &mut Vec<FatNode>,
    parent: usize,
    name: &str,
    is_dir: bool,
    size: u64,
    used: &mut UsedNames,
) -> (idx: usize)
    requires
        tree_wf(old(nodes)@),
        parent < old(nodes)@.len(),
    ensures
        idx == old(nodes)@.len(),
        tree_wf(final(nodes)@),
        final(nodes)@.len() == idx + 1,
        forall|i: int| 0 <= i < idx && i != parent ==> #[trigger] final(nodes)@[i] == old(nodes)@[i],
        final(nodes)@[parent as int].children@ == old(nodes)@[parent as int].children@.push(idx),
        final(nodes)@[parent as int].name == old(nodes)@[parent as int].name,
        final(nodes)@[parent as int].parent == old(nodes)@[parent as int].parent,
        final(nodes)@[parent as int].is_dir == old(nodes)@[parent as int].is_dir,
        final(nodes)@[parent as int].size == old(nodes)@[parent as int].size,
        final(nodes)@[parent as int].first_cluster == old(nodes)@[parent as int].first_cluster,
        final(nodes)@[parent as int].chain_len == old(nodes)@[parent as int].chain_len,
        final(nodes)@[parent as int].short == old(nodes)@[parent as int].short,
        final(nodes)@[parent as int].needs_lfn == old(nodes)@[parent as int].needs_lfn,
        final(nodes)@[idx as int].name@ == name@,
        final(nodes)@[idx as int].parent == parent,
        final(nodes)@[idx as int].is_dir == is_dir,
        final(nodes)@[idx as int].size == if is_dir { 0 } else { size },
        final(nodes)@[idx as int].children@ == Seq::<usize>::empty(),
        final(nodes)@[idx as int].first_cluster == 0,
        final(nodes)@[idx as int].chain_len == 0,
        final(nodes)@[idx as int].short@ == short_name_spec(name@, name.len() as nat, is_dir, old(used)@),
        final(nodes)@[idx as int].needs_lfn == needs_lfn_spec(name@, final(nodes)@[idx as int].short@),
        final(used)@ == crate::fat_names::used_after(name@, is_dir, old(used)@),
{
    let short = make_short_name(name, is_dir, used);
    let lfn = needs_lfn(name, &short);
    let idx = nodes.len();
    let node = FatNode {
        name: name.to_string(),
        parent,
        is_dir,
        size: if is_dir {
            0
        } else {
            size
        },
        children: Vec::new(),
        first_cluster: 0,
        chain_len: 0,
        short,
        needs_lfn: lfn,
    };
    nodes.push(node);
    nodes[parent].children.push(idx);
    let _n = nodes.len();
    proof {
        let s = nodes@;
        assert forall|i: int, j: int|
            0 <= i < s.len() && 0 <= j < s[i].children@.len() implies i < #[trigger] s[i].children@[j] < s.len() by {
            if i != parent && i < idx {
                assert(s[i] == old(nodes)@[i]);
            }
        }
        assert forall|i: int| 0 <= i < s.len() implies #[trigger] s[i].parent < s.len() by {
            if i < idx && i != parent {
                assert(s[i] == old(nodes)@[i]);
            }
        }
        assert forall|i: int| 1 <= i < s.len() implies #[trigger] s[i].parent < i && s[s[i].parent as int].children@.contains(
            i as usize,
        ) by {
            if i < idx {
                if i != parent {
                    assert(s[i] == old(nodes)@[i]);
                }
                let p = old(nodes)@[i].parent as int;
                assert(old(nodes)@[p].children@.contains(i as usize));
                if p != parent {
                    assert(s[p] == old(nodes)@[p]);
                } else {
                    let w = choose|w: int| 0 <= w < old(nodes)@[p].children@.len() && old(nodes)@[p].children@[w] == i as usize;
                    assert(s[p].children@[w] == i as usize);
                }
            } else {
                assert(s[parent as int].children@.last() == idx);
            }
        }
    }
    idx
}

// ── Directory entry streams ─────────────────────────────────────────────────

/// The volume-label entry of the root directory.
pub open spec fn label_record(label: Seq<u8>) -> Seq<u8> {
    Seq::new(
        32,
        |p: int|
            if p < 11 {
                if p < label.len() {
                    label[p]
                } else {
                    0x20u8
                }
            } else if p == 11 {
                0x08u8
            } else {
                0u8
            },
    )
}

/// The 8.3 entry of a node.
pub open spec fn short_record(n: FatNode) -> Seq<u8> {
    Seq::new(
        32,
        |p: int|
            if p < 11 {
                n.short@[p]
            } else if p == 11 {
                if n.is_dir {
                    0x10u8
                } else {
                    0x20u8
                }
            } else if 20 <= p < 22 {
                le16_bytes((n.first_cluster / 0x10000) as u16)[p - 20]
            } else if 26 <= p < 28 {
                le16_bytes((n.first_cluster % 0x10000) as u16)[p - 26]
            } else if 28 <= p < 32 {
                le32_bytes((n.size % 0x1_0000_0000) as u32)[p - 28]
            } else {
                0u8
            },
    )
}

/// The entries of one child: its long-name entries when it needs them, then its 8.3 entry.
pub open spec fn child_entries(n: FatNode) -> Seq<u8> {
    (if n.needs_lfn {
        lfn_entries_spec(n.name@, n.short@)
    } else {
        Seq::empty()
    }) + short_record(n)
}

/// The entries of the children `cs`, in order.
pub open spec fn children_bytes(nodes: Seq<FatNode>, cs: Seq<usize>) -> Seq<u8>
    decreases cs.len(),
{
    if cs.len() == 0 {
        Seq::empty()
    } else {
        children_bytes(nodes, cs.drop_last()) + child_entries(nodes[cs.last() as int])
    }
}

/// The cluster a `..` entry points to: the parent's first cluster, or 0 when
/// the parent is the root directory.
pub open spec fn parent_cluster(nodes: Seq<FatNode>, i: int) -> u32 {
    if nodes[i].parent == 0 {
        0
    } else {
        nodes[nodes[i].parent as int].first_cluster
    }
}

/// The head of a directory: the volume label for the root, `.` and `..` for
/// every other directory.
pub open spec fn dir_head(nodes: Seq<FatNode>, idx: int, label: Seq<u8>) -> Seq<u8> {
    if idx == 0 {
        label_record(label)
    } else {
        dot_entry_spec(nodes[idx].first_cluster, true) + dot_entry_spec(parent_cluster(nodes, idx), false)
    }
}

/// A directory's entry stream, closed by one empty entry.
pub open spec fn dir_bytes_spec(nodes: Seq<FatNode>, idx: int, label: Seq<u8>) -> Seq<u8> {
    dir_head(nodes, idx, label) + children_bytes(nodes, nodes[idx].children@) + Seq::new(32, |p: int| 0u8)
}

/// How every directory begins: the root with its volume-label entry (the
/// label space-padded to 11 bytes, attribute `0x08`) and no `.` or `..`
/// entry; every other directory with `.` pointing at its own first cluster
/// and `..` pointing at its parent's (0 when the parent is the root).
pub proof fn lemma_dir_heads(nodes: Seq<FatNode>, label: Seq<u8>, i: int)
    requires
        0 <= i < nodes.len(),
    ensures
        i == 0 ==> dir_bytes_spec(nodes, i, label).take(32) == label_record(label),
        i != 0 ==> dir_bytes_spec(nodes, i, label).take(64) == dot_entry_spec(nodes[i].first_cluster, true)
            + dot_entry_spec(parent_cluster(nodes, i), false),
{
    let d = dir_bytes_spec(nodes, i, label);
    let h = dir_head(nodes, i, label);
    assert(d == h + children_bytes(nodes, nodes[i].children@) + Seq::new(32, |p: int| 0u8));
    if i == 0 {
        assert(h.len() == 32);
        assert(d.take(32) =~= h);
    } else {
        assert(h.len() == 64);
        assert(d.take(64) =~= h);
    }
}

/// The cluster number an 8.3 entry's bytes `20..22` (high half) and
/// `26..28` (low half) record, starting at byte `o` of `d`.
pub open spec fn entry_cluster(d: Seq<u8>, o: int) -> int {
    d[o + 26] + 256 * d[o + 27] + 65536 * (d[o + 20] + 256 * d[o + 21])
}

/// Every directory but the root begins with a `.` entry and a `..` entry,
/// both marked as directories (attribute `0x10`): `.` records the
/// directory's own first cluster, `..` its parent's first cluster, or 0
/// when the parent is the root.
pub proof fn lemma_dot_entries(nodes: Seq<FatNode>, label: Seq<u8>, i: int)
    requires
        1 <= i < nodes.len(),
    ensures
        ({
            let d = dir_bytes_spec(nodes, i, label);
            let p = nodes[i].parent as int;
            &&& d.len() >= 64
            &&& d[0] == 0x2E && d[1] == 0x20 && d[11] == 0x10
            &&& d[32] == 0x2E && d[33] == 0x2E && d[34] == 0x20 && d[43] == 0x10
            &&& entry_cluster(d, 0) == nodes[i].first_cluster
            &&& entry_cluster(d, 32) == if p == 0 { 0 } else { nodes[p].first_cluster as int }
        }),
{
    lemma_dir_heads(nodes, label, i);
    let d = dir_bytes_spec(nodes, i, label);
    let a = dot_entry_spec(nodes[i].first_cluster, true);
    let b = dot_entry_spec(parent_cluster(nodes, i), false);
    assert(d.take(64) == a + b);
    assert forall|k: int| 0 <= k < 32 implies d[k] == a[k] && d[32 + k] == b[k] by {
        assert(d.take(64)[k] == d[k]);
        assert(d.take(64)[32 + k] == d[32 + k]);
    }
    lemma_cluster_halves(nodes[i].first_cluster);
    lemma_cluster_halves(parent_cluster(nodes, i));
}

/// The two little-endian halves of a cluster number give it back.
proof fn lemma_cluster_halves(c: u32)
    ensures
        ({
            let hi = le16_bytes((c / 0x10000) as u16);
            let lo = le16_bytes((c % 0x10000) as u16);
            lo[0] + 256 * lo[1] + 65536 * (hi[0] + 256 * hi[1]) == c
        }),
{
    let h = (c / 0x10000) as u16;
    let l = (c % 0x10000) as u16;
    assert(h as int == c / 0x10000);
    assert(l as int == c % 0x10000);
    assert(h % 256 + 256 * (h / 256) == h);
    assert(l % 256 + 256 * (l / 256) == l);
    assert(l + 65536 * h == c);
}

/// The 8.3 entry of a node.
fn short_entry(n: &FatNode) -> (rec: Vec<u8>)
    ensures
        rec@ == short_record(*n),
{
    let mut rec = zeros(32);
    let mut i: usize = 0;
    while i < 11
        invariant
            0 <= i <= 11,
            rec@.len() == 32,
            forall|p: int| 0 <= p < 32 ==> #[trigger] rec@[p] == if p < i { n.short@[p] } else { 0u8 },
        decreases 11 - i,
    {
        rec.set(i, n.short[i]);
        i += 1;
    }
    rec.set(11, if n.is_dir {
        0x10
    } else {
        0x20
    });
    let hi: u16 = (n.first_cluster / 0x10000) as u16;
    let lo: u16 = (n.first_cluster % 0x10000) as u16;
    let sz: u32 = (n.size % 0x1_0000_0000) as u32;
    rec.set(20, (hi % 256) as u8);
    rec.set(21, (hi / 256) as u8);
    rec.set(26, (lo % 256) as u8);
    rec.set(27, (lo / 256) as u8);
    rec.set(28, (sz % 256) as u8);
    rec.set(29, ((sz / 256) % 256) as u8);
    rec.set(30, ((sz / 65536) % 256) as u8);
    rec.set(31, (sz / 16777216) as u8);
    assert(le16_bytes(hi) =~= seq![(hi % 256) as u8, (hi / 256) as u8]);
    assert(le16_bytes(lo) =~= seq![(lo % 256) as u8, (lo / 256) as u8]);
    assert(rec@ =~= short_record(*n));
    rec
}

/// The volume-label entry.
fn label_entry(label: &[u8]) -> (rec: Vec<u8>)
    ensures
        rec@ == label_record(label@),
{
    let mut rec = zeros(32);
    let mut i: usize = 0;
    while i < 11
        invariant
            0 <= i <= 11,
            rec@.len() == 32,
            forall|p: int|
                0 <= p < 32 ==> #[trigger] rec@[p] == if p < i {
                    if p < label@.len() {
                        label@[p]
                    } else {
                        0x20u8
                    }
                } else {
                    0u8
                },
        decreases 11 - i,
    {
        rec.set(i, if i < label.len() {
            label[i]
        } else {
            0x20
        });
        i += 1;
    }
    rec.set(11, 0x08);
    assert(rec@ =~= label_record(label@));
    rec
}

/// Serializes directory `idx`: its head (volume label for the root, `.` and
/// `..` otherwise), each child's long-name and 8.3 entries, and a closing
/// empty entry.
pub fn dir_bytes(nodes: &[FatNode], idx: usize, label: &[u8]) -> (out: Vec<u8>)
    requires
        tree_wf(nodes@),
        idx < nodes@.len(),
    ensures
        out@ == dir_bytes_spec(nodes@, idx as int, label@),
        idx != 0 ==> out@.len() >= 64 && entry_cluster(out@, 0) == nodes@[idx as int].first_cluster
            && entry_cluster(out@, 32) == if nodes@[idx as int].parent == 0 {
            0
        } else {
            nodes@[nodes@[idx as int].parent as int].first_cluster as int
        },
{
    let mut out: Vec<u8> = Vec::new();
    if idx == 0 {
        let rec = label_entry(label);
        append_bytes(&mut out, &rec);
    } else {
        let d = dot_entry(nodes[idx].first_cluster, true);
        append_bytes(&mut out, &d);
        let p = nodes[idx].parent;
        let pc: u32 = if p == 0 {
            0
        } else {
            nodes[p].first_cluster
        };
        let dd = dot_entry(pc, false);
        append_bytes(&mut out, &dd);
    }
    let ghost head = out@;
    assert(head == dir_head(nodes@, idx as int, label@));
    let cs = &nodes[idx].children;
    let mut j: usize = 0;
    while j < cs.len()
        invariant
            tree_wf(nodes@),
            idx < nodes@.len(),
            *cs == nodes@[idx as int].children,
            0 <= j <= cs@.len(),
            out@ == head + children_bytes(nodes@, cs@.take(j as int)),
        decreases cs@.len() - j,
    {
        let c = cs[j];
        assert(idx < c < nodes@.len());
        let ghost before = out@;
        if nodes[c].needs_lfn {
            let l = lfn_entries(nodes[c].name.as_str(), &nodes[c].short);
            append_bytes(&mut out, &l);
        }
        let rec = short_entry(&nodes[c]);
        append_bytes(&mut out, &rec);
        proof {
            let t = cs@.take(j + 1);
            assert(t.drop_last() =~= cs@.take(j as int));
            assert(t.last() == c);
            assert(out@ =~= before + child_entries(nodes@[c as int]));
        }
        j += 1;
    }
    assert(cs@.take(cs@.len() as int) =~= cs@);
    append_zeros(&mut out, 32);
    assert(out@ =~= dir_bytes_spec(nodes@, idx as int, label@));
    proof {
        if idx != 0 {
            lemma_dot_entries(nodes@, label@, idx as int);
        }
    }
    out
}

/// Two trees with the same names, short names, long-name flags and children.
pub open spec fn same_entries(a: Seq<FatNode>, b: Seq<FatNode>) -> bool {
    &&& a.len() == b.len()
    &&& forall|j: int|
        0 <= j < a.len() ==> (#[trigger] a[j]).name == b[j].name && a[j].short == b[j].short && a[j].needs_lfn
            == b[j].needs_lfn && a[j].children == b[j].children
}

proof fn lemma_children_len_frame(a: Seq<FatNode>, b: Seq<FatNode>, cs: Seq<usize>)
    requires
        same_entries(a, b),
        forall|k: int| 0 <= k < cs.len() ==> (#[trigger] cs[k]) < a.len(),
    ensures
        children_bytes(a, cs).len() == children_bytes(b, cs).len(),
    decreases cs.len(),
{
    if cs.len() > 0 {
        let d = cs.drop_last();
        assert forall|k: int| 0 <= k < d.len() implies (#[trigger] d[k]) < a.len() by {
            assert(d[k] == cs[k]);
        }
        lemma_children_len_frame(a, b, d);
        let c = cs.last() as int;
        assert(cs[cs.len() - 1] < a.len());
        assert(a[c].name == b[c].name && a[c].short == b[c].short && a[c].needs_lfn == b[c].needs_lfn);
    }
}

/// The length of a directory's entry stream depends only on the names, not
/// on where the chains lie.
pub proof fn lemma_dir_len_frame(a: Seq<FatNode>, b: Seq<FatNode>, i: int, label: Seq<u8>)
    requires
        tree_wf(a),
        same_entries(a, b),
        0 <= i < a.len(),
    ensures
        dir_bytes_spec(a, i, label).len() == dir_bytes_spec(b, i, label).len(),
{
    let cs = a[i].children@;
    assert(a[i].children == b[i].children);
    assert forall|k: int| 0 <= k < cs.len() implies (#[trigger] cs[k]) < a.len() by {
        assert(i < a[i].children@[k] < a.len());
    }
    lemma_children_len_frame(a, b, cs);
}

} // verus!
