//! Cluster allocation for the tree of a FAT volume.
//!
//! Every chain length is known before any cluster is handed out: a
//! directory's entry stream depends only on its children's names. The FAT32
//! root directory takes the chain at cluster 2; the other directories follow
//! in post-order (children before parents), then the files in tree order.
use vstd::prelude::*;

use crate::fat::{geometry_ok, FatKind, Geometry};
use crate::fat_dir::{dir_bytes, dir_bytes_spec, tree_wf, FatNode};

verus! {

/// Bytes per cluster.
pub open spec fn cluster_bytes_of(g: Geometry) -> nat {
    g.spc as nat * 512
}

/// `a / b` rounded up.
pub open spec fn ceil_div(a: nat, b: nat) -> nat {
    ((a + b - 1) as nat) / b
}

/// `n / d` rounded up.
pub fn div_ceil_u64(n: u64, d: u64) -> (q: u64)
    requires
        d >= 1,
    ensures
        q == ceil_div(n as nat, d as nat),
{
    let q0 = n / d;
    let r = n % d;
    proof {
        vstd::arithmetic::div_mod::lemma_fundamental_div_mod(n as int, d as int);
        assert(q0 * d == d * q0) by (nonlinear_arith);
        if r == 0 {
            vstd::arithmetic::div_mod::lemma_fundamental_div_mod_converse_div(
                (n + d - 1) as int,
                d as int,
                q0 as int,
                (d - 1) as int,
            );
        } else {
            assert((q0 + 1) * d == q0 * d + d) by (nonlinear_arith);
            vstd::arithmetic::div_mod::lemma_fundamental_div_mod_converse_div(
                (n + d - 1) as int,
                d as int,
                q0 + 1,
                (r - 1) as int,
            );
            assert(q0 < n) by (nonlinear_arith)
                requires
                    n == q0 * d + r,
                    d >= 2,
                    r >= 1,
            ;
        }
    }
    if r != 0 {
        q0 + 1
    } else {
        q0
    }
}

/// The chain length of directory `i`: its entry stream in whole clusters.
pub open spec fn dir_chain_len(nodes: Seq<FatNode>, i: int, g: Geometry, label: Seq<u8>) -> nat {
    ceil_div(dir_bytes_spec(nodes, i, label).len(), cluster_bytes_of(g))
}

/// Every directory's chain is no longer than the volume.
pub open spec fn dirs_fit(nodes: Seq<FatNode>, g: Geometry, label: Seq<u8>) -> bool {
    forall|i: int| 0 <= i < nodes.len() && nodes[i].is_dir ==> #[trigger] dir_chain_len(nodes, i, g, label) <= g.total_clusters
}

/// The nodes with each directory's chain length set.
pub open spec fn with_dir_chains(nodes: Seq<FatNode>, g: Geometry, label: Seq<u8>) -> Seq<FatNode> {
    Seq::new(
        nodes.len(),
        |i: int|
            FatNode {
                chain_len: if nodes[i].is_dir {
                    dir_chain_len(nodes, i, g, label) as u32
                } else {
                    nodes[i].chain_len
                },
                ..nodes[i]
            },
    )
}

/// Sets the chain length of every directory; `false`, with nothing changed,
/// when a directory needs more clusters than the volume has.
pub fn set_dir_chain_lengths(nodes: &mut Vec<FatNode>, geo: &Geometry, label: &[u8]) -> (ok: bool)
    requires
        tree_wf(old(nodes)@),
        geometry_ok(*geo),
    ensures
        ok == dirs_fit(old(nodes)@, *geo, label@),
        ok ==> final(nodes)@ == with_dir_chains(old(nodes)@, *geo, label@),
        !ok ==> final(nodes)@ == old(nodes)@,
{
    let cb: u64 = geo.spc as u64 * 512;
    let mut lens: Vec<u32> = Vec::new();
    let mut i: usize = 0;
    while i < nodes.len()
        invariant
            tree_wf(nodes@),
            nodes@ == old(nodes)@,
            geometry_ok(*geo),
            cb == cluster_bytes_of(*geo),
            1 <= cb <= 65536,
            0 <= i <= nodes@.len(),
            lens@.len() == i,
            forall|j: int|
                0 <= j < i && nodes@[j].is_dir ==> #[trigger] lens@[j] == dir_chain_len(nodes@, j, *geo, label@)
                    && dir_chain_len(nodes@, j, *geo, label@) <= geo.total_clusters,
        decreases nodes@.len() - i,
    {
        if nodes[i].is_dir {
            let bytes = dir_bytes(nodes, i, label);
            let q: u64 = div_ceil_u64(bytes.len() as u64, cb);
            if q > geo.total_clusters as u64 {
                assert(dir_chain_len(nodes@, i as int, *geo, label@) > geo.total_clusters);
                return false;
            }
            lens.push(q as u32);
        } else {
            lens.push(0);
        }
        i += 1;
    }
    let ghost before = nodes@;
    assert forall|j: int| 0 <= j < before.len() && before[j].is_dir implies #[trigger] dir_chain_len(
        before,
        j,
        *geo,
        label@,
    ) <= geo.total_clusters by {
        assert(lens@[j] == dir_chain_len(nodes@, j, *geo, label@));
    }
    let mut k: usize = 0;
    while k < nodes.len()
        invariant
            before == old(nodes)@,
            dirs_fit(before, *geo, label@),
            before.len() == nodes@.len(),
            lens@.len() == nodes@.len(),
            0 <= k <= nodes@.len(),
            forall|j: int|
                0 <= j < before.len() && before[j].is_dir ==> #[trigger] lens@[j] == dir_chain_len(before, j, *geo, label@),
            forall|j: int|
                0 <= j < nodes@.len() ==> (#[trigger] nodes@[j]).chain_len == if j < k && before[j].is_dir {
                    lens@[j]
                } else {
                    before[j].chain_len
                },
            forall|j: int| 0 <= j < nodes@.len() ==> same_but_chain(#[trigger] nodes@[j], before[j]),
        decreases nodes@.len() - k,
    {
        if nodes[k].is_dir {
            nodes[k].chain_len = lens[k];
        }
        k += 1;
    }
    assert(nodes@ =~= with_dir_chains(before, *geo, label@));
    true
}

/// Two nodes agree on everything but their chain length.
pub open spec fn same_but_chain(a: FatNode, b: FatNode) -> bool {
    &&& a.name == b.name
    &&& a.parent == b.parent
    &&& a.is_dir == b.is_dir
    &&& a.size == b.size
    &&& a.children == b.children
    &&& a.first_cluster == b.first_cluster
    &&& a.short == b.short
    &&& a.needs_lfn == b.needs_lfn
}

// ── Post-order ──────────────────────────────────────────────────────────────

/// The subtree of `i` in post-order: each child's subtree in turn, then `i`.
pub open spec fn post_order_spec(nodes: Seq<FatNode>, i: int) -> Seq<usize>
    decreases nodes.len() - i, nodes[i].children@.len() + 1,
{
    post_order_list(nodes, i, nodes[i].children@.len() as int).push(i as usize)
}

/// The subtrees of the first `k` children of `i`, in post-order.
pub open spec fn post_order_list(nodes: Seq<FatNode>, i: int, k: int) -> Seq<usize>
    decreases nodes.len() - i, k,
{
    if k <= 0 || k > nodes[i].children@.len() {
        Seq::empty()
    } else {
        let c = nodes[i].children@[k - 1] as int;
        let rest = post_order_list(nodes, i, k - 1);
        if i < c && c < nodes.len() {
            rest + post_order_spec(nodes, c)
        } else {
            rest
        }
    }
}

/// Appends the subtree of `i` to `out` in post-order.
pub fn post_order(nodes: &[FatNode], i: usize, out: &mut Vec<usize>)
    requires
        tree_wf(nodes@),
        i < nodes@.len(),
    ensures
        final(out)@ == old(out)@ + post_order_spec(nodes@, i as int),
    decreases nodes@.len() - i,
{
    let mut k: usize = 0;
    while k < nodes[i].children.len()
        invariant
            tree_wf(nodes@),
            i < nodes@.len(),
            0 <= k <= nodes@[i as int].children@.len(),
            out@ == old(out)@ + post_order_list(nodes@, i as int, k as int),
        decreases nodes@[i as int].children@.len() - k,
    {
        let c = nodes[i].children[k];
        assert(i < c < nodes@.len());
        let ghost before = out@;
        post_order(nodes, c, out);
        assert(out@ =~= old(out)@ + post_order_list(nodes@, i as int, k + 1));
        k += 1;
    }
    out.push(i);
    assert(out@ =~= old(out)@ + post_order_spec(nodes@, i as int));
}

// ── Allocation steps ────────────────────────────────────────────────────────

/// The directory pass: every node of `order` but the root, with its current
/// chain length.
pub open spec fn pass_one(nodes: Seq<FatNode>, order: Seq<usize>) -> Seq<(usize, u64)>
    decreases order.len(),
{
    if order.len() == 0 {
        Seq::empty()
    } else {
        let rest = pass_one(nodes, order.drop_last());
        let i = order.last();
        if i == 0 {
            rest
        } else {
            rest.push((i, nodes[i as int].chain_len as u64))
        }
    }
}

/// The file pass over the first `k` nodes: each file with its size in whole clusters.
pub open spec fn pass_two(nodes: Seq<FatNode>, cb: nat, k: nat) -> Seq<(usize, u64)>
    decreases k,
{
    if k == 0 {
        Seq::empty()
    } else {
        let rest = pass_two(nodes, cb, (k - 1) as nat);
        let n = nodes[k - 1];
        if n.is_dir {
            rest
        } else {
            rest.push(((k - 1) as usize, ceil_div(n.size as nat, cb) as u64))
        }
    }
}

/// Every allocation, in order: node and chain length.
pub open spec fn alloc_steps_spec(nodes: Seq<FatNode>, g: Geometry) -> Seq<(usize, u64)> {
    pass_one(nodes, post_order_spec(nodes, 0)) + pass_two(nodes, cluster_bytes_of(g), nodes.len())
}

/// The allocations [`allocate`] makes, in order.
pub fn allocation_steps(nodes: &[FatNode], geo: &Geometry) -> (steps: Vec<(usize, u64)>)
    requires
        tree_wf(nodes@),
        geometry_ok(*geo),
    ensures
        steps@ == alloc_steps_spec(nodes@, *geo),
{
    let mut order: Vec<usize> = Vec::new();
    post_order(nodes, 0, &mut order);
    assert(order@ =~= post_order_spec(nodes@, 0));
    proof {
        lemma_post_order_in_range(nodes@, 0);
    }
    let mut steps: Vec<(usize, u64)> = Vec::new();
    let mut k: usize = 0;
    while k < order.len()
        invariant
            tree_wf(nodes@),
            0 <= k <= order@.len(),
            order@ == post_order_spec(nodes@, 0),
            forall|j: int| 0 <= j < order@.len() ==> (#[trigger] order@[j]) < nodes@.len(),
            steps@ == pass_one(nodes@, order@.take(k as int)),
        decreases order@.len() - k,
    {
        let i = order[k];
        proof {
            let t = order@.take(k + 1);
            assert(t.drop_last() =~= order@.take(k as int));
            assert(t.last() == i);
        }
        if i != 0 {
            steps.push((i, nodes[i].chain_len as u64));
        }
        k += 1;
    }
    assert(order@.take(order@.len() as int) =~= order@);
    let ghost first = steps@;
    let cb: u64 = geo.spc as u64 * 512;
    let mut j: usize = 0;
    while j < nodes.len()
        invariant
            cb == cluster_bytes_of(*geo),
            1 <= cb <= 65536,
            0 <= j <= nodes@.len(),
            first == pass_one(nodes@, post_order_spec(nodes@, 0)),
            steps@ == first + pass_two(nodes@, cb as nat, j as nat),
        decreases nodes@.len() - j,
    {
        if !nodes[j].is_dir {
            let q: u64 = div_ceil_u64(nodes[j].size, cb);
            steps.push((j, q));
        }
        j += 1;
        assert(steps@ =~= first + pass_two(nodes@, cb as nat, j as nat));
    }
    steps
}

/// Post-order indices lie inside the tree.
proof fn lemma_post_order_in_range(nodes: Seq<FatNode>, i: int)
    requires
        tree_wf(nodes),
        0 <= i < nodes.len(),
    ensures
        forall|j: int| 0 <= j < post_order_spec(nodes, i).len() ==> (#[trigger] post_order_spec(nodes, i)[j]) < nodes.len(),
    decreases nodes.len() - i, nodes[i].children@.len() + 1,
{
    let l = post_order_list(nodes, i, nodes[i].children@.len() as int);
    lemma_post_order_list_in_range(nodes, i, nodes[i].children@.len() as int);
    assert forall|j: int| 0 <= j < l.push(i as usize).len() implies (#[trigger] l.push(i as usize)[j]) < nodes.len() by {
        if j < l.len() {
            assert(l.push(i as usize)[j] == l[j]);
        }
    }
}

proof fn lemma_post_order_list_in_range(nodes: Seq<FatNode>, i: int, k: int)
    requires
        tree_wf(nodes),
        0 <= i < nodes.len(),
    ensures
        forall|j: int| 0 <= j < post_order_list(nodes, i, k).len() ==> (#[trigger] post_order_list(nodes, i, k)[j]) < nodes.len(),
    decreases nodes.len() - i, k,
{
    if k <= 0 || k > nodes[i].children@.len() {
    } else {
        let c = nodes[i].children@[k - 1] as int;
        lemma_post_order_list_in_range(nodes, i, k - 1);
        if i < c && c < nodes.len() {
            lemma_post_order_in_range(nodes, c);
            let a = post_order_list(nodes, i, k - 1);
            let b = post_order_spec(nodes, c);
            assert forall|j: int| 0 <= j < (a + b).len() implies (#[trigger] (a + b)[j]) < nodes.len() by {
                if j < a.len() {
                    assert((a + b)[j] == a[j]);
                } else {
                    assert((a + b)[j] == b[j - a.len()]);
                }
            }
        }
    }
}

// ── Allocation ──────────────────────────────────────────────────────────────

/// First clusters, chain lengths, the FAT, and the next free cluster.
pub struct AllocState {
    pub first: Seq<u32>,
    pub lens: Seq<u32>,
    pub fat: Seq<u32>,
    pub next: nat,
}

/// `fat` with the run `first..first + len` chained: each entry points to
/// the next cluster, the last holds `eoc`.
pub open spec fn link_run(fat: Seq<u32>, first: nat, len: nat, eoc: u32) -> Seq<u32> {
    Seq::new(
        fat.len(),
        |c: int|
            if first <= c < first + len {
                if c + 1 < first + len {
                    (c + 1) as u32
                } else {
                    eoc
                }
            } else {
                fat[c]
            },
    )
}

/// One allocation: a node with an empty chain gets cluster 0; otherwise it
/// takes the next `len` clusters.
pub open spec fn alloc_apply(s: AllocState, step: (usize, u64), eoc: u32) -> AllocState {
    let i = step.0 as int;
    let len = step.1 as nat;
    if len == 0 {
        AllocState { first: s.first.update(i, 0), lens: s.lens.update(i, 0), fat: s.fat, next: s.next }
    } else {
        AllocState {
            first: s.first.update(i, s.next as u32),
            lens: s.lens.update(i, len as u32),
            fat: link_run(s.fat, s.next, len, eoc),
            next: s.next + len,
        }
    }
}

/// The allocations `steps`, one after the other.
pub open spec fn alloc_fold(s0: AllocState, steps: Seq<(usize, u64)>, eoc: u32) -> AllocState
    decreases steps.len(),
{
    if steps.len() == 0 {
        s0
    } else {
        alloc_apply(alloc_fold(s0, steps.drop_last(), eoc), steps.last(), eoc)
    }
}

/// The FAT before any chain: entry 0 holds the media marker, entry 1 end-of-chain.
pub open spec fn blank_fat(g: Geometry) -> Seq<u32> {
    Seq::new(
        (g.total_clusters + 2) as nat,
        |c: int|
            if c == 0 {
                g.kind.media_entry_spec()
            } else if c == 1 {
                g.kind.eoc_spec()
            } else {
                0u32
            },
    )
}

/// The chain of the FAT32 root directory (none for FAT12/16, whose root is a fixed region).
pub open spec fn root_chain_len(nodes: Seq<FatNode>, g: Geometry) -> nat {
    if g.kind == FatKind::Fat32 {
        nodes[0].chain_len as nat
    } else {
        0
    }
}

/// The state before the steps: the FAT32 root chain in place at the root cluster.
pub open spec fn alloc_init(nodes: Seq<FatNode>, g: Geometry) -> AllocState {
    AllocState {
        first: nodes.map_values(|n: FatNode| n.first_cluster),
        lens: nodes.map_values(|n: FatNode| n.chain_len),
        fat: link_run(blank_fat(g), g.root_cluster as nat, root_chain_len(nodes, g), g.kind.eoc_spec()),
        next: if g.kind == FatKind::Fat32 {
            (g.root_cluster + root_chain_len(nodes, g)) as nat
        } else {
            (g.root_cluster + 1) as nat
        },
    }
}

/// What [`allocate`] computes.
pub open spec fn alloc_result(nodes: Seq<FatNode>, g: Geometry, steps: Seq<(usize, u64)>) -> AllocState {
    alloc_fold(alloc_init(nodes, g), steps, g.kind.eoc_spec())
}

/// The clusters the steps take.
pub open spec fn steps_total(steps: Seq<(usize, u64)>) -> nat
    decreases steps.len(),
{
    if steps.len() == 0 {
        0
    } else {
        steps_total(steps.drop_last()) + steps.last().1 as nat
    }
}

/// The chains fit the volume.
pub open spec fn alloc_fits(nodes: Seq<FatNode>, g: Geometry, steps: Seq<(usize, u64)>) -> bool {
    alloc_init(nodes, g).next + steps_total(steps) <= g.total_clusters + 2
}

/// The nodes that get a chain: the FAT32 root, and every node of a step.
pub open spec fn touched(g: Geometry, steps: Seq<(usize, u64)>, i: int) -> bool {
    (i == 0 && g.kind == FatKind::Fat32) || exists|k: int| 0 <= k < steps.len() && (#[trigger] steps[k]).0 == i
}

/// The run `first..first + len` is chained in `fat`.
pub open spec fn run_linked(fat: Seq<u32>, first: nat, len: nat, eoc: u32) -> bool {
    forall|c: int|
        first <= c < first + len ==> #[trigger] fat[c] == if c + 1 < first + len {
            (c + 1) as u32
        } else {
            eoc
        }
}

/// Every chain of a node in `t` lies in the data clusters below `next`, is
/// chained in the FAT, and shares no cluster with another node's chain.
pub open spec fn runs_ok(s: AllocState, t: spec_fn(int) -> bool, eoc: u32) -> bool {
    &&& forall|i: int|
        t(i) && 0 <= i < s.lens.len() && s.lens[i] > 0 ==> 2 <= #[trigger] s.first[i] && s.first[i]
            + s.lens[i] <= s.next && run_linked(s.fat, s.first[i] as nat, s.lens[i] as nat, eoc)
    &&& forall|i: int, j: int|
        t(i) && t(j) && i != j && 0 <= i < s.lens.len() && 0 <= j < s.lens.len() && s.lens[i] > 0
            && s.lens[j] > 0 ==> #[trigger] s.first[i] + s.lens[i] <= #[trigger] s.first[j] || s.first[j]
            + s.lens[j] <= s.first[i]
}

proof fn lemma_apply_runs_ok(s: AllocState, t: spec_fn(int) -> bool, t2: spec_fn(int) -> bool, step: (usize, u64), eoc: u32)
    requires
        runs_ok(s, t, eoc),
        s.next >= 2,
        s.next + step.1 <= s.fat.len(),
        s.fat.len() <= u32::MAX,
        (step.0 as int) < s.lens.len(),
        s.first.len() == s.lens.len(),
        forall|i: int| #[trigger] t2(i) == (t(i) || i == step.0),
    ensures
        runs_ok(alloc_apply(s, step, eoc), t2, eoc),
{
    let s2 = alloc_apply(s, step, eoc);
    let x = step.0 as int;
    let len = step.1 as nat;
    assert(s2.lens.len() == s.lens.len() && s2.first.len() == s.first.len());
    assert(s2.fat.len() == s.fat.len());
    assert forall|i: int| t2(i) && 0 <= i < s2.lens.len() && s2.lens[i] > 0 implies 2 <= #[trigger] s2.first[i]
        && s2.first[i] + s2.lens[i] <= s2.next && run_linked(s2.fat, s2.first[i] as nat, s2.lens[i] as nat, eoc) by {
        if i != x {
            assert(t(i));
            assert(s2.first[i] == s.first[i] && s2.lens[i] == s.lens[i]);
            assert forall|c: int| s2.first[i] <= c < s2.first[i] + s2.lens[i] implies #[trigger] s2.fat[c] == if c + 1 < s2.first[i] + s2.lens[i] {
                (c + 1) as u32
            } else {
                eoc
            } by {
                assert(s.fat[c] == if c + 1 < s.first[i] + s.lens[i] { (c + 1) as u32 } else { eoc });
                if len > 0 {
                    assert(c < s.next);
                    assert(s2.fat[c] == s.fat[c]);
                }
            }
        } else {
            assert(len > 0);
            assert(s2.first[i] == s.next as u32 && s2.lens[i] == len as u32);
            assert(s2.first[i] as nat == s.next && s2.lens[i] as nat == len);
        }
    }
    assert forall|i: int, j: int|
        t2(i) && t2(j) && i != j && 0 <= i < s2.lens.len() && 0 <= j < s2.lens.len() && s2.lens[i] > 0
            && s2.lens[j] > 0 implies #[trigger] s2.first[i] + s2.lens[i] <= #[trigger] s2.first[j] || s2.first[j]
            + s2.lens[j] <= s2.first[i] by {
        if i != x && j != x {
            assert(t(i) && t(j));
            assert(s2.first[i] == s.first[i] && s2.lens[i] == s.lens[i]);
            assert(s2.first[j] == s.first[j] && s2.lens[j] == s.lens[j]);
            assert(s.first[i] + s.lens[i] <= s.first[j] || s.first[j] + s.lens[j] <= s.first[i]);
        } else if i == x {
            assert(t(j));
            assert(s2.first[j] == s.first[j] && s2.lens[j] == s.lens[j]);
            assert(s.first[j] + s.lens[j] <= s.next);
            assert(s2.first[i] as nat == s.next);
        } else {
            assert(t(i));
            assert(s2.first[i] == s.first[i] && s2.lens[i] == s.lens[i]);
            assert(s.first[i] + s.lens[i] <= s.next);
            assert(s2.first[j] as nat == s.next);
        }
    }
}

pub proof fn lemma_fold_next(s0: AllocState, steps: Seq<(usize, u64)>, eoc: u32)
    requires
        s0.first.len() == s0.lens.len(),
        forall|k: int| 0 <= k < steps.len() ==> (#[trigger] steps[k]).0 < s0.lens.len(),
    ensures
        alloc_fold(s0, steps, eoc).next == s0.next + steps_total(steps),
        alloc_fold(s0, steps, eoc).fat.len() == s0.fat.len(),
        alloc_fold(s0, steps, eoc).lens.len() == s0.lens.len(),
        alloc_fold(s0, steps, eoc).first.len() == s0.first.len(),
    decreases steps.len(),
{
    if steps.len() > 0 {
        lemma_fold_next(s0, steps.drop_last(), eoc);
    }
}

proof fn lemma_steps_total_prefix(steps: Seq<(usize, u64)>, k: int)
    requires
        0 <= k <= steps.len(),
    ensures
        steps_total(steps.take(k)) <= steps_total(steps),
    decreases steps.len() - k,
{
    if k < steps.len() {
        lemma_steps_total_prefix(steps, k + 1);
        assert(steps.take(k + 1).drop_last() =~= steps.take(k));
    } else {
        assert(steps.take(k) =~= steps);
    }
}

/// Chains the run `first..first + len` in the FAT.
fn write_run(fat: &mut Vec<u32>, first: u32, len: u32, eoc: u32)
    requires
        first as nat + len as nat <= old(fat)@.len(),
        old(fat)@.len() <= u32::MAX,
    ensures
        final(fat)@ == link_run(old(fat)@, first as nat, len as nat, eoc),
{
    let mut c: u32 = 0;
    while c < len
        invariant
            first as nat + len as nat <= old(fat)@.len(),
            old(fat)@.len() <= u32::MAX,
            0 <= c <= len,
            fat@.len() == old(fat)@.len(),
            forall|x: int|
                0 <= x < fat@.len() ==> #[trigger] fat@[x] == if first <= x < first + c {
                    if x + 1 < first + len {
                        (x + 1) as u32
                    } else {
                        eoc
                    }
                } else {
                    old(fat)@[x]
                },
        decreases len - c,
    {
        let idx = first + c;
        let v: u32 = if c + 1 < len {
            idx + 1
        } else {
            eoc
        };
        fat.set(idx as usize, v);
        c += 1;
    }
    assert(fat@ =~= link_run(old(fat)@, first as nat, len as nat, eoc));
}

/// Hands out the clusters: the FAT32 root directory chain at the root
/// cluster, then one chain per step, in order; returns the FAT (cluster ->
/// next cluster) and the first cluster left free. Every chain lies in the
/// data clusters, is chained in the FAT, and shares no cluster with another
/// node's chain.
pub fn allocate(nodes: &mut Vec<FatNode>, geo: &Geometry, steps: &[(usize, u64)]) -> (r: (
    Vec<u32>,
    u32,
))
    requires
        geometry_ok(*geo),
        old(nodes)@.len() >= 1,
        old(nodes)@[0].first_cluster == geo.root_cluster,
        forall|k: int| 0 <= k < steps@.len() ==> (#[trigger] steps@[k]).0 < old(nodes)@.len(),
        alloc_fits(old(nodes)@, *geo, steps@),
    ensures
        r.0@ == alloc_result(old(nodes)@, *geo, steps@).fat,
        r.1 as nat == alloc_result(old(nodes)@, *geo, steps@).next,
        final(nodes)@.len() == old(nodes)@.len(),
        forall|i: int|
            0 <= i < old(nodes)@.len() ==> (#[trigger] final(nodes)@[i]).first_cluster == alloc_result(
                old(nodes)@,
                *geo,
                steps@,
            ).first[i] && final(nodes)@[i].chain_len == alloc_result(old(nodes)@, *geo, steps@).lens[i]
                && same_but_alloc(final(nodes)@[i], old(nodes)@[i]),
        runs_ok(
            alloc_result(old(nodes)@, *geo, steps@),
            |i: int| touched(*geo, steps@, i),
            geo.kind.eoc_spec(),
        ),
{
    let ghost g = *geo;
    let ghost n0 = nodes@;
    let eoc = geo.kind.eoc();
    let total: usize = geo.total_clusters as usize + 2;
    let mut fat: Vec<u32> = Vec::new();
    let mut c: usize = 0;
    while c < total
        invariant
            total == g.total_clusters + 2,
            g == *geo,
            eoc == g.kind.eoc_spec(),
            0 <= c <= total,
            fat@ == blank_fat(g).take(c as int),
        decreases total - c,
    {
        let v: u32 = if c == 0 {
            geo.kind.media_entry()
        } else if c == 1 {
            eoc
        } else {
            0
        };
        fat.push(v);
        c += 1;
        assert(fat@ =~= blank_fat(g).take(c as int));
    }
    assert(fat@ =~= blank_fat(g));
    let ghost init = alloc_init(n0, g);
    let mut next: u32 = geo.root_cluster + 1;
    if geo.kind == FatKind::Fat32 {
        let root_chain = nodes[0].chain_len;
        proof {
            lemma_fold_next(init, steps@, eoc);
        }
        write_run(&mut fat, geo.root_cluster, root_chain, eoc);
        next = geo.root_cluster + root_chain;
    }
    proof {
        lemma_fold_next(init, steps@, eoc);
        assert(init.first =~= nodes@.map_values(|n: FatNode| n.first_cluster));
        assert(fat@ == init.fat);
        assert(runs_ok(init, |i: int| touched(g, steps@.take(0), i), eoc)) by {
            if g.kind == FatKind::Fat32 {
                assert forall|i: int, j: int|
                    touched(g, steps@.take(0), i) && touched(g, steps@.take(0), j) && i != j && 0 <= i
                        < init.lens.len() && 0 <= j < init.lens.len() && init.lens[i] > 0 && init.lens[j]
                        > 0 implies #[trigger] init.first[i] + init.lens[i] <= #[trigger] init.first[j]
                    || init.first[j] + init.lens[j] <= init.first[i] by {
                    assert(i == 0 && j == 0);
                }
                assert forall|i: int| touched(g, steps@.take(0), i) && 0 <= i < init.lens.len() && init.lens[i] > 0
                    implies 2 <= #[trigger] init.first[i] && init.first[i] + init.lens[i] <= init.next
                        && run_linked(init.fat, init.first[i] as nat, init.lens[i] as nat, eoc) by {
                    assert(i == 0);
                    assert(init.first[0] == n0[0].first_cluster);
                }
            }
        }
    }
    let mut k: usize = 0;
    while k < steps.len()
        invariant
            g == *geo,
            geometry_ok(g),
            eoc == g.kind.eoc_spec(),
            n0.len() >= 1,
            forall|q: int| 0 <= q < steps@.len() ==> (#[trigger] steps@[q]).0 < n0.len(),
            alloc_fits(n0, g, steps@),
            init == alloc_init(n0, g),
            alloc_fold(init, steps@, eoc).next == init.next + steps_total(steps@),
            0 <= k <= steps@.len(),
            nodes@.len() == n0.len(),
            fat@ == alloc_fold(init, steps@.take(k as int), eoc).fat,
            next as nat == alloc_fold(init, steps@.take(k as int), eoc).next,
            forall|i: int|
                0 <= i < n0.len() ==> (#[trigger] nodes@[i]).first_cluster == alloc_fold(
                    init,
                    steps@.take(k as int),
                    eoc,
                ).first[i] && nodes@[i].chain_len == alloc_fold(init, steps@.take(k as int), eoc).lens[i]
                    && same_but_alloc(nodes@[i], n0[i]),
            runs_ok(alloc_fold(init, steps@.take(k as int), eoc), |i: int| touched(g, steps@.take(k as int), i), eoc),
        decreases steps@.len() - k,
    {
        let (i, len) = steps[k];
        let ghost s = alloc_fold(init, steps@.take(k as int), eoc);
        proof {
            let t = steps@.take(k + 1);
            assert(t.drop_last() =~= steps@.take(k as int));
            assert(t.last() == steps@[k as int]);
            lemma_fold_next(init, steps@.take(k as int), eoc);
            lemma_fold_next(init, t, eoc);
            lemma_steps_total_prefix(steps@, k + 1);
            assert(init.fat.len() == g.total_clusters + 2);
            assert(init.lens.len() == n0.len());
            assert forall|q: int| #[trigger] touched(g, t, q) == (touched(g, steps@.take(k as int), q) || q == i) by {
                if q == i {
                    assert(t[k as int].0 == i);
                }
                if touched(g, t, q) && !(q == 0 && g.kind == FatKind::Fat32) {
                    let w = choose|w: int| 0 <= w < t.len() && (#[trigger] t[w]).0 == q;
                    if w < k {
                        assert(steps@.take(k as int)[w] == t[w]);
                    }
                }
                if touched(g, steps@.take(k as int), q) && !(q == 0 && g.kind == FatKind::Fat32) {
                    let w = choose|w: int| 0 <= w < steps@.take(k as int).len() && (#[trigger] steps@.take(k as int)[w]).0 == q;
                    assert(t[w] == steps@.take(k as int)[w]);
                }
            }
            lemma_apply_runs_ok(
                s,
                |q: int| touched(g, steps@.take(k as int), q),
                |q: int| touched(g, t, q),
                steps@[k as int],
                eoc,
            );
        }
        if len == 0 {
            nodes[i].first_cluster = 0;
            nodes[i].chain_len = 0;
        } else {
            let first = next;
            write_run(&mut fat, first, len as u32, eoc);
            nodes[i].first_cluster = first;
            nodes[i].chain_len = len as u32;
            next = next + len as u32;
        }
        k += 1;
    }
    proof {
        assert(steps@.take(steps@.len() as int) =~= steps@);
        assert forall|q: int| #[trigger] touched(g, steps@.take(steps@.len() as int), q) == touched(g, steps@, q) by {}
    }
    (fat, next)
}

/// Two nodes agree on everything but their first cluster and chain length.
pub open spec fn same_but_alloc(a: FatNode, b: FatNode) -> bool {
    &&& a.name == b.name
    &&& a.parent == b.parent
    &&& a.is_dir == b.is_dir
    &&& a.size == b.size
    &&& a.children == b.children
    &&& a.short == b.short
    &&& a.needs_lfn == b.needs_lfn
}

/// Whether the chains of `steps` fit the volume (the FAT32 root chain included).
pub fn steps_fit(nodes: &[FatNode], geo: &Geometry, steps: &[(usize, u64)]) -> (b: bool)
    requires
        geometry_ok(*geo),
        nodes@.len() >= 1,
    ensures
        b == alloc_fits(nodes@, *geo, steps@),
{
    let start: u64 = if geo.kind == FatKind::Fat32 {
        geo.root_cluster as u64 + nodes[0].chain_len as u64
    } else {
        geo.root_cluster as u64 + 1
    };
    let limit: u64 = geo.total_clusters as u64 + 2;
    if start > limit {
        return false;
    }
    let mut room: u64 = limit - start;
    let mut k: usize = 0;
    while k < steps.len()
        invariant
            start == alloc_init(nodes@, *geo).next,
            limit == geo.total_clusters + 2,
            start <= limit,
            0 <= k <= steps@.len(),
            room == limit - start - steps_total(steps@.take(k as int)),
        decreases steps@.len() - k,
    {
        proof {
            let t = steps@.take(k + 1);
            assert(t.drop_last() =~= steps@.take(k as int));
        }
        if steps[k].1 > room {
            proof {
                lemma_steps_total_prefix(steps@, k + 1);
            }
            return false;
        }
        room = room - steps[k].1;
        k += 1;
    }
    assert(steps@.take(steps@.len() as int) =~= steps@);
    true
}

// ── Reachability ────────────────────────────────────────────────────────────

proof fn lemma_po_list_grows(nodes: Seq<FatNode>, i: int, k1: int, k2: int)
    requires
        tree_wf(nodes),
        0 <= i < nodes.len(),
        0 <= k1 <= k2 <= nodes[i].children@.len(),
    ensures
        forall|x: usize| post_order_list(nodes, i, k1).contains(x) ==> #[trigger] post_order_list(nodes, i, k2).contains(x),
    decreases k2 - k1,
{
    if k1 < k2 {
        lemma_po_list_grows(nodes, i, k1, k2 - 1);
        let c = nodes[i].children@[k2 - 1] as int;
        assert(i < c < nodes.len());
        let a = post_order_list(nodes, i, k2 - 1);
        let b = post_order_spec(nodes, c);
        assert(post_order_list(nodes, i, k2) == a + b);
        assert forall|x: usize| a.contains(x) implies #[trigger] (a + b).contains(x) by {
            let w = choose|w: int| 0 <= w < a.len() && a[w] == x;
            assert((a + b)[w] == x);
        }
    }
}

/// A child's subtree lies in its parent's.
proof fn lemma_po_child(nodes: Seq<FatNode>, p: int, k: int, x: usize)
    requires
        tree_wf(nodes),
        0 <= p < nodes.len(),
        0 <= k < nodes[p].children@.len(),
        post_order_spec(nodes, nodes[p].children@[k] as int).contains(x),
    ensures
        post_order_spec(nodes, p).contains(x),
{
    let c = nodes[p].children@[k] as int;
    assert(p < c < nodes.len());
    let a = post_order_list(nodes, p, k);
    let b = post_order_spec(nodes, c);
    assert(post_order_list(nodes, p, k + 1) == a + b);
    let w = choose|w: int| 0 <= w < b.len() && b[w] == x;
    assert((a + b)[a.len() + w] == x);
    lemma_po_list_grows(nodes, p, k + 1, nodes[p].children@.len() as int);
    let l = post_order_list(nodes, p, nodes[p].children@.len() as int);
    assert(l.contains(x));
    let v = choose|v: int| 0 <= v < l.len() && l[v] == x;
    assert(l.push(p as usize)[v] == x);
}

proof fn lemma_po_reaches(nodes: Seq<FatNode>, j: int, x: usize)
    requires
        tree_wf(nodes),
        0 <= j < nodes.len(),
        post_order_spec(nodes, j).contains(x),
    ensures
        post_order_spec(nodes, 0).contains(x),
    decreases j,
{
    if j > 0 {
        let p = nodes[j].parent as int;
        assert(nodes[j].parent < j && nodes[p].children@.contains(j as usize));
        let k = choose|k: int| 0 <= k < nodes[p].children@.len() && nodes[p].children@[k] == j as usize;
        lemma_po_child(nodes, p, k, x);
        lemma_po_reaches(nodes, p, x);
    }
}

/// Every node lies in the post-order of the root.
pub proof fn lemma_all_in_post_order(nodes: Seq<FatNode>, x: int)
    requires
        tree_wf(nodes),
        0 <= x < nodes.len(),
    ensures
        post_order_spec(nodes, 0).contains(x as usize),
{
    let l = post_order_list(nodes, x, nodes[x].children@.len() as int);
    assert(l.push(x as usize)[l.len() as int] == x as usize);
    lemma_po_reaches(nodes, x, x as usize);
}

/// A node of `order` other than the root has a step in the directory pass.
proof fn lemma_pass_one_has(nodes: Seq<FatNode>, order: Seq<usize>, x: usize)
    requires
        order.contains(x),
        x != 0,
    ensures
        exists|k: int| 0 <= k < pass_one(nodes, order).len() && (#[trigger] pass_one(nodes, order)[k]).0 == x,
    decreases order.len(),
{
    let rest = pass_one(nodes, order.drop_last());
    if order.last() == x {
        assert(pass_one(nodes, order)[rest.len() as int].0 == x);
    } else {
        let w = choose|w: int| 0 <= w < order.len() && order[w] == x;
        assert(order.drop_last()[w] == x);
        lemma_pass_one_has(nodes, order.drop_last(), x);
        let k = choose|k: int| 0 <= k < rest.len() && (#[trigger] rest[k]).0 == x;
        assert(pass_one(nodes, order)[k] == rest[k]);
    }
}

/// Every node but the root has a step.
pub proof fn lemma_every_node_touched(nodes: Seq<FatNode>, g: Geometry, x: int)
    requires
        tree_wf(nodes),
        1 <= x < nodes.len(),
    ensures
        touched(g, alloc_steps_spec(nodes, g), x),
{
    lemma_all_in_post_order(nodes, x);
    lemma_pass_one_has(nodes, post_order_spec(nodes, 0), x as usize);
    let p1 = pass_one(nodes, post_order_spec(nodes, 0));
    let k = choose|k: int| 0 <= k < p1.len() && (#[trigger] p1[k]).0 == x as usize;
    let steps = alloc_steps_spec(nodes, g);
    assert(steps[k] == p1[k]);
}

/// The directory pass never allocates for the root.
proof fn lemma_pass_one_skips_root(nodes: Seq<FatNode>, order: Seq<usize>)
    ensures
        forall|k: int| 0 <= k < pass_one(nodes, order).len() ==> (#[trigger] pass_one(nodes, order)[k]).0 != 0,
    decreases order.len(),
{
    if order.len() > 0 {
        let rest = pass_one(nodes, order.drop_last());
        lemma_pass_one_skips_root(nodes, order.drop_last());
        let all = pass_one(nodes, order);
        assert forall|k: int| 0 <= k < all.len() implies (#[trigger] all[k]).0 != 0 by {
            if k < rest.len() {
                assert(all[k] == rest[k]);
            }
        }
    }
}

/// The file pass allocates for files only.
proof fn lemma_pass_two_files_only(nodes: Seq<FatNode>, cb: nat, k: nat)
    requires
        k <= nodes.len(),
        nodes.len() <= usize::MAX,
    ensures
        forall|j: int|
            0 <= j < pass_two(nodes, cb, k).len() ==> !nodes[(#[trigger] pass_two(nodes, cb, k)[j]).0 as int].is_dir,
    decreases k,
{
    if k > 0 {
        let rest = pass_two(nodes, cb, (k - 1) as nat);
        lemma_pass_two_files_only(nodes, cb, (k - 1) as nat);
        let all = pass_two(nodes, cb, k);
        assert forall|j: int| 0 <= j < all.len() implies !nodes[(#[trigger] all[j]).0 as int].is_dir by {
            if j < rest.len() {
                assert(all[j] == rest[j]);
            } else {
                assert(all[j].0 as int == k - 1);
            }
        }
    }
}

/// No allocation step names the root directory.
pub proof fn lemma_steps_skip_root(nodes: Seq<FatNode>, g: Geometry)
    requires
        tree_wf(nodes),
    ensures
        forall|k: int| 0 <= k < alloc_steps_spec(nodes, g).len() ==> (#[trigger] alloc_steps_spec(nodes, g)[k]).0 != 0,
{
    let p1 = pass_one(nodes, post_order_spec(nodes, 0));
    let p2 = pass_two(nodes, cluster_bytes_of(g), nodes.len());
    lemma_pass_one_skips_root(nodes, post_order_spec(nodes, 0));
    lemma_pass_two_files_only(nodes, cluster_bytes_of(g), nodes.len());
    let st = alloc_steps_spec(nodes, g);
    assert forall|k: int| 0 <= k < st.len() implies (#[trigger] st[k]).0 != 0 by {
        if k < p1.len() {
            assert(st[k] == p1[k]);
        } else {
            assert(st[k] == p2[k - p1.len()]);
        }
    }
}

/// A node that no step names keeps its first cluster.
pub proof fn lemma_fold_keeps_first(s0: AllocState, steps: Seq<(usize, u64)>, eoc: u32, x: int)
    requires
        0 <= x < s0.first.len(),
        forall|k: int| 0 <= k < steps.len() ==> (#[trigger] steps[k]).0 != x && steps[k].0 < s0.first.len(),
    ensures
        alloc_fold(s0, steps, eoc).first[x] == s0.first[x],
        alloc_fold(s0, steps, eoc).first.len() == s0.first.len(),
    decreases steps.len(),
{
    if steps.len() > 0 {
        assert(steps.last() == steps[steps.len() - 1]);
        let d = steps.drop_last();
        assert forall|k: int| 0 <= k < d.len() implies (#[trigger] d[k]).0 != x && d[k].0 < s0.first.len() by {
            assert(d[k] == steps[k]);
        }
        lemma_fold_keeps_first(s0, d, eoc, x);
    }
}

/// The nodes after the allocation.
pub open spec fn allocated(nodes: Seq<FatNode>, s: AllocState) -> Seq<FatNode> {
    Seq::new(nodes.len(), |i: int| FatNode { first_cluster: s.first[i], chain_len: s.lens[i], ..nodes[i] })
}

/// Every file has a step in the file pass.
proof fn lemma_pass_two_has(nodes: Seq<FatNode>, cb: nat, k: nat, x: int)
    requires
        0 <= x < k <= nodes.len(),
        nodes.len() <= usize::MAX,
        !nodes[x].is_dir,
    ensures
        exists|w: int| 0 <= w < pass_two(nodes, cb, k).len() && (#[trigger] pass_two(nodes, cb, k)[w]).0 == x,
    decreases k,
{
    let rest = pass_two(nodes, cb, (k - 1) as nat);
    let p = pass_two(nodes, cb, k);
    if x == k - 1 {
        let e = ((k - 1) as usize, ceil_div(nodes[k - 1].size as nat, cb) as u64);
        assert(p == rest.push(e));
        assert(p[rest.len() as int] == e);
        assert(p[rest.len() as int].0 == x);
    } else {
        lemma_pass_two_has(nodes, cb, (k - 1) as nat, x);
        let w = choose|w: int| 0 <= w < rest.len() && (#[trigger] rest[w]).0 == x;
        if !nodes[k - 1].is_dir {
            let e = ((k - 1) as usize, ceil_div(nodes[k - 1].size as nat, cb) as u64);
            assert(p == rest.push(e));
            assert(p[w] == rest[w]);
        } else {
            assert(p == rest);
        }
        assert(p[w].0 == x);
    }
}

/// Every file has a step.
pub proof fn lemma_every_file_touched(nodes: Seq<FatNode>, g: Geometry, x: int)
    requires
        tree_wf(nodes),
        0 <= x < nodes.len(),
        !nodes[x].is_dir,
    ensures
        touched(g, alloc_steps_spec(nodes, g), x),
{
    let cb = cluster_bytes_of(g);
    lemma_pass_two_has(nodes, cb, nodes.len(), x);
    let p1 = pass_one(nodes, post_order_spec(nodes, 0));
    let p2 = pass_two(nodes, cb, nodes.len());
    let w = choose|w: int| 0 <= w < p2.len() && (#[trigger] p2[w]).0 == x;
    assert(alloc_steps_spec(nodes, g)[p1.len() + w] == p2[w]);
}

proof fn lemma_pass_one_lens(nodes: Seq<FatNode>, order: Seq<usize>)
    ensures
        forall|k: int| 0 <= k < pass_one(nodes, order).len() ==> (#[trigger] pass_one(nodes, order)[k]).1
            == nodes[pass_one(nodes, order)[k].0 as int].chain_len as u64,
    decreases order.len(),
{
    if order.len() > 0 {
        lemma_pass_one_lens(nodes, order.drop_last());
        let rest = pass_one(nodes, order.drop_last());
        let p = pass_one(nodes, order);
        let i = order.last();
        if i != 0 {
            let e = (i, nodes[i as int].chain_len as u64);
            assert(p == rest.push(e));
            assert forall|k: int| 0 <= k < p.len() implies (#[trigger] p[k]).1 == nodes[p[k].0 as int].chain_len as u64 by {
                if k < rest.len() {
                    assert(p[k] == rest[k]);
                } else {
                    assert(p[k] == e);
                }
            }
        }
    }
}

proof fn lemma_pass_two_files(nodes: Seq<FatNode>, cb: nat, k: nat)
    requires
        k <= nodes.len() <= usize::MAX,
    ensures
        forall|w: int| 0 <= w < pass_two(nodes, cb, k).len() ==> !nodes[(#[trigger] pass_two(nodes, cb, k)[w]).0 as int].is_dir,
    decreases k,
{
    if k > 0 {
        lemma_pass_two_files(nodes, cb, (k - 1) as nat);
        let rest = pass_two(nodes, cb, (k - 1) as nat);
        let p = pass_two(nodes, cb, k);
        if !nodes[k - 1].is_dir {
            let e = ((k - 1) as usize, ceil_div(nodes[k - 1].size as nat, cb) as u64);
            assert(p == rest.push(e));
            assert forall|w: int| 0 <= w < p.len() implies !nodes[(#[trigger] p[w]).0 as int].is_dir by {
                if w < rest.len() {
                    assert(p[w] == rest[w]);
                } else {
                    assert(p[w] == e);
                }
            }
        }
    }
}

/// A directory's step carries its chain length.
pub proof fn lemma_dir_steps_keep_len(nodes: Seq<FatNode>, g: Geometry)
    requires
        nodes.len() <= usize::MAX,
    ensures
        forall|k: int|
            0 <= k < alloc_steps_spec(nodes, g).len() && nodes[(#[trigger] alloc_steps_spec(nodes, g)[k]).0 as int].is_dir
                ==> alloc_steps_spec(nodes, g)[k].1 == nodes[alloc_steps_spec(nodes, g)[k].0 as int].chain_len as u64,
{
    let p1 = pass_one(nodes, post_order_spec(nodes, 0));
    let p2 = pass_two(nodes, cluster_bytes_of(g), nodes.len());
    lemma_pass_one_lens(nodes, post_order_spec(nodes, 0));
    lemma_pass_two_files(nodes, cluster_bytes_of(g), nodes.len());
    assert forall|k: int|
        0 <= k < (p1 + p2).len() && nodes[(#[trigger] (p1 + p2)[k]).0 as int].is_dir implies (p1 + p2)[k].1
            == nodes[(p1 + p2)[k].0 as int].chain_len as u64 by {
        if k < p1.len() {
            assert((p1 + p2)[k] == p1[k]);
        } else {
            assert((p1 + p2)[k] == p2[k - p1.len()]);
        }
    }
}

/// The allocation leaves a directory's chain length as it was when each of
/// its steps carries that length.
pub proof fn lemma_fold_keeps_dir_lens(nodes: Seq<FatNode>, s0: AllocState, steps: Seq<(usize, u64)>, eoc: u32)
    requires
        s0.lens.len() == nodes.len(),
        s0.first.len() == nodes.len(),
        forall|i: int| 0 <= i < nodes.len() && nodes[i].is_dir ==> #[trigger] s0.lens[i] == nodes[i].chain_len,
        forall|k: int| 0 <= k < steps.len() ==> (#[trigger] steps[k]).0 < nodes.len(),
        forall|k: int|
            0 <= k < steps.len() && nodes[(#[trigger] steps[k]).0 as int].is_dir ==> steps[k].1 == nodes[steps[k].0 as int].chain_len as u64,
    ensures
        forall|i: int|
            0 <= i < nodes.len() && nodes[i].is_dir ==> #[trigger] alloc_fold(s0, steps, eoc).lens[i] == nodes[i].chain_len,
    decreases steps.len(),
{
    if steps.len() > 0 {
        let d = steps.drop_last();
        assert forall|k: int| 0 <= k < d.len() implies (#[trigger] d[k]).0 < nodes.len() by {
            assert(d[k] == steps[k]);
        }
        assert forall|k: int| 0 <= k < d.len() && nodes[(#[trigger] d[k]).0 as int].is_dir implies d[k].1 == nodes[d[k].0 as int].chain_len as u64 by {
            assert(d[k] == steps[k]);
        }
        lemma_fold_keeps_dir_lens(nodes, s0, d, eoc);
        lemma_fold_next(s0, d, eoc);
        let l = steps.last();
        assert(l == steps[steps.len() - 1]);
    }
}

/// `ceil_div(a, b)` clusters of `b` bytes hold `a` bytes, with the last one in use.
pub proof fn lemma_ceil_div_bounds(a: nat, b: nat)
    requires
        b >= 1,
        a >= 1,
    ensures
        (ceil_div(a, b) - 1) * b < a <= ceil_div(a, b) * b,
        ceil_div(a, b) >= 1,
{
    let q = ceil_div(a, b);
    vstd::arithmetic::div_mod::lemma_fundamental_div_mod((a + b - 1) as int, b as int);
    let r = ((a + b - 1) as nat) % b;
    assert((a + b - 1) == b * q + r);
    assert(q * b == b * q) by (nonlinear_arith);
    assert((q - 1) * b == q * b - b) by (nonlinear_arith);
    vstd::arithmetic::div_mod::lemma_div_is_ordered(b as int, (a + b - 1) as int, b as int);
    vstd::arithmetic::div_mod::lemma_fundamental_div_mod_converse_div(b as int, b as int, 1, 0);
}

proof fn lemma_pass_one_range(nodes: Seq<FatNode>, order: Seq<usize>)
    requires
        forall|j: int| 0 <= j < order.len() ==> (#[trigger] order[j]) < nodes.len(),
    ensures
        forall|k: int| 0 <= k < pass_one(nodes, order).len() ==> (#[trigger] pass_one(nodes, order)[k]).0 < nodes.len(),
    decreases order.len(),
{
    if order.len() > 0 {
        let d = order.drop_last();
        assert forall|j: int| 0 <= j < d.len() implies (#[trigger] d[j]) < nodes.len() by {
            assert(d[j] == order[j]);
        }
        lemma_pass_one_range(nodes, d);
        let rest = pass_one(nodes, d);
        let p = pass_one(nodes, order);
        let i = order.last();
        assert(order[order.len() - 1] == i);
        if i != 0 {
            assert(p == rest.push((i, nodes[i as int].chain_len as u64)));
            assert forall|k: int| 0 <= k < p.len() implies (#[trigger] p[k]).0 < nodes.len() by {
                if k < rest.len() {
                    assert(p[k] == rest[k]);
                }
            }
        }
    }
}

proof fn lemma_pass_two_range(nodes: Seq<FatNode>, cb: nat, k: nat)
    requires
        k <= nodes.len() <= usize::MAX,
    ensures
        forall|w: int| 0 <= w < pass_two(nodes, cb, k).len() ==> (#[trigger] pass_two(nodes, cb, k)[w]).0 < k,
    decreases k,
{
    if k > 0 {
        lemma_pass_two_range(nodes, cb, (k - 1) as nat);
        let rest = pass_two(nodes, cb, (k - 1) as nat);
        let p = pass_two(nodes, cb, k);
        if !nodes[k - 1].is_dir {
            let e = ((k - 1) as usize, ceil_div(nodes[k - 1].size as nat, cb) as u64);
            assert(p == rest.push(e));
            assert forall|w: int| 0 <= w < p.len() implies (#[trigger] p[w]).0 < k by {
                if w < rest.len() {
                    assert(p[w] == rest[w]);
                }
            }
        }
    }
}

/// Every step names a node of the tree.
pub proof fn lemma_steps_in_range(nodes: Seq<FatNode>, g: Geometry)
    requires
        tree_wf(nodes),
    ensures
        forall|k: int| 0 <= k < alloc_steps_spec(nodes, g).len() ==> (#[trigger] alloc_steps_spec(nodes, g)[k]).0 < nodes.len(),
{
    lemma_post_order_in_range(nodes, 0);
    lemma_pass_one_range(nodes, post_order_spec(nodes, 0));
    lemma_pass_two_range(nodes, cluster_bytes_of(g), nodes.len());
    let p1 = pass_one(nodes, post_order_spec(nodes, 0));
    let p2 = pass_two(nodes, cluster_bytes_of(g), nodes.len());
    assert forall|k: int| 0 <= k < (p1 + p2).len() implies (#[trigger] (p1 + p2)[k]).0 < nodes.len() by {
        if k < p1.len() {
            assert((p1 + p2)[k] == p1[k]);
        } else {
            assert((p1 + p2)[k] == p2[k - p1.len()]);
        }
    }
}

} // verus!
