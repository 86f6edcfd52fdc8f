//! The metadata bytes of a FAT volume and where they go.
use vstd::prelude::*;

use crate::bytes::{append_bytes, append_u16, append_u32, append_zeros, le16_bytes, le32_bytes, zeros};
use crate::fat::{geometry_ok, overhead, FatError, FatKind, Geometry};
use crate::fat_alloc::{
    same_but_alloc, alloc_fits, alloc_fold, alloc_init, alloc_result, alloc_steps_spec, allocate, allocated,
    allocation_steps, dir_chain_len, dirs_fit, lemma_ceil_div_bounds, lemma_dir_steps_keep_len,
    lemma_every_file_touched, lemma_every_node_touched, lemma_fold_keeps_dir_lens, lemma_fold_next,
    lemma_fold_keeps_first, lemma_steps_skip_root, lemma_steps_in_range, run_linked, runs_ok, set_dir_chain_lengths, steps_fit, touched, with_dir_chains,
    AllocState,
};
use crate::fat_dir::{
    dir_bytes, dir_bytes_spec, label_record, lemma_dir_heads, lemma_dir_len_frame, parent_cluster, same_entries,
    tree_wf, FatNode,
};
use crate::fat_names::dot_entry_spec;

verus! {

// ── Offsets ─────────────────────────────────────────────────────────────────

impl Geometry {
    /// Bytes per cluster.
    pub fn cluster_bytes(&self) -> (r: u64)
        requires
            geometry_ok(*self),
        ensures
            r == self.spc * 512,
    {
        self.spc as u64 * 512
    }

    /// Byte offset of data cluster `cluster`.
    pub fn cluster_offset(&self, cluster: u32) -> (r: u64)
        requires
            geometry_ok(*self),
            cluster >= 2,
        ensures
            r == self.data_start + (cluster - 2) * (self.spc * 512),
    {
        assert((cluster - 2) * (self.spc * 512) <= 0xFFFF_FFFFu64 * 65536) by (nonlinear_arith)
            requires
                cluster - 2 <= 0xFFFF_FFFFu64,
                self.spc * 512 <= 65536,
        ;
        self.data_start + (cluster - 2) as u64 * self.cluster_bytes()
    }

    /// Byte offset of FAT number `n`.
    pub fn fat_offset(&self, n: u32) -> (r: u64)
        requires
            geometry_ok(*self),
            n <= self.num_fats,
        ensures
            r == (self.reserved + self.fat_sectors * n) * 512,
    {
        assert(self.fat_sectors * n <= self.fat_sectors * 2) by (nonlinear_arith)
            requires
                n <= 2,
        ;
        (self.reserved as u64 + self.fat_sectors as u64 * n as u64) * 512
    }

    /// Byte offset of the fixed root directory (FAT12/16).
    pub fn root_offset(&self) -> (r: u64)
        requires
            geometry_ok(*self),
        ensures
            r == self.data_start - self.root_sectors * 512,
    {
        self.data_start - self.root_sectors * 512
    }
}

// ── The FAT ─────────────────────────────────────────────────────────────────

/// FAT12 entry `k` (12 bits), 0 past the end.
pub open spec fn fat12_entry(fat: Seq<u32>, k: int) -> nat {
    if 0 <= k < fat.len() {
        (fat[k] % 4096) as nat
    } else {
        0
    }
}

/// Byte `j` of a packed FAT12: entries `2t` and `2t + 1` share bytes `3t..3t + 3`.
pub open spec fn fat12_byte(fat: Seq<u32>, j: int) -> u8 {
    let t = j / 3;
    let e0 = fat12_entry(fat, 2 * t);
    let e1 = fat12_entry(fat, 2 * t + 1);
    if j % 3 == 0 {
        (e0 % 256) as u8
    } else if j % 3 == 1 {
        (e0 / 256 + (e1 % 16) * 16) as u8
    } else {
        (e1 / 16) as u8
    }
}

/// The on-disk bytes of a FAT.
pub open spec fn pack_fat_spec(fat: Seq<u32>, kind: FatKind) -> Seq<u8> {
    match kind {
        FatKind::Fat12 => Seq::new(fat.len() * 3 / 2 + 1, |j: int| fat12_byte(fat, j)),
        FatKind::Fat16 => Seq::new(fat.len() * 2, |j: int| le16_bytes((fat[j / 2] % 65536) as u16)[j % 2]),
        FatKind::Fat32 => Seq::new(fat.len() * 4, |j: int| le32_bytes(fat[j / 4])[j % 4]),
    }
}

/// Packs the FAT (cluster -> next cluster) into its on-disk bytes: 12, 16
/// or 32 bits per entry, little-endian; FAT12 packs two entries into three
/// bytes and ends with one spare byte.
pub fn pack_fat(fat: &[u32], kind: FatKind) -> (out: Vec<u8>)
    requires
        fat@.len() <= 0x1000_0000,
    ensures
        out@ == pack_fat_spec(fat@, kind),
{
    let n = fat.len();
    match kind {
        FatKind::Fat12 => {
            let len = n * 3 / 2 + 1;
            let mut out: Vec<u8> = Vec::new();
            let mut j: usize = 0;
            while j < len
                invariant
                    n == fat@.len() <= 0x1000_0000,
                    len == n * 3 / 2 + 1,
                    0 <= j <= len,
                    out@ =~= Seq::new(j as nat, |x: int| fat12_byte(fat@, x)),
                decreases len - j,
            {
                let t = j / 3;
                let e0: u32 = if 2 * t < n {
                    fat[2 * t] % 4096
                } else {
                    0
                };
                let e1: u32 = if 2 * t + 1 < n {
                    fat[2 * t + 1] % 4096
                } else {
                    0
                };
                let b: u8 = if j % 3 == 0 {
                    (e0 % 256) as u8
                } else if j % 3 == 1 {
                    (e0 / 256 + (e1 % 16) * 16) as u8
                } else {
                    (e1 / 16) as u8
                };
                out.push(b);
                j += 1;
            }
            out
        },
        FatKind::Fat16 => {
            let mut out: Vec<u8> = Vec::new();
            let mut i: usize = 0;
            while i < n
                invariant
                    n == fat@.len() <= 0x1000_0000,
                    0 <= i <= n,
                    out@ =~= Seq::new(i as nat * 2, |j: int| le16_bytes((fat@[j / 2] % 65536) as u16)[j % 2]),
                decreases n - i,
            {
                append_u16(&mut out, (fat[i] % 65536) as u16);
                i += 1;
            }
            out
        },
        FatKind::Fat32 => {
            let mut out: Vec<u8> = Vec::new();
            let mut i: usize = 0;
            while i < n
                invariant
                    n == fat@.len() <= 0x1000_0000,
                    0 <= i <= n,
                    out@ =~= Seq::new(i as nat * 4, |j: int| le32_bytes(fat@[j / 4])[j % 4]),
                decreases n - i,
            {
                append_u32(&mut out, fat[i]);
                i += 1;
            }
            out
        },
    }
}

// ── Boot sector and FSInfo ──────────────────────────────────────────────────

/// The volume label cut or space-padded to 11 bytes.
pub open spec fn label_field(label: Seq<u8>) -> Seq<u8> {
    Seq::new(11, |i: int| if i < label.len() { label[i] } else { 0x20u8 })
}

/// `n` zero bytes.
pub open spec fn zero_bytes(n: nat) -> Seq<u8> {
    Seq::new(n, |_i: int| 0u8)
}

/// The boot sector: jump, OEM name and BIOS parameter block, the FAT32 or
/// FAT12/16 extended block with serial number, label and type, and the
/// 0x55AA signature.
pub open spec fn boot_sector_spec(g: Geometry, label: Seq<u8>) -> Seq<u8> {
    let head = seq![0xEBu8, 0x58, 0x90, 0x4D, 0x53, 0x44, 0x4F, 0x53, 0x35, 0x2E, 0x30] + le16_bytes(512)
        + seq![g.spc as u8] + le16_bytes(g.reserved as u16) + seq![g.num_fats as u8];
    let tail = seq![0x80u8, 0x00, 0x29] + le32_bytes(0x0BAD_F00D) + label_field(label);
    if g.kind == FatKind::Fat32 {
        head + le16_bytes(0) + le16_bytes(0) + seq![0xF8u8] + le16_bytes(0) + le16_bytes(32) + le16_bytes(64)
            + le32_bytes(0) + le32_bytes(g.total_sectors as u32) + le32_bytes(g.fat_sectors) + le16_bytes(0)
            + le16_bytes(0) + le32_bytes(g.root_cluster) + le16_bytes(1) + le16_bytes(6) + zero_bytes(12) + tail
            + seq![0x46u8, 0x41, 0x54, 0x33, 0x32, 0x20, 0x20, 0x20] + zero_bytes(420) + seq![0x55u8, 0xAA]
    } else {
        head + le16_bytes(g.root_entries as u16) + le16_bytes(
            if g.total_sectors < 65_536 {
                g.total_sectors as u16
            } else {
                0
            },
        ) + seq![0xF8u8] + le16_bytes(g.fat_sectors as u16) + le16_bytes(32) + le16_bytes(64) + le32_bytes(0)
            + le32_bytes(
            if g.total_sectors >= 65_536 {
                g.total_sectors as u32
            } else {
                0
            },
        ) + tail + g.kind.label_spec().map_values(|c: char| c as u8) + zero_bytes(448) + seq![0x55u8, 0xAA]
    }
}

/// Appends a short run of literal bytes.
fn append_lit(v: &mut Vec<u8>, b: &[u8])
    ensures
        final(v)@ == old(v)@ + b@,
{
    append_bytes(v, b);
}

/// The volume label cut or space-padded to 11 bytes.
fn label_bytes(label: &[u8]) -> (l: Vec<u8>)
    ensures
        l@ == label_field(label@),
{
    let mut l: Vec<u8> = Vec::new();
    let mut i: usize = 0;
    while i < 11
        invariant
            0 <= i <= 11,
            l@ =~= label_field(label@).take(i as int),
        decreases 11 - i,
    {
        l.push(if i < label.len() {
            label[i]
        } else {
            0x20
        });
        i += 1;
    }
    assert(label_field(label@).take(11) =~= label_field(label@));
    l
}

/// The 512-byte boot sector of the volume.
pub fn boot_sector(geo: &Geometry, label: &[u8]) -> (b: Vec<u8>)
    requires
        geometry_ok(*geo),
    ensures
        b@ == boot_sector_spec(*geo, label@),
        b@.len() == 512,
{
    let mut b: Vec<u8> = Vec::new();
    append_lit(&mut b, &[0xEB, 0x58, 0x90, 0x4D, 0x53, 0x44, 0x4F, 0x53, 0x35, 0x2E, 0x30]);
    append_u16(&mut b, 512);
    b.push(geo.spc as u8);
    append_u16(&mut b, geo.reserved as u16);
    b.push(geo.num_fats as u8);
    let ghost head = b@;
    let mut tail: Vec<u8> = Vec::new();
    append_lit(&mut tail, &[0x80, 0x00, 0x29]);
    append_u32(&mut tail, 0x0BAD_F00D);
    let l = label_bytes(label);
    append_bytes(&mut tail, &l);
    if geo.kind == FatKind::Fat32 {
        append_u16(&mut b, 0);
        append_u16(&mut b, 0);
        b.push(0xF8);
        append_u16(&mut b, 0);
        append_u16(&mut b, 32);
        append_u16(&mut b, 64);
        append_u32(&mut b, 0);
        append_u32(&mut b, geo.total_sectors as u32);
        append_u32(&mut b, geo.fat_sectors);
        append_u16(&mut b, 0);
        append_u16(&mut b, 0);
        append_u32(&mut b, geo.root_cluster);
        append_u16(&mut b, 1);
        append_u16(&mut b, 6);
        append_zeros(&mut b, 12);
        append_bytes(&mut b, &tail);
        append_lit(&mut b, &[0x46, 0x41, 0x54, 0x33, 0x32, 0x20, 0x20, 0x20]);
        append_zeros(&mut b, 420);
        append_lit(&mut b, &[0x55, 0xAA]);
    } else {
        append_u16(&mut b, geo.root_entries as u16);
        let t16: u16 = if geo.total_sectors < 65_536 {
            geo.total_sectors as u16
        } else {
            0
        };
        append_u16(&mut b, t16);
        b.push(0xF8);
        append_u16(&mut b, geo.fat_sectors as u16);
        append_u16(&mut b, 32);
        append_u16(&mut b, 64);
        append_u32(&mut b, 0);
        let t32: u32 = if geo.total_sectors >= 65_536 {
            geo.total_sectors as u32
        } else {
            0
        };
        append_u32(&mut b, t32);
        append_bytes(&mut b, &tail);
        let fs = geo.kind.fs_label();
        let mut k: usize = 0;
        let ghost before = b@;
        let ghost lab = geo.kind.label_spec();
        while k < 8
            invariant
                lab == geo.kind.label_spec(),
                fs@ == lab,
                lab.len() == 8,
                0 <= k <= 8,
                b@ =~= before + lab.map_values(|c: char| c as u8).take(k as int),
            decreases 8 - k,
        {
            b.push(fs.get_char(k) as u8);
            k += 1;
        }
        assert(lab.map_values(|c: char| c as u8).take(8) =~= lab.map_values(|c: char| c as u8));
        append_zeros(&mut b, 448);
        append_lit(&mut b, &[0x55, 0xAA]);
    }
    assert(b@ =~= boot_sector_spec(*geo, label@));
    b
}

/// Free clusters recorded in FSInfo: the data clusters not below `next`.
pub open spec fn free_count(g: Geometry, next: nat) -> nat {
    let used: nat = if next >= g.root_cluster {
        (next - g.root_cluster) as nat
    } else {
        0
    };
    if g.total_clusters >= used {
        (g.total_clusters - used) as nat
    } else {
        0
    }
}

/// The FAT32 FSInfo sector: signatures, the free-cluster count and the
/// next-free hint.
pub open spec fn fsinfo_spec(g: Geometry, next: u32) -> Seq<u8> {
    seq![0x52u8, 0x52, 0x61, 0x41] + zero_bytes(480) + seq![0x72u8, 0x72, 0x41, 0x61] + le32_bytes(
        free_count(g, next as nat) as u32,
    ) + le32_bytes(next) + zero_bytes(14) + seq![0x55u8, 0xAA]
}

/// The 512-byte FAT32 FSInfo sector for `next` as the first free cluster.
pub fn fsinfo_sector(geo: &Geometry, next: u32) -> (b: Vec<u8>)
    requires
        geometry_ok(*geo),
    ensures
        b@ == fsinfo_spec(*geo, next),
        b@.len() == 512,
{
    let used: u32 = if next >= geo.root_cluster {
        next - geo.root_cluster
    } else {
        0
    };
    let free: u32 = if geo.total_clusters >= used {
        geo.total_clusters - used
    } else {
        0
    };
    let mut b: Vec<u8> = Vec::new();
    append_lit(&mut b, &[0x52, 0x52, 0x61, 0x41]);
    append_zeros(&mut b, 480);
    append_lit(&mut b, &[0x72, 0x72, 0x41, 0x61]);
    append_u32(&mut b, free);
    append_u32(&mut b, next);
    append_zeros(&mut b, 14);
    append_lit(&mut b, &[0x55, 0xAA]);
    assert(b@ =~= fsinfo_spec(*geo, next));
    b
}

// ── Chains ──────────────────────────────────────────────────────────────────

/// The clusters of a chain starting at `first`.
pub fn cluster_chain(first: u32, len: u32) -> (c: Vec<u32>)
    requires
        first + len <= u32::MAX,
    ensures
        c@ == Seq::new(len as nat, |k: int| (first + k) as u32),
{
    let mut c: Vec<u32> = Vec::new();
    let mut k: u32 = 0;
    while k < len
        invariant
            first + len <= u32::MAX,
            0 <= k <= len,
            c@ =~= Seq::new(k as nat, |x: int| (first + x) as u32),
        decreases len - k,
    {
        c.push(first + k);
        k += 1;
    }
    c
}

// ── The volume plan ─────────────────────────────────────────────────────────

/// Bytes to write at an offset of the volume.
pub struct DiskWrite {
    pub offset: u64,
    pub bytes: Vec<u8>,
}

/// One cluster of a file: `len` bytes read from `file_offset` of the file
/// of node `node` go to `disk_offset`, the rest of the cluster is zero.
#[derive(Debug, Clone, Copy, PartialEq, Eq, Structural)]
pub struct FilePiece {
    pub node: usize,
    pub disk_offset: u64,
    pub file_offset: u64,
    pub len: u64,
}

/// A write as offset and bytes.
pub open spec fn write_view(w: DiskWrite) -> (u64, Seq<u8>) {
    (w.offset, w.bytes@)
}

/// Writes as offsets and bytes.
pub open spec fn writes_view(ws: Seq<DiskWrite>) -> Seq<(u64, Seq<u8>)> {
    ws.map_values(|w: DiskWrite| write_view(w))
}

/// Byte offset of data cluster `c`.
pub open spec fn cluster_offset_spec(g: Geometry, c: nat) -> u64 {
    (g.data_start + (c - 2) * (g.spc * 512)) as u64
}

/// The writes of `bytes` over the chain `first..first + len`, one cluster
/// each, zero-filled at the end.
pub open spec fn cluster_writes_spec(g: Geometry, first: nat, len: nat, bytes: Seq<u8>) -> Seq<(u64, Seq<u8>)> {
    let cb = g.spc * 512;
    Seq::new(
        len,
        |k: int|
            (
                cluster_offset_spec(g, (first + k) as nat),
                Seq::new(cb as nat, |b: int| if k * cb + b < bytes.len() { bytes[k * cb + b] } else { 0u8 }),
            ),
    )
}

/// Appends the writes of `bytes` across the chain `first..first + len`.
pub fn cluster_writes(geo: &Geometry, first: u32, len: u32, bytes: &[u8], out: &mut Vec<DiskWrite>)
    requires
        geometry_ok(*geo),
        first >= 2,
        first + len <= geo.total_clusters + 2,
        len == 0 || (len - 1) * (geo.spc * 512) <= bytes@.len() <= len * (geo.spc * 512),
    ensures
        writes_view(final(out)@) == writes_view(old(out)@) + cluster_writes_spec(*geo, first as nat, len as nat, bytes@),
{
    let cb = geo.cluster_bytes();
    let blen: usize = bytes.len();
    let ghost spec_w = cluster_writes_spec(*geo, first as nat, len as nat, bytes@);
    let mut k: u32 = 0;
    while k < len
        invariant
            geometry_ok(*geo),
            first >= 2,
            first + len <= geo.total_clusters + 2,
            len == 0 || (len - 1) * (geo.spc * 512) <= bytes@.len() <= len * (geo.spc * 512),
            cb == geo.spc * 512,
            blen == bytes@.len(),
            spec_w == cluster_writes_spec(*geo, first as nat, len as nat, bytes@),
            0 <= k <= len,
            writes_view(out@) == writes_view(old(out)@) + spec_w.take(k as int),
        decreases len - k,
    {
        let offset = geo.cluster_offset(first + k);
        assert(k * cb <= bytes@.len()) by (nonlinear_arith)
            requires
                k < len,
                (len - 1) * cb <= bytes@.len(),
        ;
        assert(cb <= 65536);
        let kk: usize = k as usize;
        let cbu: usize = cb as usize;
        assert(kk * cbu <= bytes@.len());
        let start: usize = kk * cbu;
        let mut buf = zeros(cb as usize);
        let mut b: usize = 0;
        while b < cb as usize
            invariant
                start == k * cb,
                start <= bytes@.len(),
                cb <= 65536,
                0 <= b <= cb,
                buf@.len() == cb,
                forall|x: int| 0 <= x < cb ==> #[trigger] buf@[x] == if x < b && start + x < bytes@.len() {
                    bytes@[start + x]
                } else {
                    0u8
                },
            decreases cb - b,
        {
            if b < bytes.len() - start {
                buf.set(b, bytes[start + b]);
            }
            b += 1;
        }
        let ghost before = writes_view(out@);
        out.push(DiskWrite { offset, bytes: buf });
        proof {
            assert(spec_w[k as int].0 == offset);
            assert(spec_w[k as int].1 =~= buf@);
            assert(writes_view(out@) =~= before.push(spec_w[k as int]));
            assert(spec_w.take(k + 1) =~= spec_w.take(k as int).push(spec_w[k as int]));
        }
        k += 1;
    }
    assert(spec_w.take(len as int) =~= spec_w);
}

/// Every chained directory's entry stream fills its chain, with the last
/// cluster in use, inside the data clusters.
pub open spec fn dirs_placed(nodes: Seq<FatNode>, g: Geometry, label: Seq<u8>) -> bool {
    forall|i: int|
        0 <= i < nodes.len() && nodes[i].is_dir && (i != 0 || g.kind == FatKind::Fat32) ==> {
            let n = #[trigger] nodes[i];
            let cb = g.spc * 512;
            let blen = dir_bytes_spec(nodes, i, label).len();
            &&& n.chain_len >= 1
            &&& n.first_cluster >= 2
            &&& n.first_cluster + n.chain_len <= g.total_clusters + 2
            &&& (n.chain_len - 1) * cb <= blen <= n.chain_len * cb
        }
}

/// Every chained directory's clusters are linked in `fat`, one to the next,
/// the last holding the end-of-chain marker.
pub open spec fn dirs_linked(nodes: Seq<FatNode>, g: Geometry, fat: Seq<u32>) -> bool {
    forall|i: int|
        0 <= i < nodes.len() && nodes[i].is_dir && (i != 0 || g.kind == FatKind::Fat32) ==> run_linked(
            fat,
            (#[trigger] nodes[i]).first_cluster as nat,
            nodes[i].chain_len as nat,
            g.kind.eoc_spec(),
        )
}

/// The directory structure of a FAT32 volume: the root chain starts at
/// cluster 2 and begins with the volume-label entry; every other directory
/// begins with `.` (its own first cluster) and `..` (its parent's, 0 for the
/// root); every directory chain is linked cluster to cluster and ends in the
/// end-of-chain marker `0x0FFFFFFF`.
pub open spec fn fat32_dirs_ok(nodes: Seq<FatNode>, label: Seq<u8>, fat: Seq<u32>) -> bool {
    &&& nodes[0].first_cluster == 2
    &&& dir_bytes_spec(nodes, 0, label).take(32) == label_record(label)
    &&& forall|i: int|
        1 <= i < nodes.len() && nodes[i].is_dir ==> #[trigger] dir_bytes_spec(nodes, i, label).take(64)
            == dot_entry_spec(nodes[i].first_cluster, true) + dot_entry_spec(parent_cluster(nodes, i), false)
    &&& forall|i: int|
        0 <= i < nodes.len() && nodes[i].is_dir ==> run_linked(
            fat,
            (#[trigger] nodes[i]).first_cluster as nat,
            nodes[i].chain_len as nat,
            0x0FFF_FFFF,
        )
}

/// Every file's chain lies inside the data clusters.
pub open spec fn files_placed(nodes: Seq<FatNode>, g: Geometry) -> bool {
    forall|i: int|
        0 <= i < nodes.len() && !nodes[i].is_dir && #[trigger] nodes[i].chain_len > 0 ==> nodes[i].first_cluster >= 2
            && nodes[i].first_cluster + nodes[i].chain_len <= g.total_clusters + 2
}

/// The writes of every directory chain, in tree order (the FAT12/16 root,
/// which has a fixed region, excluded).
pub open spec fn dir_writes(nodes: Seq<FatNode>, g: Geometry, label: Seq<u8>, k: nat) -> Seq<(u64, Seq<u8>)>
    decreases k,
{
    if k == 0 {
        Seq::empty()
    } else {
        let rest = dir_writes(nodes, g, label, (k - 1) as nat);
        let i = k - 1;
        let n = nodes[i];
        if n.is_dir && (i != 0 || g.kind == FatKind::Fat32) {
            rest + cluster_writes_spec(g, n.first_cluster as nat, n.chain_len as nat, dir_bytes_spec(nodes, i, label))
        } else {
            rest
        }
    }
}

/// Appends the writes of every directory chain.
fn emit_dir_writes(nodes: &[FatNode], geo: &Geometry, label: &[u8], writes: &mut Vec<DiskWrite>)
    requires
        tree_wf(nodes@),
        geometry_ok(*geo),
        dirs_placed(nodes@, *geo, label@),
    ensures
        writes_view(final(writes)@) == writes_view(old(writes)@) + dir_writes(nodes@, *geo, label@, nodes@.len()),
{
    let fat32 = geo.kind == FatKind::Fat32;
    let mut i: usize = 0;
    while i < nodes.len()
        invariant
            tree_wf(nodes@),
            geometry_ok(*geo),
            dirs_placed(nodes@, *geo, label@),
            fat32 == (geo.kind == FatKind::Fat32),
            0 <= i <= nodes@.len(),
            writes_view(writes@) == writes_view(old(writes)@) + dir_writes(nodes@, *geo, label@, i as nat),
        decreases nodes@.len() - i,
    {
        let ghost before = writes_view(writes@);
        if nodes[i].is_dir && (i != 0 || fat32) {
            let bytes = dir_bytes(nodes, i, label);
            assert(nodes@[i as int].chain_len >= 1);
            cluster_writes(geo, nodes[i].first_cluster, nodes[i].chain_len, &bytes, writes);
            assert(writes_view(writes@) =~= writes_view(old(writes)@) + dir_writes(nodes@, *geo, label@, (i + 1) as nat));
        }
        i += 1;
    }
}

/// Bytes of the file in cluster `k` of its chain.
pub open spec fn piece_len(size: nat, cb: nat, k: nat) -> nat {
    if size >= k * cb + cb {
        cb
    } else if size >= k * cb {
        (size - k * cb) as nat
    } else {
        0
    }
}

/// The clusters of file node `i`.
pub open spec fn node_pieces(g: Geometry, i: int, n: FatNode) -> Seq<FilePiece> {
    let cb = g.spc * 512;
    Seq::new(
        n.chain_len as nat,
        |k: int|
            FilePiece {
                node: i as usize,
                disk_offset: cluster_offset_spec(g, (n.first_cluster + k) as nat),
                file_offset: (k * cb) as u64,
                len: piece_len(n.size as nat, cb as nat, k as nat) as u64,
            },
    )
}

/// The clusters of the files among the first `k` nodes.
pub open spec fn file_pieces(nodes: Seq<FatNode>, g: Geometry, k: nat) -> Seq<FilePiece>
    decreases k,
{
    if k == 0 {
        Seq::empty()
    } else {
        let rest = file_pieces(nodes, g, (k - 1) as nat);
        let n = nodes[k - 1];
        if n.is_dir {
            rest
        } else {
            rest + node_pieces(g, k - 1, n)
        }
    }
}

/// The file data of every file, cluster by cluster.
fn emit_file_pieces(nodes: &[FatNode], geo: &Geometry) -> (out: Vec<FilePiece>)
    requires
        geometry_ok(*geo),
        files_placed(nodes@, *geo),
    ensures
        out@ == file_pieces(nodes@, *geo, nodes@.len()),
{
    let cb = geo.cluster_bytes();
    let mut out: Vec<FilePiece> = Vec::new();
    let mut i: usize = 0;
    while i < nodes.len()
        invariant
            geometry_ok(*geo),
            files_placed(nodes@, *geo),
            cb == geo.spc * 512,
            0 <= i <= nodes@.len(),
            out@ == file_pieces(nodes@, *geo, i as nat),
        decreases nodes@.len() - i,
    {
        if !nodes[i].is_dir {
            let first = nodes[i].first_cluster;
            let len = nodes[i].chain_len;
            let size = nodes[i].size;
            let ghost before = out@;
            let ghost want = node_pieces(*geo, i as int, nodes@[i as int]);
            let mut k: u32 = 0;
            while k < len
                invariant
                    geometry_ok(*geo),
                    cb == geo.spc * 512,
                    len > 0 ==> first >= 2 && first + len <= geo.total_clusters + 2,
                    want == node_pieces(*geo, i as int, nodes@[i as int]),
                    first == nodes@[i as int].first_cluster,
                    len == nodes@[i as int].chain_len,
                    size == nodes@[i as int].size,
                    0 <= k <= len,
                    out@ == before + want.take(k as int),
                decreases len - k,
            {
                let disk = geo.cluster_offset(first + k);
                assert(k * cb <= 0xFFFF_FFFFu64 * 65536) by (nonlinear_arith)
                    requires
                        k <= 0xFFFF_FFFFu64,
                        cb <= 65536,
                ;
                let off: u64 = k as u64 * cb;
                let n: u64 = if size >= off && size - off >= cb {
                    cb
                } else if size >= off {
                    size - off
                } else {
                    0
                };
                out.push(FilePiece { node: i, disk_offset: disk, file_offset: off, len: n });
                proof {
                    assert(want[k as int] == FilePiece { node: i, disk_offset: disk, file_offset: off, len: n });
                    assert(want.take(k + 1) =~= want.take(k as int).push(want[k as int]));
                }
                k += 1;
            }
            assert(want.take(len as int) =~= want);
        }
        i += 1;
    }
    out
}

/// The FSInfo, boot and backup boot writes.
pub open spec fn head_writes(g: Geometry, label: Seq<u8>, next: u32) -> Seq<(u64, Seq<u8>)> {
    let boot = boot_sector_spec(g, label);
    if g.kind == FatKind::Fat32 {
        seq![(0u64, boot), (512u64, fsinfo_spec(g, next)), (3072u64, boot)]
    } else {
        seq![(0u64, boot)]
    }
}

/// The fixed root region of FAT12/16, zero-filled.
pub open spec fn root_writes(nodes: Seq<FatNode>, g: Geometry, label: Seq<u8>) -> Seq<(u64, Seq<u8>)> {
    if g.kind == FatKind::Fat32 {
        Seq::empty()
    } else {
        let bytes = dir_bytes_spec(nodes, 0, label);
        seq![((g.data_start - g.root_sectors * 512) as u64, bytes + zero_bytes((g.root_sectors * 512 - bytes.len()) as nat))]
    }
}

/// Byte offset of FAT `n`.
pub open spec fn fat_offset_spec(g: Geometry, n: nat) -> u64 {
    ((g.reserved + g.fat_sectors * n) * 512) as u64
}

/// Both copies of the packed FAT.
pub open spec fn fat_writes(g: Geometry, fat: Seq<u32>) -> Seq<(u64, Seq<u8>)> {
    let p = pack_fat_spec(fat, g.kind);
    seq![(fat_offset_spec(g, 0), p), (fat_offset_spec(g, 1), p)]
}

/// Every metadata write of the volume, in order.
pub open spec fn plan_writes(nodes: Seq<FatNode>, g: Geometry, label: Seq<u8>, fat: Seq<u32>, next: u32) -> Seq<(u64, Seq<u8>)> {
    head_writes(g, label, next) + root_writes(nodes, g, label) + dir_writes(nodes, g, label, nodes.len()) + fat_writes(g, fat)
}

/// The nodes once the directory chain lengths are set.
pub open spec fn chained(nodes: Seq<FatNode>, g: Geometry, label: Seq<u8>) -> Seq<FatNode> {
    with_dir_chains(nodes, g, label)
}

/// The allocation the plan makes.
pub open spec fn plan_alloc(nodes: Seq<FatNode>, g: Geometry, label: Seq<u8>) -> AllocState {
    let n1 = chained(nodes, g, label);
    alloc_result(n1, g, alloc_steps_spec(n1, g))
}

/// The nodes once every chain is placed.
pub open spec fn placed(nodes: Seq<FatNode>, g: Geometry, label: Seq<u8>) -> Seq<FatNode> {
    allocated(chained(nodes, g, label), plan_alloc(nodes, g, label))
}

/// Everything fits the volume.
pub open spec fn plan_fits(nodes: Seq<FatNode>, g: Geometry, label: Seq<u8>) -> bool {
    let n1 = chained(nodes, g, label);
    dirs_fit(nodes, g, label) && alloc_fits(n1, g, alloc_steps_spec(n1, g))
}

/// The FAT12/16 root directory does not fit its fixed region.
pub open spec fn root_overflows(nodes: Seq<FatNode>, g: Geometry, label: Seq<u8>) -> bool {
    g.kind != FatKind::Fat32 && dir_bytes_spec(placed(nodes, g, label), 0, label).len() > g.root_sectors * 512
}

proof fn lemma_tree_wf_frame(a: Seq<FatNode>, b: Seq<FatNode>)
    requires
        tree_wf(a),
        a.len() == b.len(),
        forall|j: int| 0 <= j < a.len() ==> (#[trigger] b[j]).is_dir == a[j].is_dir && b[j].children == a[j].children && b[j].parent == a[j].parent,
    ensures
        tree_wf(b),
{
    assert forall|i: int, j: int| 0 <= i < b.len() && 0 <= j < b[i].children@.len() implies i < #[trigger] b[i].children@[j] < b.len() by {
        assert(b[i].children == a[i].children);
    }
    assert forall|i: int| 0 <= i < b.len() implies #[trigger] b[i].parent < b.len() by {
        assert(b[i].parent == a[i].parent);
    }
    assert forall|i: int| 1 <= i < b.len() implies #[trigger] b[i].parent < i && b[b[i].parent as int].children@.contains(i as usize) by {
        assert(b[i].parent == a[i].parent);
        assert(b[a[i].parent as int].children == a[a[i].parent as int].children);
    }
}

/// After the allocation every directory fills its chain and every chain
/// lies in the data clusters.
proof fn lemma_plan_placed(n0: Seq<FatNode>, g: Geometry, label: Seq<u8>)
    requires
        tree_wf(n0),
        geometry_ok(g),
        n0[0].first_cluster == g.root_cluster,
        plan_fits(n0, g, label),
        runs_ok(plan_alloc(n0, g, label), |i: int| touched(g, alloc_steps_spec(chained(n0, g, label), g), i), g.kind.eoc_spec()),
    ensures
        tree_wf(placed(n0, g, label)),
        dirs_placed(placed(n0, g, label), g, label),
        files_placed(placed(n0, g, label), g),
{
    let n1 = chained(n0, g, label);
    let steps = alloc_steps_spec(n1, g);
    let eoc = g.kind.eoc_spec();
    let init = alloc_init(n1, g);
    let s = alloc_fold(init, steps, eoc);
    let n2 = placed(n0, g, label);
    lemma_tree_wf_frame(n0, n1);
    lemma_tree_wf_frame(n1, n2);
    assert(same_entries(n0, n2)) by {
        assert forall|j: int| 0 <= j < n0.len() implies (#[trigger] n0[j]).name == n2[j].name && n0[j].short == n2[j].short
            && n0[j].needs_lfn == n2[j].needs_lfn && n0[j].children == n2[j].children by {
            assert(n2[j] == FatNode { first_cluster: s.first[j], chain_len: s.lens[j], ..n1[j] });
        }
    }
    assert(forall|k: int| 0 <= k < steps.len() ==> (#[trigger] steps[k]).0 < n1.len()) by {
        lemma_steps_in_range(n1, g);
    }
    lemma_fold_next(init, steps, eoc);
    lemma_dir_steps_keep_len(n1, g);
    assert(init.lens =~= n1.map_values(|n: FatNode| n.chain_len));
    lemma_fold_keeps_dir_lens(n1, init, steps, eoc);
    let cb = g.spc * 512;
    assert forall|i: int| 0 <= i < n2.len() && n2[i].is_dir && (i != 0 || g.kind == FatKind::Fat32) implies {
        let n = #[trigger] n2[i];
        let blen = dir_bytes_spec(n2, i, label).len();
        &&& n.chain_len >= 1
        &&& n.first_cluster >= 2
        &&& n.first_cluster + n.chain_len <= g.total_clusters + 2
        &&& (n.chain_len - 1) * cb <= blen <= n.chain_len * cb
    } by {
        lemma_dir_len_frame(n0, n2, i, label);
        let blen = dir_bytes_spec(n0, i, label).len();
        assert(blen >= 32);
        lemma_ceil_div_bounds(blen, cb as nat);
        assert(dir_chain_len(n0, i, g, label) <= g.total_clusters);
        assert(n1[i].chain_len as nat == dir_chain_len(n0, i, g, label));
        assert(s.lens[i] == n1[i].chain_len);
        if i >= 1 {
            lemma_every_node_touched(n1, g, i);
        }
        assert(touched(g, steps, i));
    }
    assert forall|i: int| 0 <= i < n2.len() && !n2[i].is_dir && #[trigger] n2[i].chain_len > 0 implies n2[i].first_cluster >= 2
        && n2[i].first_cluster + n2[i].chain_len <= g.total_clusters + 2 by {
        lemma_every_file_touched(n1, g, i);
    }
}

/// Everything [`plan_volume`] lays out.
pub struct VolumePlan {
    /// The metadata writes: boot sector (with FSInfo and backup boot sector
    /// for FAT32), the FAT12/16 root region, every directory chain, then
    /// both FATs.
    pub writes: Vec<DiskWrite>,
    /// The file data, cluster by cluster.
    pub pieces: Vec<FilePiece>,
    /// Bytes per cluster.
    pub cluster_bytes: u64,
    /// Data clusters of the volume.
    pub total_clusters: u32,
}

proof fn lemma_nodes_placed(n0: Seq<FatNode>, n1: Seq<FatNode>, n2: Seq<FatNode>, g: Geometry, label: Seq<u8>)
    requires
        n1 == chained(n0, g, label),
        n2.len() == n1.len(),
        forall|i: int|
            0 <= i < n1.len() ==> (#[trigger] n2[i]).first_cluster == plan_alloc(n0, g, label).first[i]
                && n2[i].chain_len == plan_alloc(n0, g, label).lens[i] && same_but_alloc(n2[i], n1[i]),
    ensures
        n2 == placed(n0, g, label),
{
    let s = plan_alloc(n0, g, label);
    let p = placed(n0, g, label);
    assert forall|i: int| 0 <= i < n2.len() implies n2[i] == p[i] by {
        assert(p[i] == FatNode { first_cluster: s.first[i], chain_len: s.lens[i], ..n1[i] });
    }
    assert(n2 =~= p);
}

proof fn lemma_place_post(n0: Seq<FatNode>, n1: Seq<FatNode>, n2: Seq<FatNode>, g: Geometry, label: Seq<u8>, steps: Seq<(usize, u64)>)
    requires
        tree_wf(n0),
        geometry_ok(g),
        n0[0].first_cluster == g.root_cluster,
        n1 == chained(n0, g, label),
        steps == alloc_steps_spec(n1, g),
        dirs_fit(n0, g, label),
        alloc_fits(n1, g, steps),
        n2 == placed(n0, g, label),
        runs_ok(alloc_result(n1, g, steps), |i: int| touched(g, steps, i), g.kind.eoc_spec()),
    ensures
        plan_fits(n0, g, label),
        tree_wf(n2),
        dirs_placed(n2, g, label),
        files_placed(n2, g),
        alloc_result(n1, g, steps).fat.len() == g.total_clusters + 2,
{
    lemma_tree_wf_frame(n0, n1);
    lemma_steps_in_range(n1, g);
    lemma_plan_placed(n0, g, label);
    lemma_fold_next(alloc_init(n1, g), steps, g.kind.eoc_spec());
}

/// After the allocation every directory chain is linked and the root keeps
/// its first cluster.
proof fn lemma_place_linked(n1: Seq<FatNode>, n2: Seq<FatNode>, g: Geometry, label: Seq<u8>, steps: Seq<(usize, u64)>)
    requires
        tree_wf(n1),
        steps == alloc_steps_spec(n1, g),
        forall|k: int| 0 <= k < steps.len() ==> (#[trigger] steps[k]).0 < n1.len(),
        n2.len() == n1.len(),
        forall|i: int|
            0 <= i < n1.len() ==> (#[trigger] n2[i]).first_cluster == alloc_result(n1, g, steps).first[i]
                && n2[i].chain_len == alloc_result(n1, g, steps).lens[i],
        runs_ok(alloc_result(n1, g, steps), |i: int| touched(g, steps, i), g.kind.eoc_spec()),
        dirs_placed(n2, g, label),
    ensures
        dirs_linked(n2, g, alloc_result(n1, g, steps).fat),
        n2[0].first_cluster == n1[0].first_cluster,
{
    let st = alloc_result(n1, g, steps);
    lemma_fold_next(alloc_init(n1, g), steps, g.kind.eoc_spec());
    assert(st.lens.len() == n1.len());
    assert forall|i: int| 0 <= i < n2.len() && n2[i].is_dir && (i != 0 || g.kind == FatKind::Fat32)
        implies run_linked(st.fat, (#[trigger] n2[i]).first_cluster as nat, n2[i].chain_len as nat, g.kind.eoc_spec()) by {
        if i >= 1 {
            lemma_every_node_touched(n1, g, i);
        }
        assert(touched(g, steps, i));
        assert(st.lens[i] > 0);
        let t = |j: int| touched(g, steps, j);
        assert(t(i));
        assert(2 <= st.first[i]);
    }
    lemma_steps_skip_root(n1, g);
    lemma_fold_keeps_first(alloc_init(n1, g), steps, g.kind.eoc_spec(), 0);
    assert(n2[0].first_cluster == st.first[0]);
}

/// Sets the chain lengths and hands out the clusters; `None` when the
/// chains need more clusters than the volume has.
fn place_chains(nodes: &mut Vec<FatNode>, geo: &Geometry, label: &[u8]) -> (r: Option<(Vec<u32>, u32)>)
    requires
        tree_wf(old(nodes)@),
        geometry_ok(*geo),
        old(nodes)@[0].first_cluster == geo.root_cluster,
    ensures
        r is None <==> !plan_fits(old(nodes)@, *geo, label@),
        r matches Some((fat, next)) ==> {
            &&& final(nodes)@ == placed(old(nodes)@, *geo, label@)
            &&& fat@ == plan_alloc(old(nodes)@, *geo, label@).fat
            &&& next as nat == plan_alloc(old(nodes)@, *geo, label@).next
            &&& fat@.len() == geo.total_clusters + 2
            &&& tree_wf(final(nodes)@)
            &&& dirs_placed(final(nodes)@, *geo, label@)
            &&& files_placed(final(nodes)@, *geo)
            &&& dirs_linked(final(nodes)@, *geo, fat@)
            &&& final(nodes)@[0].first_cluster == geo.root_cluster
        },
{
    let ghost n0 = nodes@;
    let ghost g = *geo;
    if !set_dir_chain_lengths(nodes, geo, label) {
        return None;
    }
    let ghost n1 = nodes@;
    assert(n1 == chained(n0, g, label@));
    proof {
        lemma_tree_wf_frame(n0, n1);
        lemma_steps_in_range(n1, g);
    }
    let steps = allocation_steps(nodes, geo);
    if !steps_fit(nodes, geo, &steps) {
        return None;
    }
    let (fat, next) = allocate(nodes, geo, &steps);
    proof {
        lemma_nodes_placed(n0, n1, nodes@, g, label@);
        lemma_place_post(n0, n1, nodes@, g, label@, steps@);
        lemma_place_linked(n1, nodes@, g, label@, steps@);
    }
    Some((fat, next))
}

/// Computes the writes and file clusters of a volume whose chains are placed.
fn layout_volume(nodes: &[FatNode], geo: &Geometry, label: &[u8], fat: &[u32], next: u32) -> (r: Result<VolumePlan, FatError>)
    requires
        tree_wf(nodes@),
        geometry_ok(*geo),
        dirs_placed(nodes@, *geo, label@),
        files_placed(nodes@, *geo),
        fat@.len() == geo.total_clusters + 2,
    ensures
        r is Err <==> geo.kind != FatKind::Fat32 && dir_bytes_spec(nodes@, 0, label@).len() > geo.root_sectors * 512,
        r matches Err(e) ==> e == FatError::RootDirTooLarge,
        r matches Ok(p) ==> {
            &&& writes_view(p.writes@) == plan_writes(nodes@, *geo, label@, fat@, next)
            &&& p.pieces@ == file_pieces(nodes@, *geo, nodes@.len())
            &&& p.cluster_bytes == geo.spc * 512
            &&& p.total_clusters == geo.total_clusters
        },
{
    let ghost g = *geo;
    let mut writes: Vec<DiskWrite> = Vec::new();
    writes.push(DiskWrite { offset: 0, bytes: boot_sector(geo, label) });
    if geo.kind == FatKind::Fat32 {
        writes.push(DiskWrite { offset: 512, bytes: fsinfo_sector(geo, next) });
        writes.push(DiskWrite { offset: 3072, bytes: boot_sector(geo, label) });
    } else {
        let root = dir_bytes(nodes, 0, label);
        let cap: u64 = geo.root_sectors * 512;
        if root.len() as u64 > cap {
            return Err(FatError::RootDirTooLarge);
        }
        let pad: usize = cap as usize - root.len();
        let mut buf = root;
        append_zeros(&mut buf, pad);
        writes.push(DiskWrite { offset: geo.root_offset(), bytes: buf });
    }
    assert(writes_view(writes@) =~= head_writes(g, label@, next) + root_writes(nodes@, g, label@));
    emit_dir_writes(nodes, geo, label, &mut writes);
    let pieces = emit_file_pieces(nodes, geo);
    let packed = pack_fat(fat, geo.kind);
    let packed2 = pack_fat(fat, geo.kind);
    let ghost before = writes_view(writes@);
    writes.push(DiskWrite { offset: geo.fat_offset(0), bytes: packed });
    writes.push(DiskWrite { offset: geo.fat_offset(1), bytes: packed2 });
    assert(writes_view(writes@) =~= before + fat_writes(g, fat@));
    Ok(VolumePlan { writes, pieces, cluster_bytes: geo.cluster_bytes(), total_clusters: geo.total_clusters })
}

/// Lays out a FAT volume holding the tree `nodes` (root at index 0, made by
/// [`crate::fat_dir::root_node`] with the root cluster): sets each chain
/// length, hands out the clusters (the FAT32 root at cluster 2, the other
/// directories in post-order, then the files), and computes every metadata
/// write and where each file cluster goes.
///
/// `VolumeFull` when the chains need more clusters than the volume has;
/// `RootDirTooLarge` when the FAT12/16 root directory overflows its fixed
/// region.
pub fn plan_volume(nodes: &mut Vec<FatNode>, geo: &Geometry, label: &[u8]) -> (r: Result<VolumePlan, FatError>)
    requires
        tree_wf(old(nodes)@),
        geometry_ok(*geo),
        old(nodes)@[0].first_cluster == geo.root_cluster,
    ensures
        !plan_fits(old(nodes)@, *geo, label@) <==> r == Err::<VolumePlan, FatError>(FatError::VolumeFull),
        plan_fits(old(nodes)@, *geo, label@) ==> final(nodes)@ == placed(old(nodes)@, *geo, label@),
        r matches Err(FatError::RootDirTooLarge) <==> plan_fits(old(nodes)@, *geo, label@) && root_overflows(
            old(nodes)@,
            *geo,
            label@,
        ),
        r matches Ok(p) ==> {
            &&& writes_view(p.writes@) == plan_writes(
                placed(old(nodes)@, *geo, label@),
                *geo,
                label@,
                plan_alloc(old(nodes)@, *geo, label@).fat,
                plan_alloc(old(nodes)@, *geo, label@).next as u32,
            )
            &&& p.pieces@ == file_pieces(placed(old(nodes)@, *geo, label@), *geo, old(nodes)@.len())
            &&& p.cluster_bytes == geo.spc * 512
            &&& p.total_clusters == geo.total_clusters
            &&& dirs_linked(placed(old(nodes)@, *geo, label@), *geo, plan_alloc(old(nodes)@, *geo, label@).fat)
            &&& placed(old(nodes)@, *geo, label@)[0].first_cluster == geo.root_cluster
            &&& geo.kind == FatKind::Fat32 ==> fat32_dirs_ok(
                placed(old(nodes)@, *geo, label@),
                label@,
                plan_alloc(old(nodes)@, *geo, label@).fat,
            )
        },
        r matches Err(e) ==> e == FatError::VolumeFull || e == FatError::RootDirTooLarge,
{
    match place_chains(nodes, geo, label) {
        None => Err(FatError::VolumeFull),
        Some((fat, next)) => {
            proof {
                if geo.kind == FatKind::Fat32 {
                    lemma_fat32_dirs(nodes@, *geo, label@, fat@);
                }
            }
            layout_volume(nodes, geo, label, &fat, next)
        },
    }
}

/// A FAT32 tree whose root sits at cluster 2 and whose directory chains are
/// linked has the FAT32 directory structure.
proof fn lemma_fat32_dirs(nodes: Seq<FatNode>, g: Geometry, label: Seq<u8>, fat: Seq<u32>)
    requires
        nodes.len() >= 1,
        g.kind == FatKind::Fat32,
        nodes[0].first_cluster == 2,
        dirs_linked(nodes, g, fat),
    ensures
        fat32_dirs_ok(nodes, label, fat),
{
    lemma_dir_heads(nodes, label, 0);
    assert forall|i: int| 1 <= i < nodes.len() && nodes[i].is_dir implies #[trigger] dir_bytes_spec(nodes, i, label).take(64)
        == dot_entry_spec(nodes[i].first_cluster, true) + dot_entry_spec(parent_cluster(nodes, i), false) by {
        lemma_dir_heads(nodes, label, i);
    }
}

} // verus!
