//! FAT12/16/32 volume layout.
//!
//! [`geometry`] picks the FAT type and cluster size for a volume; the rest of
//! this module computes every metadata byte of the volume: the boot sector,
//! FSInfo, the directory entry streams (with VFAT long names), the cluster
//! allocation and the packed FAT. Reading the source tree and writing the
//! image file are left to the caller.
use vstd::prelude::*;
use vstd::arithmetic::div_mod::{lemma_div_is_ordered, lemma_div_plus_one};
use vstd::arithmetic::mul::lemma_mul_inequality;

verus! {

/// Bytes per sector.
pub const BYTES_PER_SECTOR: u64 = 512;

/// The three FAT variants.
#[derive(Debug, Clone, Copy, PartialEq, Eq, Structural)]
pub enum FatKind {
    Fat12,
    Fat16,
    Fat32,
}

impl FatKind {
    /// Width of one FAT entry in bits.
    pub open spec fn bits_spec(self) -> nat {
        match self {
            FatKind::Fat12 => 12,
            FatKind::Fat16 => 16,
            FatKind::Fat32 => 32,
        }
    }

    /// The end-of-chain marker.
    pub open spec fn eoc_spec(self) -> u32 {
        match self {
            FatKind::Fat12 => 0xFFF,
            FatKind::Fat16 => 0xFFFF,
            FatKind::Fat32 => 0x0FFF_FFFF,
        }
    }

    /// The filesystem-type label of the boot sector.
    pub open spec fn label_spec(self) -> Seq<char> {
        match self {
            FatKind::Fat12 => seq!['F', 'A', 'T', '1', '2', ' ', ' ', ' '],
            FatKind::Fat16 => seq!['F', 'A', 'T', '1', '6', ' ', ' ', ' '],
            FatKind::Fat32 => seq!['F', 'A', 'T', '3', '2', ' ', ' ', ' '],
        }
    }

    /// The value of FAT entry 0 (media byte 0xF8 in the low bits).
    pub open spec fn media_entry_spec(self) -> u32 {
        match self {
            FatKind::Fat12 => 0xFF8,
            FatKind::Fat16 => 0xFFF8,
            FatKind::Fat32 => 0x0FFF_FFF8,
        }
    }

    /// The filesystem-type label written into the boot sector.
    pub fn fs_label(self) -> (r: &'static str)
        ensures
            r@ == self.label_spec(),
    {
        match self {
            FatKind::Fat12 => {
                let s = "FAT12   ";
                proof {
                    reveal_strlit("FAT12   ");
                }
                s
            },
            FatKind::Fat16 => {
                let s = "FAT16   ";
                proof {
                    reveal_strlit("FAT16   ");
                }
                s
            },
            FatKind::Fat32 => {
                let s = "FAT32   ";
                proof {
                    reveal_strlit("FAT32   ");
                }
                s
            },
        }
    }

    /// Width of one FAT entry in bits.
    pub fn bits(self) -> (r: u64)
        ensures
            r == self.bits_spec(),
    {
        match self {
            FatKind::Fat12 => 12,
            FatKind::Fat16 => 16,
            FatKind::Fat32 => 32,
        }
    }

    /// The end-of-chain marker.
    pub fn eoc(self) -> (r: u32)
        ensures
            r == self.eoc_spec(),
    {
        match self {
            FatKind::Fat12 => 0xFFF,
            FatKind::Fat16 => 0xFFFF,
            FatKind::Fat32 => 0x0FFF_FFFF,
        }
    }

    /// The value of FAT entry 0.
    pub fn media_entry(self) -> (r: u32)
        ensures
            r == self.media_entry_spec(),
    {
        match self {
            FatKind::Fat12 => 0xFF8,
            FatKind::Fat16 => 0xFFF8,
            FatKind::Fat32 => 0x0FFF_FFF8,
        }
    }
}

/// Computed layout of a volume of `total_sectors` sectors.
#[derive(Debug, Clone, Copy, PartialEq, Eq, Structural)]
pub struct Geometry {
    pub kind: FatKind,
    pub spc: u32,
    pub reserved: u32,
    pub fat_sectors: u32,
    pub num_fats: u32,
    pub root_entries: u32,
    pub root_sectors: u64,
    pub total_sectors: u64,
    pub data_start: u64,
    pub total_clusters: u32,
    pub root_cluster: u32,
}

/// The layout is one [`geometry`] can return: its fields fit together and
/// stay in the ranges the FAT format allows.
pub open spec fn geometry_ok(g: Geometry) -> bool {
    &&& 1 <= g.spc <= 128
    &&& g.total_clusters <= 0x0FFF_FFF4
    &&& g.root_cluster == 2
    &&& g.num_fats == 2
    &&& g.total_sectors <= u32::MAX
    &&& g.reserved as nat == reserved_of(g.kind)
    &&& g.root_entries as nat == root_entries_of(g.kind)
    &&& g.root_sectors as nat == root_sectors_of(g.kind)
    &&& g.data_start as nat == overhead(g.kind, g.fat_sectors as nat) * 512
    &&& overhead(g.kind, g.fat_sectors as nat) < g.total_sectors
}

/// Why no layout can be computed for a volume.
#[derive(Debug, Clone, Copy, PartialEq, Eq, Structural)]
pub enum FatError {
    /// Fewer than 36 sectors.
    VolumeTooSmall(u64),
    /// No FAT type and cluster size gives a valid cluster count.
    NoGeometry(u64),
    /// The files and directories need more clusters than the volume has.
    VolumeFull,
    /// The root directory's entries do not fit the fixed root region.
    RootDirTooLarge,
}

// ── Geometry search ─────────────────────────────────────────────────────────

/// Reserved sectors in front of the FATs.
pub open spec fn reserved_of(kind: FatKind) -> nat {
    if kind == FatKind::Fat32 { 32 } else { 1 }
}

/// Entries of the fixed root directory (FAT12/16 only).
pub open spec fn root_entries_of(kind: FatKind) -> nat {
    if kind == FatKind::Fat32 { 0 } else { 512 }
}

/// Sectors of the fixed root directory: `root_entries * 32` rounded up to sectors.
pub open spec fn root_sectors_of(kind: FatKind) -> nat {
    (root_entries_of(kind) * 32 + 511) / 512
}

/// Sectors in front of the data region with two FATs of `fs` sectors each.
pub open spec fn overhead(kind: FatKind, fs: nat) -> nat {
    reserved_of(kind) + fs * 2 + root_sectors_of(kind)
}

/// Data clusters left when each FAT takes `fs` sectors.
pub open spec fn cluster_count(kind: FatKind, spc: nat, t: nat, fs: nat) -> nat {
    if overhead(kind, fs) < t {
        ((t - overhead(kind, fs)) as nat) / spc
    } else {
        0
    }
}

/// Sectors one FAT needs to map the clusters left by FATs of `fs` sectors
/// (one spare sector included).
pub open spec fn fat_need(kind: FatKind, spc: nat, t: nat, fs: nat) -> nat {
    let bytes = cluster_count(kind, spc, t, fs) * kind.bits_spec() / 8 + 512;
    (bytes + 511) / 512
}

/// The FAT-size iteration stops at `fs`: the FATs fill the volume, or `fs`
/// is a fixed point.
pub open spec fn fat_halts(kind: FatKind, spc: nat, t: nat, fs: nat) -> bool {
    overhead(kind, fs) >= t || fat_need(kind, spc, t, fs) == fs
}

/// The FAT size after `n` steps of the iteration started at one sector.
pub open spec fn fat_iter(kind: FatKind, spc: nat, t: nat, n: nat) -> nat
    decreases n,
{
    if n == 0 {
        1
    } else {
        let s = fat_iter(kind, spc, t, (n - 1) as nat);
        if fat_halts(kind, spc, t, s) {
            s
        } else {
            fat_need(kind, spc, t, s)
        }
    }
}

/// The iteration stops after finitely many steps.
pub open spec fn fat_settles(kind: FatKind, spc: nat, t: nat) -> bool {
    exists|n: nat| fat_halts(kind, spc, t, #[trigger] fat_iter(kind, spc, t, n))
}

/// The FAT size the iteration stops at.
pub open spec fn fat_settled(kind: FatKind, spc: nat, t: nat) -> nat {
    fat_iter(kind, spc, t, choose|n: nat| fat_halts(kind, spc, t, #[trigger] fat_iter(kind, spc, t, n)))
}

/// From step `n` on the iteration alternates between a smaller size at `n`
/// and a larger one at `n + 1`, halting at neither.
pub open spec fn fat_cycles_at(kind: FatKind, spc: nat, t: nat, n: nat) -> bool {
    &&& !fat_halts(kind, spc, t, fat_iter(kind, spc, t, n))
    &&& !fat_halts(kind, spc, t, fat_iter(kind, spc, t, n + 1))
    &&& fat_iter(kind, spc, t, n + 2) == fat_iter(kind, spc, t, n)
    &&& fat_iter(kind, spc, t, n) < fat_iter(kind, spc, t, n + 1)
}

/// The FAT size of a candidate: where the iteration stops, or, when it
/// alternates between two sizes forever, the larger of the two (a FAT of
/// that size covers the clusters it leaves).
pub open spec fn fat_size(kind: FatKind, spc: nat, t: nat) -> nat {
    if fat_settles(kind, spc, t) {
        fat_settled(kind, spc, t)
    } else {
        fat_iter(kind, spc, t, (choose|n: nat| #[trigger] fat_cycles_at(kind, spc, t, n)) + 1)
    }
}

/// The cluster count is valid for the FAT type.
pub open spec fn count_fits(kind: FatKind, clusters: nat) -> bool {
    match kind {
        FatKind::Fat12 => 1 <= clusters <= 4084,
        FatKind::Fat16 => 4085 <= clusters <= 65_524,
        FatKind::Fat32 => 65_525 <= clusters <= 0x0FFF_FFF4,
    }
}

/// Sectors per cluster of candidate `i` (each size tried with all three types).
pub open spec fn spc_at(i: nat) -> nat {
    seq![1nat, 2, 4, 8, 16, 32, 64, 128][(i / 3) as int]
}

/// FAT type of candidate `i`.
pub open spec fn kind_at(i: nat) -> FatKind {
    if i % 3 == 0 {
        FatKind::Fat12
    } else if i % 3 == 1 {
        FatKind::Fat16
    } else {
        FatKind::Fat32
    }
}

/// Candidate `i` settles and yields a valid cluster count.
pub open spec fn candidate_fits(t: nat, i: nat) -> bool {
    let (k, spc) = (kind_at(i), spc_at(i));
    let fs = fat_size(k, spc, t);
    overhead(k, fs) < t && count_fits(k, cluster_count(k, spc, t, fs))
}

/// Outcome of trying the candidates from `i` on.
pub enum SearchOutcome {
    /// Candidate `i` is taken.
    Found(nat),
    /// No candidate fits.
    Exhausted,
}

/// Tries the candidates `i..24` in order.
pub open spec fn search(t: nat, i: nat) -> SearchOutcome
    decreases 24 - i,
{
    if i >= 24 {
        SearchOutcome::Exhausted
    } else if candidate_fits(t, i) {
        SearchOutcome::Found(i)
    } else {
        search(t, i + 1)
    }
}

/// The layout of candidate `i`.
pub open spec fn geometry_of(t: nat, i: nat) -> Geometry {
    let (k, spc) = (kind_at(i), spc_at(i));
    let fs = fat_size(k, spc, t);
    Geometry {
        kind: k,
        spc: spc as u32,
        reserved: reserved_of(k) as u32,
        fat_sectors: fs as u32,
        num_fats: 2,
        root_entries: root_entries_of(k) as u32,
        root_sectors: root_sectors_of(k) as u64,
        total_sectors: t as u64,
        data_start: (overhead(k, fs) * 512) as u64,
        total_clusters: cluster_count(k, spc, t, fs) as u32,
        root_cluster: 2,
    }
}

/// What [`geometry`] computes for a volume of `t` sectors.
pub open spec fn geometry_spec(t: nat) -> Result<Geometry, FatError> {
    if t < 36 {
        Err(FatError::VolumeTooSmall(t as u64))
    } else {
        match search(t, 0) {
            SearchOutcome::Found(i) => Ok(geometry_of(t, i)),
            SearchOutcome::Exhausted => Err(FatError::NoGeometry(t as u64)),
        }
    }
}

/// `fat_need` does not grow with the FAT size.
proof fn lemma_need_antitone(kind: FatKind, spc: nat, t: nat, a: nat, b: nat)
    requires
        1 <= spc,
        a <= b,
        overhead(kind, b) < t,
    ensures
        fat_need(kind, spc, t, b) <= fat_need(kind, spc, t, a),
        1 <= fat_need(kind, spc, t, b),
{
    let ca = cluster_count(kind, spc, t, a);
    let cb = cluster_count(kind, spc, t, b);
    lemma_div_is_ordered((t - overhead(kind, b)) as int, (t - overhead(kind, a)) as int, spc as int);
    lemma_mul_inequality(cb as int, ca as int, kind.bits_spec() as int);
    lemma_div_is_ordered((cb * kind.bits_spec()) as int, (ca * kind.bits_spec()) as int, 8);
    let xa = ca * kind.bits_spec() / 8 + 512 + 511;
    let xb = cb * kind.bits_spec() / 8 + 512 + 511;
    lemma_div_is_ordered(xb as int, xa as int, 512);
    lemma_div_is_ordered(1023, xb as int, 512);
}

/// Once the iteration halts it stays put.
proof fn lemma_iter_sticky(kind: FatKind, spc: nat, t: nat, m: nat, n: nat)
    requires
        m <= n,
        fat_halts(kind, spc, t, fat_iter(kind, spc, t, m)),
    ensures
        fat_iter(kind, spc, t, n) == fat_iter(kind, spc, t, m),
    decreases n - m,
{
    if m < n {
        lemma_iter_sticky(kind, spc, t, m, (n - 1) as nat);
    }
}

/// Any halting step gives the settled size.
proof fn lemma_settled_is(kind: FatKind, spc: nat, t: nat, n: nat)
    requires
        fat_halts(kind, spc, t, fat_iter(kind, spc, t, n)),
    ensures
        fat_settles(kind, spc, t),
        fat_settled(kind, spc, t) == fat_iter(kind, spc, t, n),
{
    let m = choose|m: nat| fat_halts(kind, spc, t, #[trigger] fat_iter(kind, spc, t, m));
    if m <= n {
        lemma_iter_sticky(kind, spc, t, m, n);
    } else {
        lemma_iter_sticky(kind, spc, t, n, m);
    }
}

/// A two-cycle of non-halting sizes repeats forever, so the iteration never halts.
proof fn lemma_cycle_never_settles(kind: FatKind, spc: nat, t: nat, k: nat)
    requires
        !fat_halts(kind, spc, t, fat_iter(kind, spc, t, k)),
        !fat_halts(kind, spc, t, fat_iter(kind, spc, t, k + 1)),
        fat_iter(kind, spc, t, k + 2) == fat_iter(kind, spc, t, k),
    ensures
        !fat_settles(kind, spc, t),
{
    assert forall|n: nat| !fat_halts(kind, spc, t, #[trigger] fat_iter(kind, spc, t, n)) by {
        if n >= k {
            lemma_cycle_repeats(kind, spc, t, k, (n - k) as nat);
        } else if fat_halts(kind, spc, t, fat_iter(kind, spc, t, n)) {
            lemma_iter_sticky(kind, spc, t, n, k);
        }
    }
}

proof fn lemma_cycle_repeats(kind: FatKind, spc: nat, t: nat, k: nat, j: nat)
    requires
        !fat_halts(kind, spc, t, fat_iter(kind, spc, t, k)),
        !fat_halts(kind, spc, t, fat_iter(kind, spc, t, k + 1)),
        fat_iter(kind, spc, t, k + 2) == fat_iter(kind, spc, t, k),
    ensures
        fat_iter(kind, spc, t, k + j) == fat_iter(kind, spc, t, k + (j % 2)),
    decreases j,
{
    if j >= 2 {
        lemma_cycle_repeats(kind, spc, t, k, (j - 2) as nat);
        assert((j - 2) as nat % 2 == j % 2);
        let p = (k + (j - 2)) as nat;
        assert(fat_iter(kind, spc, t, p + 1) == fat_iter(kind, spc, t, k + ((j - 2) as nat % 2) + 1)) by {
            if j % 2 == 1 {
                assert(fat_iter(kind, spc, t, k + 2) == fat_iter(kind, spc, t, k));
            }
        }
        assert(fat_iter(kind, spc, t, p + 2) == fat_iter(kind, spc, t, k + (j % 2))) by {
            if j % 2 == 0 {
                assert(fat_iter(kind, spc, t, k + 2) == fat_iter(kind, spc, t, k));
            } else {
                assert(fat_iter(kind, spc, t, k + 3) == fat_iter(kind, spc, t, k + 1));
            }
        }
    }
}

/// A FAT of `fs` sectors maps every cluster the volume has with it, the two
/// reserved entries included.
pub open spec fn fat_covers(kind: FatKind, spc: nat, t: nat, fs: nat) -> bool {
    fs * 4096 >= (cluster_count(kind, spc, t, fs) + 2) * kind.bits_spec()
}

/// A FAT at least as large as what the clusters left by a smaller one
/// need covers the clusters it leaves itself.
proof fn lemma_need_covers(kind: FatKind, spc: nat, t: nat, a: nat, b: nat)
    requires
        1 <= spc,
        a <= b,
        overhead(kind, b) < t,
        fat_need(kind, spc, t, a) <= b,
    ensures
        fat_covers(kind, spc, t, b),
{
    let ca = cluster_count(kind, spc, t, a);
    let cb = cluster_count(kind, spc, t, b);
    let bb = kind.bits_spec();
    lemma_div_is_ordered((t - overhead(kind, b)) as int, (t - overhead(kind, a)) as int, spc as int);
    assert(cb <= ca);
    let q = ca * bb / 8;
    assert(q * 8 + 8 > ca * bb) by (nonlinear_arith)
        requires
            q == ca * bb / 8,
    ;
    let x = q + 512;
    let need = (x + 511) / 512;
    assert(need * 512 >= x) by (nonlinear_arith)
        requires
            need == (x + 511) / 512,
    ;
    assert(cb * bb <= ca * bb) by (nonlinear_arith)
        requires
            cb <= ca,
    ;
    assert(bb <= 32);
    assert(b * 4096 >= (cb + 2) * bb) by (nonlinear_arith)
        requires
            b >= need,
            need * 512 >= q + 512,
            q * 8 + 8 > ca * bb,
            cb * bb <= ca * bb,
            bb <= 32,
    ;
}

/// Two alternations found along one iteration have the same larger size.
proof fn lemma_cycle_top_unique(kind: FatKind, spc: nat, t: nat, n: nat, m: nat)
    requires
        fat_cycles_at(kind, spc, t, n),
        fat_cycles_at(kind, spc, t, m),
    ensures
        fat_iter(kind, spc, t, n + 1) == fat_iter(kind, spc, t, m + 1),
    decreases 0nat,
{
    if n <= m {
        lemma_cycle_repeats(kind, spc, t, n, (m - n) as nat);
        lemma_cycle_repeats(kind, spc, t, n, (m + 1 - n) as nat);
    } else {
        lemma_cycle_repeats(kind, spc, t, m, (n - m) as nat);
        lemma_cycle_repeats(kind, spc, t, m, (n + 1 - m) as nat);
    }
}

/// One step of the FAT-size iteration: `None` when FATs of `fs` sectors fill
/// the volume, else the sectors one FAT needs.
fn fat_step(kind: FatKind, spc: u32, t: u64, fs: u32) -> (r: Option<u32>)
    requires
        1 <= spc <= 128,
        t <= u32::MAX,
    ensures
        r is None <==> overhead(kind, fs as nat) >= t,
        r is Some ==> r->0 == fat_need(kind, spc as nat, t as nat, fs as nat),
{
    let reserved: u64 = if kind == FatKind::Fat32 { 32 } else { 1 };
    let root_sectors: u64 = if kind == FatKind::Fat32 { 0 } else { 32 };
    let over: u64 = reserved + (fs as u64) * 2 + root_sectors;
    if over >= t {
        return None;
    }
    let clusters: u64 = (t - over) / (spc as u64);
    assert(clusters <= t) by {
        lemma_div_is_ordered((t - over) as int, t as int, spc as int);
        lemma_div_is_ordered(t as int, t as int, 1);
        vstd::arithmetic::div_mod::lemma_div_is_ordered_by_denominator(t as int, 1, spc as int);
    }
    let bits = kind.bits();
    assert(clusters * bits <= t * 32) by {
        lemma_mul_inequality(clusters as int, t as int, bits as int);
        lemma_mul_inequality(bits as int, 32, t as int);
    }
    let bytes: u64 = clusters * bits / 8 + 512;
    let need: u64 = (bytes + 511) / 512;
    assert(need <= u32::MAX) by {
        lemma_div_is_ordered((clusters * bits) as int, (t * 32) as int, 8);
        lemma_div_is_ordered((bytes + 511) as int, (t * 4 + 1023) as int, 512);
    }
    Some(need as u32)
}

/// Iterates the FAT size to a fixed point; where it alternates between two
/// sizes forever, settles on the larger.
fn settle_fat(kind: FatKind, spc: u32, t: u64) -> (r: u32)
    requires
        1 <= spc <= 128,
        t <= u32::MAX,
    ensures
        r == fat_size(kind, spc as nat, t as nat),
        overhead(kind, r as nat) < t ==> fat_covers(kind, spc as nat, t as nat, r as nat),
{
    let ghost (k, sp, tt) = (kind, spc as nat, t as nat);
    let ghost mut n: nat = 0;
    let ghost mut odd: nat = 0;
    let ghost mut pe: nat = 0;
    let mut e: u32 = 1;
    // The even steps grow, the odd steps shrink: e = iter(2k) <= iter(2k - 1).
    let ghost bound: nat = fat_need(k, sp, tt, 1);
    loop
        invariant
            1 <= spc <= 128,
            t <= u32::MAX,
            k == kind,
            sp == spc as nat,
            tt == t as nat,
            e as nat == fat_iter(k, sp, tt, n),
            n % 2 == 0,
            bound == fat_need(k, sp, tt, 1),
            forall|m: nat| m < n ==> !fat_halts(k, sp, tt, #[trigger] fat_iter(k, sp, tt, m)),
            n == 0 ==> e == 1,
            n > 0 ==> odd == fat_iter(k, sp, tt, (n - 1) as nat),
            n > 0 ==> e <= odd,
            n > 0 ==> fat_need(k, sp, tt, odd) == e,
            n > 0 ==> overhead(k, odd) < tt,
            n > 0 ==> odd <= bound,
            n > 0 ==> overhead(k, 1) < tt,
            n > 0 ==> pe <= e,
            n > 0 ==> fat_need(k, sp, tt, pe) == odd,
            n > 0 ==> overhead(k, pe) < tt,
            1 <= e,
        decreases bound + 1 - e,
    {
        let r1 = fat_step(kind, spc, t, e);
        if r1.is_none() {
            proof {
                lemma_settled_is(k, sp, tt, n);
            }
            return e;
        }
        let n1 = r1.unwrap();
        if n1 == e {
            proof {
                lemma_settled_is(k, sp, tt, n);
                lemma_need_covers(k, sp, tt, e as nat, e as nat);
            }
            return e;
        }
        proof {
            assert(fat_iter(k, sp, tt, n + 1) == n1);
            if n == 0 {
                lemma_need_antitone(k, sp, tt, 1, 1);
            } else {
                lemma_need_antitone(k, sp, tt, e as nat, odd);
                lemma_need_antitone(k, sp, tt, pe, e as nat);
                lemma_need_antitone(k, sp, tt, 1, e as nat);
            }
        }
        let r2 = fat_step(kind, spc, t, n1);
        if r2.is_none() {
            proof {
                lemma_settled_is(k, sp, tt, n + 1);
            }
            return n1;
        }
        let n2 = r2.unwrap();
        if n2 == n1 {
            proof {
                lemma_settled_is(k, sp, tt, n + 1);
                lemma_need_covers(k, sp, tt, n1 as nat, n1 as nat);
            }
            return n1;
        }
        proof {
            assert(fat_iter(k, sp, tt, n + 2) == n2);
            // n1 = f(e) >= e, so f(n1) <= f(e) = n1; and n1 <= odd, so n2 = f(n1) >= f(odd) = e.
            if n == 0 {
                lemma_need_antitone(k, sp, tt, 1, n1 as nat);
            } else {
                lemma_need_antitone(k, sp, tt, n1 as nat, odd);
                lemma_need_antitone(k, sp, tt, e as nat, n1 as nat);
                lemma_need_antitone(k, sp, tt, 1, n1 as nat);
            }
        }
        if n2 == e {
            proof {
                lemma_cycle_never_settles(k, sp, tt, n);
                if n > 0 {
                    lemma_need_antitone(k, sp, tt, e as nat, odd);
                }
                assert(fat_cycles_at(k, sp, tt, n));
                let m = choose|m: nat| #[trigger] fat_cycles_at(k, sp, tt, m);
                lemma_cycle_top_unique(k, sp, tt, n, m);
                lemma_need_covers(k, sp, tt, e as nat, n1 as nat);
            }
            return n1;
        }
        proof {
            assert forall|m: nat| m < n + 2 implies !fat_halts(k, sp, tt, #[trigger] fat_iter(k, sp, tt, m)) by {
                if m == n {
                } else if m == n + 1 {
                }
            }
            pe = e as nat;
            odd = n1 as nat;
            n = n + 2;
        }
        e = n2;
    }
}

/// A layout whose numbers hold together: the cluster count is what the
/// data region leaves, it lies in the range of the FAT type, and each FAT
/// is large enough to map every cluster.
pub open spec fn geometry_valid(g: Geometry) -> bool {
    &&& g.total_clusters as nat == cluster_count(g.kind, g.spc as nat, g.total_sectors as nat, g.fat_sectors as nat)
    &&& count_fits(g.kind, g.total_clusters as nat)
    &&& fat_covers(g.kind, g.spc as nat, g.total_sectors as nat, g.fat_sectors as nat)
}

/// Picks the FAT type and sectors per cluster for a volume of
/// `total_sectors` sectors: the first of 1, 2, 4, …, 128 sectors per cluster,
/// each tried as FAT12, FAT16 and FAT32, whose cluster count lands in the
/// type's valid range once the FAT size has settled.
#[verifier::spinoff_prover]
#[verifier::rlimit(50)]
pub fn geometry(total_sectors: u64) -> (r: Result<Geometry, FatError>)
    requires
        total_sectors <= u32::MAX,
    ensures
        r == geometry_spec(total_sectors as nat),
        total_sectors < 36 ==> r is Err,
        r matches Ok(g) ==> geometry_ok(g) && geometry_valid(g) && g.total_sectors == total_sectors,
{
    if total_sectors < 32 + 4 {
        return Err(FatError::VolumeTooSmall(total_sectors));
    }
    let spcs: [u32; 8] = [1, 2, 4, 8, 16, 32, 64, 128];
    let kinds: [FatKind; 3] = [FatKind::Fat12, FatKind::Fat16, FatKind::Fat32];
    let ghost tt = total_sectors as nat;
    let mut i: usize = 0;
    while i < 24
        invariant
            36 <= total_sectors <= u32::MAX,
            tt == total_sectors as nat,
            i <= 24,
            spcs@ == seq![1u32, 2, 4, 8, 16, 32, 64, 128],
            kinds@ == seq![FatKind::Fat12, FatKind::Fat16, FatKind::Fat32],
            search(tt, 0) == search(tt, i as nat),
        decreases 24 - i,
    {
        let spc = spcs[i / 3];
        let kind = kinds[i % 3];
        assert(spc as nat == spc_at(i as nat) && kind == kind_at(i as nat));
        let fat_sectors = settle_fat(kind, spc, total_sectors);
        let reserved: u32 = if kind == FatKind::Fat32 { 32 } else { 1 };
        let root_entries: u32 = if kind == FatKind::Fat32 { 0 } else { 512 };
        let root_sectors: u64 = if kind == FatKind::Fat32 { 0 } else { 32 };
        let over: u64 = reserved as u64 + (fat_sectors as u64) * 2 + root_sectors;
        if over < total_sectors {
            let clusters: u64 = (total_sectors - over) / (spc as u64);
            let fits = match kind {
                FatKind::Fat12 => 1 <= clusters && clusters <= 4084,
                FatKind::Fat16 => 4085 <= clusters && clusters <= 65_524,
                FatKind::Fat32 => 65_525 <= clusters && clusters <= 0x0FFF_FFF4,
            };
            if fits {
                let g = Geometry {
                    kind,
                    spc,
                    reserved,
                    fat_sectors,
                    num_fats: 2,
                    root_entries,
                    root_sectors,
                    total_sectors,
                    data_start: over * 512,
                    total_clusters: clusters as u32,
                    root_cluster: 2,
                };
                assert(g == geometry_of(tt, i as nat));
                assert(clusters <= 0x0FFF_FFF4);
                return Ok(g);
            }
        }
        i = i + 1;
    }
    Err(FatError::NoGeometry(total_sectors))
}


/// What a FAT volume is made with: its label and its size in bytes.
pub struct FatOptions {
    pub label: String,
    pub size_bytes: u64,
}

impl FatOptions {
    /// The number of whole sectors in the volume.
    pub fn total_sectors(&self) -> (n: u64)
        ensures
            n == self.size_bytes / BYTES_PER_SECTOR,
    {
        self.size_bytes / BYTES_PER_SECTOR
    }

    /// The geometry of the volume, or `None` when it has more sectors than
    /// a FAT boot sector can record.
    pub fn geometry(&self) -> (r: Option<Result<Geometry, FatError>>)
        ensures
            self.size_bytes / BYTES_PER_SECTOR > u32::MAX <==> r is None,
            r matches Some(g) ==> g == geometry_spec((self.size_bytes / BYTES_PER_SECTOR) as nat),
    {
        let n = self.total_sectors();
        if n > u32::MAX as u64 {
            None
        } else {
            Some(geometry(n))
        }
    }
}

} // verus!
