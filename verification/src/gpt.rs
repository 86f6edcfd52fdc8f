//! GPT partition table with a protective MBR.
//!
//! [`gpt_layout`] computes every byte the table consists of: the protective
//! MBR (LBA 0), the primary header (LBA 1) and its 128 entries (from LBA 2),
//! and the backup entries and header at the end of the disk, with their
//! CRC-32 checksums. Writing them to a disk file is left to the caller.
use vstd::prelude::*;

use crate::bytes::{
    append_bytes, append_u32, append_u64, append_zeros, le32, le32_bytes, le64_bytes, splice,
    write_bytes, write_u32, write_u64, zeros,
};
use crate::crc::{crc32, crc32_spec};
use crate::text::{encode_utf16, str_chars, utf16};

verus! {

/// Bytes per sector.
pub const SECTOR: u64 = 512;

/// Size of one partition entry.
pub const PART_ENTRY_SIZE: u32 = 128;

/// Number of partition entries in the table.
pub const PART_ENTRIES: u32 = 128;

/// The on-disk bytes of the EFI System Partition type GUID.
pub open spec fn esp_type() -> Seq<u8> {
    seq![0x28u8, 0x73, 0x2a, 0xc1, 0x1f, 0xf8, 0xd2, 0x11, 0xba, 0x4b, 0x00, 0xa0, 0xc9, 0x3e, 0xc9, 0x3b]
}

/// The on-disk bytes of the Linux filesystem partition type GUID.
pub open spec fn linux_type() -> Seq<u8> {
    seq![0xafu8, 0x3d, 0xc6, 0x0f, 0x84, 0x83, 0x72, 0x47, 0x8e, 0x79, 0x3d, 0x69, 0xd8, 0x47, 0x7d, 0xe4]
}

/// GPT partition-type GUID for an EFI System Partition.
pub fn part_esp() -> (g: [u8; 16])
    ensures
        g@ == esp_type(),
{
    [0x28, 0x73, 0x2a, 0xc1, 0x1f, 0xf8, 0xd2, 0x11, 0xba, 0x4b, 0x00, 0xa0, 0xc9, 0x3e, 0xc9, 0x3b]
}

/// GPT partition-type GUID for a Linux filesystem partition.
pub fn part_linux() -> (g: [u8; 16])
    ensures
        g@ == linux_type(),
{
    [0xaf, 0x3d, 0xc6, 0x0f, 0x84, 0x83, 0x72, 0x47, 0x8e, 0x79, 0x3d, 0x69, 0xd8, 0x47, 0x7d, 0xe4]
}

/// One partition in the table.
pub struct Partition {
    pub start_lba: u64,
    pub end_lba: u64,
    pub type_guid: [u8; 16],
    pub name: String,
}

/// Why a table cannot be laid out.
#[derive(Debug, Clone, Copy, PartialEq, Eq)]
pub enum GptError {
    /// The disk has fewer than 35 sectors.
    DiskTooSmall,
    /// The partition at this index lies outside the usable region.
    OutOfUsableRegion(usize),
}

/// Every byte of a GPT, and where each part goes on the disk.
pub struct GptLayout {
    /// The protective MBR (512 bytes, at offset 0).
    pub mbr: Vec<u8>,
    /// The primary header (92 bytes, at `SECTOR`).
    pub header: Vec<u8>,
    /// The partition entries (16 KiB, at `2 * SECTOR` and at `backup_entries_offset`).
    pub entries: Vec<u8>,
    /// The backup header (92 bytes, at `backup_header_offset`).
    pub backup_header: Vec<u8>,
    /// Byte offset of the backup entries.
    pub backup_entries_offset: u64,
    /// Byte offset of the backup header.
    pub backup_header_offset: u64,
}

// ── Specification ───────────────────────────────────────────────────────────

/// The first usable LBA.
pub open spec fn first_usable() -> u64 {
    34
}

/// The last LBA of a disk of `disk_size` bytes.
pub open spec fn last_lba(disk_size: u64) -> int {
    disk_size / 512 - 1
}

/// The last usable LBA (`last_lba - 33`, saturating at 0).
pub open spec fn last_usable(disk_size: u64) -> int {
    if last_lba(disk_size) >= 33 {
        last_lba(disk_size) - 33
    } else {
        0
    }
}

/// A partition lies inside the usable region.
pub open spec fn partition_fits(p: &Partition, disk_size: u64) -> bool {
    p.start_lba >= first_usable() && p.end_lba <= last_usable(disk_size)
}

/// The 72-byte UTF-16LE name field: the first 36 code units of `name`,
/// zero-padded.
pub open spec fn name_field(name: Seq<char>) -> Seq<u8> {
    Seq::new(
        72,
        |i: int|
            {
                let units = utf16(name);
                let k = i / 2;
                if k < units.len() && k < 36 {
                    if i % 2 == 0 {
                        (units[k] % 256) as u8
                    } else {
                        (units[k] / 256) as u8
                    }
                } else {
                    0u8
                }
            },
    )
}

/// The 128 bytes of one partition entry with unique partition GUID `guid`.
pub open spec fn entry_spec(p: &Partition, guid: Seq<u8>) -> Seq<u8> {
    p.type_guid@ + guid + le64_bytes(p.start_lba) + le64_bytes(p.end_lba) + Seq::new(
        8,
        |_i: int| 0u8,
    ) + name_field(p.name@)
}

/// The partition-entry array: one entry per partition (at most 128), then zeros.
pub open spec fn entries_spec(parts: Seq<Partition>, guids: Seq<[u8; 16]>) -> Seq<u8> {
    Seq::new(
        16384,
        |i: int|
            if i / 128 < parts.len() {
                entry_spec(&parts[i / 128], guids[i / 128]@)[i % 128]
            } else {
                0u8
            },
    )
}

/// The bytes `"EFI PART"`.
pub open spec fn gpt_signature() -> Seq<u8> {
    seq![0x45u8, 0x46, 0x49, 0x20, 0x50, 0x41, 0x52, 0x54]
}

/// A 92-byte header with a zero checksum field.
pub open spec fn header_body(
    current: u64,
    backup: u64,
    first: u64,
    last: u64,
    guid: Seq<u8>,
    entries_lba: u64,
    entries_crc: u32,
) -> Seq<u8> {
    gpt_signature() + le32_bytes(0x0001_0000) + le32_bytes(92) + Seq::new(8, |_i: int| 0u8)
        + le64_bytes(current) + le64_bytes(backup) + le64_bytes(first) + le64_bytes(last) + guid
        + le64_bytes(entries_lba) + le32_bytes(128) + le32_bytes(128) + le32_bytes(entries_crc)
}

/// A header: its body with the CRC-32 of the body stored at offset 16.
pub open spec fn header_spec(body: Seq<u8>) -> Seq<u8> {
    splice(body, 16, le32_bytes(crc32_spec(body)))
}

/// The protective MBR for a disk of `disk_size` bytes: one partition of type
/// `0xEE` covering the disk (size capped at `u32::MAX` sectors), and the
/// `55 AA` signature.
pub open spec fn mbr_spec(disk_size: u64) -> Seq<u8> {
    let n = disk_size / 512 - 1;
    let sectors: u32 = if n > u32::MAX {
        u32::MAX
    } else {
        n as u32
    };
    let z = Seq::new(512, |_i: int| 0u8);
    let a = splice(z, 0x1BE, seq![0x00u8, 0x00, 0x02, 0x00, 0xEE, 0xFF, 0xFF, 0xFF]);
    let b = splice(a, 0x1C6, le32_bytes(1));
    let c = splice(b, 0x1CA, le32_bytes(sectors));
    splice(c, 0x1FE, seq![0x55u8, 0xAA])
}

// ── Layout ──────────────────────────────────────────────────────────────────

/// Lays out a GPT for a disk of `disk_size` bytes. `disk_guid` identifies
/// the disk; `part_guids[i]` is the unique GUID of partition `i`.
///
/// Fails when the disk has fewer than 35 sectors, or on the first partition
/// (in order) that starts before LBA 34 or ends after the last usable LBA.
pub fn gpt_layout(
    disk_size: u64,
    parts: &[Partition],
    disk_guid: [u8; 16],
    part_guids: &[[u8; 16]],
) -> (r: Result<GptLayout, GptError>)
    requires
        part_guids@.len() >= parts@.len(),
    ensures
        disk_size < 35 * 512 ==> r == Err::<GptLayout, GptError>(GptError::DiskTooSmall),
        disk_size >= 35 * 512 ==> match r {
            Err(GptError::OutOfUsableRegion(k)) => k < parts@.len() && !partition_fits(
                &parts@[k as int],
                disk_size,
            ) && forall|j: int| 0 <= j < k ==> partition_fits(&parts@[j], disk_size),
            Err(GptError::DiskTooSmall) => false,
            Ok(g) => {
                let ll = last_lba(disk_size);
                let lu = last_usable(disk_size);
                let e = entries_spec(parts@, part_guids@);
                &&& forall|j: int| 0 <= j < parts@.len() ==> partition_fits(&parts@[j], disk_size)
                &&& g.mbr@ == mbr_spec(disk_size)
                &&& g.entries@ == e
                &&& g.header@ == header_spec(
                    header_body(1, ll as u64, 34, lu as u64, disk_guid@, 2, crc32_spec(e)),
                )
                &&& g.backup_header@ == header_spec(
                    header_body(ll as u64, 1, 34, lu as u64, disk_guid@, (ll - 32) as u64, crc32_spec(e)),
                )
                &&& g.backup_entries_offset == (ll - 32) * 512
                &&& g.backup_header_offset == ll * 512
            },
        },
{
    if disk_size < 34 * SECTOR + SECTOR {
        return Err(GptError::DiskTooSmall);
    }
    let last = disk_size / SECTOR - 1;
    let last_use: u64 = if last >= 33 {
        last - 33
    } else {
        0
    };
    let mut k: usize = 0;
    while k < parts.len()
        invariant
            0 <= k <= parts@.len(),
            last == last_lba(disk_size),
            last_use == last_usable(disk_size),
            disk_size >= 35 * 512,
            forall|j: int| 0 <= j < k ==> partition_fits(&parts@[j], disk_size),
        decreases parts@.len() - k,
    {
        if parts[k].start_lba < 34 || parts[k].end_lba > last_use {
            return Err(GptError::OutOfUsableRegion(k));
        }
        k += 1;
    }
    let mbr = build_mbr(disk_size);
    let entries = build_entries(parts, part_guids);
    let entries_crc = crc32(&entries);
    let header = build_header(1, last, 34, last_use, disk_guid, 2, entries_crc);
    let backup_header = build_header(last, 1, 34, last_use, disk_guid, last - 32, entries_crc);
    Ok(
        GptLayout {
            mbr,
            header,
            entries,
            backup_header,
            backup_entries_offset: (last - 32) * SECTOR,
            backup_header_offset: last * SECTOR,
        },
    )
}

/// The protective MBR.
fn build_mbr(disk_size: u64) -> (m: Vec<u8>)
    requires
        disk_size >= 35 * 512,
    ensures
        m@ == mbr_spec(disk_size),
{
    let mut m = zeros(512);
    let part: [u8; 8] = [0x00, 0x00, 0x02, 0x00, 0xEE, 0xFF, 0xFF, 0xFF];
    write_bytes(&mut m, 0x1BE, &part);
    write_u32(&mut m, 0x1C6, 1);
    let n = disk_size / SECTOR - 1;
    let sectors: u32 = if n > 0xFFFF_FFFF {
        0xFFFF_FFFF
    } else {
        n as u32
    };
    write_u32(&mut m, 0x1CA, sectors);
    let sig: [u8; 2] = [0x55, 0xAA];
    write_bytes(&mut m, 0x1FE, &sig);
    assert(part@ =~= seq![0x00u8, 0x00, 0x02, 0x00, 0xEE, 0xFF, 0xFF, 0xFF]);
    assert(sig@ =~= seq![0x55u8, 0xAA]);
    m
}

/// A header with its checksum filled in.
fn build_header(
    current: u64,
    backup: u64,
    first: u64,
    last: u64,
    guid: [u8; 16],
    entries_lba: u64,
    entries_crc: u32,
) -> (h: Vec<u8>)
    ensures
        h@ == header_spec(
            header_body(current, backup, first, last, guid@, entries_lba, entries_crc),
        ),
{
    let mut h: Vec<u8> = Vec::new();
    let sig: [u8; 8] = [0x45, 0x46, 0x49, 0x20, 0x50, 0x41, 0x52, 0x54];
    append_bytes(&mut h, &sig);
    append_u32(&mut h, 0x0001_0000);
    append_u32(&mut h, 92);
    append_zeros(&mut h, 8);
    append_u64(&mut h, current);
    append_u64(&mut h, backup);
    append_u64(&mut h, first);
    append_u64(&mut h, last);
    append_bytes(&mut h, &guid);
    append_u64(&mut h, entries_lba);
    append_u32(&mut h, 128);
    append_u32(&mut h, 128);
    append_u32(&mut h, entries_crc);
    assert(sig@ =~= gpt_signature());
    assert(h@ =~= header_body(current, backup, first, last, guid@, entries_lba, entries_crc));
    let c = crc32(&h);
    write_u32(&mut h, 16, c);
    h
}

/// The partition-entry array.
fn build_entries(parts: &[Partition], guids: &[[u8; 16]]) -> (e: Vec<u8>)
    requires
        guids@.len() >= parts@.len(),
    ensures
        e@ == entries_spec(parts@, guids@),
{
    let mut e = zeros(16384);
    let n: usize = if parts.len() < 128 {
        parts.len()
    } else {
        128
    };
    let mut j: usize = 0;
    while j < n
        invariant
            0 <= j <= n <= 128,
            n <= parts@.len(),
            n == parts@.len() || n == 128,
            guids@.len() >= parts@.len(),
            e@.len() == 16384,
            forall|i: int|
                0 <= i < 16384 ==> #[trigger] e@[i] == (if i / 128 < j {
                    entry_spec(&parts@[i / 128], guids@[i / 128]@)[i % 128]
                } else {
                    0u8
                }),
        decreases n - j,
    {
        let ent = build_entry(&parts[j], guids[j]);
        let ghost before = e@;
        write_bytes(&mut e, j * 128, &ent);
        assert forall|i: int| 0 <= i < 16384 implies #[trigger] e@[i] == (if i / 128 < j + 1 {
            entry_spec(&parts@[i / 128], guids@[i / 128]@)[i % 128]
        } else {
            0u8
        }) by {
            lemma_div_128(i, j as int);
        }
        j += 1;
    }
    assert(e@ =~= entries_spec(parts@, guids@)) by {
        assert forall|i: int| 0 <= i < 16384 implies e@[i] == entries_spec(parts@, guids@)[i] by {
            assert(0 <= i / 128 < 128);
        }
    }
    e
}

/// Where `i` falls relative to block `j` of 128 bytes.
proof fn lemma_div_128(i: int, j: int)
    requires
        0 <= i,
        0 <= j,
    ensures
        (j * 128 <= i < j * 128 + 128) ==> (i / 128 == j && i % 128 == i - j * 128),
        i < j * 128 ==> i / 128 < j,
        i >= j * 128 + 128 ==> i / 128 > j,
{
}

/// One partition entry.
fn build_entry(p: &Partition, guid: [u8; 16]) -> (e: Vec<u8>)
    ensures
        e@ == entry_spec(p, guid@),
{
    let mut e = zeros(128);
    write_bytes(&mut e, 0, &p.type_guid);
    write_bytes(&mut e, 16, &guid);
    write_u64(&mut e, 32, p.start_lba);
    write_u64(&mut e, 40, p.end_lba);
    let chars = str_chars(p.name.as_str());
    let units = encode_utf16(&chars);
    let ghost prefix = e@.take(56);
    let mut k: usize = 0;
    while k < units.len() && k < 36
        invariant
            0 <= k <= 36,
            k <= units@.len(),
            units@ == utf16(p.name@),
            e@.len() == 128,
            e@.take(56) == prefix,
            forall|i: int|
                0 <= i < 72 ==> #[trigger] e@[56 + i] == (if i / 2 < k {
                    name_field(p.name@)[i]
                } else {
                    0u8
                }),
        decreases 36 - k,
    {
        let u = units[k];
        e.set(56 + k * 2, (u % 256) as u8);
        e.set(56 + k * 2 + 1, (u / 256) as u8);
        assert(e@.take(56) =~= prefix);
        k += 1;
    }
    assert(e@ =~= entry_spec(p, guid@)) by {
        assert forall|i: int| 0 <= i < 72 implies e@[56 + i] == name_field(p.name@)[i] by {}
        assert(e@.take(56) =~= p.type_guid@ + guid@ + le64_bytes(p.start_lba) + le64_bytes(
            p.end_lba,
        ) + Seq::new(8, |_i: int| 0u8));
    }
    e
}

/// The stored checksum of a laid-out header is the CRC-32 of the header
/// with its checksum field zeroed — the check firmware performs.
pub proof fn lemma_header_checksum(body: Seq<u8>)
    requires
        body.len() == 92,
        body.subrange(16, 20) == Seq::new(4, |_i: int| 0u8),
    ensures
        splice(header_spec(body), 16, Seq::new(4, |_i: int| 0u8)) == body,
        le32(header_spec(body), 16) == crc32_spec(body),
{
    let h = header_spec(body);
    let c = crc32_spec(body);
    assert(splice(h, 16, Seq::new(4, |_i: int| 0u8)) =~= body);
    crate::bytes::lemma_le32_roundtrip(c);
    assert(h.subrange(16, 20) =~= le32_bytes(c));
}

} // verus!
