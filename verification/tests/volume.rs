use leon::crc::crc32;
use leon::fat::{geometry, FatKind};
use leon::fat_dir::{add_node, root_node, FatNode};
use leon::fat_image::plan_volume;
use leon::fat_names::UsedNames;
use leon::gpt::{gpt_layout, part_esp, part_linux, Partition, SECTOR};

/// One item of a source tree: parent index, name, directory or file contents.
struct Item {
    parent: usize,
    name: &'static str,
    data: Option<&'static [u8]>,
}

/// Lays out a FAT volume of `size` bytes holding `items` (in the order a
/// sorted directory walk adds them) and returns the image.
fn build_image(size: u64, items: &[Item]) -> Vec<u8> {
    let geo = geometry(size / 512).unwrap();
    let mut nodes: Vec<FatNode> = vec![root_node(geo.root_cluster)];
    let mut data: Vec<&[u8]> = vec![&[]];
    let mut used = UsedNames::new();
    for it in items {
        let len = it.data.map(|d| d.len() as u64).unwrap_or(0);
        add_node(&mut nodes, it.parent, it.name, it.data.is_none(), len, &mut used);
        data.push(it.data.unwrap_or(&[]));
    }
    let plan = plan_volume(&mut nodes, &geo, b"LEON").unwrap();
    let mut img = vec![0u8; size as usize];
    for w in &plan.writes {
        let o = w.offset as usize;
        img[o..o + w.bytes.len()].copy_from_slice(&w.bytes);
    }
    for p in &plan.pieces {
        let src = &data[p.node][p.file_offset as usize..(p.file_offset + p.len) as usize];
        let o = p.disk_offset as usize;
        img[o..o + src.len()].copy_from_slice(src);
    }
    img
}

fn sample_items() -> Vec<Item> {
    vec![
        Item { parent: 0, name: "EFI", data: None },
        Item { parent: 1, name: "BOOT", data: None },
        Item { parent: 2, name: "BOOTX64.EFI", data: Some(b"MZ...PE") },
        Item { parent: 1, name: "leon", data: None },
        Item { parent: 4, name: "kernel.efi", data: Some(b"kernel") },
        Item { parent: 0, name: "README.txt", data: Some(b"hello world") },
        Item { parent: 0, name: "boot", data: None },
        Item { parent: 7, name: "empty.txt", data: Some(b"") },
    ]
}

#[test]
fn fat32_volume_roundtrip() {
    let buf = build_image(64 * 1024 * 1024, &sample_items());
    assert_eq!(&buf[510..512], &[0x55, 0xAA]);
    assert_eq!(&buf[0..3], &[0xEB, 0x58, 0x90]);
    assert_eq!(buf[13], 1, "64 MiB FAT32 uses 1 sector/cluster");
    assert_eq!(&buf[82..90], b"FAT32   ");
    let root_cluster = u32::from_le_bytes([buf[44], buf[45], buf[46], buf[47]]);
    assert_eq!(root_cluster, 2);
    let fat_sectors = u32::from_le_bytes([buf[36], buf[37], buf[38], buf[39]]);
    assert!(fat_sectors > 0);
    assert_eq!(&buf[0x200..0x204], b"RRaA");
    assert_eq!(geometry(64 * 1024 * 1024 / 512).unwrap().kind, FatKind::Fat32);
}

#[test]
fn fat32_layout_meets_the_spec() {
    let items = vec![
        Item { parent: 0, name: "EFI", data: None },
        Item { parent: 1, name: "BOOT", data: None },
        Item { parent: 2, name: "BOOTX64.EFI", data: Some(b"MZ") },
    ];
    let buf = build_image(64 * 1024 * 1024, &items);
    let bps = u16::from_le_bytes([buf[11], buf[12]]) as usize;
    let spc = buf[13] as usize;
    let reserved = u16::from_le_bytes([buf[14], buf[15]]) as usize;
    let fats = buf[16] as usize;
    let fat_sectors = u32::from_le_bytes([buf[36], buf[37], buf[38], buf[39]]) as usize;
    let root = u32::from_le_bytes([buf[44], buf[45], buf[46], buf[47]]) as usize;
    assert_eq!(root, 2);
    let data_start = (reserved + fats * fat_sectors) * bps;
    let cluster = |c: usize| data_start + (c - 2) * spc * bps;
    let fat_at = |c: usize| -> u32 {
        let off = reserved * bps + c * 4;
        u32::from_le_bytes([buf[off], buf[off + 1], buf[off + 2], buf[off + 3]]) & 0x0FFF_FFFF
    };
    let read_dir = |c: usize| -> Vec<[u8; 32]> {
        let mut out = Vec::new();
        let mut cl = c;
        loop {
            let off = cluster(cl);
            for i in 0..spc * bps / 32 {
                let mut e = [0u8; 32];
                e.copy_from_slice(&buf[off + i * 32..off + i * 32 + 32]);
                if e[0] == 0 || e[0] == 0xE5 {
                    continue;
                }
                out.push(e);
            }
            let next = fat_at(cl);
            if next >= 0x0FFF_FFF8 {
                break;
            }
            cl = next as usize;
        }
        out
    };
    let first = |e: &[u8; 32]| (u16::from_le_bytes([e[20], e[21]]) as u32) << 16 | u16::from_le_bytes([e[26], e[27]]) as u32;

    let root_entries = read_dir(root);
    assert_eq!(root_entries[0][11], 0x08, "volume label first in root");
    assert_eq!(&root_entries[0][0..11], b"LEON       ");
    assert!(root_entries.iter().all(|e| e[0] != b'.' || e[1] != b' '));
    let efi = root_entries.iter().find(|e| e[11] == 0x10 && &e[0..11] == b"EFI        ").unwrap();
    let efi_cluster = first(efi);
    let efi_entries = read_dir(efi_cluster as usize);
    assert_eq!(&efi_entries[0][0..11], b".          ");
    assert_eq!(&efi_entries[1][0..11], b"..         ");
    assert_eq!(efi_entries[0][11], 0x10);
    assert_eq!(efi_entries[1][11], 0x10);
    assert_eq!(first(&efi_entries[0]), efi_cluster);
    assert_eq!(first(&efi_entries[1]), 0);
    let boot_dir = efi_entries.iter().find(|e| e[11] == 0x10 && &e[0..11] == b"BOOT       ").unwrap();
    let boot_cluster = first(boot_dir);
    let boot_entries = read_dir(boot_cluster as usize);
    let file = boot_entries.iter().find(|e| e[11] == 0x20 && &e[0..11] == b"BOOTX64 EFI").unwrap();
    assert_eq!(u32::from_le_bytes([file[28], file[29], file[30], file[31]]), 2);
    assert_eq!(&buf[cluster(first(file) as usize)..cluster(first(file) as usize) + 2], b"MZ");
    assert!(fat_at(boot_cluster as usize) >= 0x0FFF_FFF8, "dir chain ends");
}

#[test]
fn gpt_layout_has_valid_checksums() {
    let size = 128 * 1024 * 1024u64;
    let parts = vec![
        Partition { start_lba: 2048, end_lba: 2048 + 131_071, type_guid: part_esp(), name: "EFI System Partition".to_string() },
        Partition { start_lba: 2048 + 131_072, end_lba: size / SECTOR - 34, type_guid: part_linux(), name: "Leon Root".to_string() },
    ];
    let g = gpt_layout(size, &parts, [7u8; 16], &[[1u8; 16], [2u8; 16]]).unwrap();
    assert_eq!(&g.mbr[0x1FE..0x200], &[0x55, 0xAA], "MBR signature");
    assert_eq!(g.mbr[0x1BE + 4], 0xEE, "protective type");
    assert_eq!(&g.header[0..8], b"EFI PART", "GPT signature");
    let hdr_crc = u32::from_le_bytes([g.header[16], g.header[17], g.header[18], g.header[19]]);
    let mut hdr = g.header.clone();
    hdr[16..20].fill(0);
    assert_eq!(crc32(&hdr), hdr_crc, "header checksum matches");
    let last_lba = size / SECTOR - 1;
    assert_eq!(g.backup_header_offset, last_lba * SECTOR);
    assert_eq!(&g.backup_header[0..8], b"EFI PART", "backup GPT present");
    let entries_crc = u32::from_le_bytes([g.header[88], g.header[89], g.header[90], g.header[91]]);
    assert_eq!(crc32(&g.entries), entries_crc);
}
