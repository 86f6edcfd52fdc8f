use leon::fat::{geometry, FatKind};
use leon::fat_image::pack_fat;
use leon::fat_names::{lfn_checksum, lfn_entries, make_short_name, needs_lfn, UsedNames};

#[test]
fn geometry_picks_correct_fat_types() {
    let g32 = geometry(64 * 1024 * 1024 / 512).unwrap();
    assert_eq!(g32.kind, FatKind::Fat32);
    assert_eq!(g32.spc, 1);
    let g16 = geometry(16 * 1024 * 1024 / 512).unwrap();
    assert_eq!(g16.kind, FatKind::Fat16);
    let g12 = geometry(2 * 1024 * 1024 / 512).unwrap();
    assert_eq!(g12.kind, FatKind::Fat12);
}

#[test]
fn short_names_collide_safely() {
    let mut used = UsedNames::new();
    let a = make_short_name("LongFileName.TXT", false, &mut used);
    let b = make_short_name("LongFileNam2.TXT", false, &mut used);
    assert_ne!(a, b);
    assert_eq!(&a[8..11], b"TXT");
    assert_eq!(&b[8..11], b"TXT");
}

#[test]
fn plain_8dot3_needs_no_lfn() {
    let mut used = UsedNames::new();
    let short = make_short_name("README.TXT", false, &mut used);
    assert_eq!(&short[..11], b"README  TXT");
    assert!(!needs_lfn("README.TXT", &short));
    assert!(needs_lfn("long-name.txt", &short));
}

#[test]
fn pack_fat_lengths() {
    let fat = vec![0u32; 1000];
    assert_eq!(pack_fat(&fat, FatKind::Fat12).len(), 1500 + 1);
    assert_eq!(pack_fat(&fat, FatKind::Fat16).len(), 2000);
    assert_eq!(pack_fat(&fat, FatKind::Fat32).len(), 4000);
}

#[test]
fn geometry_settles_an_oscillating_fat_size_on_the_larger_one() {
    let g = geometry(129905).unwrap();
    assert_eq!(g.kind, FatKind::Fat32);
    assert_eq!(g.spc, 1);
    assert!(g.fat_sectors as u64 * 512 >= (g.total_clusters as u64 + 2) * 4);
    let o = g.reserved as u64 + 2 * g.fat_sectors as u64 + g.root_sectors;
    assert_eq!(g.total_clusters as u64, 129905 - o);
    assert_eq!(g.data_start, o * 512);
}

#[test]
fn ascii_names_upper_case_into_short_names() {
    let mut used = UsedNames::new();
    assert_eq!(&make_short_name("readme.txt", false, &mut used), b"README  TXT");
    assert_eq!(&make_short_name("README.TXT", false, &mut used), b"README~1TXT");
}

#[test]
fn long_name_records_run_last_slot_first() {
    let short = *b"LONGFI~1TXT";
    let e = lfn_entries("LongFileName.TXT", &short);
    assert_eq!(e.len(), 64);
    let cs = lfn_checksum(&short);
    assert_eq!(e[0], 0x42);
    assert_eq!(e[32], 0x01);
    assert_eq!(e[11], 0x0F);
    assert_eq!(e[43], 0x0F);
    assert_eq!(e[13], cs);
    assert_eq!(e[45], cs);
    assert_eq!((e[33], e[34]), (b'L', 0));
    assert_eq!((e[1], e[2]), (b'T', 0));
    assert_eq!((e[3], e[4]), (b'X', 0));
    assert_eq!((e[5], e[6]), (b'T', 0));
    assert_eq!((e[7], e[8]), (0, 0));
}
