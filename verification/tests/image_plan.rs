use leon::image_plan::{
    esp_fits, esp_layout, mbr_candidates, esp_partitions, genisoimage_args, img_layout, img_partitions, iso_boot_file,
    parse_mib, xorriso_args,
};

#[test]
fn sizes_are_read_in_mib() {
    assert_eq!(parse_mib(None, 64).unwrap(), 64);
    assert_eq!(parse_mib(Some("128"), 64).unwrap(), 128);
    assert_eq!(parse_mib(Some("big"), 64).unwrap_err(), "`--size` must be a number of MiB (got `big`)");
}

#[test]
fn esp_image_layout() {
    assert!(esp_fits(64));
    assert!(!esp_fits(1));
    assert!(!esp_fits(u64::MAX));
    let l = esp_layout(64);
    assert_eq!(l.disk_bytes, 64 * 1024 * 1024);
    assert_eq!(l.part_end_lba, 131072 - 1 - 33);
    assert_eq!(l.part_bytes, (131038 - 2048 + 1) * 512);
    let p = esp_partitions(&l);
    assert_eq!(p[0].start_lba, 2048);
    assert_eq!(p[0].end_lba, 131038);
    assert_eq!(p[0].name, "EFI System Partition");
}

#[test]
fn disk_image_layout() {
    assert_eq!(img_layout(65).err().unwrap(), "`--size` must be at least 66 MiB");
    let l = img_layout(1024).unwrap();
    assert_eq!(l.root_mb, 960);
    assert_eq!(l.root_start_lba, 2048 + 131072);
    assert_eq!(l.root_end_lba, 1024 * 2048 - 1 - 33);
    assert_eq!(l.esp_bytes, 64 * 1024 * 1024);
    assert_eq!(l.root_bytes, (l.root_end_lba - l.root_start_lba + 1) * 512);
    let p = img_partitions(&l);
    assert_eq!(p[0].end_lba, 133119);
    assert_eq!(p[1].name, "Leon Root");
}

#[test]
fn iso_tool_arguments() {
    assert_eq!(iso_boot_file(true, true), "BOOTX64.EFI");
    assert_eq!(iso_boot_file(false, true), "BOOTAA64.EFI");
    assert_eq!(iso_boot_file(false, false), "");
    assert_eq!(
        xorriso_args("LEON", "leon.iso", "/tmp/efi.img", true, Some("/m.bin"), "/r"),
        vec![
            "-as", "mkisofs", "-V", "LEON", "-o", "leon.iso", "-J", "-R", "-e", "/tmp/efi.img", "-no-emul-boot",
            "-isohybrid-gpt-basdat", "-isohybrid-mbr", "/m.bin", "/r"
        ]
    );
    assert_eq!(xorriso_args("L", "o", "e", false, None, "/r"), vec!["-as", "mkisofs", "-V", "L", "-o", "o", "-J", "-R", "/r"]);
    assert_eq!(
        genisoimage_args("L", "o", "e", true, "/r"),
        vec!["-R", "-J", "-V", "L", "-o", "o", "-e", "e", "-no-emul-boot", "/r"]
    );
}

#[test]
fn hybrid_mbr_templates_are_searched_in_order() {
    assert_eq!(
        mbr_candidates(),
        vec![
            "/usr/lib/ISOLINUX/isohdpfx.bin",
            "/usr/lib/syslinux/mbr/isohdpfx.bin",
            "/usr/lib/PXELINUX/isohdpfx.bin",
            "/usr/share/syslinux/isohdpfx.bin",
        ]
    );
}
