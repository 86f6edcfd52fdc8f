use leon::boot_config::BootConfig;
use leon::discovery::{BlockDev, BootEntry, EspVolume};
use leon::reports::{
    boot_file, device_line, discover_lines, entry_lines, entry_lookup, esp_lines, flash_check, help_command, is_removable,
    layout_lines, log_find, log_path, ls_line, once_lines, os_pretty_name, rootfs_check, rootfs_line,
    secure_boot_state, status_lines, tail_step, tree_indent, tree_line, uefi_target,
};

fn entry(label: &str, path: &str) -> BootEntry {
    BootEntry { label: label.to_string(), path: path.to_string() }
}

#[test]
fn architectures_map_to_targets() {
    assert_eq!(uefi_target("amd64").unwrap(), "x86_64-unknown-uefi");
    assert_eq!(uefi_target("arm64").unwrap(), "aarch64-unknown-uefi");
    assert_eq!(uefi_target("riscv").unwrap_err(), "unsupported architecture: riscv (supported: amd64, arm64)");
    assert_eq!(boot_file("amd64").unwrap(), "BOOTX64.EFI");
    assert_eq!(boot_file("arm64").unwrap(), "BOOTAA64.EFI");
    assert!(boot_file("x86").is_err());
}

#[test]
fn entries_are_looked_up_by_exact_label() {
    let es = vec![entry("Arch", "EFI/arch/vmlinuz"), entry("Debian", "EFI/debian/shimx64.efi")];
    assert_eq!(entry_lookup(&es, "Debian").unwrap(), "Debian -> EFI/debian/shimx64.efi");
    assert_eq!(entry_lookup(&es, "debian").unwrap_err(), "no boot entry labelled `debian`");
    assert_eq!(entry_lines(&es, true), vec!["Arch  EFI/arch/vmlinuz", "Debian  EFI/debian/shimx64.efi"]);
    assert_eq!(entry_lines(&es, false), vec!["Arch", "Debian"]);
    assert_eq!(entry_lines(&[], true), vec!["no boot entries discovered"]);
    assert_eq!(once_lines(&es, "  ").unwrap_err(), "an entry label is required");
    assert_eq!(once_lines(&es, "Nope").unwrap_err(), "no boot entry labelled `Nope`");
    let l = once_lines(&es, "Arch").unwrap();
    assert_eq!(l[0], "one-shot boot: Arch (EFI/arch/vmlinuz)");
    assert_eq!(l[2], "highlight `Arch` and press Enter; the next boot reverts to the default.");
}

#[test]
fn esps_and_layout_reports() {
    let v = vec![EspVolume { path: "/dev/sda1".into(), mountpoint: Some("/boot/efi".into()), label: None, uuid: None }];
    assert_eq!(esp_lines(&v), vec!["/dev/sda1 [] -> /boot/efi"]);
    assert_eq!(esp_lines(&[]), vec!["no ESP volumes detected"]);
    let l = layout_lines("/home/u/.config/leon/boot.toml", &v);
    assert_eq!(l.len(), 7);
    assert_eq!(l[2], "  ESP: /dev/sda1 (/boot/efi)");
    assert_eq!(layout_lines("p", &[])[2], "  mounted ESP: none detected");
}

#[test]
fn status_report_lists_every_key() {
    let c = BootConfig { timeout: Some(3), splash: Some(false), ..BootConfig::default() };
    let l = status_lines("/cfg/boot.toml", &c, 2, 1);
    assert_eq!(
        l,
        vec![
            "Leon boot configuration status",
            "  config: /cfg/boot.toml",
            "  timeout = 3",
            "  default_entry = (unset)",
            "  theme = (unset)",
            "  splash = false",
            "  entries_file = (unset)",
            "  profiles: 2 saved",
            "  ESPs: 1",
        ]
    );
}

#[test]
fn command_help_is_found_by_alias() {
    let r = leon::lbt_tree::root();
    let h = help_command(&r, "discover").unwrap();
    assert!(h.contains("discover"));
    assert_eq!(help_command(&r, "nothing-like-this").unwrap_err(), "no command matches `nothing-like-this`");
}

#[test]
fn listing_and_tree_lines() {
    assert_eq!(ls_line('d', true, 4096, "EFI"), "  d/          4096  EFI");
    assert_eq!(ls_line('-', false, 7, "a.txt"), "  -             7  a.txt");
    assert_eq!(tree_line("", false, "EFI", true), "\u{251c}\u{2500}\u{2500} EFI/");
    assert_eq!(tree_line("    ", true, "x", false), "    \u{2514}\u{2500}\u{2500} x");
    assert_eq!(tree_indent("", false), "\u{2502}   ");
    assert_eq!(rootfs_line("EFI/leon/kernel.efi", "EFI-stub kernel", false), "  EFI/leon/kernel.efi [EFI-stub kernel]: missing");
}

#[test]
fn rootfs_check_names_what_is_missing() {
    assert_eq!(rootfs_check("/r", true, false, true).unwrap(), "rootfs OK: /r");
    assert_eq!(rootfs_check("/r", false, true, true).unwrap(), "rootfs OK: /r");
    assert_eq!(
        rootfs_check("/r", false, false, false).unwrap_err(),
        "rootfs incomplete at /r: missing EFI/BOOT/BOOTX64.EFI or BOOTAA64.EFI, EFI/leon/kernel.efi"
    );
    assert_eq!(rootfs_check("/r", true, true, false).unwrap_err(), "rootfs incomplete at /r: missing EFI/leon/kernel.efi");
}

#[test]
fn boot_log_search() {
    assert_eq!(log_path(Some("/x.md"), true), "/x.md");
    assert_eq!(log_path(None, true), "build/esp/var/logs/leon/log.md");
    assert_eq!(log_path(None, false), "var/logs/leon/log.md");
    let r = log_find("log.md", "boot ok\nERROR disk\nfine\nERROR again", "ERROR").unwrap();
    assert_eq!(r, vec!["log.md:2: ERROR disk", "log.md:4: ERROR again"]);
    assert_eq!(log_find("log.md", "a\nb", "zz").unwrap_err(), "no matches for `zz` in log.md");
    assert_eq!(tail_step(10, 15), (Some(10), 15));
    assert_eq!(tail_step(10, 10), (None, 10));
    assert_eq!(tail_step(10, 4), (Some(0), 4));
    assert_eq!(tail_step(10, 0), (None, 0));
}

#[test]
fn host_diagnostics() {
    let d = BlockDev {
        name: "sda1".into(),
        path: "/dev/sda1".into(),
        kind: "part".into(),
        fstype: Some("vfat".into()),
        parttype: None,
        label: None,
        uuid: None,
        mountpoint: None,
    };
    assert_eq!(device_line(&d), "/dev/sda1 (part) vfat mount=none [ESP]");
    assert_eq!(os_pretty_name(Some("NAME=x\nPRETTY_NAME=\"Cudane Linux\"\n")), "Cudane Linux");
    assert_eq!(os_pretty_name(Some("NAME=x\n")), "unknown");
    assert_eq!(os_pretty_name(None), "unknown");
    assert_eq!(secure_boot_state(Some("1"), None), "enabled");
    assert_eq!(secure_boot_state(Some("0"), Some(&[0, 0, 0, 0, 1])), "disabled");
    assert_eq!(secure_boot_state(None, Some(&[6, 0, 0, 0, 1])), "enabled");
    assert_eq!(secure_boot_state(None, Some(&[6, 0])), "not detectable (no UEFI / no efivarfs)");
    assert_eq!(flash_check("", "a.img", true, true, 512).unwrap(), "usage: lbt usb flash --device /dev/sdX --path image.img");
    assert_eq!(flash_check("/dev/sdz", "a.img", false, true, 512).unwrap(), "device /dev/sdz does not exist");
    assert_eq!(flash_check("/dev/sdz", "a.img", true, false, 512).unwrap(), "image a.img is not a file");
    assert_eq!(flash_check("/dev/sdz", "a.img", true, true, 513).unwrap(), "image is not a whole number of 512-byte sectors");
    assert_eq!(flash_check("/dev/sdz", "a.img", true, true, 1024), None);
    assert!(is_removable("sdb", Some("1\n")));
    assert!(!is_removable("sdb", Some("0\n")));
    assert!(!is_removable("loop0", Some("1")));
    assert!(is_removable("mmcblk0", Some(" 1 ")));
}

#[test]
fn discover_report_lists_each_section() {
    let d = BlockDev {
        name: "sda1".into(),
        path: "/dev/sda1".into(),
        kind: "part".into(),
        fstype: Some("vfat".into()),
        parttype: None,
        label: None,
        uuid: None,
        mountpoint: None,
    };
    let e = EspVolume { path: "/dev/sda1".into(), mountpoint: Some("/boot/efi".into()), label: Some("ESP".into()), uuid: None };
    let lines = discover_lines(&[d], &[e], &[]);
    assert_eq!(
        lines,
        vec![
            "Block devices:",
            "  sda1 (part) fstype=vfat mount=none [ESP]",
            "EFI System Partitions:",
            "  /dev/sda1 [ESP] -> /boot/efi",
            "Boot entries:",
            "  none",
        ]
    );
    assert_eq!(discover_lines(&[], &[], &[entry("Arch", "EFI/arch/vmlinuz")])[5], "  Arch -> EFI/arch/vmlinuz");
}
