use leon::discovery::{
    boot_label, device_from_mount, devices_from_lsblk, efi_file_entry, esp_volumes, grub_entries,
    is_elf_efi_stub, is_grub_cfg, is_pe_image, merge_entries, mount_pairs, systemd_entry, BlockDev,
    BootEntry, EspVolume, LsblkNode, LsblkRecord, ESP_GPT_UUID,
};

fn s(x: &str) -> Option<String> {
    Some(x.to_string())
}

fn rec(name: &str, path: &str, kind: &str, fstype: Option<String>, parttype: Option<String>, uuid: Option<String>, mp: Option<String>) -> LsblkRecord {
    LsblkRecord { name: s(name), path: s(path), kind: s(kind), fstype, parttype, label: None, uuid, mountpoint: mp }
}

#[test]
fn flattens_lsblk_devices_and_children() {
    let nodes = vec![
        LsblkNode {
            record: rec("sda", "/dev/sda", "disk", None, None, None, None),
            children: vec![
                rec("sda1", "/dev/sda1", "part", s("vfat"), s(ESP_GPT_UUID), s("A663-9EF0"), s("/boot/efi")),
                rec("sda2", "/dev/sda2", "part", s("ext4"), s("0fc63daf-8483-4772-8e79-3d69d8477de4"), None, s("/")),
            ],
        },
        LsblkNode { record: rec("loop0", "/dev/loop0", "loop", s("squashfs"), None, None, s("/snap/x")), children: vec![] },
    ];
    let devs = devices_from_lsblk(&Some(nodes));
    assert_eq!(devs.len(), 4);
    let names: Vec<&str> = devs.iter().map(|d| d.name.as_str()).collect();
    assert_eq!(names, vec!["sda", "sda1", "sda2", "loop0"]);
    assert!(devs[1].is_esp());
    assert_eq!(devs[1].mountpoint.as_deref(), Some("/boot/efi"));
    assert!(!devs[2].is_esp());
    assert!(!devs[3].is_esp());
    assert!(devices_from_lsblk(&None).is_empty());
}

#[test]
fn missing_lsblk_columns_get_defaults() {
    let r = LsblkRecord { name: s("nvme0n1"), path: None, kind: None, fstype: None, parttype: None, label: None, uuid: None, mountpoint: None };
    let devs = devices_from_lsblk(&Some(vec![LsblkNode { record: r, children: vec![] }]));
    assert_eq!(devs[0].path, "/dev/nvme0n1");
    assert_eq!(devs[0].kind, "");
}

fn dev(path: &str, fstype: Option<&str>, mp: Option<&str>) -> BlockDev {
    BlockDev {
        name: path.rsplit('/').next().unwrap().to_string(),
        path: path.to_string(),
        kind: "part".to_string(),
        fstype: fstype.map(str::to_string),
        parttype: None,
        label: None,
        uuid: None,
        mountpoint: mp.map(str::to_string),
    }
}

#[test]
fn esp_volumes_keep_the_first_of_each_path() {
    let devs = vec![
        dev("/dev/sda1", Some("vfat"), Some("/boot/efi")),
        dev("/dev/sda2", Some("ext4"), Some("/")),
        dev("/dev/sda1", Some("vfat"), Some("/efi")),
        dev("/dev/sdb1", Some("vfat"), None),
    ];
    let v = esp_volumes(devs);
    assert_eq!(v.len(), 2);
    assert_eq!(v[0].path, "/dev/sda1");
    assert_eq!(v[0].mountpoint.as_deref(), Some("/boot/efi"));
    assert_eq!(v[1].path, "/dev/sdb1");
}

#[test]
fn describes_volumes() {
    let mut e = EspVolume { path: "/dev/sda1".into(), mountpoint: s("/boot/efi"), label: s("EFI"), uuid: s("A663-9EF0") };
    assert_eq!(e.describe(), "/dev/sda1 [EFI A663-9EF0] -> /boot/efi");
    e.label = None;
    e.mountpoint = None;
    assert_eq!(e.describe(), "/dev/sda1 [A663-9EF0] detected, not mounted (reading needs root)");
    e.uuid = None;
    assert_eq!(e.describe(), "/dev/sda1 [] detected, not mounted (reading needs root)");
}

#[test]
fn reads_the_mount_table() {
    let t = "/dev/sda1 /boot/efi vfat rw 0 0\nproc /proc proc rw 0 0\n\nlonely\n";
    let p = mount_pairs(t);
    assert_eq!(p, vec![("/dev/sda1".to_string(), "/boot/efi".to_string()), ("proc".to_string(), "/proc".to_string())]);
    let d = device_from_mount("/dev/sda1", "/boot/efi", true);
    assert_eq!(d.name, "sda1");
    assert_eq!(d.kind, "part");
    assert_eq!(d.fstype.as_deref(), Some("vfat"));
    assert_eq!(d.parttype.as_deref(), Some(ESP_GPT_UUID));
    assert!(d.is_esp());
    let o = device_from_mount("proc", "/proc", false);
    assert_eq!(o.name, "proc");
    assert_eq!(o.kind, "other");
    assert!(!o.is_esp());
}

#[test]
fn efi_files_become_entries() {
    let e = efi_file_entry("BOOT/BOOTX64.EFI").unwrap();
    assert_eq!(e.label, "BOOTX64");
    assert_eq!(e.path, "EFI/BOOT/BOOTX64.EFI");
    let e = efi_file_entry("ubuntu/shimx64.efi").unwrap();
    assert_eq!(e.label, "shimx64");
    assert!(efi_file_entry("BOOT/BOOTX64.jpg").is_none());
    assert!(efi_file_entry(".efi").is_none());
    assert_eq!(efi_file_entry(r"a\b.Efi").unwrap().path, "EFI/a/b.Efi");
}

#[test]
fn systemd_boot_entries_use_their_title() {
    let e = systemd_entry(
        "EFI/systemd/loader/entries/cudane.conf",
        "title Cudane Linux\nefi /EFI/leon/kernel.efi\n",
    )
    .unwrap();
    assert_eq!(e.label, "Cudane Linux");
    assert_eq!(e.path, "EFI/systemd/loader/entries/cudane.conf");
    assert!(systemd_entry("EFI/x.conf", "efi /a\n").is_none());
    assert!(systemd_entry("EFI/x.txt", "title A\n").is_none());
    assert_eq!(systemd_entry("x.CONF", "  title   Spaced  \r\n").unwrap().label, "Spaced");
}

#[test]
fn grub_menu_entries_are_listed() {
    let cfg = "set timeout=5\nmenuentry 'Ubuntu' {\n}\nmenuentry \"Advanced options\" {\n}\n  menuentry bare {\n";
    let es = grub_entries("EFI/ubuntu/grub.cfg", cfg);
    let labels: Vec<&str> = es.iter().map(|e| e.label.as_str()).collect();
    assert_eq!(labels, vec!["Ubuntu", "Advanced options"]);
    assert!(es.iter().all(|e| e.path == "EFI/ubuntu/grub.cfg"));
    assert!(is_grub_cfg("GRUB.CFG"));
    assert!(!is_grub_cfg("grub.conf"));
}

fn fake_pe() -> Vec<u8> {
    let mut pe = vec![0u8; 0x80];
    pe[0..2].copy_from_slice(b"MZ");
    pe[0x3c..0x40].copy_from_slice(&0x40u32.to_le_bytes());
    pe[0x40..0x44].copy_from_slice(b"PE\0\0");
    pe
}

#[test]
fn detects_pe_and_elf_images() {
    assert!(is_pe_image(&fake_pe()));
    assert!(!is_pe_image(b"MZ\x00\x00"));
    let mut bad = fake_pe();
    bad[0x3c..0x40].copy_from_slice(&0x7eu32.to_le_bytes());
    assert!(!is_pe_image(&bad));
    let mut elf = vec![0u8; 16];
    elf[0..4].copy_from_slice(b"\x7fELF");
    elf.extend_from_slice(b"some header and then EFI stub marker here");
    assert!(is_elf_efi_stub(&elf));
    assert!(!is_elf_efi_stub(b"\x7fELF no marker"));
    let mut far = vec![0u8; 70000];
    far[0..4].copy_from_slice(b"\x7fELF");
    far[69000..69008].copy_from_slice(b"efi stub");
    assert!(!is_elf_efi_stub(&far));
    assert_eq!(boot_label("fallback.efi", &fake_pe()).as_deref(), Some("fallback"));
    assert_eq!(boot_label("kernel", &elf).as_deref(), Some("kernel"));
    assert_eq!(boot_label("notes.efi", b"text"), None);
}

fn entry(label: &str, path: &str) -> BootEntry {
    BootEntry { label: label.to_string(), path: path.to_string() }
}

#[test]
fn merge_dedups_and_sorts() {
    let esp = vec![
        (entry("BOOTX64", "EFI/BOOT/BOOTX64.EFI"), "/boot/efi/EFI/BOOT/BOOTX64.EFI".to_string()),
        (entry("Ubuntu", "EFI/ubuntu/grub.cfg"), "/boot/efi/EFI/ubuntu/grub.cfg".to_string()),
        (entry("Advanced", "EFI/ubuntu/grub.cfg"), "/boot/efi/EFI/ubuntu/grub.cfg".to_string()),
    ];
    let boot = vec![
        (entry("BOOTX64", "/boot/efi/EFI/BOOT/BOOTX64.EFI"), "/boot/efi/EFI/BOOT/BOOTX64.EFI".to_string()),
        (entry("vmlinuz", "/boot/vmlinuz"), "/boot/vmlinuz".to_string()),
    ];
    let m = merge_entries(esp, boot);
    let got: Vec<(&str, &str)> = m.iter().map(|e| (e.label.as_str(), e.path.as_str())).collect();
    assert_eq!(
        got,
        vec![
            ("Advanced", "EFI/ubuntu/grub.cfg"),
            ("BOOTX64", "EFI/BOOT/BOOTX64.EFI"),
            ("Ubuntu", "EFI/ubuntu/grub.cfg"),
            ("vmlinuz", "/boot/vmlinuz"),
        ]
    );
}

fn json_record(v: &serde_json::Value) -> LsblkRecord {
    let get = |k: &str| v.get(k).and_then(|x| x.as_str()).map(str::to_string);
    LsblkRecord {
        name: get("name"),
        path: get("path"),
        kind: get("type"),
        fstype: get("fstype"),
        parttype: get("parttype"),
        label: get("label"),
        uuid: get("uuid"),
        mountpoint: get("mountpoint"),
    }
}

#[test]
fn parses_lsblk_json() {
    let json = br#"{"blockdevices":[
        {"name":"sda","path":"/dev/sda","type":"disk","fstype":null,"parttype":null,"label":null,"uuid":null,"mountpoint":null,
         "children":[
            {"name":"sda1","path":"/dev/sda1","type":"part","fstype":"vfat","parttype":"c12a7328-f81f-11d2-ba4b-00a0c93ec93b","label":null,"uuid":"A663-9EF0","mountpoint":"/boot/efi"},
            {"name":"sda2","path":"/dev/sda2","type":"part","fstype":"ext4","parttype":"0fc63daf-8483-4772-8e79-3d69d8477de4","label":null,"uuid":null,"mountpoint":"/"}
         ]},
        {"name":"loop0","path":"/dev/loop0","type":"loop","fstype":"squashfs","parttype":null,"label":null,"uuid":null,"mountpoint":"/snap/x"}
    ]}"#;
    let value: serde_json::Value = serde_json::from_slice(json).unwrap();
    let nodes: Option<Vec<LsblkNode>> = value.get("blockdevices").and_then(|b| b.as_array()).map(|arr| {
        arr.iter()
            .map(|n| LsblkNode {
                record: json_record(n),
                children: n
                    .get("children")
                    .and_then(|c| c.as_array())
                    .map(|c| c.iter().map(json_record).collect())
                    .unwrap_or_default(),
            })
            .collect()
    });
    let devs = devices_from_lsblk(&nodes);
    assert_eq!(devs.len(), 4);
    let esp = devs.iter().find(|d| d.name == "sda1").unwrap();
    assert!(esp.is_esp());
    assert_eq!(esp.mountpoint.as_deref(), Some("/boot/efi"));
    assert!(!devs.iter().find(|d| d.name == "sda2").unwrap().is_esp());
    assert!(!devs.iter().find(|d| d.name == "loop0").unwrap().is_esp());
}

#[test]
fn finds_efi_boot_files() {
    let mut labels: Vec<String> = Vec::new();
    for rel in ["BOOT/BOOTX64.EFI", "BOOT/BOOTX64.jpg", "ubuntu/shimx64.efi", "ubuntu/grub.cfg"] {
        if let Some(e) = efi_file_entry(rel) {
            labels.push(e.label);
        }
    }
    if let Some(e) = systemd_entry("EFI/systemd/loader/entries/cudane.conf", "title Cudane Linux\nefi /EFI/leon/kernel.efi\n") {
        labels.push(e.label);
    }
    for e in grub_entries("EFI/ubuntu/grub.cfg", "set timeout=5\nmenuentry 'Ubuntu' {\n}\nmenuentry \"Advanced options\" {\n}\n") {
        labels.push(e.label);
    }
    assert!(labels.iter().any(|l| l == "BOOTX64"));
    assert!(labels.iter().any(|l| l == "shimx64"));
    assert!(labels.iter().any(|l| l == "Ubuntu"));
    assert!(labels.iter().any(|l| l == "Cudane Linux"));
    assert!(!labels.iter().any(|l| l == "BOOTX64.jpg"));
}

#[test]
fn merge_dedups_esp_and_boot_scan_entries() {
    let file = "/tmp/lbt_merge_test/EFI/BOOT/BOOTX64.EFI".to_string();
    let esp = vec![(entry("BOOTX64", "EFI/BOOT/BOOTX64.EFI"), file.clone())];
    let boot = vec![(entry("BOOTX64", &file), file.clone())];
    let entries = merge_entries(esp, boot);
    assert_eq!(entries.len(), 1, "same file must appear once");
    assert_eq!(entries[0].path, "EFI/BOOT/BOOTX64.EFI");
    assert!(entries[0].path.starts_with("EFI/"), "ESP form wins");
}

#[test]
fn detects_pe_and_elf_candidates() {
    let mut pe = vec![0u8; 0x80];
    pe[0..2].copy_from_slice(b"MZ");
    let e_lfanew: u32 = 0x40;
    pe[0x3c..0x40].copy_from_slice(&e_lfanew.to_le_bytes());
    pe[e_lfanew as usize..e_lfanew as usize + 4].copy_from_slice(b"PE\0\0");
    let mut elf = vec![0u8; 16];
    elf[0..4].copy_from_slice(b"\x7fELF");
    elf.extend_from_slice(b"some header and then EFI stub marker here");
    assert!(is_pe_image(&pe));
    assert!(is_elf_efi_stub(&elf));
}

#[test]
fn discovers_efi_stub_files_from_boot_paths() {
    let mut elf = vec![0u8; 16];
    elf[0..4].copy_from_slice(b"\x7fELF");
    elf.extend_from_slice(b"This is an EFI stub kernel file.");
    let mut pe = vec![0u8; 0x80];
    pe[0..2].copy_from_slice(b"MZ");
    pe[0x3c..0x40].copy_from_slice(&0x40u32.to_le_bytes());
    pe[0x40..0x44].copy_from_slice(b"PE\0\0");
    assert_eq!(boot_label("kernel", &elf).as_deref(), Some("kernel"));
    assert_eq!(boot_label("fallback.efi", &pe).as_deref(), Some("fallback"));
}
