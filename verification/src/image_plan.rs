//! The layouts of the disk images the toolkit builds: sizes, partition
//! boundaries, and the arguments handed to the ISO tools.
use vstd::prelude::*;
use crate::gpt::{Partition, esp_type, linux_type, part_esp, part_linux};
use crate::text::{chars_to_string, parse_u64, parse_u64_chars, push_str, str_chars};

verus! {

/// Bytes in a sector.
pub const SECTOR: u64 = 512;

/// Bytes in a MiB.
pub const MIB: u64 = 1048576;

/// The first partition starts at 1 MiB (sector 2048), clear of the GPT.
pub const ESP_LBA: u64 = 2048;

/// The size of the ESP partition of a full disk image, in MiB.
pub const IMG_ESP_MIB: u64 = 64;

/// A size in MiB given as text, or `default` when none is given.
pub open spec fn parse_mib_spec(s: Option<Seq<char>>, default: u64) -> Result<u64, Seq<char>> {
    match s {
        Some(t) => match parse_u64(t) {
            Some(n) => Ok(n),
            None => Err("`--size` must be a number of MiB (got `"@ + t + "`)"@),
        },
        None => Ok(default),
    }
}

/// Reads `--size`.
pub fn parse_mib(s: Option<&str>, default: u64) -> (r: Result<u64, String>)
    ensures
        match (r, parse_mib_spec(match s {
            Some(t) => Some(t@),
            None => None,
        }, default)) {
            (Ok(a), Ok(b)) => a == b,
            (Err(a), Err(b)) => a@ == b,
            _ => false,
        },
{
    match s {
        Some(t) => {
            let cs = str_chars(t);
            match parse_u64_chars(&cs) {
                Some(n) => Ok(n),
                None => {
                    let mut v = str_chars("`--size` must be a number of MiB (got `");
                    push_str(&mut v, t);
                    push_str(&mut v, "`)");
                    Err(chars_to_string(&v))
                },
            }
        },
        None => Ok(default),
    }
}

/// An ESP image of `size_mb` MiB can be laid out: its size in bytes is
/// representable and it leaves room for a partition after the first MiB
/// and before the backup table.
pub open spec fn esp_size_ok(size_mb: u64) -> bool {
    size_mb * MIB <= u64::MAX && size_mb * MIB / (SECTOR as int) >= 1 + 33 + ESP_LBA
}

/// Whether an ESP image of `size_mb` MiB can be laid out.
pub fn esp_fits(size_mb: u64) -> (b: bool)
    ensures
        b == esp_size_ok(size_mb),
{
    if size_mb > u64::MAX / MIB {
        assert(size_mb * MIB > u64::MAX) by (nonlinear_arith)
            requires
                size_mb > u64::MAX / MIB,
                MIB == 1048576,
        ;
        return false;
    }
    assert(size_mb * MIB <= u64::MAX) by (nonlinear_arith)
        requires
            size_mb <= u64::MAX / MIB,
            MIB == 1048576,
    ;
    size_mb * MIB / SECTOR >= 1 + 33 + ESP_LBA
}

/// The layout of a single-ESP disk image.
pub struct EspLayout {
    pub disk_bytes: u64,
    pub part_end_lba: u64,
    pub part_bytes: u64,
}

/// The disk is `size_mb` MiB; the partition runs from sector 2048 to the
/// last usable sector (33 before the end), and the FAT volume fills it.
pub open spec fn esp_layout_spec(size_mb: u64) -> (int, int, int) {
    let disk = size_mb * MIB;
    let last = disk / (SECTOR as int) - 1;
    let end = last - 33;
    (disk, end, (end - ESP_LBA + 1) * SECTOR)
}

/// The layout of an ESP image of `size_mb` MiB.
pub fn esp_layout(size_mb: u64) -> (l: EspLayout)
    requires
        esp_size_ok(size_mb),
    ensures
        (l.disk_bytes as int, l.part_end_lba as int, l.part_bytes as int) == esp_layout_spec(size_mb),
{
    let disk_bytes = size_mb * MIB;
    let last = disk_bytes / SECTOR - 1;
    let end = last - 33;
    let sectors = end - ESP_LBA + 1;
    assert(sectors * SECTOR <= u64::MAX) by (nonlinear_arith)
        requires
            sectors <= disk_bytes / SECTOR,
            disk_bytes <= u64::MAX,
            SECTOR == 512,
    ;
    EspLayout { disk_bytes, part_end_lba: end, part_bytes: sectors * SECTOR }
}

/// The single partition of an ESP image.
pub fn esp_partitions(l: &EspLayout) -> (v: Vec<Partition>)
    ensures
        v@.len() == 1,
        v@[0].start_lba == ESP_LBA && v@[0].end_lba == l.part_end_lba,
        v@[0].type_guid@ == esp_type() && v@[0].name@ == "EFI System Partition"@,
{
    let mut v: Vec<Partition> = Vec::new();
    v.push(Partition {
        start_lba: ESP_LBA,
        end_lba: l.part_end_lba,
        type_guid: part_esp(),
        name: chars_to_string(&str_chars("EFI System Partition")),
    });
    v
}

/// The layout of a full disk image: a 64 MiB ESP at 1 MiB, the root
/// partition after it up to the last usable sector.
pub struct ImgLayout {
    pub disk_bytes: u64,
    pub root_mb: u64,
    pub root_start_lba: u64,
    pub root_end_lba: u64,
    pub esp_bytes: u64,
    pub root_bytes: u64,
}

/// The full disk image's layout for `size_mb` MiB, or the refusal of a size
/// too small for the ESP and a root partition.
pub open spec fn img_layout_spec(size_mb: u64) -> Result<(int, int, int, int, int, int), Seq<char>> {
    if size_mb < IMG_ESP_MIB + 2 {
        Err("`--size` must be at least 66 MiB"@)
    } else {
        let disk = size_mb * MIB;
        let last = disk / (SECTOR as int) - 1;
        let esp_sectors = IMG_ESP_MIB * MIB / (SECTOR as int);
        let start = ESP_LBA + esp_sectors;
        let end = last - 33;
        Ok((disk, size_mb - IMG_ESP_MIB, start, end, esp_sectors * SECTOR, (end - start + 1) * SECTOR))
    }
}

/// Lays out a full disk image of `size_mb` MiB.
pub fn img_layout(size_mb: u64) -> (r: Result<ImgLayout, String>)
    requires
        size_mb * MIB <= u64::MAX,
    ensures
        match (r, img_layout_spec(size_mb)) {
            (Ok(l), Ok(t)) => t == (l.disk_bytes as int, l.root_mb as int, l.root_start_lba as int,
                l.root_end_lba as int, l.esp_bytes as int, l.root_bytes as int),
            (Err(a), Err(b)) => a@ == b,
            _ => false,
        },
{
    if size_mb < IMG_ESP_MIB + 2 {
        return Err(chars_to_string(&str_chars("`--size` must be at least 66 MiB")));
    }
    let disk_bytes = size_mb * MIB;
    let last = disk_bytes / SECTOR - 1;
    let esp_sectors = IMG_ESP_MIB * MIB / SECTOR;
    let start = ESP_LBA + esp_sectors;
    let end = last - 33;
    let root_sectors = end - start + 1;
    assert(root_sectors * SECTOR <= u64::MAX) by (nonlinear_arith)
        requires
            root_sectors <= disk_bytes / SECTOR,
            disk_bytes <= u64::MAX,
            SECTOR == 512,
    ;
    Ok(ImgLayout {
        disk_bytes,
        root_mb: size_mb - IMG_ESP_MIB,
        root_start_lba: start,
        root_end_lba: end,
        esp_bytes: esp_sectors * SECTOR,
        root_bytes: root_sectors * SECTOR,
    })
}

/// The two partitions of a full disk image: the ESP, then the root.
pub fn img_partitions(l: &ImgLayout) -> (v: Vec<Partition>)
    requires
        l.root_start_lba >= 1,
    ensures
        v@.len() == 2,
        v@[0].start_lba == ESP_LBA && v@[0].end_lba == l.root_start_lba - 1,
        v@[0].type_guid@ == esp_type() && v@[0].name@ == "EFI System Partition"@,
        v@[1].start_lba == l.root_start_lba && v@[1].end_lba == l.root_end_lba,
        v@[1].type_guid@ == linux_type() && v@[1].name@ == "Leon Root"@,
{
    let mut v: Vec<Partition> = Vec::new();
    v.push(Partition {
        start_lba: ESP_LBA,
        end_lba: l.root_start_lba - 1,
        type_guid: part_esp(),
        name: chars_to_string(&str_chars("EFI System Partition")),
    });
    v.push(Partition {
        start_lba: l.root_start_lba,
        end_lba: l.root_end_lba,
        type_guid: part_linux(),
        name: chars_to_string(&str_chars("Leon Root")),
    });
    v
}

/// The bootloader an ISO is made bootable with: the x86_64 one when the
/// tree has it, else the arm64 one, else none (a data-only ISO).
pub fn iso_boot_file(x64: bool, aa64: bool) -> (r: &'static str)
    ensures
        r@ == if x64 { "BOOTX64.EFI"@ } else if aa64 { "BOOTAA64.EFI"@ } else { ""@ },
{
    if x64 {
        "BOOTX64.EFI"
    } else if aa64 {
        "BOOTAA64.EFI"
    } else {
        ""
    }
}

/// The views of an argument list.
pub open spec fn args_view(v: Seq<String>) -> Seq<Seq<char>> {
    v.map_values(|s: String| s@)
}

/// The `xorriso` arguments for an ISO labelled `label` written to `out`
/// from `rootfs`, booting from the El Torito image `efi` when `bootable`
/// (with the hybrid MBR template `mbr` when one is installed).
pub open spec fn xorriso_spec(label: Seq<char>, out: Seq<char>, efi: Seq<char>, bootable: bool, mbr: Option<Seq<char>>, rootfs: Seq<char>) -> Seq<Seq<char>> {
    seq!["-as"@, "mkisofs"@, "-V"@, label, "-o"@, out, "-J"@, "-R"@] + (if bootable {
        seq!["-e"@, efi, "-no-emul-boot"@, "-isohybrid-gpt-basdat"@] + match mbr {
            Some(m) => seq!["-isohybrid-mbr"@, m],
            None => seq![],
        }
    } else {
        seq![]
    }) + seq![rootfs]
}

/// The `genisoimage` arguments for the same ISO.
pub open spec fn genisoimage_spec(label: Seq<char>, out: Seq<char>, efi: Seq<char>, bootable: bool, rootfs: Seq<char>) -> Seq<Seq<char>> {
    seq!["-R"@, "-J"@, "-V"@, label, "-o"@, out] + (if bootable {
        seq!["-e"@, efi, "-no-emul-boot"@]
    } else {
        seq![]
    }) + seq![rootfs]
}

fn arg(v: &mut Vec<String>, s: &str)
    ensures
        args_view(final(v)@) == args_view(old(v)@).push(s@),
{
    let ghost before = v@;
    v.push(chars_to_string(&str_chars(s)));
    assert(args_view(v@) =~= args_view(before).push(s@));
}

/// The arguments of `xorriso -as mkisofs`.
pub fn xorriso_args(label: &str, out: &str, efi: &str, bootable: bool, mbr: Option<&str>, rootfs: &str) -> (v: Vec<String>)
    ensures
        args_view(v@) == xorriso_spec(label@, out@, efi@, bootable, match mbr {
            Some(m) => Some(m@),
            None => None,
        }, rootfs@),
{
    let mut v: Vec<String> = Vec::new();
    arg(&mut v, "-as");
    arg(&mut v, "mkisofs");
    arg(&mut v, "-V");
    arg(&mut v, label);
    arg(&mut v, "-o");
    arg(&mut v, out);
    arg(&mut v, "-J");
    arg(&mut v, "-R");
    let ghost head = args_view(v@);
    if bootable {
        arg(&mut v, "-e");
        arg(&mut v, efi);
        arg(&mut v, "-no-emul-boot");
        arg(&mut v, "-isohybrid-gpt-basdat");
        match mbr {
            Some(m) => {
                arg(&mut v, "-isohybrid-mbr");
                arg(&mut v, m);
            },
            None => {},
        }
    }
    arg(&mut v, rootfs);
    assert(args_view(v@) =~= xorriso_spec(label@, out@, efi@, bootable, match mbr {
        Some(m) => Some(m@),
        None => None,
    }, rootfs@));
    v
}

/// The arguments of `genisoimage`, the fallback ISO tool.
pub fn genisoimage_args(label: &str, out: &str, efi: &str, bootable: bool, rootfs: &str) -> (v: Vec<String>)
    ensures
        args_view(v@) == genisoimage_spec(label@, out@, efi@, bootable, rootfs@),
{
    let mut v: Vec<String> = Vec::new();
    arg(&mut v, "-R");
    arg(&mut v, "-J");
    arg(&mut v, "-V");
    arg(&mut v, label);
    arg(&mut v, "-o");
    arg(&mut v, out);
    if bootable {
        arg(&mut v, "-e");
        arg(&mut v, efi);
        arg(&mut v, "-no-emul-boot");
    }
    arg(&mut v, rootfs);
    assert(args_view(v@) =~= genisoimage_spec(label@, out@, efi@, bootable, rootfs@));
    v
}

/// Where a hybrid-MBR template is looked for, in order.
pub fn mbr_candidates() -> (v: Vec<&'static str>)
    ensures
        v@.map_values(|t: &'static str| t@) == seq!["/usr/lib/ISOLINUX/isohdpfx.bin"@, "/usr/lib/syslinux/mbr/isohdpfx.bin"@, "/usr/lib/PXELINUX/isohdpfx.bin"@, "/usr/share/syslinux/isohdpfx.bin"@],
{
    let mut v: Vec<&'static str> = Vec::new();
    v.push("/usr/lib/ISOLINUX/isohdpfx.bin");
    v.push("/usr/lib/syslinux/mbr/isohdpfx.bin");
    v.push("/usr/lib/PXELINUX/isohdpfx.bin");
    v.push("/usr/share/syslinux/isohdpfx.bin");
    assert(v@.map_values(|t: &'static str| t@) =~= seq!["/usr/lib/ISOLINUX/isohdpfx.bin"@, "/usr/lib/syslinux/mbr/isohdpfx.bin"@, "/usr/lib/PXELINUX/isohdpfx.bin"@, "/usr/share/syslinux/isohdpfx.bin"@]);
    v
}

} // verus!
