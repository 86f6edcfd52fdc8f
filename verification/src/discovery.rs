//! Block-device, ESP and boot-entry discovery.
//!
//! Nothing is assumed about the machine: ESPs are the block devices whose
//! filesystem is FAT (`vfat`) or whose GPT type is the ESP GUID, and boot
//! entries are read from every mounted ESP's real `EFI` tree (every `.efi`
//! file, systemd-boot entries, GRUB menu entries) plus EFI-capable files
//! found under `/boot`. This module holds the decisions; reading devices
//! and files is the caller's.
use vstd::prelude::*;
use crate::boot_config::opt_view;
use crate::text::{
    chars_eq, chars_eq_str, chars_to_string, last_index_of, lemma_last_index_of, lines_of,
    push_all, push_str, split_lines, str_chars,
};

verus! {

/// GPT partition-type GUID of an EFI System Partition.
pub const ESP_GPT_UUID: &'static str = "c12a7328-f81f-11d2-ba4b-00a0c93ec93b";

/// One block device, as `lsblk` (or the mount table) reports it.
pub struct BlockDev {
    pub name: String,
    pub path: String,
    pub kind: String,
    pub fstype: Option<String>,
    pub parttype: Option<String>,
    pub label: Option<String>,
    pub uuid: Option<String>,
    pub mountpoint: Option<String>,
}

/// Whether an optional text is present and equal to `t`.
pub open spec fn is_some_eq(o: Option<String>, t: Seq<char>) -> bool {
    match o {
        Some(s) => s@ == t,
        None => false,
    }
}

fn opt_eq_str(o: &Option<String>, t: &str) -> (b: bool)
    ensures
        b == is_some_eq(*o, t@),
{
    match o {
        Some(s) => {
            let c = str_chars(s.as_str());
            chars_eq_str(&c, t)
        },
        None => false,
    }
}

impl BlockDev {
    /// An ESP: a FAT filesystem or the ESP partition type.
    pub open spec fn esp(&self) -> bool {
        is_some_eq(self.fstype, "vfat"@) || is_some_eq(self.parttype, ESP_GPT_UUID@)
    }

    /// Whether this device is an EFI System Partition.
    pub fn is_esp(&self) -> (b: bool)
        ensures
            b == self.esp(),
    {
        opt_eq_str(&self.fstype, "vfat") || opt_eq_str(&self.parttype, ESP_GPT_UUID)
    }
}

/// An EFI System Partition found on this machine.
pub struct EspVolume {
    pub path: String,
    pub mountpoint: Option<String>,
    pub label: Option<String>,
    pub uuid: Option<String>,
}

/// The identity shown for a volume: label and UUID as known.
pub open spec fn volume_id(label: Option<Seq<char>>, uuid: Option<Seq<char>>) -> Seq<char> {
    match (label, uuid) {
        (Some(l), Some(u)) => l + seq![' '] + u,
        (Some(l), None) => l,
        (None, Some(u)) => u,
        (None, None) => seq![],
    }
}

/// The one-line description of a volume.
pub open spec fn describe_spec(path: Seq<char>, mp: Option<Seq<char>>, id: Seq<char>) -> Seq<char> {
    match mp {
        Some(m) => path + " ["@ + id + "] -> "@ + m,
        None => path + " ["@ + id + "] detected, not mounted (reading needs root)"@,
    }
}

/// A mounted volume with a label and a UUID is described as its path, the
/// label and the UUID (in that order, space-separated, in brackets), then
/// its mountpoint; an unmounted one says so after the same brackets.
pub proof fn lemma_describe_order(path: Seq<char>, l: Seq<char>, u: Seq<char>, m: Seq<char>)
    ensures
        describe_spec(path, Some(m), volume_id(Some(l), Some(u))) == path + " ["@ + l + seq![' '] + u
            + "] -> "@ + m,
        describe_spec(path, None, volume_id(Some(l), Some(u))) == path + " ["@ + l + seq![' '] + u
            + "] detected, not mounted (reading needs root)"@,
{
    assert(path + " ["@ + (l + seq![' '] + u) =~= path + " ["@ + l + seq![' '] + u);
}

impl EspVolume {
    /// `path [label uuid] -> mountpoint`, or a note that it is not mounted.
    pub fn describe(&self) -> (r: String)
        ensures
            r@ == describe_spec(
                self.path@,
                opt_view(self.mountpoint),
                volume_id(opt_view(self.label), opt_view(self.uuid)),
            ),
    {
        let mut id: Vec<char> = Vec::new();
        match (&self.label, &self.uuid) {
            (Some(l), Some(u)) => {
                push_str(&mut id, l.as_str());
                id.push(' ');
                push_str(&mut id, u.as_str());
            },
            (Some(l), None) => push_str(&mut id, l.as_str()),
            (None, Some(u)) => push_str(&mut id, u.as_str()),
            (None, None) => {},
        }
        assert(id@ =~= volume_id(opt_view(self.label), opt_view(self.uuid)));
        let mut v = str_chars(self.path.as_str());
        push_str(&mut v, " [");
        push_all(&mut v, &id);
        match &self.mountpoint {
            Some(m) => {
                push_str(&mut v, "] -> ");
                push_str(&mut v, m.as_str());
            },
            None => push_str(&mut v, "] detected, not mounted (reading needs root)"),
        }
        assert(v@ =~= describe_spec(
            self.path@,
            opt_view(self.mountpoint),
            volume_id(opt_view(self.label), opt_view(self.uuid)),
        ));
        chars_to_string(&v)
    }
}

/// Whether an earlier ESP among the first `i` devices has the same path as device `i`.
pub open spec fn seen_before(ds: Seq<BlockDev>, i: int) -> bool {
    exists|j: int| 0 <= j < i && #[trigger] ds[j].esp() && ds[j].path@ == ds[i].path@
}

/// The ESPs among the first `n` devices, first of each path only, in order.
pub open spec fn esp_indices(ds: Seq<BlockDev>, n: nat) -> Seq<int>
    decreases n,
{
    if n == 0 {
        seq![]
    } else {
        let r = esp_indices(ds, (n - 1) as nat);
        let i = n - 1;
        if ds[i].esp() && !seen_before(ds, i) {
            r.push(i)
        } else {
            r
        }
    }
}

/// The volume a device describes.
pub open spec fn volume_of(d: BlockDev) -> (Seq<char>, Option<Seq<char>>, Option<Seq<char>>, Option<Seq<char>>) {
    (d.path@, opt_view(d.mountpoint), opt_view(d.label), opt_view(d.uuid))
}

/// The view of a volume.
pub open spec fn volume_view(v: EspVolume) -> (Seq<char>, Option<Seq<char>>, Option<Seq<char>>, Option<Seq<char>>) {
    (v.path@, opt_view(v.mountpoint), opt_view(v.label), opt_view(v.uuid))
}

/// Every ESP among `devs`, once per device path (the first wins), in the
/// order the devices were listed.
pub fn esp_volumes(devs: Vec<BlockDev>) -> (r: Vec<EspVolume>)
    ensures
        r@.len() == esp_indices(devs@, devs@.len()).len(),
        forall|k: int| 0 <= k < r@.len() ==> volume_view(#[trigger] r@[k])
            == volume_of(devs@[esp_indices(devs@, devs@.len())[k]]),
        forall|k: int|
            0 <= k < r@.len() ==> {
                let d = devs@[esp_indices(devs@, devs@.len())[k]];
                &&& (#[trigger] r@[k]).path@ == d.path@
                &&& opt_view(r@[k].mountpoint) == opt_view(d.mountpoint)
                &&& opt_view(r@[k].label) == opt_view(d.label)
                &&& opt_view(r@[k].uuid) == opt_view(d.uuid)
                &&& d.esp()
            },
        forall|a: int, b: int| 0 <= a < b < r@.len() ==> (#[trigger] r@[a]).path@ != (#[trigger] r@[b]).path@,
        forall|i: int|
            0 <= i < devs@.len() && (#[trigger] devs@[i]).esp() ==> exists|k: int|
                0 <= k < r@.len() && (#[trigger] r@[k]).path@ == devs@[i].path@,
{
    let ghost ds = devs@;
    let mut out: Vec<EspVolume> = Vec::new();
    let mut i: usize = 0;
    while i < devs.len()
        invariant
            0 <= i <= devs@.len(),
            ds == devs@,
            out@.len() == esp_indices(ds, i as nat).len(),
            forall|k: int| 0 <= k < out@.len() ==> volume_view(#[trigger] out@[k])
                == volume_of(ds[esp_indices(ds, i as nat)[k]]),
        decreases devs@.len() - i,
    {
        let d = &devs[i];
        if d.is_esp() {
            let mut dup = false;
            let mut j: usize = 0;
            while j < i
                invariant
                    0 <= j <= i < devs@.len(),
                    ds == devs@,
                    !dup ==> forall|t: int| 0 <= t < j ==> !(#[trigger] ds[t].esp() && ds[t].path@ == ds[i as int].path@),
                    dup ==> seen_before(ds, i as int),
                decreases i - j,
            {
                if !dup && devs[j].is_esp() {
                    let a = str_chars(devs[j].path.as_str());
                    let b = str_chars(devs[i].path.as_str());
                    if chars_eq(&a, &b) {
                        dup = true;
                    }
                }
                j += 1;
            }
            if !dup {
                let ghost before = out@;
                out.push(EspVolume {
                    path: d.path.clone(),
                    mountpoint: d.mountpoint.clone(),
                    label: d.label.clone(),
                    uuid: d.uuid.clone(),
                });
                assert forall|k: int| 0 <= k < out@.len() implies volume_view(#[trigger] out@[k])
                    == volume_of(ds[esp_indices(ds, (i + 1) as nat)[k]]) by {
                    if k < before.len() {
                        assert(out@[k] == before[k]);
                    }
                }
            }
        }
        i += 1;
    }
    proof {
        let ei = esp_indices(ds, ds.len());
        lemma_esp_volumes_unique(ds);
        assert forall|k: int| 0 <= k < out@.len() implies {
            let d = ds[ei[k]];
            &&& (#[trigger] out@[k]).path@ == d.path@
            &&& opt_view(out@[k].mountpoint) == opt_view(d.mountpoint)
            &&& opt_view(out@[k].label) == opt_view(d.label)
            &&& opt_view(out@[k].uuid) == opt_view(d.uuid)
            &&& d.esp()
        } by {
            assert(volume_view(out@[k]) == volume_of(ds[ei[k]]));
        }
        assert forall|a: int, b: int| 0 <= a < b < out@.len() implies (#[trigger] out@[a]).path@
            != (#[trigger] out@[b]).path@ by {
            assert(volume_view(out@[a]) == volume_of(ds[ei[a]]));
            assert(volume_view(out@[b]) == volume_of(ds[ei[b]]));
            assert(ds[ei[a]].path@ != ds[ei[b]].path@);
        }
        assert forall|i: int| 0 <= i < ds.len() && (#[trigger] ds[i]).esp() implies exists|k: int|
            0 <= k < out@.len() && (#[trigger] out@[k]).path@ == ds[i].path@ by {
            assert(path_covered(ds, ei, i));
            let k = choose|k: int| 0 <= k < ei.len() && ds[#[trigger] ei[k]].path@ == ds[i].path@;
            assert(volume_view(out@[k]) == volume_of(ds[ei[k]]));
        }
    }
    out
}

// ── lsblk ───────────────────────────────────────────────────────────────────

/// The columns of one `lsblk -J` record, each present only where it is a string.
pub struct LsblkRecord {
    pub name: Option<String>,
    pub path: Option<String>,
    pub kind: Option<String>,
    pub fstype: Option<String>,
    pub parttype: Option<String>,
    pub label: Option<String>,
    pub uuid: Option<String>,
    pub mountpoint: Option<String>,
}

/// A top-level `lsblk` device and its direct children.
pub struct LsblkNode {
    pub record: LsblkRecord,
    pub children: Vec<LsblkRecord>,
}

/// The device a record describes: a missing name is empty, a missing path
/// is `/dev/<name>`, a missing type is empty.
pub open spec fn dev_spec(r: LsblkRecord) -> (Seq<char>, Seq<char>, Seq<char>) {
    let name = match r.name {
        Some(n) => n@,
        None => seq![],
    };
    (
        name,
        match r.path {
            Some(p) => p@,
            None => "/dev/"@ + name,
        },
        match r.kind {
            Some(k) => k@,
            None => seq![],
        },
    )
}

/// Whether device `d` is what record `r` describes.
pub open spec fn dev_from(d: BlockDev, r: LsblkRecord) -> bool {
    &&& (d.name@, d.path@, d.kind@) == dev_spec(r)
    &&& opt_view(d.fstype) == opt_view(r.fstype)
    &&& opt_view(d.parttype) == opt_view(r.parttype)
    &&& opt_view(d.label) == opt_view(r.label)
    &&& opt_view(d.uuid) == opt_view(r.uuid)
    &&& opt_view(d.mountpoint) == opt_view(r.mountpoint)
}

fn text_or_empty(o: &Option<String>) -> (r: String)
    ensures
        r@ == match *o {
            Some(s) => s@,
            None => Seq::<char>::empty(),
        },
{
    match o {
        Some(s) => s.clone(),
        None => chars_to_string(&Vec::new()),
    }
}

/// The block device one `lsblk` record describes.
pub fn dev_from_record(r: &LsblkRecord) -> (d: BlockDev)
    ensures
        dev_from(d, *r),
{
    let name = text_or_empty(&r.name);
    let path = match &r.path {
        Some(p) => p.clone(),
        None => {
            let mut v = str_chars("/dev/");
            push_str(&mut v, name.as_str());
            chars_to_string(&v)
        },
    };
    BlockDev {
        name,
        path,
        kind: text_or_empty(&r.kind),
        fstype: r.fstype.clone(),
        parttype: r.parttype.clone(),
        label: r.label.clone(),
        uuid: r.uuid.clone(),
        mountpoint: r.mountpoint.clone(),
    }
}

/// The records of `lsblk`'s tree in listing order: each top-level device,
/// then its direct children.
pub open spec fn flatten(ns: Seq<LsblkNode>) -> Seq<LsblkRecord>
    decreases ns.len(),
{
    if ns.len() == 0 {
        seq![]
    } else {
        flatten(ns.drop_last()) + seq![ns.last().record] + ns.last().children@
    }
}

/// Every device of an `lsblk -J` listing (`None`: no `blockdevices` array),
/// each top-level device followed by its direct children.
pub fn devices_from_lsblk(nodes: &Option<Vec<LsblkNode>>) -> (r: Vec<BlockDev>)
    ensures
        match nodes {
            Some(ns) => r@.len() == flatten(ns@).len() && forall|k: int|
                0 <= k < r@.len() ==> dev_from(#[trigger] r@[k], flatten(ns@)[k]),
            None => r@.len() == 0,
        },
{
    let mut out: Vec<BlockDev> = Vec::new();
    match nodes {
        None => out,
        Some(ns) => {
            let mut i: usize = 0;
            while i < ns.len()
                invariant
                    0 <= i <= ns@.len(),
                    out@.len() == flatten(ns@.take(i as int)).len(),
                    forall|k: int| 0 <= k < out@.len() ==> dev_from(#[trigger] out@[k], flatten(ns@.take(i as int))[k]),
                decreases ns@.len() - i,
            {
                let ghost f0 = flatten(ns@.take(i as int));
                assert(ns@.take(i + 1).drop_last() =~= ns@.take(i as int));
                let n = &ns[i];
                let ghost before = out@;
                out.push(dev_from_record(&n.record));
                let mut c: usize = 0;
                while c < n.children.len()
                    invariant
                        0 <= c <= n.children@.len(),
                        out@.len() == before.len() + 1 + c,
                        before.len() == f0.len(),
                        forall|k: int| 0 <= k < before.len() ==> out@[k] == before[k],
                        dev_from(out@[before.len() as int], n.record),
                        forall|k: int| 0 <= k < c ==> dev_from(#[trigger] out@[before.len() + 1 + k], n.children@[k]),
                    decreases n.children@.len() - c,
                {
                    let ghost prev = out@;
                    out.push(dev_from_record(&n.children[c]));
                    assert(out@[prev.len() as int] == out@.last());
                    c += 1;
                }
                let ghost f1 = flatten(ns@.take(i + 1));
                assert(f1 == f0 + seq![n.record] + n.children@);
                assert forall|k: int| 0 <= k < out@.len() implies dev_from(#[trigger] out@[k], f1[k]) by {
                    if k < before.len() {
                        assert(out@[k] == before[k]);
                    } else if k == before.len() {
                    } else {
                        let t = k - before.len() - 1;
                        assert(out@[before.len() + 1 + t] == out@[k]);
                    }
                }
                i += 1;
            }
            assert(ns@.take(ns@.len() as int) =~= ns@);
            out
        },
    }
}

// ── The mount table ─────────────────────────────────────────────────────────

/// `u8::is_ascii_whitespace`: space, tab, newline, form feed, carriage return.
pub open spec fn is_ascii_ws(c: char) -> bool {
    c == ' ' || c == '\t' || c == '\n' || c == '\x0C' || c == '\r'
}

/// The words of `s` split at ASCII whitespace, empty words skipped
/// (`str::split_ascii_whitespace`).
pub open spec fn words_of(s: Seq<char>) -> Seq<Seq<char>>
    decreases s.len(),
{
    if s.len() == 0 {
        seq![]
    } else {
        let r = words_of(s.drop_last());
        let c = s.last();
        if is_ascii_ws(c) {
            r
        } else if s.len() >= 2 && !is_ascii_ws(s[s.len() - 2]) {
            r.drop_last().push(r.last().push(c))
        } else {
            r.push(seq![c])
        }
    }
}

proof fn lemma_words_nonempty(s: Seq<char>)
    ensures
        s.len() >= 1 && !is_ascii_ws(s.last()) ==> words_of(s).len() >= 1,
        s.len() >= 1 && !is_ascii_ws(s.last()) ==> words_of(s).last().len() >= 1 && words_of(s).last().last() == s.last(),
    decreases s.len(),
{
    if s.len() >= 2 {
        lemma_words_nonempty(s.drop_last());
    }
}

/// The first two words of each line of the mount table: source and target.
pub open spec fn mount_pairs_spec(text: Seq<char>) -> Seq<(Seq<char>, Seq<char>)> {
    mount_pairs_of(lines_of(text))
}

/// The source and target of each line with at least two words.
pub open spec fn mount_pairs_of(ls: Seq<Seq<char>>) -> Seq<(Seq<char>, Seq<char>)>
    decreases ls.len(),
{
    if ls.len() == 0 {
        seq![]
    } else {
        let r = mount_pairs_of(ls.drop_last());
        let w = words_of(ls.last());
        if w.len() >= 2 {
            r.push((w[0], w[1]))
        } else {
            r
        }
    }
}

fn ascii_ws(c: char) -> (b: bool)
    ensures
        b == is_ascii_ws(c),
{
    c == ' ' || c == '\t' || c == '\n' || c == '\x0C' || c == '\r'
}

/// The words of a line.
fn words(s: &[char]) -> (v: Vec<Vec<char>>)
    ensures
        v@.map_values(|w: Vec<char>| w@) == words_of(s@),
{
    let mut out: Vec<Vec<char>> = Vec::new();
    let mut cur: Vec<char> = Vec::new();
    let mut i: usize = 0;
    while i < s.len()
        invariant
            0 <= i <= s@.len(),
            cur@.len() > 0 ==> i > 0 && !is_ascii_ws(s@[i - 1]),
            i > 0 && !is_ascii_ws(s@[i - 1]) ==> cur@.len() > 0,
            cur@.len() > 0 ==> out@.map_values(|w: Vec<char>| w@).push(cur@) == words_of(s@.take(i as int)),
            cur@.len() == 0 ==> out@.map_values(|w: Vec<char>| w@) == words_of(s@.take(i as int)),
        decreases s@.len() - i,
    {
        let c = s[i];
        let ghost t = s@.take(i + 1);
        assert(t.drop_last() =~= s@.take(i as int));
        let ghost ov = out@.map_values(|w: Vec<char>| w@);
        if ascii_ws(c) {
            if cur.len() > 0 {
                let w = cur;
                cur = Vec::new();
                out.push(w);
                assert(out@.map_values(|w: Vec<char>| w@) =~= ov.push(w@));
            }
        } else {
            let ghost cv = cur@;
            cur.push(c);
            if i > 0 && !ascii_ws(s[i - 1]) {
                assert(t[t.len() - 2] == s@[i - 1]);
                assert(words_of(s@.take(i as int)) == ov.push(cv));
                assert(words_of(t) =~= ov.push(cur@));
            } else {
                assert(cv.len() == 0);
                assert(cur@ =~= seq![c]);
                if i > 0 {
                    assert(t[t.len() - 2] == s@[i - 1]);
                }
                assert(words_of(t) == words_of(s@.take(i as int)).push(seq![c]));
                assert(words_of(t) =~= ov.push(cur@));
            }
        }
        i += 1;
    }
    assert(s@.take(s@.len() as int) =~= s@);
    if cur.len() > 0 {
        let ghost ov = out@.map_values(|w: Vec<char>| w@);
        let w = cur;
        out.push(w);
        assert(out@.map_values(|w: Vec<char>| w@) =~= ov.push(w@));
    }
    out
}

/// The source and target of every line of the mount table that has both.
pub fn mount_pairs(text: &str) -> (r: Vec<(String, String)>)
    ensures
        r@.map_values(|p: (String, String)| (p.0@, p.1@)) == mount_pairs_spec(text@),
{
    let cs = str_chars(text);
    let ls = split_lines(&cs);
    let ghost lv = ls@.map_values(|l: Vec<char>| l@);
    let mut out: Vec<(String, String)> = Vec::new();
    let mut i: usize = 0;
    while i < ls.len()
        invariant
            0 <= i <= ls@.len(),
            lv == ls@.map_values(|l: Vec<char>| l@),
            lv == lines_of(text@),
            out@.map_values(|p: (String, String)| (p.0@, p.1@)) == mount_pairs_of(lv.take(i as int)),
        decreases ls@.len() - i,
    {
        let ghost ov = out@.map_values(|p: (String, String)| (p.0@, p.1@));
        let w = words(&ls[i]);
        assert(lv.take(i + 1).drop_last() =~= lv.take(i as int));
        assert(lv.take(i + 1).last() == ls@[i as int]@);
        if w.len() >= 2 {
            let a = chars_to_string(&w[0]);
            let b = chars_to_string(&w[1]);
            out.push((a, b));
            assert(out@.map_values(|p: (String, String)| (p.0@, p.1@)) =~= ov.push((a@, b@)));
        }
        i += 1;
    }
    assert(lv.take(ls@.len() as int) =~= lv);
    out
}

/// The text after the last `/` (all of `s` without one).
pub open spec fn last_segment(s: Seq<char>) -> Seq<char> {
    s.skip(last_index_of(s, '/') + 1)
}

/// The device a mount-table line describes: an ESP when its target holds
/// an `EFI` directory.
pub open spec fn mount_dev_spec(src: Seq<char>, dest: Seq<char>, esp: bool) -> (Seq<char>, Seq<char>, Seq<char>, Option<Seq<char>>, Option<Seq<char>>, Option<Seq<char>>) {
    (
        last_segment(src),
        src,
        if src.len() >= 5 && src.take(5) == "/dev/"@ { "part"@ } else { "other"@ },
        if esp { Some("vfat"@) } else { None },
        if esp { Some(ESP_GPT_UUID@) } else { None },
        Some(dest),
    )
}

/// The block device for one mount (`src` mounted on `dest`), when `lsblk`
/// is unavailable; `esp` tells whether `dest` holds an `EFI` directory.
pub fn device_from_mount(src: &str, dest: &str, esp: bool) -> (d: BlockDev)
    ensures
        (d.name@, d.path@, d.kind@, opt_view(d.fstype), opt_view(d.parttype), opt_view(d.mountpoint))
            == mount_dev_spec(src@, dest@, esp),
        d.label is None,
        d.uuid is None,
{
    let s = str_chars(src);
    let mut k: usize = s.len();
    while k > 0 && s[k - 1] != '/'
        invariant
            0 <= k <= s@.len(),
            forall|j: int| k <= j < s@.len() ==> s@[j] != '/',
        decreases k,
    {
        k -= 1;
    }
    proof {
        lemma_last_index_of(s@, '/');
        if k > 0 {
            assert(s@[k - 1] == '/');
        }
        assert(last_index_of(s@, '/') == k - 1);
    }
    let mut name: Vec<char> = Vec::new();
    let mut j: usize = k;
    while j < s.len()
        invariant
            k <= j <= s@.len(),
            name@ == s@.subrange(k as int, j as int),
        decreases s@.len() - j,
    {
        name.push(s[j]);
        j += 1;
        assert(name@ =~= s@.subrange(k as int, j as int));
    }
    assert(name@ =~= last_segment(src@));
    let dev_prefix = s.len() >= 5 && s[0] == '/' && s[1] == 'd' && s[2] == 'e' && s[3] == 'v' && s[4] == '/';
    proof {
        reveal_strlit("/dev/");
        if s@.len() >= 5 {
            if dev_prefix {
                assert(s@.take(5) =~= "/dev/"@);
            } else {
                assert(s@.take(5) != "/dev/"@) by {
                    if s@.take(5) == "/dev/"@ {
                        assert(s@[0] == s@.take(5)[0]);
                        assert(s@[1] == s@.take(5)[1]);
                        assert(s@[2] == s@.take(5)[2]);
                        assert(s@[3] == s@.take(5)[3]);
                        assert(s@[4] == s@.take(5)[4]);
                    }
                }
            }
        }
    }
    BlockDev {
        name: chars_to_string(&name),
        path: chars_to_string(&s),
        kind: if dev_prefix {
            chars_to_string(&str_chars("part"))
        } else {
            chars_to_string(&str_chars("other"))
        },
        fstype: if esp {
            Some(chars_to_string(&str_chars("vfat")))
        } else {
            None
        },
        parttype: if esp {
            Some(chars_to_string(&str_chars(ESP_GPT_UUID)))
        } else {
            None
        },
        label: None,
        uuid: None,
        mountpoint: Some(chars_to_string(&str_chars(dest))),
    }
}


// ── Boot entries ────────────────────────────────────────────────────────────

/// A real OS or bootloader entry discovered on an ESP.
pub struct BootEntry {
    pub label: String,
    /// Path relative to the ESP root with forward slashes, e.g.
    /// `EFI/BOOT/BOOTX64.EFI`, or an absolute path for `/boot` finds.
    pub path: String,
}

/// The view of an entry: label and path.
pub open spec fn entry_view(e: BootEntry) -> (Seq<char>, Seq<char>) {
    (e.label@, e.path@)
}

/// The code of the ASCII lowercase of one character; others unchanged.
pub open spec fn ascii_lower(c: char) -> int {
    if 'A' <= c && c <= 'Z' {
        (c as u32) + 32
    } else {
        c as u32 as int
    }
}

/// `eq_ignore_ascii_case`.
pub open spec fn eq_ic(a: Seq<char>, b: Seq<char>) -> bool {
    a.len() == b.len() && forall|i: int| 0 <= i < a.len() ==> ascii_lower(#[trigger] a[i]) == ascii_lower(b[i])
}

fn lower_char(c: char) -> (r: u32)
    ensures
        r == ascii_lower(c),
{
    if 'A' <= c && c <= 'Z' {
        (c as u32) + 32
    } else {
        c as u32
    }
}

/// Whether `a` equals `b` ignoring ASCII case.
pub fn eq_ignore_case(a: &[char], b: &str) -> (r: bool)
    ensures
        r == eq_ic(a@, b@),
{
    let bc = str_chars(b);
    if a.len() != bc.len() {
        return false;
    }
    let mut i: usize = 0;
    while i < a.len()
        invariant
            0 <= i <= a@.len(),
            a@.len() == bc@.len(),
            bc@ == b@,
            forall|j: int| 0 <= j < i ==> ascii_lower(#[trigger] a@[j]) == ascii_lower(bc@[j]),
        decreases a@.len() - i,
    {
        if lower_char(a[i]) != lower_char(bc[i]) {
            return false;
        }
        i += 1;
    }
    true
}

/// `Path::file_stem` and `Path::extension` of a file name: the text before
/// and after the last `.`, unless the only `.` leads the name (or there is
/// none, or the name is `..`).
pub open spec fn stem_ext(f: Seq<char>) -> (Seq<char>, Option<Seq<char>>) {
    let i = last_index_of(f, '.');
    if f == ".."@ || i <= 0 {
        (f, None)
    } else {
        (f.take(i), Some(f.skip(i + 1)))
    }
}

/// Whether a file name's extension is `ext`, ignoring ASCII case.
pub open spec fn has_ext(f: Seq<char>, ext: Seq<char>) -> bool {
    match stem_ext(f).1 {
        Some(e) => eq_ic(e, ext),
        None => false,
    }
}

fn stem_and_ext(f: &[char]) -> (r: (Vec<char>, Option<Vec<char>>))
    ensures
        r.0@ == stem_ext(f@).0,
        match r.1 {
            Some(e) => stem_ext(f@).1 == Some(e@),
            None => stem_ext(f@).1 is None,
        },
{
    let mut k: usize = f.len();
    while k > 0 && f[k - 1] != '.'
        invariant
            0 <= k <= f@.len(),
            forall|j: int| k <= j < f@.len() ==> f@[j] != '.',
        decreases k,
    {
        k -= 1;
    }
    proof {
        lemma_last_index_of(f@, '.');
        if k > 0 {
            assert(f@[k - 1] == '.');
        }
        assert(last_index_of(f@, '.') == k - 1);
        reveal_strlit("..");
    }
    let dotdot = f.len() == 2 && f[0] == '.' && f[1] == '.';
    assert(dotdot == (f@ == ".."@)) by {
        if f@ == ".."@ {
            assert(f@[0] == '.' && f@[1] == '.');
        }
        if dotdot {
            assert(f@ =~= ".."@);
        }
    }
    if dotdot || k <= 1 {
        (copy_chars(f, 0, f.len()), None)
    } else {
        let stem = copy_chars(f, 0, k - 1);
        let ext = copy_chars(f, k, f.len());
        assert(stem@ =~= f@.take(k - 1));
        assert(ext@ =~= f@.skip(k as int));
        (stem, Some(ext))
    }
}

fn copy_chars(s: &[char], a: usize, b: usize) -> (v: Vec<char>)
    requires
        a <= b <= s@.len(),
    ensures
        v@ == s@.subrange(a as int, b as int),
{
    crate::text::copy_range(s, a, b)
}

fn file_has_ext(f: &[char], ext: &str) -> (b: bool)
    ensures
        b == has_ext(f@, ext@),
{
    let (_, e) = stem_and_ext(f);
    match e {
        Some(x) => eq_ignore_case(&x, ext),
        None => false,
    }
}

/// `\` turned into `/`.
pub open spec fn slashes(s: Seq<char>) -> Seq<char> {
    s.map_values(|c: char| if c == '\\' { '/' } else { c })
}

fn to_slashes(s: &str) -> (r: String)
    ensures
        r@ == slashes(s@),
{
    let cs = str_chars(s);
    let mut v: Vec<char> = Vec::new();
    let mut i: usize = 0;
    while i < cs.len()
        invariant
            0 <= i <= cs@.len(),
            cs@ == s@,
            v@ == slashes(cs@.take(i as int)),
        decreases cs@.len() - i,
    {
        v.push(if cs[i] == '\\' { '/' } else { cs[i] });
        i += 1;
        assert(v@ =~= slashes(cs@.take(i as int)));
    }
    assert(cs@.take(cs@.len() as int) =~= cs@);
    chars_to_string(&v)
}

fn last_seg(s: &[char]) -> (v: Vec<char>)
    ensures
        v@ == last_segment(s@),
{
    let mut k: usize = s.len();
    while k > 0 && s[k - 1] != '/'
        invariant
            0 <= k <= s@.len(),
            forall|j: int| k <= j < s@.len() ==> s@[j] != '/',
        decreases k,
    {
        k -= 1;
    }
    proof {
        lemma_last_index_of(s@, '/');
        if k > 0 {
            assert(s@[k - 1] == '/');
        }
        assert(last_index_of(s@, '/') == k - 1);
    }
    let v = copy_chars(s, k, s.len());
    assert(v@ =~= last_segment(s@));
    v
}

/// A file name is its stem, a `.` and its extension, and the extension holds
/// no `.` (the stem ends at the last `.`); a name without an extension is
/// its own stem. The stem of a name with an extension is never empty.
pub proof fn lemma_stem_ext(f: Seq<char>)
    ensures
        match stem_ext(f).1 {
            Some(e) => {
                &&& stem_ext(f).0 + seq!['.'] + e == f
                &&& !e.contains('.')
                &&& stem_ext(f).0.len() > 0
            },
            None => stem_ext(f).0 == f,
        },
{
    lemma_last_index_of(f, '.');
    let i = last_index_of(f, '.');
    if let Some(e) = stem_ext(f).1 {
        assert(f.take(i) + seq!['.'] + f.skip(i + 1) =~= f);
        assert forall|j: int| 0 <= j < e.len() implies e[j] != '.' by {
            assert(e[j] == f[i + 1 + j]);
        }
    }
}

/// The entry for a file found under an ESP's `EFI` directory, at `rel`
/// below it: `.efi` files only (any case), labelled by their stem.
pub open spec fn efi_file_spec(rel: Seq<char>) -> Option<(Seq<char>, Seq<char>)> {
    let name = last_segment(rel);
    if has_ext(name, "efi"@) {
        Some((stem_ext(name).0, "EFI/"@ + slashes(rel)))
    } else {
        None
    }
}

/// The path of an ESP entry is `EFI/` followed by its place below the `EFI`
/// directory, character for character, with each `\` turned into `/`.
pub proof fn lemma_efi_path(rel: Seq<char>)
    ensures
        efi_file_spec(rel) matches Some((l, p)) ==> {
            &&& p.len() == rel.len() + 4
            &&& p.take(4) == "EFI/"@
            &&& forall|i: int| 0 <= i < rel.len() ==> #[trigger] p[4 + i] == if rel[i] == '\\' {
                '/'
            } else {
                rel[i]
            }
        },
{
    reveal_strlit("EFI/");
    if let Some((l, p)) = efi_file_spec(rel) {
        assert(p.take(4) =~= "EFI/"@);
    }
}

/// The boot entry for the file at `rel` below an ESP's `EFI` directory,
/// if it is an `.efi` file.
pub fn efi_file_entry(rel: &str) -> (r: Option<BootEntry>)
    ensures
        match r {
            Some(e) => efi_file_spec(rel@) == Some(entry_view(e)),
            None => efi_file_spec(rel@) is None,
        },
        r matches Some(e) ==> exists|x: Seq<char>|
            e.label@ + seq!['.'] + x == last_segment(rel@) && !x.contains('.') && #[trigger] eq_ic(x, "efi"@),
{
    let rc = str_chars(rel);
    let name = last_seg(&rc);
    if !file_has_ext(&name, "efi") {
        return None;
    }
    let (stem, _) = stem_and_ext(&name);
    let mut p = str_chars("EFI/");
    let sl = to_slashes(rel);
    push_str(&mut p, sl.as_str());
    proof {
        lemma_stem_ext(name@);
        let x = stem_ext(name@).1->0;
        assert(eq_ic(x, "efi"@));
    }
    Some(BootEntry { label: chars_to_string(&stem), path: chars_to_string(&p) })
}

/// The text after `prefix` when `s` starts with it.
pub open spec fn strip_prefix(s: Seq<char>, prefix: Seq<char>) -> Option<Seq<char>> {
    if s.len() >= prefix.len() && s.take(prefix.len() as int) == prefix {
        Some(s.skip(prefix.len() as int))
    } else {
        None
    }
}

fn strip_prefix_chars(s: &[char], prefix: &str) -> (r: Option<Vec<char>>)
    ensures
        match r {
            Some(v) => strip_prefix(s@, prefix@) == Some(v@),
            None => strip_prefix(s@, prefix@) is None,
        },
{
    let p = str_chars(prefix);
    if s.len() < p.len() {
        return None;
    }
    let head = copy_chars(s, 0, p.len());
    assert(head@ =~= s@.take(p@.len() as int));
    if !chars_eq(&head, &p) {
        return None;
    }
    let rest = copy_chars(s, p.len(), s.len());
    assert(rest@ =~= s@.skip(p@.len() as int));
    Some(rest)
}

/// The title of a systemd-boot entry: the first line that, trimmed,
/// starts with `title `, after that word, trimmed.
pub open spec fn title_of(ls: Seq<Seq<char>>) -> Option<Seq<char>>
    decreases ls.len(),
{
    if ls.len() == 0 {
        None
    } else {
        match strip_prefix(crate::text::trim(ls[0]), "title "@) {
            Some(t) => Some(crate::text::trim(t)),
            None => title_of(ls.drop_first()),
        }
    }
}

/// The entry a systemd-boot `.conf` file at `rel` (relative to the ESP)
/// describes, labelled by its title.
pub open spec fn systemd_spec(rel: Seq<char>, content: Seq<char>) -> Option<(Seq<char>, Seq<char>)> {
    if !has_ext(last_segment(rel), "conf"@) {
        None
    } else {
        match title_of(lines_of(content)) {
            Some(t) => Some((t, slashes(rel))),
            None => None,
        }
    }
}

/// The boot entry of a systemd-boot loader entry file, if it is a `.conf`
/// file with a title.
pub fn systemd_entry(rel: &str, content: &str) -> (r: Option<BootEntry>)
    ensures
        match r {
            Some(e) => systemd_spec(rel@, content@) == Some(entry_view(e)),
            None => systemd_spec(rel@, content@) is None,
        },
{
    let rc = str_chars(rel);
    let name = last_seg(&rc);
    if !file_has_ext(&name, "conf") {
        return None;
    }
    let cs = str_chars(content);
    let ls = split_lines(&cs);
    let ghost lv = ls@.map_values(|l: Vec<char>| l@);
    let mut i: usize = 0;
    assert(lv.skip(0) =~= lv);
    while i < ls.len()
        invariant
            0 <= i <= ls@.len(),
            lv == ls@.map_values(|l: Vec<char>| l@),
            lv == lines_of(content@),
            has_ext(last_segment(rel@), "conf"@),
            title_of(lv) == title_of(lv.skip(i as int)),
        decreases ls@.len() - i,
    {
        assert(lv.skip(i as int)[0] == ls@[i as int]@);
        assert(lv.skip(i as int).drop_first() =~= lv.skip(i + 1));
        let t = crate::text::trim_chars(&ls[i]);
        match strip_prefix_chars(&t, "title ") {
            Some(rest) => {
                let title = crate::text::trim_chars(&rest);
                assert(title_of(lv.skip(i as int)) == Some(crate::text::trim(rest@)));
                let path = to_slashes(rel);
                let label = chars_to_string(&title);
                assert(title_of(lines_of(content@)) == Some(label@));
                assert(has_ext(last_segment(rel@), "conf"@));
                return Some(BootEntry { label, path });
            },
            None => {},
        }
        i += 1;
    }
    assert(lv.skip(i as int) =~= seq![]);
    None
}

/// The name a GRUB `menuentry` line gives, if it starts (after leading
/// whitespace) with `menuentry ` and a quoted title.
pub open spec fn menuentry_name(line: Seq<char>) -> Option<Seq<char>> {
    match strip_prefix(crate::text::trim_start(line), "menuentry "@) {
        Some(rest) => if rest.len() > 0 && rest[0] == '\'' {
            Some(crate::text::before_first(rest.drop_first(), '\''))
        } else if rest.len() > 0 && rest[0] == '"' {
            Some(crate::text::before_first(rest.drop_first(), '"'))
        } else {
            None
        },
        None => None,
    }
}

/// The entries of the `menuentry` lines among `ls`, in order.
pub open spec fn grub_spec(ls: Seq<Seq<char>>, path: Seq<char>) -> Seq<(Seq<char>, Seq<char>)>
    decreases ls.len(),
{
    if ls.len() == 0 {
        seq![]
    } else {
        let r = grub_spec(ls.drop_last(), path);
        match menuentry_name(ls.last()) {
            Some(n) => r.push((n, path)),
            None => r,
        }
    }
}

fn trim_start_chars(s: &[char]) -> (v: Vec<char>)
    ensures
        v@ == crate::text::trim_start(s@),
{
    let mut a: usize = 0;
    while a < s.len() && crate::text::char_is_ws(s[a])
        invariant
            0 <= a <= s@.len(),
            forall|j: int| 0 <= j < a ==> crate::text::is_ws(#[trigger] s@[j]),
        decreases s@.len() - a,
    {
        a += 1;
    }
    proof {
        crate::text::lemma_trim_start_is(s@, a as int);
    }
    copy_chars(s, a, s.len())
}

fn menuentry(line: &[char]) -> (r: Option<Vec<char>>)
    ensures
        match r {
            Some(v) => menuentry_name(line@) == Some(v@),
            None => menuentry_name(line@) is None,
        },
{
    let t = trim_start_chars(line);
    match strip_prefix_chars(&t, "menuentry ") {
        Some(rest) => {
            if rest.len() > 0 && (rest[0] == '\'' || rest[0] == '"') {
                let q = rest[0];
                let body = copy_chars(&rest, 1, rest.len());
                assert(body@ =~= rest@.drop_first());
                let j = crate::text::find_char(&body, q);
                proof {
                    crate::text::lemma_index_of(body@, q);
                }
                let name = copy_chars(&body, 0, j);
                assert(name@ =~= crate::text::before_first(body@, q));
                Some(name)
            } else {
                None
            }
        },
        None => None,
    }
}

/// The boot entries of a GRUB config at `rel` (relative to the ESP): one
/// per `menuentry` line with a quoted title.
pub fn grub_entries(rel: &str, content: &str) -> (r: Vec<BootEntry>)
    ensures
        r@.map_values(|e: BootEntry| entry_view(e)) == grub_spec(lines_of(content@), slashes(rel@)),
{
    let cs = str_chars(content);
    let ls = split_lines(&cs);
    let ghost lv = ls@.map_values(|l: Vec<char>| l@);
    let path = to_slashes(rel);
    let mut out: Vec<BootEntry> = Vec::new();
    let mut i: usize = 0;
    while i < ls.len()
        invariant
            0 <= i <= ls@.len(),
            lv == ls@.map_values(|l: Vec<char>| l@),
            lv == lines_of(content@),
            path@ == slashes(rel@),
            out@.map_values(|e: BootEntry| entry_view(e)) == grub_spec(lv.take(i as int), path@),
        decreases ls@.len() - i,
    {
        let ghost ov = out@.map_values(|e: BootEntry| entry_view(e));
        assert(lv.take(i + 1).drop_last() =~= lv.take(i as int));
        assert(lv.take(i + 1).last() == ls@[i as int]@);
        match menuentry(&ls[i]) {
            Some(n) => {
                let e = BootEntry { label: chars_to_string(&n), path: path.clone() };
                out.push(e);
                assert(out@.map_values(|e: BootEntry| entry_view(e)) =~= ov.push((n@, path@)));
            },
            None => {},
        }
        i += 1;
    }
    assert(lv.take(ls@.len() as int) =~= lv);
    out
}

/// Whether a file name is `grub.cfg`, ignoring ASCII case.
pub fn is_grub_cfg(name: &str) -> (b: bool)
    ensures
        b == eq_ic(name@, "grub.cfg"@),
{
    let n = str_chars(name);
    eq_ignore_case(&n, "grub.cfg")
}

// ── EFI-capable files ───────────────────────────────────────────────────────

/// The little-endian `u32` at `at`.
pub open spec fn le32(b: Seq<u8>, at: int) -> int {
    b[at] + b[at + 1] * 0x100 + b[at + 2] * 0x10000 + b[at + 3] * 0x1000000
}

/// A PE/COFF image: a 64-byte DOS header starting `MZ` whose `e_lfanew`
/// (offset `0x3c`) points at the `PE\0\0` signature.
pub open spec fn pe_image(b: Seq<u8>) -> bool {
    &&& b.len() >= 64
    &&& b[0] == 0x4d && b[1] == 0x5a
    &&& le32(b, 0x3c) + 4 <= b.len()
    &&& b[le32(b, 0x3c)] == 0x50 && b[le32(b, 0x3c) + 1] == 0x45
    &&& b[le32(b, 0x3c) + 2] == 0 && b[le32(b, 0x3c) + 3] == 0
}

/// Whether the file with contents `b` is a PE/COFF executable.
pub fn is_pe_image(b: &[u8]) -> (r: bool)
    ensures
        r == pe_image(b@),
{
    if b.len() < 64 || b[0] != 0x4d || b[1] != 0x5a {
        return false;
    }
    let e: u64 = (b[0x3c] as u64) + (b[0x3d] as u64) * 0x100 + (b[0x3e] as u64) * 0x10000 + (b[0x3f] as u64)
        * 0x1000000;
    assert(e == le32(b@, 0x3c));
    if e + 4 > b.len() as u64 {
        return false;
    }
    let i = e as usize;
    b[i] == 0x50 && b[i + 1] == 0x45 && b[i + 2] == 0 && b[i + 3] == 0
}

/// How much of a file is searched for the EFI-stub marker.
pub const STUB_WINDOW: usize = 65536;

/// ASCII lowercase of a byte.
pub open spec fn lower_byte(x: u8) -> u8 {
    if 0x41 <= x && x <= 0x5a {
        (x + 32) as u8
    } else {
        x
    }
}

/// `efi stub` as bytes.
pub open spec fn stub_marker() -> Seq<u8> {
    seq![0x65u8, 0x66, 0x69, 0x20, 0x73, 0x74, 0x75, 0x62]
}

/// Whether `efi stub` occurs, ignoring ASCII case, at `i` of `h`.
pub open spec fn marker_at(h: Seq<u8>, i: int) -> bool {
    0 <= i && i + 8 <= h.len() && forall|k: int| 0 <= k < 8 ==> lower_byte(#[trigger] h[i + k]) == stub_marker()[k]
}

/// The part of a file searched for the marker: its first 64 KiB.
pub open spec fn stub_head(b: Seq<u8>) -> Seq<u8> {
    if b.len() > STUB_WINDOW {
        b.take(STUB_WINDOW as int)
    } else {
        b
    }
}

/// An ELF file carrying the ASCII marker "efi stub" (any case) in its
/// first 64 KiB: an EFI-stub kernel.
pub open spec fn elf_efi_stub(b: Seq<u8>) -> bool {
    let h = stub_head(b);
    &&& h.len() >= 4
    &&& h[0] == 0x7f && h[1] == 0x45 && h[2] == 0x4c && h[3] == 0x46
    &&& exists|i: int| #[trigger] marker_at(h, i)
}

fn lower_u8(x: u8) -> (r: u8)
    ensures
        r == lower_byte(x),
{
    if 0x41 <= x && x <= 0x5a {
        x + 32
    } else {
        x
    }
}

/// Whether the file with contents `b` is an EFI-stub kernel.
pub fn is_elf_efi_stub(b: &[u8]) -> (r: bool)
    ensures
        r == elf_efi_stub(b@),
{
    let n = if b.len() > STUB_WINDOW {
        STUB_WINDOW
    } else {
        b.len()
    };
    let ghost h = stub_head(b@);
    assert(h.len() == n);
    assert(forall|k: int| 0 <= k < n ==> h[k] == b@[k]);
    if n < 4 || b[0] != 0x7f || b[1] != 0x45 || b[2] != 0x4c || b[3] != 0x46 {
        return false;
    }
    if n < 8 {
        assert forall|i: int| !marker_at(h, i) by {}
        return false;
    }
    assert(h[0] == b@[0] && h[1] == b@[1] && h[2] == b@[2] && h[3] == b@[3]);
    let m: [u8; 8] = [0x65, 0x66, 0x69, 0x20, 0x73, 0x74, 0x75, 0x62];
    assert(m@ =~= stub_marker());
    let mut i: usize = 0;
    while i <= n - 8
        invariant
            8 <= n <= b@.len(),
            h.len() == n,
            forall|k: int| 0 <= k < n ==> h[k] == b@[k],
            m@ == stub_marker(),
            i <= n - 7,
            h == stub_head(b@),
            h[0] == 0x7f && h[1] == 0x45 && h[2] == 0x4c && h[3] == 0x46,
            forall|j: int| 0 <= j < i ==> !marker_at(h, j),
        decreases n - i,
    {
        let mut k: usize = 0;
        let mut ok = true;
        while k < 8
            invariant
                0 <= k <= 8,
                i + 8 <= n <= b@.len(),
                h.len() == n,
                forall|t: int| 0 <= t < n ==> h[t] == b@[t],
                m@ == stub_marker(),
                ok == forall|t: int| 0 <= t < k ==> lower_byte(#[trigger] h[i + t]) == stub_marker()[t],
            decreases 8 - k,
        {
            assert(h[i + k] == b@[i + k]);
            assert(m@[k as int] == stub_marker()[k as int]);
            if lower_u8(b[i + k]) != m[k] {
                ok = false;
            }
            k += 1;
        }
        if ok {
            assert(marker_at(h, i as int));
            return true;
        }
        i += 1;
    }
    assert forall|j: int| !marker_at(h, j) by {
        if 0 <= j < i {
        }
    }
    false
}

/// The label of a file found under `/boot`, if it is EFI-capable: an
/// `.efi` file (any case) that is a PE image, or an EFI-stub kernel.
pub open spec fn boot_label_spec(name: Seq<char>, pe: bool, stub: bool) -> Option<Seq<char>> {
    if (has_ext(name, "efi"@) && pe) || stub {
        Some(stem_ext(name).0)
    } else {
        None
    }
}

/// The label of the file `name` under `/boot` whose contents are `bytes`,
/// if it is EFI-capable.
pub fn boot_label(name: &str, bytes: &[u8]) -> (r: Option<String>)
    ensures
        opt_view(r) == boot_label_spec(name@, pe_image(bytes@), elf_efi_stub(bytes@)),
        r matches Some(l) ==> l@ == name@ || exists|x: Seq<char>|
            l@ + seq!['.'] + x == name@ && !(#[trigger] x.contains('.')),
{
    let n = str_chars(name);
    let efi = file_has_ext(&n, "efi");
    if (efi && is_pe_image(bytes)) || is_elf_efi_stub(bytes) {
        let (stem, _) = stem_and_ext(&n);
        proof {
            lemma_stem_ext(n@);
            if let Some(x) = stem_ext(n@).1 {
                assert(stem@ + seq!['.'] + x == name@ && !x.contains('.'));
            }
        }
        Some(chars_to_string(&stem))
    } else {
        None
    }
}


// ── Merging the two scans ───────────────────────────────────────────────────

/// An entry with the canonical path of its file: (label, path, key).
pub open spec fn keyed_view(x: (BootEntry, String)) -> (Seq<char>, Seq<char>, Seq<char>) {
    (x.0.label@, x.0.path@, x.1@)
}

/// Whether an earlier item has the same label and file as item `i`.
pub open spec fn dup_before(s: Seq<(Seq<char>, Seq<char>, Seq<char>)>, i: int) -> bool {
    exists|j: int| 0 <= j < i && #[trigger] s[j].0 == s[i].0 && s[j].2 == s[i].2
}

/// The first `n` items with later repeats of a (label, file) pair dropped.
pub open spec fn dedup_spec(s: Seq<(Seq<char>, Seq<char>, Seq<char>)>, n: nat) -> Seq<(Seq<char>, Seq<char>, Seq<char>)>
    decreases n,
{
    if n == 0 {
        seq![]
    } else {
        let r = dedup_spec(s, (n - 1) as nat);
        if dup_before(s, n - 1) {
            r
        } else {
            r.push(s[n - 1])
        }
    }
}

/// Lexicographic order of texts by code point (the order of `String`).
pub open spec fn lex_le(a: Seq<char>, b: Seq<char>) -> bool
    decreases a.len(),
{
    if a.len() == 0 {
        true
    } else if b.len() == 0 {
        false
    } else if (a[0] as u32) < (b[0] as u32) {
        true
    } else if (a[0] as u32) > (b[0] as u32) {
        false
    } else {
        lex_le(a.drop_first(), b.drop_first())
    }
}

/// `e` placed after every element of `s` whose label is not greater.
pub open spec fn ins(s: Seq<(Seq<char>, Seq<char>, Seq<char>)>, e: (Seq<char>, Seq<char>, Seq<char>)) -> Seq<(Seq<char>, Seq<char>, Seq<char>)>
    decreases s.len(),
{
    if s.len() == 0 {
        seq![e]
    } else if lex_le(s.last().0, e.0) {
        s.push(e)
    } else {
        ins(s.drop_last(), e).push(s.last())
    }
}

/// `s` stably sorted by label.
pub open spec fn sort_spec(s: Seq<(Seq<char>, Seq<char>, Seq<char>)>) -> Seq<(Seq<char>, Seq<char>, Seq<char>)>
    decreases s.len(),
{
    if s.len() == 0 {
        s
    } else {
        ins(sort_spec(s.drop_last()), s.last())
    }
}

/// What the merge of the ESP scan and the `/boot` scan holds, keys included.
pub open spec fn merged(esp: Seq<(Seq<char>, Seq<char>, Seq<char>)>, boot: Seq<(Seq<char>, Seq<char>, Seq<char>)>) -> Seq<(Seq<char>, Seq<char>, Seq<char>)> {
    sort_spec(dedup_spec(esp + boot, (esp + boot).len()))
}

/// The label and path of each merged item.
pub open spec fn drop_keys(s: Seq<(Seq<char>, Seq<char>, Seq<char>)>) -> Seq<(Seq<char>, Seq<char>)> {
    s.map_values(|x: (Seq<char>, Seq<char>, Seq<char>)| (x.0, x.1))
}

/// Whether `a <= b` as texts.
pub fn lex_le_text(a: &[char], b: &[char]) -> (r: bool)
    ensures
        r == lex_le(a@, b@),
{
    lex_le_chars(a, b)
}

fn lex_le_chars(a: &[char], b: &[char]) -> (r: bool)
    ensures
        r == lex_le(a@, b@),
{
    let mut i: usize = 0;
    assert(a@.skip(0) =~= a@);
    assert(b@.skip(0) =~= b@);
    while i < a.len() && i < b.len()
        invariant
            0 <= i <= a@.len(),
            i <= b@.len(),
            lex_le(a@, b@) == lex_le(a@.skip(i as int), b@.skip(i as int)),
        decreases a@.len() - i,
    {
        let x = a[i] as u32;
        let y = b[i] as u32;
        assert(a@.skip(i as int)[0] == a@[i as int]);
        assert(b@.skip(i as int)[0] == b@[i as int]);
        if x < y {
            return true;
        }
        if x > y {
            return false;
        }
        assert(a@.skip(i as int).drop_first() =~= a@.skip(i + 1));
        assert(b@.skip(i as int).drop_first() =~= b@.skip(i + 1));
        i += 1;
    }
    if i >= a.len() {
        assert(a@.skip(i as int).len() == 0);
        true
    } else {
        assert(b@.skip(i as int).len() == 0);
        false
    }
}

proof fn lemma_ins_split(s: Seq<(Seq<char>, Seq<char>, Seq<char>)>, e: (Seq<char>, Seq<char>, Seq<char>), p: int)
    requires
        0 <= p <= s.len(),
        forall|j: int| p <= j < s.len() ==> !lex_le(#[trigger] s[j].0, e.0),
        p == 0 || lex_le(s[p - 1].0, e.0),
    ensures
        ins(s, e) == s.take(p).push(e) + s.skip(p),
    decreases s.len(),
{
    if s.len() == 0 {
        assert(s.take(p).push(e) + s.skip(p) =~= seq![e]);
    } else if p == s.len() {
        assert(s.take(p).push(e) + s.skip(p) =~= s.push(e));
    } else {
        let t = s.drop_last();
        assert(!lex_le(s.last().0, e.0));
        assert forall|j: int| p <= j < t.len() implies !lex_le(#[trigger] t[j].0, e.0) by {
            assert(t[j] == s[j]);
        }
        if p > 0 {
            assert(t[p - 1] == s[p - 1]);
        }
        lemma_ins_split(t, e, p);
        assert(ins(s, e) == ins(t, e).push(s.last()));
        assert(t.take(p).push(e) + t.skip(p) + seq![s.last()] =~= s.take(p).push(e) + s.skip(p));
    }
}

/// Inserts `x` into `v`, which is sorted by label, after every element
/// whose label is not greater.
fn insert_sorted(v: &mut Vec<(BootEntry, String)>, x: (BootEntry, String))
    ensures
        final(v)@.map_values(|y: (BootEntry, String)| keyed_view(y))
            == ins(old(v)@.map_values(|y: (BootEntry, String)| keyed_view(y)), keyed_view(x)),
{
    let ghost sv = v@.map_values(|y: (BootEntry, String)| keyed_view(y));
    let xl = str_chars(x.0.label.as_str());
    let mut p: usize = v.len();
    let mut stop = false;
    while p > 0 && !stop
        invariant
            0 <= p <= v@.len(),
            sv == v@.map_values(|y: (BootEntry, String)| keyed_view(y)),
            xl@ == x.0.label@,
            forall|j: int| p <= j < sv.len() ==> !lex_le(#[trigger] sv[j].0, xl@),
            stop ==> p > 0 && lex_le(sv[p - 1].0, xl@),
        decreases p + if stop { 0int } else { 1int },
    {
        let l = str_chars(v[p - 1].0.label.as_str());
        assert(sv[p - 1].0 == l@);
        if lex_le_chars(&l, &xl) {
            stop = true;
        } else {
            p -= 1;
        }
    }
    proof {
        if p > 0 {
            assert(lex_le(sv[p - 1].0, xl@));
        }
        lemma_ins_split(sv, keyed_view(x), p as int);
    }
    let ghost before = v@;
    v.insert(p, x);
    assert(v@.map_values(|y: (BootEntry, String)| keyed_view(y)) =~= sv.take(p as int).push(keyed_view(x)) + sv.skip(p as int));
}

/// Merges the entries of the ESP scan and of the `/boot` scan, each with
/// the canonical path of its file: a (label, file) pair seen before is
/// dropped, so the same physical file reported under two spellings appears
/// once and the ESP-relative form wins; entries that share a file but not a
/// label (several GRUB menu entries of one `grub.cfg`) are kept. The result
/// is sorted by label, stably.
pub fn merge_entries(esp: Vec<(BootEntry, String)>, boot: Vec<(BootEntry, String)>) -> (r: Vec<BootEntry>)
    ensures
        r@.map_values(|e: BootEntry| entry_view(e)) == drop_keys(merged(
            esp@.map_values(|x: (BootEntry, String)| keyed_view(x)),
            boot@.map_values(|x: (BootEntry, String)| keyed_view(x)),
        )),
        forall|i: int, j: int| 0 <= i < j < r@.len() ==> lex_le((#[trigger] r@[i]).label@, (#[trigger] r@[j]).label@),
        ({
            let ev = esp@.map_values(|x: (BootEntry, String)| keyed_view(x));
            let bv = boot@.map_values(|x: (BootEntry, String)| keyed_view(x));
            &&& pairs_unique(merged(ev, bv))
            &&& forall|k: int| 0 <= k < (ev + bv).len() ==> represented(merged(ev, bv), #[trigger] (ev + bv)[k])
            &&& forall|k: int| 0 <= k < ev.len() && #[trigger] dup_before(ev + bv, k) ==> exists|j: int| 0 <= j < k
                && same_pair(#[trigger] ev[j], ev[k])
        }),
{
    let ghost ev = esp@.map_values(|x: (BootEntry, String)| keyed_view(x));
    let ghost bv = boot@.map_values(|x: (BootEntry, String)| keyed_view(x));
    let mut all: Vec<(BootEntry, String)> = esp;
    let mut more = boot;
    all.append(&mut more);
    let ghost s = all@.map_values(|x: (BootEntry, String)| keyed_view(x));
    assert(s =~= ev + bv);
    let mut sorted: Vec<(BootEntry, String)> = Vec::new();
    let mut i: usize = 0;
    while i < all.len()
        invariant
            0 <= i <= all@.len(),
            s == all@.map_values(|x: (BootEntry, String)| keyed_view(x)),
            sorted@.map_values(|y: (BootEntry, String)| keyed_view(y)) == sort_spec(dedup_spec(s, i as nat)),
        decreases all@.len() - i,
    {
        let la = str_chars(all[i].0.label.as_str());
        let ka = str_chars(all[i].1.as_str());
        let mut dup = false;
        let mut j: usize = 0;
        while j < i
            invariant
                0 <= j <= i < all@.len(),
                s == all@.map_values(|x: (BootEntry, String)| keyed_view(x)),
                la@ == s[i as int].0,
                ka@ == s[i as int].2,
                !dup ==> forall|t: int| 0 <= t < j ==> !(#[trigger] s[t].0 == s[i as int].0 && s[t].2 == s[i as int].2),
                dup ==> dup_before(s, i as int),
            decreases i - j,
        {
            if !dup {
                let lb = str_chars(all[j].0.label.as_str());
                let kb = str_chars(all[j].1.as_str());
                if chars_eq(&la, &lb) && chars_eq(&ka, &kb) {
                    assert(s[j as int].0 == s[i as int].0 && s[j as int].2 == s[i as int].2);
                    dup = true;
                }
            }
            j += 1;
        }
        proof {
            if !dup {
                assert(!dup_before(s, i as int));
            }
        }
        assert(dedup_spec(s, (i + 1) as nat) == if dup_before(s, i as int) {
            dedup_spec(s, i as nat)
        } else {
            dedup_spec(s, i as nat).push(s[i as int])
        });
        if !dup {
            let item = (
                BootEntry { label: all[i].0.label.clone(), path: all[i].0.path.clone() },
                all[i].1.clone(),
            );
            assert(keyed_view(item) == s[i as int]);
            insert_sorted(&mut sorted, item);
            assert(dedup_spec(s, i as nat).push(s[i as int]).drop_last() =~= dedup_spec(s, i as nat));
        }
        i += 1;
    }
    let mut out: Vec<BootEntry> = Vec::new();
    let ghost sv = sorted@.map_values(|y: (BootEntry, String)| keyed_view(y));
    let mut k: usize = 0;
    while k < sorted.len()
        invariant
            0 <= k <= sorted@.len(),
            sv == sorted@.map_values(|y: (BootEntry, String)| keyed_view(y)),
            out@.map_values(|e: BootEntry| entry_view(e)) == drop_keys(sv.take(k as int)),
        decreases sorted@.len() - k,
    {
        let ghost ov = out@.map_values(|e: BootEntry| entry_view(e));
        let e = BootEntry { label: sorted[k].0.label.clone(), path: sorted[k].0.path.clone() };
        out.push(e);
        assert(drop_keys(sv.take(k + 1)) =~= drop_keys(sv.take(k as int)).push((sv[k as int].0, sv[k as int].1)));
        assert(out@.map_values(|e: BootEntry| entry_view(e)) =~= ov.push(entry_view(e)));
        k += 1;
    }
    assert(sv.take(sorted@.len() as int) =~= sv);
    assert(all@.len() == s.len());
    proof {
        lemma_merge_laws(ev, bv);
        let m = merged(ev, bv);
        let ov = out@.map_values(|e: BootEntry| entry_view(e));
        assert forall|i: int, j: int| 0 <= i < j < out@.len() implies lex_le(
            (#[trigger] out@[i]).label@,
            (#[trigger] out@[j]).label@,
        ) by {
            assert(ov[i] == entry_view(out@[i]) && ov[j] == entry_view(out@[j]));
            assert(drop_keys(m)[i] == (m[i].0, m[i].1));
            assert(drop_keys(m)[j] == (m[j].0, m[j].1));
            assert(lex_le(m[i].0, m[j].0));
        }
    }
    out
}


// ── Laws of the merge ───────────────────────────────────────────────────────

/// Any two texts are ordered one way or the other.
pub proof fn lemma_lex_total(a: Seq<char>, b: Seq<char>)
    ensures
        lex_le(a, b) || lex_le(b, a),
    decreases a.len(),
{
    if a.len() > 0 && b.len() > 0 && (a[0] as u32) == (b[0] as u32) {
        lemma_lex_total(a.drop_first(), b.drop_first());
    }
}

/// The order of texts is transitive.
pub proof fn lemma_lex_trans(a: Seq<char>, b: Seq<char>, c: Seq<char>)
    requires
        lex_le(a, b),
        lex_le(b, c),
    ensures
        lex_le(a, c),
    decreases a.len(),
{
    if a.len() > 0 && b.len() > 0 && c.len() > 0 && (a[0] as u32) == (b[0] as u32) && (b[0] as u32) == (c[0] as u32) {
        lemma_lex_trans(a.drop_first(), b.drop_first(), c.drop_first());
    }
}

/// Items in non-decreasing label order.
pub open spec fn sorted_by_label(s: Seq<(Seq<char>, Seq<char>, Seq<char>)>) -> bool {
    forall|i: int, j: int| 0 <= i < j < s.len() ==> lex_le(#[trigger] s[i].0, #[trigger] s[j].0)
}

proof fn lemma_ins_perm(t: Seq<(Seq<char>, Seq<char>, Seq<char>)>, e: (Seq<char>, Seq<char>, Seq<char>))
    ensures
        ins(t, e).to_multiset() =~= t.to_multiset().insert(e),
    decreases t.len(),
{
    broadcast use vstd::seq_lib::group_to_multiset_ensures;

    if t.len() == 0 {
        assert(seq![e] =~= Seq::<(Seq<char>, Seq<char>, Seq<char>)>::empty().push(e));
        assert(t =~= Seq::<(Seq<char>, Seq<char>, Seq<char>)>::empty());
    } else if lex_le(t.last().0, e.0) {
    } else {
        let u = t.drop_last();
        lemma_ins_perm(u, e);
        assert(t =~= u.push(t.last()));
        assert(ins(t, e).to_multiset() =~= ins(u, e).to_multiset().insert(t.last()));
    }
}

proof fn lemma_ins_sorted(t: Seq<(Seq<char>, Seq<char>, Seq<char>)>, e: (Seq<char>, Seq<char>, Seq<char>))
    requires
        sorted_by_label(t),
    ensures
        sorted_by_label(ins(t, e)),
    decreases t.len(),
{
    broadcast use vstd::seq_lib::group_to_multiset_ensures;

    if t.len() == 0 {
    } else if lex_le(t.last().0, e.0) {
        let r = t.push(e);
        assert forall|i: int, j: int| 0 <= i < j < r.len() implies lex_le(#[trigger] r[i].0, #[trigger] r[j].0) by {
            if j == t.len() && i < t.len() - 1 {
                lemma_lex_trans(t[i].0, t.last().0, e.0);
            }
        }
    } else {
        let u = t.drop_last();
        let l = t.last();
        lemma_ins_sorted(u, e);
        lemma_ins_perm(u, e);
        lemma_lex_total(l.0, e.0);
        let v = ins(u, e);
        let r = v.push(l);
        assert forall|i: int| 0 <= i < v.len() implies lex_le(#[trigger] v[i].0, l.0) by {
            assert(v.contains(v[i]));
            assert(v.to_multiset().count(v[i]) > 0);
            if v[i] != e {
                assert(u.to_multiset().count(v[i]) > 0);
                assert(u.contains(v[i]));
                let k = choose|k: int| 0 <= k < u.len() && u[k] == v[i];
                assert(t[k] == u[k]);
                assert(lex_le(t[k].0, t[t.len() - 1].0));
            }
        }
        assert forall|i: int, j: int| 0 <= i < j < r.len() implies lex_le(#[trigger] r[i].0, #[trigger] r[j].0) by {
            if j == v.len() {
                assert(r[i] == v[i]);
            } else {
                assert(r[i] == v[i] && r[j] == v[j]);
            }
        }
    }
}

/// Sorting orders by label and keeps exactly the items it was given.
pub proof fn lemma_sort_spec(s: Seq<(Seq<char>, Seq<char>, Seq<char>)>)
    ensures
        sorted_by_label(sort_spec(s)),
        sort_spec(s).to_multiset() =~= s.to_multiset(),
    decreases s.len(),
{
    broadcast use vstd::seq_lib::group_to_multiset_ensures;

    if s.len() > 0 {
        lemma_sort_spec(s.drop_last());
        lemma_ins_sorted(sort_spec(s.drop_last()), s.last());
        lemma_ins_perm(sort_spec(s.drop_last()), s.last());
        assert(s =~= s.drop_last().push(s.last()));
    }
}

/// Same label and same file.
pub open spec fn same_pair(a: (Seq<char>, Seq<char>, Seq<char>), b: (Seq<char>, Seq<char>, Seq<char>)) -> bool {
    a.0 == b.0 && a.2 == b.2
}

/// Whether some item of `d` has the label and file of `x`.
pub open spec fn represented(d: Seq<(Seq<char>, Seq<char>, Seq<char>)>, x: (Seq<char>, Seq<char>, Seq<char>)) -> bool {
    exists|m: int| 0 <= m < d.len() && same_pair(#[trigger] d[m], x)
}

/// No two items of `d` share label and file.
pub open spec fn pairs_unique(d: Seq<(Seq<char>, Seq<char>, Seq<char>)>) -> bool {
    forall|i: int, j: int| 0 <= i < j < d.len() ==> !same_pair(#[trigger] d[i], #[trigger] d[j])
}

proof fn lemma_dedup_from(s: Seq<(Seq<char>, Seq<char>, Seq<char>)>, n: nat)
    requires
        n <= s.len(),
    ensures
        forall|m: int| 0 <= m < dedup_spec(s, n).len() ==> exists|k: int| 0 <= k < n && s[k] == #[trigger] dedup_spec(s, n)[m],
    decreases n,
{
    if n > 0 {
        let n1 = (n - 1) as nat;
        lemma_dedup_from(s, n1);
        let r = dedup_spec(s, n1);
        if !dup_before(s, n - 1) {
            let d = r.push(s[n - 1]);
            assert forall|m: int| 0 <= m < d.len() implies exists|k: int| 0 <= k < n && s[k] == #[trigger] d[m] by {
                if m == r.len() {
                    assert(s[n - 1] == d[m]);
                } else {
                    assert(d[m] == r[m]);
                }
            }
        }
    }
}

proof fn lemma_dedup_unique(s: Seq<(Seq<char>, Seq<char>, Seq<char>)>, n: nat)
    requires
        n <= s.len(),
    ensures
        pairs_unique(dedup_spec(s, n)),
    decreases n,
{
    if n > 0 {
        let n1 = (n - 1) as nat;
        lemma_dedup_unique(s, n1);
        lemma_dedup_from(s, n1);
        let r = dedup_spec(s, n1);
        if !dup_before(s, n - 1) {
            let d = r.push(s[n - 1]);
            assert forall|i: int, j: int| 0 <= i < j < d.len() implies !same_pair(#[trigger] d[i], #[trigger] d[j]) by {
                assert(d[i] == r[i]);
                if j == r.len() {
                    let k = choose|k: int| 0 <= k < n1 && s[k] == #[trigger] r[i];
                    if same_pair(d[i], d[j]) {
                        assert(s[k].0 == s[n - 1].0 && s[k].2 == s[n - 1].2);
                        assert(dup_before(s, n - 1));
                    }
                } else {
                    assert(d[j] == r[j]);
                }
            }
        }
    }
}

proof fn lemma_dedup_covers(s: Seq<(Seq<char>, Seq<char>, Seq<char>)>, n: nat)
    requires
        n <= s.len(),
    ensures
        forall|k: int| 0 <= k < n ==> represented(dedup_spec(s, n), #[trigger] s[k]),
    decreases n,
{
    if n > 0 {
        let n1 = (n - 1) as nat;
        lemma_dedup_covers(s, n1);
        let r = dedup_spec(s, n1);
        if dup_before(s, n - 1) {
            let j = choose|j: int| 0 <= j < n - 1 && #[trigger] s[j].0 == s[n - 1].0 && s[j].2 == s[n - 1].2;
            assert(represented(r, s[j]));
            let m = choose|m: int| 0 <= m < r.len() && same_pair(#[trigger] r[m], s[j]);
            assert(same_pair(r[m], s[n - 1]));
        } else {
            let d = r.push(s[n - 1]);
            assert forall|k: int| 0 <= k < n implies represented(d, #[trigger] s[k]) by {
                if k == n - 1 {
                    assert(same_pair(d[r.len() as int], s[k]));
                } else {
                    assert(represented(r, s[k]));
                    let m = choose|m: int| 0 <= m < r.len() && same_pair(#[trigger] r[m], s[k]);
                    assert(d[m] == r[m]);
                }
            }
        }
    }
}

/// Inserting `e` keeps exactly the (label, file) pairs of `t` and `e`, and
/// keeps them distinct when `e`'s pair is new.
proof fn lemma_ins_pairs(t: Seq<(Seq<char>, Seq<char>, Seq<char>)>, e: (Seq<char>, Seq<char>, Seq<char>))
    ensures
        forall|x: (Seq<char>, Seq<char>, Seq<char>)|
            #[trigger] represented(ins(t, e), x) <==> represented(t, x) || same_pair(e, x),
        pairs_unique(t) && !represented(t, e) ==> pairs_unique(ins(t, e)),
    decreases t.len(),
{
    let r = ins(t, e);
    if t.len() == 0 {
        assert forall|x: (Seq<char>, Seq<char>, Seq<char>)| #[trigger] represented(r, x) <==> represented(t, x)
            || same_pair(e, x) by {
            if same_pair(e, x) {
                assert(same_pair(r[0], x));
            }
        }
    } else if lex_le(t.last().0, e.0) {
        assert forall|x: (Seq<char>, Seq<char>, Seq<char>)| #[trigger] represented(r, x) <==> represented(t, x)
            || same_pair(e, x) by {
            if represented(r, x) {
                let m = choose|m: int| 0 <= m < r.len() && same_pair(#[trigger] r[m], x);
                if m < t.len() {
                    assert(r[m] == t[m]);
                }
            }
            if represented(t, x) {
                let m = choose|m: int| 0 <= m < t.len() && same_pair(#[trigger] t[m], x);
                assert(r[m] == t[m]);
            }
            if same_pair(e, x) {
                assert(same_pair(r[t.len() as int], x));
            }
        }
        if pairs_unique(t) && !represented(t, e) {
            assert forall|i: int, j: int| 0 <= i < j < r.len() implies !same_pair(#[trigger] r[i], #[trigger] r[j]) by {
                if j == t.len() {
                    assert(r[i] == t[i]);
                    if same_pair(r[i], r[j]) {
                        assert(same_pair(t[i], e));
                    }
                } else {
                    assert(r[i] == t[i] && r[j] == t[j]);
                }
            }
        }
    } else {
        let u = t.drop_last();
        let l = t.last();
        let q = ins(u, e);
        lemma_ins_pairs(u, e);
        assert(r == q.push(l));
        assert forall|x: (Seq<char>, Seq<char>, Seq<char>)| #[trigger] represented(r, x) <==> represented(t, x)
            || same_pair(e, x) by {
            if represented(r, x) {
                let m = choose|m: int| 0 <= m < r.len() && same_pair(#[trigger] r[m], x);
                if m < q.len() {
                    assert(r[m] == q[m]);
                    assert(represented(q, x));
                    if represented(u, x) {
                        let k = choose|k: int| 0 <= k < u.len() && same_pair(#[trigger] u[k], x);
                        assert(t[k] == u[k]);
                    }
                } else {
                    assert(same_pair(t[t.len() - 1], x));
                }
            }
            if represented(t, x) {
                let m = choose|m: int| 0 <= m < t.len() && same_pair(#[trigger] t[m], x);
                if m < u.len() {
                    assert(u[m] == t[m]);
                    assert(represented(u, x));
                    assert(represented(q, x));
                    let k = choose|k: int| 0 <= k < q.len() && same_pair(#[trigger] q[k], x);
                    assert(r[k] == q[k]);
                } else {
                    assert(same_pair(r[q.len() as int], x));
                }
            }
            if same_pair(e, x) {
                assert(represented(q, x));
                let k = choose|k: int| 0 <= k < q.len() && same_pair(#[trigger] q[k], x);
                assert(r[k] == q[k]);
            }
        }
        if pairs_unique(t) && !represented(t, e) {
            assert(pairs_unique(u)) by {
                assert forall|i: int, j: int| 0 <= i < j < u.len() implies !same_pair(#[trigger] u[i], #[trigger] u[j]) by {
                    assert(u[i] == t[i] && u[j] == t[j]);
                }
            }
            assert(!represented(u, e)) by {
                if represented(u, e) {
                    let k = choose|k: int| 0 <= k < u.len() && same_pair(#[trigger] u[k], e);
                    assert(t[k] == u[k]);
                }
            }
            assert(!represented(u, l)) by {
                if represented(u, l) {
                    let k = choose|k: int| 0 <= k < u.len() && same_pair(#[trigger] u[k], l);
                    assert(t[k] == u[k]);
                    assert(!same_pair(t[k], t[t.len() - 1]));
                }
            }
            assert(!same_pair(e, l)) by {
                if same_pair(e, l) {
                    assert(same_pair(t[t.len() - 1], e));
                }
            }
            assert forall|i: int, j: int| 0 <= i < j < r.len() implies !same_pair(#[trigger] r[i], #[trigger] r[j]) by {
                if j == q.len() {
                    assert(r[i] == q[i]);
                    if same_pair(r[i], r[j]) {
                        assert(same_pair(q[i], l));
                        assert(represented(q, l));
                    }
                } else {
                    assert(r[i] == q[i] && r[j] == q[j]);
                }
            }
        }
    }
}

/// Sorting keeps exactly the (label, file) pairs, and keeps distinct ones
/// distinct.
proof fn lemma_sort_pairs(s: Seq<(Seq<char>, Seq<char>, Seq<char>)>)
    ensures
        forall|x: (Seq<char>, Seq<char>, Seq<char>)|
            #[trigger] represented(sort_spec(s), x) <==> represented(s, x),
        pairs_unique(s) ==> pairs_unique(sort_spec(s)),
    decreases s.len(),
{
    if s.len() > 0 {
        let u = s.drop_last();
        let l = s.last();
        lemma_sort_pairs(u);
        lemma_ins_pairs(sort_spec(u), l);
        assert forall|x: (Seq<char>, Seq<char>, Seq<char>)| #[trigger] represented(sort_spec(s), x)
            <==> represented(s, x) by {
            if represented(u, x) {
                let k = choose|k: int| 0 <= k < u.len() && same_pair(#[trigger] u[k], x);
                assert(s[k] == u[k]);
            }
            if represented(s, x) {
                let k = choose|k: int| 0 <= k < s.len() && same_pair(#[trigger] s[k], x);
                if k < u.len() {
                    assert(u[k] == s[k]);
                    assert(represented(u, x));
                }
            }
        }
        if pairs_unique(s) {
            assert forall|i: int, j: int| 0 <= i < j < u.len() implies !same_pair(#[trigger] u[i], #[trigger] u[j]) by {
                assert(u[i] == s[i] && u[j] == s[j]);
            }
            if represented(u, l) {
                let k = choose|k: int| 0 <= k < u.len() && same_pair(#[trigger] u[k], l);
                assert(s[k] == u[k]);
                assert(!same_pair(s[k], s[s.len() - 1]));
            }
            assert(!represented(sort_spec(u), l));
        }
    }
}

/// What the merge promises: the result is ordered by label and holds
/// exactly the deduplicated items; no label and file occur together twice;
/// every (label, file) of either scan is represented; and an item of the
/// ESP scan is only dropped for an earlier ESP item with its label and
/// file, so the ESP-relative spelling of a file wins over its `/boot` one.
pub proof fn lemma_merge_laws(esp: Seq<(Seq<char>, Seq<char>, Seq<char>)>, boot: Seq<(Seq<char>, Seq<char>, Seq<char>)>)
    ensures
        sorted_by_label(merged(esp, boot)),
        merged(esp, boot).to_multiset() =~= dedup_spec(esp + boot, (esp + boot).len()).to_multiset(),
        pairs_unique(dedup_spec(esp + boot, (esp + boot).len())),
        forall|k: int| 0 <= k < (esp + boot).len() ==> represented(
            dedup_spec(esp + boot, (esp + boot).len()),
            #[trigger] (esp + boot)[k],
        ),
        forall|k: int| 0 <= k < esp.len() && #[trigger] dup_before(esp + boot, k) ==> exists|j: int| 0 <= j < k
            && same_pair(#[trigger] esp[j], esp[k]),
        pairs_unique(merged(esp, boot)),
        forall|k: int| 0 <= k < (esp + boot).len() ==> represented(merged(esp, boot), #[trigger] (esp + boot)[k]),
{
    let s = esp + boot;
    lemma_sort_pairs(dedup_spec(s, s.len()));
    lemma_dedup_unique(s, s.len());
    lemma_dedup_covers(s, s.len());
    lemma_sort_spec(dedup_spec(s, s.len()));
    assert forall|k: int| 0 <= k < esp.len() && #[trigger] dup_before(s, k) implies exists|j: int| 0 <= j < k
        && same_pair(#[trigger] esp[j], esp[k]) by {
        let j = choose|j: int| 0 <= j < k && #[trigger] s[j].0 == s[k].0 && s[j].2 == s[k].2;
        assert(s[j] == esp[j] && s[k] == esp[k]);
        assert(same_pair(esp[j], esp[k]));
    }
}


// ── Laws of ESP selection ───────────────────────────────────────────────────

/// Whether some volume of `r` has the path of device `i`.
pub open spec fn path_covered(ds: Seq<BlockDev>, r: Seq<int>, i: int) -> bool {
    exists|k: int| 0 <= k < r.len() && ds[#[trigger] r[k]].path@ == ds[i].path@
}

/// No two of the picked devices share a path.
pub open spec fn paths_distinct(ds: Seq<BlockDev>, r: Seq<int>) -> bool {
    forall|a: int, b: int| 0 <= a < b < r.len() ==> ds[#[trigger] r[a]].path@ != ds[#[trigger] r[b]].path@
}

proof fn lemma_esp_picks(ds: Seq<BlockDev>, n: nat)
    requires
        n <= ds.len(),
    ensures
        forall|k: int| 0 <= k < esp_indices(ds, n).len() ==> 0 <= #[trigger] esp_indices(ds, n)[k] < n
            && ds[esp_indices(ds, n)[k]].esp(),
    decreases n,
{
    if n > 0 {
        let m = (n - 1) as nat;
        lemma_esp_picks(ds, m);
        let r = esp_indices(ds, m);
        let i = n - 1;
        if ds[i].esp() && !seen_before(ds, i) {
            let q = r.push(i);
            assert forall|k: int| 0 <= k < q.len() implies 0 <= #[trigger] q[k] < n && ds[q[k]].esp() by {
                if k < r.len() {
                    assert(q[k] == r[k]);
                }
            }
        }
    }
}

proof fn lemma_esp_distinct(ds: Seq<BlockDev>, n: nat)
    requires
        n <= ds.len(),
    ensures
        paths_distinct(ds, esp_indices(ds, n)),
    decreases n,
{
    if n > 0 {
        let m = (n - 1) as nat;
        lemma_esp_distinct(ds, m);
        lemma_esp_picks(ds, m);
        let r = esp_indices(ds, m);
        let i = n - 1;
        if ds[i].esp() && !seen_before(ds, i) {
            let q = r.push(i);
            assert forall|a: int, b: int| 0 <= a < b < q.len() implies ds[#[trigger] q[a]].path@ != ds[#[trigger] q[b]].path@ by {
                assert(q[a] == r[a]);
                if b == r.len() {
                    if ds[r[a]].path@ == ds[i].path@ {
                        assert(ds[r[a]].esp() && 0 <= r[a] < i);
                        assert(seen_before(ds, i));
                    }
                } else {
                    assert(q[b] == r[b]);
                }
            }
        }
    }
}

proof fn lemma_esp_covers(ds: Seq<BlockDev>, n: nat)
    requires
        n <= ds.len(),
    ensures
        forall|i: int| 0 <= i < n && #[trigger] ds[i].esp() ==> path_covered(ds, esp_indices(ds, n), i),
    decreases n,
{
    if n > 0 {
        let m = (n - 1) as nat;
        lemma_esp_covers(ds, m);
        let r = esp_indices(ds, m);
        let i = n - 1;
        if ds[i].esp() && !seen_before(ds, i) {
            let q = r.push(i);
            assert forall|j: int| 0 <= j < n && #[trigger] ds[j].esp() implies path_covered(ds, q, j) by {
                if j == i {
                    assert(ds[q[r.len() as int]].path@ == ds[j].path@);
                } else {
                    assert(path_covered(ds, r, j));
                    let k = choose|k: int| 0 <= k < r.len() && ds[#[trigger] r[k]].path@ == ds[j].path@;
                    assert(q[k] == r[k]);
                }
            }
        } else if ds[i].esp() {
            let t = choose|t: int| 0 <= t < i && #[trigger] ds[t].esp() && ds[t].path@ == ds[i].path@;
            assert(path_covered(ds, r, t));
            let k = choose|k: int| 0 <= k < r.len() && ds[#[trigger] r[k]].path@ == ds[t].path@;
            assert(ds[r[k]].path@ == ds[i].path@);
        }
    }
}

/// Every ESP among the devices is reported once: the volumes come from ESP
/// devices, in listing order, no two share a path, and each ESP device's
/// path is among them.
pub proof fn lemma_esp_volumes_unique(ds: Seq<BlockDev>)
    ensures
        forall|k: int| 0 <= k < esp_indices(ds, ds.len()).len() ==> 0 <= #[trigger] esp_indices(ds, ds.len())[k]
            < ds.len() && ds[esp_indices(ds, ds.len())[k]].esp(),
        paths_distinct(ds, esp_indices(ds, ds.len())),
        forall|i: int| 0 <= i < ds.len() && #[trigger] ds[i].esp() ==> path_covered(ds, esp_indices(ds, ds.len()), i),
{
    lemma_esp_picks(ds, ds.len());
    lemma_esp_distinct(ds, ds.len());
    lemma_esp_covers(ds, ds.len());
}

} // verus!
