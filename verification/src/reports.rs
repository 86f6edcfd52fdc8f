//! The texts the informational commands print and the checks they make
//! before acting: architectures, boot-entry lookups, ESP lists, the status
//! and layout reports, saved profiles, and command help.
use vstd::prelude::*;
use crate::boot_config::{BootConfig, field_spec};
use crate::cmd_tree::{Kind, Node, children_of, matches_spec, strs_view};
use crate::discovery::{BlockDev, BootEntry, EspVolume, describe_spec, lex_le, strip_prefix, volume_id};
use crate::boot_config::opt_view;
use crate::text::{
    chars_eq, chars_to_string, contains_chars, contains_seq, dec, dec_chars, lines_of, push_all, push_str,
    split_lines, str_chars, trim, trim_chars,
};

verus! {

// ── Architectures ───────────────────────────────────────────────────────────

/// The refusal of an architecture name.
pub open spec fn arch_error(arch: Seq<char>) -> Seq<char> {
    "unsupported architecture: "@ + arch + " (supported: amd64, arm64)"@
}

fn arch_error_text(arch: &str) -> (r: String)
    ensures
        r@ == arch_error(arch@),
{
    let mut v = str_chars("unsupported architecture: ");
    push_str(&mut v, arch);
    push_str(&mut v, " (supported: amd64, arm64)");
    chars_to_string(&v)
}

/// The UEFI cargo target for a Leon architecture name.
pub fn uefi_target(arch: &str) -> (r: Result<&'static str, String>)
    ensures
        arch@ == "amd64"@ ==> (r matches Ok(t) && t@ == "x86_64-unknown-uefi"@),
        arch@ == "arm64"@ ==> (r matches Ok(t) && t@ == "aarch64-unknown-uefi"@),
        arch@ != "amd64"@ && arch@ != "arm64"@ ==> (r matches Err(e) && e@ == arch_error(arch@)),
{
    proof {
        reveal_strlit("amd64");
        reveal_strlit("arm64");
        assert("amd64"@ != "arm64"@) by {
            assert("amd64"@[1] != "arm64"@[1]);
        }
    }
    let a = str_chars(arch);
    if chars_eq(&a, &str_chars("amd64")) {
        Ok("x86_64-unknown-uefi")
    } else if chars_eq(&a, &str_chars("arm64")) {
        Ok("aarch64-unknown-uefi")
    } else {
        Err(arch_error_text(arch))
    }
}

/// The UEFI-canonical boot file name for a Leon architecture name.
pub fn boot_file(arch: &str) -> (r: Result<&'static str, String>)
    ensures
        arch@ == "amd64"@ ==> (r matches Ok(t) && t@ == "BOOTX64.EFI"@),
        arch@ == "arm64"@ ==> (r matches Ok(t) && t@ == "BOOTAA64.EFI"@),
        arch@ != "amd64"@ && arch@ != "arm64"@ ==> (r matches Err(e) && e@ == arch_error(arch@)),
{
    proof {
        reveal_strlit("amd64");
        reveal_strlit("arm64");
        assert("amd64"@ != "arm64"@) by {
            assert("amd64"@[1] != "arm64"@[1]);
        }
    }
    let a = str_chars(arch);
    if chars_eq(&a, &str_chars("amd64")) {
        Ok("BOOTX64.EFI")
    } else if chars_eq(&a, &str_chars("arm64")) {
        Ok("BOOTAA64.EFI")
    } else {
        Err(arch_error_text(arch))
    }
}

/// The default location of the boot log inside a staged ESP tree.
pub fn default_boot_log() -> (r: &'static str)
    ensures
        r@ == "build/esp/var/logs/leon/log.md"@,
{
    "build/esp/var/logs/leon/log.md"
}

// ── Boot entries ────────────────────────────────────────────────────────────

/// Index of the first entry labelled `name`, or `es.len()`.
pub open spec fn label_index(es: Seq<BootEntry>, name: Seq<char>) -> int
    decreases es.len(),
{
    if es.len() == 0 {
        0
    } else if es[0].label@ == name {
        0
    } else {
        1 + label_index(es.drop_first(), name)
    }
}

proof fn lemma_label_index(es: Seq<BootEntry>, name: Seq<char>)
    ensures
        0 <= label_index(es, name) <= es.len(),
        label_index(es, name) < es.len() ==> es[label_index(es, name)].label@ == name,
        forall|j: int| 0 <= j < label_index(es, name) ==> es[j].label@ != name,
    decreases es.len(),
{
    if es.len() > 0 && es[0].label@ != name {
        lemma_label_index(es.drop_first(), name);
        assert forall|j: int| 0 <= j < label_index(es, name) implies es[j].label@ != name by {
            if j > 0 {
                assert(es[j] == es.drop_first()[j - 1]);
            }
        }
    }
}

/// The first entry labelled `name`, if any.
pub fn find_entry(es: &[BootEntry], name: &str) -> (i: usize)
    ensures
        i == label_index(es@, name@),
{
    proof {
        lemma_label_index(es@, name@);
    }
    let n = str_chars(name);
    let mut i: usize = 0;
    while i < es.len()
        invariant
            0 <= i <= es@.len(),
            n@ == name@,
            forall|j: int| 0 <= j < i ==> es@[j].label@ != name@,
            0 <= label_index(es@, name@) <= es@.len(),
            label_index(es@, name@) < es@.len() ==> es@[label_index(es@, name@)].label@ == name@,
            forall|j: int| 0 <= j < label_index(es@, name@) ==> es@[j].label@ != name@,
        decreases es@.len() - i,
    {
        let l = str_chars(es[i].label.as_str());
        if chars_eq(&l, &n) {
            return i;
        }
        i += 1;
    }
    i
}

/// The refusal for an unknown entry label.
pub open spec fn no_entry_error(name: Seq<char>) -> Seq<char> {
    "no boot entry labelled `"@ + name + "`"@
}

fn no_entry_text(name: &str) -> (r: String)
    ensures
        r@ == no_entry_error(name@),
{
    let mut v = str_chars("no boot entry labelled `");
    push_str(&mut v, name);
    push_str(&mut v, "`");
    chars_to_string(&v)
}

/// `label -> path` for the entry labelled `name`, or the refusal.
pub fn entry_lookup(es: &[BootEntry], name: &str) -> (r: Result<String, String>)
    ensures
        label_index(es@, name@) < es@.len() ==> (r matches Ok(t) && t@ == es@[label_index(es@, name@)].label@
            + " -> "@ + es@[label_index(es@, name@)].path@),
        label_index(es@, name@) >= es@.len() ==> (r matches Err(e) && e@ == no_entry_error(name@)),
{
    let i = find_entry(es, name);
    if i < es.len() {
        let mut v = str_chars(es[i].label.as_str());
        push_str(&mut v, " -> ");
        push_str(&mut v, es[i].path.as_str());
        Ok(chars_to_string(&v))
    } else {
        Err(no_entry_text(name))
    }
}

/// The lines listing entries (`label  path`), or a note that there are none.
pub open spec fn entry_lines_spec(es: Seq<BootEntry>, with_paths: bool) -> Seq<Seq<char>> {
    if es.len() == 0 {
        seq!["no boot entries discovered"@]
    } else {
        es.map_values(|e: BootEntry| if with_paths { e.label@ + "  "@ + e.path@ } else { e.label@ })
    }
}

/// The lines of `entries list` (with paths) or `names list` (labels only).
pub fn entry_lines(es: &[BootEntry], with_paths: bool) -> (v: Vec<String>)
    ensures
        v@.map_values(|s: String| s@) == entry_lines_spec(es@, with_paths),
{
    let mut v: Vec<String> = Vec::new();
    if es.len() == 0 {
        v.push(chars_to_string(&str_chars("no boot entries discovered")));
        assert(v@.map_values(|s: String| s@) =~= entry_lines_spec(es@, with_paths));
        return v;
    }
    let ghost f = |e: BootEntry| if with_paths { e.label@ + "  "@ + e.path@ } else { e.label@ };
    let mut i: usize = 0;
    while i < es.len()
        invariant
            0 <= i <= es@.len(),
            v@.map_values(|s: String| s@) == es@.take(i as int).map_values(f),
            f == (|e: BootEntry| if with_paths { e.label@ + "  "@ + e.path@ } else { e.label@ }),
        decreases es@.len() - i,
    {
        let ghost before = v@.map_values(|s: String| s@);
        let mut t = str_chars(es[i].label.as_str());
        if with_paths {
            push_str(&mut t, "  ");
            push_str(&mut t, es[i].path.as_str());
        }
        v.push(chars_to_string(&t));
        assert(es@.take(i + 1) =~= es@.take(i as int).push(es@[i as int]));
        assert(v@.map_values(|s: String| s@) =~= before.push(f(es@[i as int])));
        i += 1;
    }
    assert(es@.take(es@.len() as int) =~= es@);
    v
}

/// The lines of the ESP list, or a note that there are none.
pub open spec fn esp_lines_spec(es: Seq<EspVolume>) -> Seq<Seq<char>> {
    if es.len() == 0 {
        seq!["no ESP volumes detected"@]
    } else {
        es.map_values(|e: EspVolume| describe_spec(e.path@, opt_view(e.mountpoint), volume_id(opt_view(e.label), opt_view(e.uuid))))
    }
}

/// The lines of `esps`: each ESP described, or a note that there are none.
pub fn esp_lines(es: &[EspVolume]) -> (v: Vec<String>)
    ensures
        v@.map_values(|s: String| s@) == esp_lines_spec(es@),
{
    let mut v: Vec<String> = Vec::new();
    if es.len() == 0 {
        v.push(chars_to_string(&str_chars("no ESP volumes detected")));
        assert(v@.map_values(|s: String| s@) =~= esp_lines_spec(es@));
        return v;
    }
    let ghost f = |e: EspVolume| describe_spec(e.path@, opt_view(e.mountpoint), volume_id(opt_view(e.label), opt_view(e.uuid)));
    let mut i: usize = 0;
    while i < es.len()
        invariant
            0 <= i <= es@.len(),
            v@.map_values(|s: String| s@) == es@.take(i as int).map_values(f),
            f == (|e: EspVolume| describe_spec(e.path@, opt_view(e.mountpoint), volume_id(opt_view(e.label), opt_view(e.uuid)))),
        decreases es@.len() - i,
    {
        let ghost before = v@.map_values(|s: String| s@);
        let d = es[i].describe();
        v.push(d);
        assert(es@.take(i + 1) =~= es@.take(i as int).push(es@[i as int]));
        assert(v@.map_values(|s: String| s@) =~= before.push(f(es@[i as int])));
        i += 1;
    }
    assert(es@.take(es@.len() as int) =~= es@);
    v
}

/// What a one-shot boot of `name` reports, or why it is refused.
pub open spec fn once_spec(es: Seq<BootEntry>, name: Seq<char>) -> Result<Seq<Seq<char>>, Seq<char>> {
    if trim(name).len() == 0 {
        Err("an entry label is required"@)
    } else if label_index(es, name) >= es.len() {
        Err(no_entry_error(name))
    } else {
        let e = es[label_index(es, name)];
        Ok(seq![
            "one-shot boot: "@ + e.label@ + " ("@ + e.path@ + ")"@,
            "to boot it now, pause in the boot-manager menu (Esc at boot),"@,
            "highlight `"@ + e.label@ + "` and press Enter; the next boot reverts to the default."@,
        ])
    }
}

/// Validates a one-shot boot of `name` and the lines reporting it.
pub fn once_lines(es: &[BootEntry], name: &str) -> (r: Result<Vec<String>, String>)
    ensures
        match (r, once_spec(es@, name@)) {
            (Ok(v), Ok(w)) => v@.map_values(|s: String| s@) == w,
            (Err(e), Err(f)) => e@ == f,
            _ => false,
        },
{
    let t = trim_chars(&str_chars(name));
    if t.len() == 0 {
        return Err(chars_to_string(&str_chars("an entry label is required")));
    }
    let i = find_entry(es, name);
    if i >= es.len() {
        return Err(no_entry_text(name));
    }
    let e = &es[i];
    let mut v: Vec<String> = Vec::new();
    let mut a = str_chars("one-shot boot: ");
    push_str(&mut a, e.label.as_str());
    push_str(&mut a, " (");
    push_str(&mut a, e.path.as_str());
    push_str(&mut a, ")");
    v.push(chars_to_string(&a));
    v.push(chars_to_string(&str_chars("to boot it now, pause in the boot-manager menu (Esc at boot),")));
    let mut b = str_chars("highlight `");
    push_str(&mut b, e.label.as_str());
    push_str(&mut b, "` and press Enter; the next boot reverts to the default.");
    v.push(chars_to_string(&b));
    assert(v@.map_values(|s: String| s@) =~= once_spec(es@, name@)->Ok_0);
    Ok(v)
}

// ── Reports ─────────────────────────────────────────────────────────────────

/// A key's value, or `(unset)`.
pub open spec fn field_or_unset(c: crate::boot_config::BootConfigModel, key: Seq<char>) -> Seq<char> {
    match field_spec(c, key) {
        Some(v) => v,
        None => "(unset)"@,
    }
}

fn field_text(c: &BootConfig, key: &str) -> (r: String)
    ensures
        r@ == field_or_unset(c@, key@),
{
    match c.field(key) {
        Some(v) => v,
        None => chars_to_string(&str_chars("(unset)")),
    }
}

/// One `key = value` line of the status report.
pub open spec fn key_line(key: Seq<char>, value: Seq<char>) -> Seq<char> {
    "  "@ + key + " = "@ + value
}

/// The boot-configuration status report.
pub open spec fn status_spec(path: Seq<char>, c: crate::boot_config::BootConfigModel, profiles: nat, esps: nat) -> Seq<Seq<char>> {
    seq![
        "Leon boot configuration status"@,
        "  config: "@ + path,
        key_line("timeout"@, field_or_unset(c, "timeout"@)),
        key_line("default_entry"@, field_or_unset(c, "default_entry"@)),
        key_line("theme"@, field_or_unset(c, "theme"@)),
        key_line("splash"@, field_or_unset(c, "splash"@)),
        key_line("entries_file"@, field_or_unset(c, "entries_file"@)),
        "  profiles: "@ + dec(profiles) + " saved"@,
        "  ESPs: "@ + dec(esps),
    ]
}

fn kv_text(key: &str, value: &String) -> (r: String)
    ensures
        r@ == key_line(key@, value@),
{
    let mut v = str_chars("  ");
    push_str(&mut v, key);
    push_str(&mut v, " = ");
    push_str(&mut v, value.as_str());
    chars_to_string(&v)
}

/// The lines of `status`: the config path, every key the bootloader reads,
/// the number of saved profiles and of detected ESPs.
pub fn status_lines(path: &str, c: &BootConfig, profiles: usize, esps: usize) -> (v: Vec<String>)
    ensures
        v@.map_values(|s: String| s@) == status_spec(path@, c@, profiles as nat, esps as nat),
{
    let mut v: Vec<String> = Vec::new();
    push_line(&mut v, chars_to_string(&str_chars("Leon boot configuration status")));
    let mut p = str_chars("  config: ");
    push_str(&mut p, path);
    push_line(&mut v, chars_to_string(&p));
    push_line(&mut v, kv_text("timeout", &field_text(c, "timeout")));
    push_line(&mut v, kv_text("default_entry", &field_text(c, "default_entry")));
    push_line(&mut v, kv_text("theme", &field_text(c, "theme")));
    push_line(&mut v, kv_text("splash", &field_text(c, "splash")));
    push_line(&mut v, kv_text("entries_file", &field_text(c, "entries_file")));
    let mut q = str_chars("  profiles: ");
    push_all(&mut q, &dec_chars(profiles as u64));
    push_str(&mut q, " saved");
    push_line(&mut v, chars_to_string(&q));
    let mut r = str_chars("  ESPs: ");
    push_all(&mut r, &dec_chars(esps as u64));
    push_line(&mut v, chars_to_string(&r));
    assert(v@.map_values(|s: String| s@) =~= status_spec(path@, c@, profiles as nat, esps as nat));
    v
}

/// Appends a line.
fn push_line(v: &mut Vec<String>, s: String)
    ensures
        final(v)@.map_values(|s: String| s@) == old(v)@.map_values(|s: String| s@).push(s@),
{
    let ghost before = v@;
    v.push(s);
    assert(v@.map_values(|s: String| s@) =~= before.map_values(|s: String| s@).push(s@));
}

/// The line of one detected ESP in the layout report.
pub open spec fn esp_layout_line(e: EspVolume) -> Seq<char> {
    "  ESP: "@ + e.path@ + " ("@ + (match opt_view(e.mountpoint) {
        Some(m) => m,
        None => "not mounted"@,
    }) + ")"@
}

/// The boot volume layout report.
pub open spec fn layout_spec(path: Seq<char>, es: Seq<EspVolume>) -> Seq<Seq<char>> {
    seq!["Leon boot volume layout"@, "  host config: "@ + path] + (if es.len() == 0 {
        seq!["  mounted ESP: none detected"@]
    } else {
        es.map_values(|e: EspVolume| esp_layout_line(e))
    }) + seq![
        "  on-ESP config: \\EFI\\leon\\boot.toml"@,
        "  bootloader: \\EFI\\BOOT\\BOOTX64.EFI (amd64) / BOOTAA64.EFI (arm64)"@,
        "  kernel: \\EFI\\leon\\kernel.efi"@,
        "  boot log: \\var\\logs\\leon\\log.md"@,
    ]
}

/// The lines of the boot volume layout report.
pub fn layout_lines(path: &str, es: &[EspVolume]) -> (v: Vec<String>)
    ensures
        v@.map_values(|s: String| s@) == layout_spec(path@, es@),
{
    let mut v: Vec<String> = Vec::new();
    v.push(chars_to_string(&str_chars("Leon boot volume layout")));
    let mut p = str_chars("  host config: ");
    push_str(&mut p, path);
    v.push(chars_to_string(&p));
    let ghost head = v@.map_values(|s: String| s@);
    let ghost mid: Seq<Seq<char>> = if es@.len() == 0 {
        seq!["  mounted ESP: none detected"@]
    } else {
        es@.map_values(|e: EspVolume| esp_layout_line(e))
    };
    if es.len() == 0 {
        v.push(chars_to_string(&str_chars("  mounted ESP: none detected")));
        assert(v@.map_values(|s: String| s@) =~= head + mid);
    } else {
        let mut i: usize = 0;
        while i < es.len()
            invariant
                0 <= i <= es@.len(),
                v@.map_values(|s: String| s@) == head + es@.take(i as int).map_values(|e: EspVolume| esp_layout_line(e)),
            decreases es@.len() - i,
        {
            let ghost before = v@.map_values(|s: String| s@);
            let mut t = str_chars("  ESP: ");
            push_str(&mut t, es[i].path.as_str());
            push_str(&mut t, " (");
            match &es[i].mountpoint {
                Some(m) => push_str(&mut t, m.as_str()),
                None => push_str(&mut t, "not mounted"),
            }
            push_str(&mut t, ")");
            v.push(chars_to_string(&t));
            assert(es@.take(i + 1) =~= es@.take(i as int).push(es@[i as int]));
            assert(v@.map_values(|s: String| s@) =~= before.push(esp_layout_line(es@[i as int])));
            i += 1;
        }
        assert(es@.take(es@.len() as int) =~= es@);
    }
    let ghost body = v@.map_values(|s: String| s@);
    assert(body == head + mid);
    v.push(chars_to_string(&str_chars("  on-ESP config: \\EFI\\leon\\boot.toml")));
    v.push(chars_to_string(&str_chars("  bootloader: \\EFI\\BOOT\\BOOTX64.EFI (amd64) / BOOTAA64.EFI (arm64)")));
    v.push(chars_to_string(&str_chars("  kernel: \\EFI\\leon\\kernel.efi")));
    v.push(chars_to_string(&str_chars("  boot log: \\var\\logs\\leon\\log.md")));
    assert(head =~= seq!["Leon boot volume layout"@, "  host config: "@ + path@]);
    assert(v@.map_values(|s: String| s@) =~= body + seq![
        "  on-ESP config: \\EFI\\leon\\boot.toml"@,
        "  bootloader: \\EFI\\BOOT\\BOOTX64.EFI (amd64) / BOOTAA64.EFI (arm64)"@,
        "  kernel: \\EFI\\leon\\kernel.efi"@,
        "  boot log: \\var\\logs\\leon\\log.md"@,
    ]);
    assert(v@.map_values(|s: String| s@) =~= layout_spec(path@, es@));
    v
}

// ── Command help ────────────────────────────────────────────────────────────

/// The first node, depth first among `cs` and their descendants, that
/// `name` matches.
pub open spec fn find_in<H>(cs: Seq<Node<H>>, name: Seq<char>) -> Option<Node<H>>
    decreases cs, 0nat,
{
    if cs.len() == 0 {
        None
    } else {
        proof {
            assert(decreases_to!(cs => cs[0]));
        }
        match find_node_spec(cs[0], name) {
            Some(n) => Some(n),
            None => find_in(cs.drop_first(), name),
        }
    }
}

/// `n` when `name` matches it, else the first match below it.
pub open spec fn find_node_spec<H>(n: Node<H>, name: Seq<char>) -> Option<Node<H>>
    decreases n, 1nat,
{
    if matches_spec(n, name) {
        Some(n)
    } else {
        match n.kind {
            Kind::Ns(v) => {
                proof {
                    assert(decreases_to!(n => n.kind));
                    assert(decreases_to!(n.kind => v));
                    assert(decreases_to!(v => v@));
                }
                find_in(v@, name)
            },
            Kind::Leaf(_) => None,
        }
    }
}

/// Depth-first search for a node by canonical name or alias.
pub fn find_node<'a, H: Copy>(node: &'a Node<H>, name: &str) -> (r: Option<&'a Node<H>>)
    ensures
        match r {
            Some(x) => find_node_spec(*node, name@) == Some(*x),
            None => find_node_spec(*node, name@) is None,
        },
    decreases node,
{
    if node.matches(name) {
        return Some(node);
    }
    let cs = node.children();
    let mut k: usize = 0;
    assert(cs@.skip(0) =~= cs@);
    while k < cs.len()
        invariant
            cs@ == children_of(*node),
            !matches_spec(*node, name@),
            0 <= k <= cs@.len(),
            find_in(cs@, name@) == find_in(cs@.skip(k as int), name@),
        decreases cs@.len() - k,
    {
        proof {
            let rest = cs@.skip(k as int);
            assert(rest[0] == cs@[k as int]);
            assert(rest.drop_first() =~= cs@.skip(k + 1));
            let ghost nk = node.kind;
            if let Kind::Ns(v) = nk {
                assert(decreases_to!(node => node.kind));
                assert(decreases_to!(nk => v));
                assert(decreases_to!(v => v@));
                assert(decreases_to!(v@ => v@[k as int]));
            }
        }
        match find_node(&cs[k], name) {
            Some(x) => {
                return Some(x);
            },
            None => {},
        }
        k += 1;
    }
    assert(cs@.skip(k as int) =~= Seq::<Node<H>>::empty());
    proof {
        let ghost nk = node.kind;
        match nk {
            Kind::Ns(v) => {},
            Kind::Leaf(_) => {},
        }
    }
    None
}

/// The help of the command `name` (canonical name or alias), or why there
/// is none.
pub fn help_command<H: Copy>(root: &Node<H>, name: &str) -> (r: Result<String, String>)
    ensures
        match find_node_spec(*root, name@) {
            Some(n) => r matches Ok(t) && t@ == crate::cmd_tree::help_spec(n),
            None => r matches Err(e) && e@ == "no command matches `"@ + name@ + "`"@,
        },
{
    match find_node(root, name) {
        Some(n) => Ok(crate::cmd_tree::help_for(n)),
        None => {
            let mut v = str_chars("no command matches `");
            push_str(&mut v, name);
            push_str(&mut v, "`");
            Err(chars_to_string(&v))
        },
    }
}


// ── Directories and root filesystems ────────────────────────────────────────

/// The type column of a listing: `d` directory, `l` symlink, `-` other.
pub open spec fn kind_char_spec(is_dir: bool, is_symlink: bool) -> char {
    if is_dir {
        'd'
    } else if is_symlink {
        'l'
    } else {
        '-'
    }
}

/// The type column of a listing.
pub fn entry_kind(is_dir: bool, is_symlink: bool) -> (c: char)
    ensures
        c == kind_char_spec(is_dir, is_symlink),
{
    if is_dir {
        'd'
    } else if is_symlink {
        'l'
    } else {
        '-'
    }
}

/// `t` right-aligned in `w` columns.
pub open spec fn right_align(t: Seq<char>, w: nat) -> Seq<char> {
    if t.len() < w {
        Seq::new((w - t.len()) as nat, |_i: int| ' ') + t
    } else {
        t
    }
}

/// One line of `fs ls`.
pub open spec fn ls_line_spec(kind: char, is_dir: bool, len: u64, name: Seq<char>) -> Seq<char> {
    "  "@ + seq![kind] + (if is_dir { "/"@ } else { ""@ }) + "  "@ + right_align(dec(len as nat), 12) + "  "@ + name
}

/// One line of `fs ls`: type, a `/` for directories, the size right-aligned
/// in twelve columns, and the name.
pub fn ls_line(kind: char, is_dir: bool, len: u64, name: &str) -> (r: String)
    ensures
        r@ == ls_line_spec(kind, is_dir, len, name@),
{
    let mut v = str_chars("  ");
    v.push(kind);
    if is_dir {
        push_str(&mut v, "/");
    }
    push_str(&mut v, "  ");
    let d = dec_chars(len);
    let ghost head = v@;
    if d.len() < 12 {
        let n = 12 - d.len();
        let mut k: usize = 0;
        while k < n
            invariant
                0 <= k <= n,
                n == 12 - d@.len(),
                v@ == head + Seq::new(k as nat, |_i: int| ' '),
            decreases n - k,
        {
            v.push(' ');
            k += 1;
            assert(v@ =~= head + Seq::new(k as nat, |_i: int| ' '));
        }
    }
    push_all(&mut v, &d);
    push_str(&mut v, "  ");
    push_str(&mut v, name);
    proof {
        reveal_strlit("");
    }
    assert(v@ =~= ls_line_spec(kind, is_dir, len, name@));
    chars_to_string(&v)
}

/// One line of `fs tree`: the branch, the name, a `/` for directories.
pub open spec fn tree_line_spec(indent: Seq<char>, last: bool, name: Seq<char>, is_dir: bool) -> Seq<char> {
    indent + (if last { "\u{2514}\u{2500}\u{2500} "@ } else { "\u{251c}\u{2500}\u{2500} "@ }) + name + (if is_dir { "/"@ } else { ""@ })
}

/// One line of `fs tree`.
pub fn tree_line(indent: &str, last: bool, name: &str, is_dir: bool) -> (r: String)
    ensures
        r@ == tree_line_spec(indent@, last, name@, is_dir),
{
    let mut v = str_chars(indent);
    if last {
        push_str(&mut v, "\u{2514}\u{2500}\u{2500} ");
    } else {
        push_str(&mut v, "\u{251c}\u{2500}\u{2500} ");
    }
    push_str(&mut v, name);
    if is_dir {
        push_str(&mut v, "/");
    }
    proof {
        reveal_strlit("");
    }
    assert(v@ =~= tree_line_spec(indent@, last, name@, is_dir));
    chars_to_string(&v)
}

/// The indent below an entry of `fs tree`.
pub fn tree_indent(indent: &str, last: bool) -> (r: String)
    ensures
        r@ == indent@ + if last { "    "@ } else { "\u{2502}   "@ },
{
    let mut v = str_chars(indent);
    if last {
        push_str(&mut v, "    ");
    } else {
        push_str(&mut v, "\u{2502}   ");
    }
    chars_to_string(&v)
}

/// The boot-critical paths inside a root filesystem, each with what it is.
pub fn rootfs_paths() -> (v: Vec<(&'static str, &'static str)>)
    ensures
        v@.len() == 4,
        v@[0].0@ == "EFI/BOOT/BOOTX64.EFI"@ && v@[0].1@ == "x86_64 bootloader"@,
        v@[1].0@ == "EFI/BOOT/BOOTAA64.EFI"@ && v@[1].1@ == "arm64 bootloader"@,
        v@[2].0@ == "EFI/leon/kernel.efi"@ && v@[2].1@ == "EFI-stub kernel"@,
        v@[3].0@ == "EFI/leon/boot.toml"@ && v@[3].1@ == "boot config (optional)"@,
{
    let mut v: Vec<(&'static str, &'static str)> = Vec::new();
    v.push(("EFI/BOOT/BOOTX64.EFI", "x86_64 bootloader"));
    v.push(("EFI/BOOT/BOOTAA64.EFI", "arm64 bootloader"));
    v.push(("EFI/leon/kernel.efi", "EFI-stub kernel"));
    v.push(("EFI/leon/boot.toml", "boot config (optional)"));
    v
}

/// One line of `rootfs show`.
pub fn rootfs_line(rel: &str, doc: &str, present: bool) -> (r: String)
    ensures
        r@ == "  "@ + rel@ + " ["@ + doc@ + "]: "@ + if present { "present"@ } else { "missing"@ },
{
    let mut v = str_chars("  ");
    push_str(&mut v, rel);
    push_str(&mut v, " [");
    push_str(&mut v, doc);
    push_str(&mut v, "]: ");
    if present {
        push_str(&mut v, "present");
    } else {
        push_str(&mut v, "missing");
    }
    chars_to_string(&v)
}

/// What a root filesystem lacks to boot: a bootloader for either
/// architecture and the kernel.
pub open spec fn rootfs_missing_spec(x64: bool, aa64: bool, kernel: bool) -> Seq<Seq<char>> {
    (if !x64 && !aa64 { seq!["EFI/BOOT/BOOTX64.EFI or BOOTAA64.EFI"@] } else { seq![] })
        + (if !kernel { seq!["EFI/leon/kernel.efi"@] } else { seq![] })
}

/// The verdict of `rootfs check` on `path`, given which files exist.
pub open spec fn rootfs_check_spec(path: Seq<char>, x64: bool, aa64: bool, kernel: bool) -> Result<Seq<char>, Seq<char>> {
    let m = rootfs_missing_spec(x64, aa64, kernel);
    if m.len() == 0 {
        Ok("rootfs OK: "@ + path)
    } else {
        Err("rootfs incomplete at "@ + path + ": missing "@ + crate::cmd_tree::join(m, ", "@))
    }
}

/// Checks that a root filesystem holds a bootloader and the kernel.
pub fn rootfs_check(path: &str, x64: bool, aa64: bool, kernel: bool) -> (r: Result<String, String>)
    ensures
        match (r, rootfs_check_spec(path@, x64, aa64, kernel)) {
            (Ok(a), Ok(b)) => a@ == b,
            (Err(a), Err(b)) => a@ == b,
            _ => false,
        },
{
    let no_boot = !x64 && !aa64;
    if !no_boot && kernel {
        assert(rootfs_missing_spec(x64, aa64, kernel) =~= seq![]);
        let mut v = str_chars("rootfs OK: ");
        push_str(&mut v, path);
        return Ok(chars_to_string(&v));
    }
    let mut v = str_chars("rootfs incomplete at ");
    push_str(&mut v, path);
    push_str(&mut v, ": missing ");
    let ghost head = v@;
    if no_boot {
        push_str(&mut v, "EFI/BOOT/BOOTX64.EFI or BOOTAA64.EFI");
        if !kernel {
            push_str(&mut v, ", ");
            push_str(&mut v, "EFI/leon/kernel.efi");
            assert(rootfs_missing_spec(x64, aa64, kernel) =~= seq!["EFI/BOOT/BOOTX64.EFI or BOOTAA64.EFI"@, "EFI/leon/kernel.efi"@]);
            let ghost m2 = seq!["EFI/BOOT/BOOTX64.EFI or BOOTAA64.EFI"@, "EFI/leon/kernel.efi"@];
            assert(m2.drop_last() =~= seq!["EFI/BOOT/BOOTX64.EFI or BOOTAA64.EFI"@]);
            assert(crate::cmd_tree::join(m2.drop_last(), ", "@) == "EFI/BOOT/BOOTX64.EFI or BOOTAA64.EFI"@);
            assert(crate::cmd_tree::join(m2, ", "@) == "EFI/BOOT/BOOTX64.EFI or BOOTAA64.EFI"@ + ", "@ + "EFI/leon/kernel.efi"@);
            assert(v@ =~= head + crate::cmd_tree::join(m2, ", "@));
        } else {
            assert(rootfs_missing_spec(x64, aa64, kernel) =~= seq!["EFI/BOOT/BOOTX64.EFI or BOOTAA64.EFI"@]);
            assert(crate::cmd_tree::join(seq!["EFI/BOOT/BOOTX64.EFI or BOOTAA64.EFI"@], ", "@) == "EFI/BOOT/BOOTX64.EFI or BOOTAA64.EFI"@);
        }
    } else {
        push_str(&mut v, "EFI/leon/kernel.efi");
        assert(rootfs_missing_spec(x64, aa64, kernel) =~= seq!["EFI/leon/kernel.efi"@]);
        assert(crate::cmd_tree::join(seq!["EFI/leon/kernel.efi"@], ", "@) == "EFI/leon/kernel.efi"@);
    }
    Err(chars_to_string(&v))
}

// ── The boot log ────────────────────────────────────────────────────────────

/// Where the boot log is read: the given path, else the staged ESP's log
/// when it exists, else the log relative to the current directory.
pub open spec fn log_path_spec(path: Option<Seq<char>>, staged_exists: bool) -> Seq<char> {
    match path {
        Some(p) => p,
        None => if staged_exists {
            "build/esp/var/logs/leon/log.md"@
        } else {
            "var/logs/leon/log.md"@
        },
    }
}

/// The boot log's path.
pub fn log_path(path: Option<&str>, staged_exists: bool) -> (r: String)
    ensures
        r@ == log_path_spec(match path {
            Some(p) => Some(p@),
            None => None,
        }, staged_exists),
{
    match path {
        Some(p) => chars_to_string(&str_chars(p)),
        None => if staged_exists {
            chars_to_string(&str_chars(default_boot_log()))
        } else {
            chars_to_string(&str_chars("var/logs/leon/log.md"))
        },
    }
}

/// The numbered lines (from `1`) of `ls` holding `pat`, in order.
pub open spec fn matches_from(ls: Seq<Seq<char>>, pat: Seq<char>, n: nat) -> Seq<(nat, Seq<char>)>
    decreases n,
{
    if n == 0 {
        seq![]
    } else {
        let r = matches_from(ls, pat, (n - 1) as nat);
        if contains_seq(ls[n - 1], pat) {
            r.push((n, ls[n - 1]))
        } else {
            r
        }
    }
}

/// The lines `log find` prints, `path:number: line`, or why it fails.
pub open spec fn log_find_spec(path: Seq<char>, content: Seq<char>, pat: Seq<char>) -> Result<Seq<Seq<char>>, Seq<char>> {
    let ms = matches_from(lines_of(content), pat, lines_of(content).len());
    if ms.len() == 0 {
        Err("no matches for `"@ + pat + "` in "@ + path)
    } else {
        Ok(ms.map_values(|m: (nat, Seq<char>)| path + ":"@ + dec(m.0) + ": "@ + m.1))
    }
}

/// Searches the boot log's text for `pattern`.
pub fn log_find(path: &str, content: &str, pattern: &str) -> (r: Result<Vec<String>, String>)
    ensures
        match (r, log_find_spec(path@, content@, pattern@)) {
            (Ok(v), Ok(w)) => v@.map_values(|s: String| s@) == w,
            (Err(a), Err(b)) => a@ == b,
            _ => false,
        },
{
    let cs = str_chars(content);
    let ls = split_lines(&cs);
    let pat = str_chars(pattern);
    let ghost lv = ls@.map_values(|l: Vec<char>| l@);
    let ghost f = |m: (nat, Seq<char>)| path@ + ":"@ + dec(m.0) + ": "@ + m.1;
    let mut out: Vec<String> = Vec::new();
    let mut i: usize = 0;
    while i < ls.len()
        invariant
            0 <= i <= ls@.len(),
            lv == ls@.map_values(|l: Vec<char>| l@),
            lv == lines_of(content@),
            pat@ == pattern@,
            f == (|m: (nat, Seq<char>)| path@ + ":"@ + dec(m.0) + ": "@ + m.1),
            out@.map_values(|s: String| s@) == matches_from(lv, pattern@, i as nat).map_values(f),
        decreases ls@.len() - i,
    {
        let ghost before = out@.map_values(|s: String| s@);
        assert(lv[i as int] == ls@[i as int]@);
        if contains_chars(&ls[i], &pat) {
            let mut t = str_chars(path);
            push_str(&mut t, ":");
            push_all(&mut t, &dec_chars((i as u64) + 1));
            push_str(&mut t, ": ");
            push_all(&mut t, &ls[i]);
            let ts = chars_to_string(&t);
            assert(ts@ == f(((i + 1) as nat, lv[i as int])));
            out.push(ts);
            assert(out@.map_values(|s: String| s@) =~= before.push(ts@));
            assert(matches_from(lv, pattern@, (i + 1) as nat) == matches_from(lv, pattern@, i as nat).push(((i + 1) as nat, lv[i as int])));
            assert(matches_from(lv, pattern@, (i + 1) as nat).map_values(f) =~= matches_from(lv, pattern@, i as nat).map_values(f).push(f(((i + 1) as nat, lv[i as int]))));
        }
        i += 1;
    }
    if out.len() == 0 {
        assert(matches_from(lv, pattern@, lv.len()).len() == 0);
        let mut e = str_chars("no matches for `");
        push_str(&mut e, pattern);
        push_str(&mut e, "` in ");
        push_str(&mut e, path);
        return Err(chars_to_string(&e));
    }
    Ok(out)
}

/// What one poll of `log tail` does: where to read from (if the log grew)
/// and the offset to remember. A log that shrank was rotated and is read
/// from the start.
pub open spec fn tail_step_spec(offset: u64, now: u64) -> (Option<u64>, u64) {
    let from = if now < offset { 0 } else { offset };
    if now > from {
        (Some(from), now)
    } else {
        (None, from)
    }
}

/// One poll of `log tail` given the log's current length.
pub fn tail_step(offset: u64, now: u64) -> (r: (Option<u64>, u64))
    ensures
        r == tail_step_spec(offset, now),
{
    let from = if now < offset {
        0
    } else {
        offset
    };
    if now > from {
        (Some(from), now)
    } else {
        (None, from)
    }
}


// ── Host diagnostics ────────────────────────────────────────────────────────

/// One line of `usb list`: path, type, filesystem and mount point (`none`
/// when unknown), and an `[ESP]` mark.
pub open spec fn device_line_spec(d: BlockDev) -> Seq<char> {
    d.path@ + " ("@ + d.kind@ + ") "@ + (match opt_view(d.fstype) {
        Some(f) => f,
        None => "none"@,
    }) + " mount="@ + (match opt_view(d.mountpoint) {
        Some(m) => m,
        None => "none"@,
    }) + (if d.esp() { " [ESP]"@ } else { ""@ })
}

/// One line of `usb list`.
pub fn device_line(d: &BlockDev) -> (r: String)
    ensures
        r@ == device_line_spec(*d),
{
    let mut v = str_chars(d.path.as_str());
    push_str(&mut v, " (");
    push_str(&mut v, d.kind.as_str());
    push_str(&mut v, ") ");
    match &d.fstype {
        Some(f) => push_str(&mut v, f.as_str()),
        None => push_str(&mut v, "none"),
    }
    push_str(&mut v, " mount=");
    match &d.mountpoint {
        Some(m) => push_str(&mut v, m.as_str()),
        None => push_str(&mut v, "none"),
    }
    if d.is_esp() {
        push_str(&mut v, " [ESP]");
    }
    proof {
        reveal_strlit("");
    }
    assert(v@ =~= device_line_spec(*d));
    chars_to_string(&v)
}

/// A value, or `none` when unknown.
pub open spec fn or_none(o: Option<Seq<char>>) -> Seq<char> {
    match o {
        Some(v) => v,
        None => "none"@,
    }
}

/// One device line of `discover`: name, type, filesystem and mount point
/// (`none` when unknown), and an `[ESP]` mark.
pub open spec fn discover_device_spec(d: BlockDev) -> Seq<char> {
    "  "@ + d.name@ + " ("@ + d.kind@ + ") fstype="@ + or_none(opt_view(d.fstype)) + " mount="@ + or_none(
        opt_view(d.mountpoint),
    ) + (if d.esp() { " [ESP]"@ } else { ""@ })
}

/// One ESP line of `discover`.
pub open spec fn discover_esp_spec(e: EspVolume) -> Seq<char> {
    "  "@ + describe_spec(e.path@, opt_view(e.mountpoint), volume_id(opt_view(e.label), opt_view(e.uuid)))
}

/// One boot-entry line of `discover`.
pub open spec fn discover_entry_spec(e: BootEntry) -> Seq<char> {
    "  "@ + e.label@ + " -> "@ + e.path@
}

/// A titled section: the title, then the items, or `  none` when there are none.
pub open spec fn section_spec(title: Seq<char>, items: Seq<Seq<char>>) -> Seq<Seq<char>> {
    seq![title] + if items.len() == 0 { seq!["  none"@] } else { items }
}

/// The text report of `discover`: block devices, ESPs and boot entries.
pub open spec fn discover_spec(devs: Seq<BlockDev>, esps: Seq<EspVolume>, es: Seq<BootEntry>) -> Seq<Seq<char>> {
    section_spec("Block devices:"@, devs.map_values(|d: BlockDev| discover_device_spec(d))) + section_spec(
        "EFI System Partitions:"@,
        esps.map_values(|e: EspVolume| discover_esp_spec(e)),
    ) + section_spec("Boot entries:"@, es.map_values(|e: BootEntry| discover_entry_spec(e)))
}

fn discover_device(d: &BlockDev) -> (r: String)
    ensures
        r@ == discover_device_spec(*d),
{
    let mut v = str_chars("  ");
    push_str(&mut v, d.name.as_str());
    push_str(&mut v, " (");
    push_str(&mut v, d.kind.as_str());
    push_str(&mut v, ") fstype=");
    match &d.fstype {
        Some(f) => push_str(&mut v, f.as_str()),
        None => push_str(&mut v, "none"),
    }
    push_str(&mut v, " mount=");
    match &d.mountpoint {
        Some(m) => push_str(&mut v, m.as_str()),
        None => push_str(&mut v, "none"),
    }
    if d.is_esp() {
        push_str(&mut v, " [ESP]");
    }
    proof {
        reveal_strlit("");
    }
    assert(v@ =~= discover_device_spec(*d));
    chars_to_string(&v)
}

fn discover_esp(e: &EspVolume) -> (r: String)
    ensures
        r@ == discover_esp_spec(*e),
{
    let mut v = str_chars("  ");
    let d = e.describe();
    push_str(&mut v, d.as_str());
    chars_to_string(&v)
}

fn discover_entry(e: &BootEntry) -> (r: String)
    ensures
        r@ == discover_entry_spec(*e),
{
    let mut v = str_chars("  ");
    push_str(&mut v, e.label.as_str());
    push_str(&mut v, " -> ");
    push_str(&mut v, e.path.as_str());
    chars_to_string(&v)
}

/// Appends the section `title` with `items`.
fn push_section(out: &mut Vec<String>, title: &str, items: Vec<String>)
    ensures
        strs_view(final(out)@) == strs_view(old(out)@) + section_spec(title@, strs_view(items@)),
{
    let ghost before = strs_view(out@);
    out.push(chars_to_string(&str_chars(title)));
    if items.len() == 0 {
        out.push(chars_to_string(&str_chars("  none")));
        assert(strs_view(out@) =~= before + section_spec(title@, strs_view(items@)));
        return;
    }
    let ghost mid = strs_view(out@);
    let mut i: usize = 0;
    while i < items.len()
        invariant
            0 <= i <= items@.len(),
            strs_view(out@) == mid + strs_view(items@.take(i as int)),
        decreases items@.len() - i,
    {
        let ghost b = strs_view(out@);
        let s = chars_to_string(&str_chars(items[i].as_str()));
        out.push(s);
        assert(items@.take(i + 1) =~= items@.take(i as int).push(items@[i as int]));
        assert(strs_view(out@) =~= b.push(items@[i as int]@));
        assert(strs_view(items@.take(i + 1)) =~= strs_view(items@.take(i as int)).push(items@[i as int]@));
        i += 1;
    }
    assert(items@.take(items@.len() as int) =~= items@);
    assert(strs_view(out@) =~= before + section_spec(title@, strs_view(items@)));
}

/// The text report of `discover`.
pub fn discover_lines(devs: &[BlockDev], esps: &[EspVolume], es: &[BootEntry]) -> (v: Vec<String>)
    ensures
        strs_view(v@) == discover_spec(devs@, esps@, es@),
{
    let mut a: Vec<String> = Vec::new();
    let mut i: usize = 0;
    while i < devs.len()
        invariant
            0 <= i <= devs@.len(),
            strs_view(a@) == devs@.take(i as int).map_values(|d: BlockDev| discover_device_spec(d)),
        decreases devs@.len() - i,
    {
        let ghost b = strs_view(a@);
        a.push(discover_device(&devs[i]));
        assert(devs@.take(i + 1) =~= devs@.take(i as int).push(devs@[i as int]));
        assert(strs_view(a@) =~= b.push(discover_device_spec(devs@[i as int])));
        i += 1;
    }
    assert(devs@.take(devs@.len() as int) =~= devs@);
    let mut b: Vec<String> = Vec::new();
    let mut j: usize = 0;
    while j < esps.len()
        invariant
            0 <= j <= esps@.len(),
            strs_view(b@) == esps@.take(j as int).map_values(|e: EspVolume| discover_esp_spec(e)),
        decreases esps@.len() - j,
    {
        let ghost bb = strs_view(b@);
        b.push(discover_esp(&esps[j]));
        assert(esps@.take(j + 1) =~= esps@.take(j as int).push(esps@[j as int]));
        assert(strs_view(b@) =~= bb.push(discover_esp_spec(esps@[j as int])));
        j += 1;
    }
    assert(esps@.take(esps@.len() as int) =~= esps@);
    let mut c: Vec<String> = Vec::new();
    let mut k: usize = 0;
    while k < es.len()
        invariant
            0 <= k <= es@.len(),
            strs_view(c@) == es@.take(k as int).map_values(|e: BootEntry| discover_entry_spec(e)),
        decreases es@.len() - k,
    {
        let ghost cb = strs_view(c@);
        c.push(discover_entry(&es[k]));
        assert(es@.take(k + 1) =~= es@.take(k as int).push(es@[k as int]));
        assert(strs_view(c@) =~= cb.push(discover_entry_spec(es@[k as int])));
        k += 1;
    }
    assert(es@.take(es@.len() as int) =~= es@);
    let mut v: Vec<String> = Vec::new();
    push_section(&mut v, "Block devices:", a);
    push_section(&mut v, "EFI System Partitions:", b);
    push_section(&mut v, "Boot entries:", c);
    assert(strs_view(v@) =~= discover_spec(devs@, esps@, es@));
    v
}

/// `s` without leading double quotes.
pub open spec fn drop_front_quotes(s: Seq<char>) -> Seq<char>
    decreases s.len(),
{
    if s.len() > 0 && s[0] == '"' {
        drop_front_quotes(s.drop_first())
    } else {
        s
    }
}

/// `s` without trailing double quotes.
pub open spec fn drop_back_quotes(s: Seq<char>) -> Seq<char>
    decreases s.len(),
{
    if s.len() > 0 && s.last() == '"' {
        drop_back_quotes(s.drop_last())
    } else {
        s
    }
}

/// The first `PRETTY_NAME=` value among `ls`, its surrounding quotes removed.
pub open spec fn pretty_of(ls: Seq<Seq<char>>) -> Option<Seq<char>>
    decreases ls.len(),
{
    if ls.len() == 0 {
        None
    } else {
        match strip_prefix(ls[0], "PRETTY_NAME="@) {
            Some(v) => Some(drop_back_quotes(drop_front_quotes(v))),
            None => pretty_of(ls.drop_first()),
        }
    }
}

fn strip_quotes(s: &[char]) -> (v: Vec<char>)
    ensures
        v@ == drop_back_quotes(drop_front_quotes(s@)),
{
    let mut a: usize = 0;
    assert(s@.skip(0) =~= s@);
    while a < s.len() && s[a] == '"'
        invariant
            0 <= a <= s@.len(),
            drop_front_quotes(s@) == drop_front_quotes(s@.skip(a as int)),
        decreases s@.len() - a,
    {
        assert(s@.skip(a as int).drop_first() =~= s@.skip(a + 1));
        a += 1;
    }
    let ghost t = s@.skip(a as int);
    assert(drop_front_quotes(t) == t);
    let mut b: usize = s.len();
    assert(t.take(t.len() as int) =~= t);
    while b > a && s[b - 1] == '"'
        invariant
            a <= b <= s@.len(),
            t == s@.skip(a as int),
            drop_back_quotes(t) == drop_back_quotes(t.take(b - a)),
        decreases b,
    {
        assert(t.take(b - a).drop_last() =~= t.take(b - a - 1));
        assert(t.take(b - a).last() == s@[b - 1]);
        b -= 1;
    }
    proof {
        if b > a {
            assert(t.take(b - a).last() == s@[b - 1]);
        }
        assert(drop_back_quotes(t.take(b - a)) == t.take(b - a));
        assert(t.take(b - a) =~= s@.subrange(a as int, b as int));
    }
    crate::text::copy_range(s, a, b)
}

/// The pretty OS name from the text of `/etc/os-release`, `unknown` when
/// it cannot be read or names none.
pub fn os_pretty_name(text: Option<&str>) -> (r: String)
    ensures
        r@ == match text {
            Some(t) => match pretty_of(lines_of(t@)) {
                Some(v) => v,
                None => "unknown"@,
            },
            None => "unknown"@,
        },
{
    let t = match text {
        Some(t) => t,
        None => {
            return chars_to_string(&str_chars("unknown"));
        },
    };
    assert(text == Some(t));
    let cs = str_chars(t);
    let ls = split_lines(&cs);
    let ghost lv = ls@.map_values(|l: Vec<char>| l@);
    let mut i: usize = 0;
    assert(lv.skip(0) =~= lv);
    while i < ls.len()
        invariant
            0 <= i <= ls@.len(),
            lv == ls@.map_values(|l: Vec<char>| l@),
            lv == lines_of(t@),
            text == Some(t),
            pretty_of(lv) == pretty_of(lv.skip(i as int)),
        decreases ls@.len() - i,
    {
        assert(lv.skip(i as int)[0] == ls@[i as int]@);
        assert(lv.skip(i as int).drop_first() =~= lv.skip(i + 1));
        let l = &ls[i];
        let p = str_chars("PRETTY_NAME=");
        if l.len() >= p.len() {
            let head = crate::text::copy_range(l, 0, p.len());
            assert(head@ =~= l@.take(p@.len() as int));
            if chars_eq(&head, &p) {
                let rest = crate::text::copy_range(l, p.len(), l.len());
                assert(rest@ =~= l@.skip(p@.len() as int));
                let v = strip_quotes(&rest);
                assert(l@ == lv.skip(i as int)[0]);
                assert(strip_prefix(l@, "PRETTY_NAME="@) == Some(rest@));
                assert(pretty_of(lv.skip(i as int)) == Some(v@));
                return chars_to_string(&v);
            }
        }
        i += 1;
    }
    assert(lv.skip(i as int) =~= seq![]);
    chars_to_string(&str_chars("unknown"))
}

/// The Secure Boot state: from an explicit setting when given (`1` is
/// enabled), else from the `SecureBoot` EFI variable's data (its fifth byte
/// after the attributes), else not detectable.
pub open spec fn secure_boot_spec(setting: Option<Seq<char>>, var: Option<Seq<u8>>) -> Seq<char> {
    match setting {
        Some(v) => if v == "1"@ { "enabled"@ } else { "disabled"@ },
        None => match var {
            Some(d) => if d.len() >= 5 {
                if d[4] == 1 { "enabled"@ } else { "disabled"@ }
            } else {
                "not detectable (no UEFI / no efivarfs)"@
            },
            None => "not detectable (no UEFI / no efivarfs)"@,
        },
    }
}

/// The Secure Boot state.
pub fn secure_boot_state(setting: Option<&str>, var: Option<&[u8]>) -> (r: &'static str)
    ensures
        r@ == secure_boot_spec(match setting {
            Some(s) => Some(s@),
            None => None,
        }, match var {
            Some(d) => Some(d@),
            None => None,
        }),
{
    match setting {
        Some(v) => {
            if chars_eq(&str_chars(v), &str_chars("1")) {
                "enabled"
            } else {
                "disabled"
            }
        },
        None => match var {
            Some(d) => {
                if d.len() >= 5 {
                    if d[4] == 1 {
                        "enabled"
                    } else {
                        "disabled"
                    }
                } else {
                    "not detectable (no UEFI / no efivarfs)"
                }
            },
            None => "not detectable (no UEFI / no efivarfs)",
        },
    }
}

/// Why flashing an image is refused, if it is: missing arguments, a
/// missing device, an image that is not a file or not whole sectors.
pub open spec fn flash_check_spec(device: Seq<char>, path: Seq<char>, device_exists: bool, image_is_file: bool, image_len: u64) -> Option<Seq<char>> {
    if device.len() == 0 || path.len() == 0 {
        Some("usage: lbt usb flash --device /dev/sdX --path image.img"@)
    } else if !device_exists {
        Some("device "@ + device + " does not exist"@)
    } else if !image_is_file {
        Some("image "@ + path + " is not a file"@)
    } else if image_len % 512 != 0 {
        Some("image is not a whole number of 512-byte sectors"@)
    } else {
        None
    }
}

/// The checks made before flashing `path` onto `device`.
pub fn flash_check(device: &str, path: &str, device_exists: bool, image_is_file: bool, image_len: u64) -> (r: Option<String>)
    ensures
        opt_view(r) == flash_check_spec(device@, path@, device_exists, image_is_file, image_len),
{
    let d = str_chars(device);
    let p = str_chars(path);
    if d.len() == 0 || p.len() == 0 {
        Some(chars_to_string(&str_chars("usage: lbt usb flash --device /dev/sdX --path image.img")))
    } else if !device_exists {
        let mut v = str_chars("device ");
        push_all(&mut v, &d);
        push_str(&mut v, " does not exist");
        Some(chars_to_string(&v))
    } else if !image_is_file {
        let mut v = str_chars("image ");
        push_all(&mut v, &p);
        push_str(&mut v, " is not a file");
        Some(chars_to_string(&v))
    } else if image_len % 512 != 0 {
        Some(chars_to_string(&str_chars("image is not a whole number of 512-byte sectors")))
    } else {
        None
    }
}

/// Whether a block device name is a disk that can be removable (`sd*`,
/// `mmcblk*`, `nvme*`) and its `removable` attribute, trimmed, is `1`.
pub open spec fn removable_spec(name: Seq<char>, attr: Option<Seq<char>>) -> bool {
    (strip_prefix(name, "sd"@) is Some || strip_prefix(name, "mmcblk"@) is Some || strip_prefix(name, "nvme"@) is Some)
        && match attr {
        Some(a) => trim(a) == "1"@,
        None => false,
    }
}

fn starts_with(s: &[char], p: &str) -> (b: bool)
    ensures
        b == (strip_prefix(s@, p@) is Some),
{
    let pc = str_chars(p);
    if s.len() < pc.len() {
        return false;
    }
    let head = crate::text::copy_range(s, 0, pc.len());
    assert(head@ =~= s@.take(pc@.len() as int));
    chars_eq(&head, &pc)
}

/// Whether the block device `name`, with `removable` attribute `attr`, is
/// a removable disk.
pub fn is_removable(name: &str, attr: Option<&str>) -> (b: bool)
    ensures
        b == removable_spec(name@, match attr {
            Some(a) => Some(a@),
            None => None,
        }),
{
    let n = str_chars(name);
    if !(starts_with(&n, "sd") || starts_with(&n, "mmcblk") || starts_with(&n, "nvme")) {
        return false;
    }
    match attr {
        Some(a) => {
            let t = trim_chars(&str_chars(a));
            chars_eq(&t, &str_chars("1"))
        },
        None => false,
    }
}


// ── The boot config commands ────────────────────────────────────────────────

/// What `config get <key>` prints, or the refusal of an unknown or unset key.
pub open spec fn config_get_spec(c: crate::boot_config::BootConfigModel, key: Seq<char>) -> Result<Seq<char>, Seq<char>> {
    match field_spec(c, key) {
        Some(v) => Ok(v),
        None => Err("no such boot config key: "@ + key),
    }
}

/// The value `config get <key>` prints.
pub fn config_get(c: &BootConfig, key: &str) -> (r: Result<String, String>)
    ensures
        match (r, config_get_spec(c@, key@)) {
            (Ok(a), Ok(b)) => a@ == b,
            (Err(a), Err(b)) => a@ == b,
            _ => false,
        },
{
    match c.field(key) {
        Some(v) => Ok(v),
        None => {
            let mut m = str_chars("no such boot config key: ");
            push_str(&mut m, key);
            Err(chars_to_string(&m))
        },
    }
}

/// What `default get` prints: the default entry, or `(unset)`.
pub fn default_get(c: &BootConfig) -> (r: String)
    ensures
        r@ == field_or_unset(c@, "default_entry"@),
{
    field_text(c, "default_entry")
}

/// The text after removing the suffix `suf`, when `s` ends with it.
pub open spec fn strip_suffix(s: Seq<char>, suf: Seq<char>) -> Option<Seq<char>> {
    if s.len() >= suf.len() && s.skip(s.len() - suf.len()) == suf {
        Some(s.take(s.len() - suf.len()))
    } else {
        None
    }
}

/// The names of the `.toml` files among `fs`, in order.
pub open spec fn toml_names(fs: Seq<Seq<char>>) -> Seq<Seq<char>>
    decreases fs.len(),
{
    if fs.len() == 0 {
        seq![]
    } else {
        let r = toml_names(fs.drop_last());
        match strip_suffix(fs.last(), ".toml"@) {
            Some(n) => r.push(n),
            None => r,
        }
    }
}

/// `x` placed after every text of `s` not greater than it.
pub open spec fn ins_text(s: Seq<Seq<char>>, x: Seq<char>) -> Seq<Seq<char>>
    decreases s.len(),
{
    if s.len() == 0 {
        seq![x]
    } else if lex_le(s.last(), x) {
        s.push(x)
    } else {
        ins_text(s.drop_last(), x).push(s.last())
    }
}

/// `s` sorted.
pub open spec fn sort_texts(s: Seq<Seq<char>>) -> Seq<Seq<char>>
    decreases s.len(),
{
    if s.len() == 0 {
        s
    } else {
        ins_text(sort_texts(s.drop_last()), s.last())
    }
}

proof fn lemma_ins_text_split(s: Seq<Seq<char>>, x: Seq<char>, p: int)
    requires
        0 <= p <= s.len(),
        forall|j: int| p <= j < s.len() ==> !lex_le(#[trigger] s[j], x),
        p == 0 || lex_le(s[p - 1], x),
    ensures
        ins_text(s, x) == s.take(p).push(x) + s.skip(p),
    decreases s.len(),
{
    if s.len() == 0 {
        assert(s.take(p).push(x) + s.skip(p) =~= seq![x]);
    } else if p == s.len() {
        assert(s.take(p).push(x) + s.skip(p) =~= s.push(x));
    } else {
        let t = s.drop_last();
        assert(!lex_le(s.last(), x));
        assert forall|j: int| p <= j < t.len() implies !lex_le(#[trigger] t[j], x) by {
            assert(t[j] == s[j]);
        }
        if p > 0 {
            assert(t[p - 1] == s[p - 1]);
        }
        lemma_ins_text_split(t, x, p);
        assert(t.take(p).push(x) + t.skip(p) + seq![s.last()] =~= s.take(p).push(x) + s.skip(p));
    }
}

/// The names of the saved profiles among the file names of the profiles
/// directory, sorted.
pub fn profile_names(files: &[String]) -> (v: Vec<String>)
    ensures
        v@.map_values(|s: String| s@) == sort_texts(toml_names(files@.map_values(|s: String| s@))),
{
    let ghost fv = files@.map_values(|s: String| s@);
    let mut out: Vec<String> = Vec::new();
    let mut i: usize = 0;
    while i < files.len()
        invariant
            0 <= i <= files@.len(),
            fv == files@.map_values(|s: String| s@),
            out@.map_values(|s: String| s@) == sort_texts(toml_names(fv.take(i as int))),
        decreases files@.len() - i,
    {
        assert(fv.take(i + 1).drop_last() =~= fv.take(i as int));
        assert(fv.take(i + 1).last() == files@[i as int]@);
        let f = str_chars(files[i].as_str());
        let suf = str_chars(".toml");
        if f.len() >= suf.len() {
            let tail = crate::text::copy_range(&f, f.len() - suf.len(), f.len());
            assert(tail@ =~= f@.skip(f@.len() - suf@.len()));
            if chars_eq(&tail, &suf) {
                let name = crate::text::copy_range(&f, 0, f.len() - suf.len());
                assert(name@ =~= f@.take(f@.len() - suf@.len()));
                let ghost sv = out@.map_values(|s: String| s@);
                let mut p: usize = out.len();
                let mut stop = false;
                while p > 0 && !stop
                    invariant
                        0 <= p <= out@.len(),
                        sv == out@.map_values(|s: String| s@),
                        forall|j: int| p <= j < sv.len() ==> !lex_le(#[trigger] sv[j], name@),
                        stop ==> p > 0 && lex_le(sv[p - 1], name@),
                    decreases p + if stop { 0int } else { 1int },
                {
                    let l = str_chars(out[p - 1].as_str());
                    assert(sv[p - 1] == l@);
                    if crate::discovery::lex_le_text(&l, &name) {
                        stop = true;
                    } else {
                        p -= 1;
                    }
                }
                proof {
                    lemma_ins_text_split(sv, name@, p as int);
                }
                let ns = chars_to_string(&name);
                out.insert(p, ns);
                assert(out@.map_values(|s: String| s@) =~= sv.take(p as int).push(name@) + sv.skip(p as int));
                assert(strip_suffix(f@, ".toml"@) == Some(name@));
                let ghost prev = toml_names(fv.take(i as int));
                assert(toml_names(fv.take(i + 1)) == prev.push(name@));
                assert(prev.push(name@).drop_last() =~= prev);
                assert(sort_texts(prev.push(name@)) == ins_text(sort_texts(prev), name@));
            } else {
                assert(strip_suffix(f@, ".toml"@) is None);
                assert(toml_names(fv.take(i + 1)) == toml_names(fv.take(i as int)));
            }
        } else {
            assert(strip_suffix(f@, ".toml"@) is None);
            assert(toml_names(fv.take(i + 1)) == toml_names(fv.take(i as int)));
        }
        i += 1;
    }
    assert(fv.take(files@.len() as int) =~= fv);
    out
}

} // verus!
