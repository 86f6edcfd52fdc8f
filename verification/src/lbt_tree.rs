//! The `lbt` command tree: discovery, images, geometry, logs, keys, and the rest.
//!
//! Every node carries a canonical name, aliases, a short help string, its
//! flags, and either child nodes or a [`Handler`].
use vstd::prelude::*;

use crate::cmd_tree::{
    children_of, flag_list, flag_view, flags_view, in_vocab, is_leaf, is_ns, leaf, names_view, namespace, node_flags_ok, nodes_flags_ok, push_node, vocab_consistent, Flag, Node,
};

verus! {

/// A runnable handler id.
#[derive(Debug, Clone, Copy, PartialEq, Eq, Structural)]
pub enum Handler {
    Info,
    Discover,
    ImageIso,
    ImageImg,
    ImageEsp,
    LogShow,
    LogTail,
    LogClear,
    LogFind,
    EnvShow,
    EnvCheck,
    EnvTool,
    FsLs,
    FsInfo,
    FsTree,
    RootfsShow,
    RootfsCheck,
    RootfsTree,
    Version,
    HelpAll,
    HelpTree,
    HelpCommand,
    AliasList,
    JsonInfo,
    JsonDiscover,
    JsonAll,
    NamesList,
    NamesGet,
    NamesCount,
    OsRelease,
    OsKernel,
    OsId,
    UsbList,
    UsbFlash,
    UsbDetect,
    FirmwareInfo,
    FirmwareAcpi,
    FirmwareSb,
    BuildAll,
    BuildBoot,
    BuildKernel,
    BuildLbt,
    KeysSetup,
    KeysSign,
    KeysEsl,
    KeysVerify,
    XferEsp,
    XferStage,
    QueryInfo,
    QueryEsps,
    GeometryShow,
    GeometryBgr,
    NetCheck,
}

impl Handler {
    /// Whether this handler belongs to the `cps` subsystem, which this build
    /// leaves out: none does.
    pub fn is_cps(&self) -> (b: bool)
        ensures
            !b,
    {
        false
    }
}

/// The flag vocabulary of the `lbt` tree: short character, long name, and whether it takes a value.
pub open spec fn vocab() -> Seq<(char, Seq<char>, bool)> {
    seq![
        ('j', seq!['j', 's', 'o', 'n'], false),
        ('p', seq!['p', 'a', 't', 'h'], true),
        ('o', seq!['o', 'u', 't'], true),
        ('r', seq!['r', 'o', 'o', 't', 'f', 's'], true),
        ('n', seq!['n', 'a', 'm', 'e'], true),
        ('d', seq!['d', 'e', 's', 't'], true),
        ('a', seq!['a', 'r', 'c', 'h'], true),
        ('c', seq!['c', 'o', 'n', 'f', 'i', 'g'], true),
        ('k', seq!['k', 'e', 'y', 'd', 'i', 'r'], true),
        ('l', seq!['l', 'a', 'b', 'e', 'l'], true),
        ('s', seq!['s', 'i', 'z', 'e'], true),
        ('D', seq!['d', 'e', 'p', 't', 'h'], true),
        ('f', seq!['p', 'a', 't', 't', 'e', 'r', 'n'], true),
        ('e', seq!['d', 'e', 'v', 'i', 'c', 'e'], true),
        ('g', seq!['s', 'o', 'u', 'r', 'c', 'e'], true),
        ('x', seq!['d', 'i', 's', 'p', 'l', 'a', 'y'], true),
        ('y', seq!['d', 'e', 's', 'c'], true),
        ('F', seq!['f', 'u', 'n', 'c'], true),
        ('A', seq!['a', 'l', 'i', 'a', 's', 'e', 's'], true),
        ('K', seq!['k', 'e', 'y'], true),
        ('V', seq!['v', 'a', 'l', 'u', 'e'], true),
        ('C', seq!['c', 'e', 'r', 't'], true),
    ]
}

/// Short characters and long names are unique in the vocabulary, and each
/// long name consistently takes a value or not.
#[verifier::rlimit(100)]
pub proof fn lemma_vocab_consistent()
    ensures
        vocab_consistent(vocab()),
{
    let v = vocab();
    assert forall|i: int, j: int| 0 <= i < v.len() && 0 <= j < v.len() && i != j implies v[i].0 != v[j].0
        && v[i].1 != v[j].1 by {
        assert(v[i].1.len() != v[j].1.len() || v[i].1[0] != v[j].1[0] || v[i].1[1] != v[j].1[1] || v[i].1[2]
            != v[j].1[2] || v[i].1[3] != v[j].1[3]);
    }
}

/// `-j` / `--json`: Emit machine-readable JSON.
pub fn f_json() -> (f: Flag)
    ensures
        f.short == 'j' && f.long@ == seq!['j', 's', 'o', 'n'] && f.value == false,
        in_vocab(f, vocab()),
        flag_view(f) == ('j', "json"@, false, "Emit machine-readable JSON"@),
{
    let f = Flag { short: 'j', long: "json", value: false, doc: "Emit machine-readable JSON" };
    proof {
        reveal_strlit("json");
        assert(vocab()[0] == (f.short, f.long@, f.value));
    }
    f
}

/// `-p` / `--path`: File or directory path.
pub fn f_path() -> (f: Flag)
    ensures
        f.short == 'p' && f.long@ == seq!['p', 'a', 't', 'h'] && f.value == true,
        in_vocab(f, vocab()),
        flag_view(f) == ('p', "path"@, true, "File or directory path"@),
{
    let f = Flag { short: 'p', long: "path", value: true, doc: "File or directory path" };
    proof {
        reveal_strlit("path");
        assert(vocab()[1] == (f.short, f.long@, f.value));
    }
    f
}

/// `-o` / `--out`: Output file.
pub fn f_out() -> (f: Flag)
    ensures
        f.short == 'o' && f.long@ == seq!['o', 'u', 't'] && f.value == true,
        in_vocab(f, vocab()),
        flag_view(f) == ('o', "out"@, true, "Output file"@),
{
    let f = Flag { short: 'o', long: "out", value: true, doc: "Output file" };
    proof {
        reveal_strlit("out");
        assert(vocab()[2] == (f.short, f.long@, f.value));
    }
    f
}

/// `-r` / `--rootfs`: Root filesystem directory.
pub fn f_rootfs() -> (f: Flag)
    ensures
        f.short == 'r' && f.long@ == seq!['r', 'o', 'o', 't', 'f', 's'] && f.value == true,
        in_vocab(f, vocab()),
        flag_view(f) == ('r', "rootfs"@, true, "Root filesystem directory"@),
{
    let f = Flag { short: 'r', long: "rootfs", value: true, doc: "Root filesystem directory" };
    proof {
        reveal_strlit("rootfs");
        assert(vocab()[3] == (f.short, f.long@, f.value));
    }
    f
}

/// `-n` / `--name`: Entry name.
pub fn f_name() -> (f: Flag)
    ensures
        f.short == 'n' && f.long@ == seq!['n', 'a', 'm', 'e'] && f.value == true,
        in_vocab(f, vocab()),
        flag_view(f) == ('n', "name"@, true, "Entry name"@),
{
    let f = Flag { short: 'n', long: "name", value: true, doc: "Entry name" };
    proof {
        reveal_strlit("name");
        assert(vocab()[4] == (f.short, f.long@, f.value));
    }
    f
}

/// `-d` / `--dest`: Destination directory.
pub fn f_dest() -> (f: Flag)
    ensures
        f.short == 'd' && f.long@ == seq!['d', 'e', 's', 't'] && f.value == true,
        in_vocab(f, vocab()),
        flag_view(f) == ('d', "dest"@, true, "Destination directory"@),
{
    let f = Flag { short: 'd', long: "dest", value: true, doc: "Destination directory" };
    proof {
        reveal_strlit("dest");
        assert(vocab()[5] == (f.short, f.long@, f.value));
    }
    f
}

/// `-a` / `--arch`: Architecture: amd64 | arm64.
pub fn f_arch() -> (f: Flag)
    ensures
        f.short == 'a' && f.long@ == seq!['a', 'r', 'c', 'h'] && f.value == true,
        in_vocab(f, vocab()),
        flag_view(f) == ('a', "arch"@, true, "Architecture: amd64 | arm64"@),
{
    let f = Flag { short: 'a', long: "arch", value: true, doc: "Architecture: amd64 | arm64" };
    proof {
        reveal_strlit("arch");
        assert(vocab()[6] == (f.short, f.long@, f.value));
    }
    f
}

/// `-c` / `--config`: Config file path.
pub fn f_config() -> (f: Flag)
    ensures
        f.short == 'c' && f.long@ == seq!['c', 'o', 'n', 'f', 'i', 'g'] && f.value == true,
        in_vocab(f, vocab()),
        flag_view(f) == ('c', "config"@, true, "Config file path"@),
{
    let f = Flag { short: 'c', long: "config", value: true, doc: "Config file path" };
    proof {
        reveal_strlit("config");
        assert(vocab()[7] == (f.short, f.long@, f.value));
    }
    f
}

/// `-k` / `--keydir`: Secure Boot key directory.
pub fn f_keydir() -> (f: Flag)
    ensures
        f.short == 'k' && f.long@ == seq!['k', 'e', 'y', 'd', 'i', 'r'] && f.value == true,
        in_vocab(f, vocab()),
        flag_view(f) == ('k', "keydir"@, true, "Secure Boot key directory"@),
{
    let f = Flag { short: 'k', long: "keydir", value: true, doc: "Secure Boot key directory" };
    proof {
        reveal_strlit("keydir");
        assert(vocab()[8] == (f.short, f.long@, f.value));
    }
    f
}

/// `-l` / `--label`: Volume label.
pub fn f_label() -> (f: Flag)
    ensures
        f.short == 'l' && f.long@ == seq!['l', 'a', 'b', 'e', 'l'] && f.value == true,
        in_vocab(f, vocab()),
        flag_view(f) == ('l', "label"@, true, "Volume label"@),
{
    let f = Flag { short: 'l', long: "label", value: true, doc: "Volume label" };
    proof {
        reveal_strlit("label");
        assert(vocab()[9] == (f.short, f.long@, f.value));
    }
    f
}

/// `-s` / `--size`: Size in MiB.
pub fn f_size() -> (f: Flag)
    ensures
        f.short == 's' && f.long@ == seq!['s', 'i', 'z', 'e'] && f.value == true,
        in_vocab(f, vocab()),
        flag_view(f) == ('s', "size"@, true, "Size in MiB"@),
{
    let f = Flag { short: 's', long: "size", value: true, doc: "Size in MiB" };
    proof {
        reveal_strlit("size");
        assert(vocab()[10] == (f.short, f.long@, f.value));
    }
    f
}

/// `-D` / `--depth`: Traversal depth.
pub fn f_depth() -> (f: Flag)
    ensures
        f.short == 'D' && f.long@ == seq!['d', 'e', 'p', 't', 'h'] && f.value == true,
        in_vocab(f, vocab()),
        flag_view(f) == ('D', "depth"@, true, "Traversal depth"@),
{
    let f = Flag { short: 'D', long: "depth", value: true, doc: "Traversal depth" };
    proof {
        reveal_strlit("depth");
        assert(vocab()[11] == (f.short, f.long@, f.value));
    }
    f
}

/// `-f` / `--pattern`: Search pattern.
pub fn f_pattern() -> (f: Flag)
    ensures
        f.short == 'f' && f.long@ == seq!['p', 'a', 't', 't', 'e', 'r', 'n'] && f.value == true,
        in_vocab(f, vocab()),
        flag_view(f) == ('f', "pattern"@, true, "Search pattern"@),
{
    let f = Flag { short: 'f', long: "pattern", value: true, doc: "Search pattern" };
    proof {
        reveal_strlit("pattern");
        assert(vocab()[12] == (f.short, f.long@, f.value));
    }
    f
}

/// `-e` / `--device`: Block device path.
pub fn f_device() -> (f: Flag)
    ensures
        f.short == 'e' && f.long@ == seq!['d', 'e', 'v', 'i', 'c', 'e'] && f.value == true,
        in_vocab(f, vocab()),
        flag_view(f) == ('e', "device"@, true, "Block device path"@),
{
    let f = Flag { short: 'e', long: "device", value: true, doc: "Block device path" };
    proof {
        reveal_strlit("device");
        assert(vocab()[13] == (f.short, f.long@, f.value));
    }
    f
}

/// `-g` / `--source`: Source path.
pub fn f_source() -> (f: Flag)
    ensures
        f.short == 'g' && f.long@ == seq!['s', 'o', 'u', 'r', 'c', 'e'] && f.value == true,
        in_vocab(f, vocab()),
        flag_view(f) == ('g', "source"@, true, "Source path"@),
{
    let f = Flag { short: 'g', long: "source", value: true, doc: "Source path" };
    proof {
        reveal_strlit("source");
        assert(vocab()[14] == (f.short, f.long@, f.value));
    }
    f
}

/// `-x` / `--display`: Display name.
pub fn f_display() -> (f: Flag)
    ensures
        f.short == 'x' && f.long@ == seq!['d', 'i', 's', 'p', 'l', 'a', 'y'] && f.value == true,
        in_vocab(f, vocab()),
        flag_view(f) == ('x', "display"@, true, "Display name"@),
{
    let f = Flag { short: 'x', long: "display", value: true, doc: "Display name" };
    proof {
        reveal_strlit("display");
        assert(vocab()[15] == (f.short, f.long@, f.value));
    }
    f
}

/// `-y` / `--desc`: Description.
pub fn f_desc() -> (f: Flag)
    ensures
        f.short == 'y' && f.long@ == seq!['d', 'e', 's', 'c'] && f.value == true,
        in_vocab(f, vocab()),
        flag_view(f) == ('y', "desc"@, true, "Description"@),
{
    let f = Flag { short: 'y', long: "desc", value: true, doc: "Description" };
    proof {
        reveal_strlit("desc");
        assert(vocab()[16] == (f.short, f.long@, f.value));
    }
    f
}

/// `-F` / `--func`: Plugin hook function.
pub fn f_func() -> (f: Flag)
    ensures
        f.short == 'F' && f.long@ == seq!['f', 'u', 'n', 'c'] && f.value == true,
        in_vocab(f, vocab()),
        flag_view(f) == ('F', "func"@, true, "Plugin hook function"@),
{
    let f = Flag { short: 'F', long: "func", value: true, doc: "Plugin hook function" };
    proof {
        reveal_strlit("func");
        assert(vocab()[17] == (f.short, f.long@, f.value));
    }
    f
}

/// `-A` / `--aliases`: Comma-separated aliases.
pub fn f_aliases() -> (f: Flag)
    ensures
        f.short == 'A' && f.long@ == seq!['a', 'l', 'i', 'a', 's', 'e', 's'] && f.value == true,
        in_vocab(f, vocab()),
        flag_view(f) == ('A', "aliases"@, true, "Comma-separated aliases"@),
{
    let f = Flag { short: 'A', long: "aliases", value: true, doc: "Comma-separated aliases" };
    proof {
        reveal_strlit("aliases");
        assert(vocab()[18] == (f.short, f.long@, f.value));
    }
    f
}

/// `-K` / `--key`: Config key.
pub fn f_key() -> (f: Flag)
    ensures
        f.short == 'K' && f.long@ == seq!['k', 'e', 'y'] && f.value == true,
        in_vocab(f, vocab()),
        flag_view(f) == ('K', "key"@, true, "Config key"@),
{
    let f = Flag { short: 'K', long: "key", value: true, doc: "Config key" };
    proof {
        reveal_strlit("key");
        assert(vocab()[19] == (f.short, f.long@, f.value));
    }
    f
}

/// `-V` / `--value`: Config value.
pub fn f_value() -> (f: Flag)
    ensures
        f.short == 'V' && f.long@ == seq!['v', 'a', 'l', 'u', 'e'] && f.value == true,
        in_vocab(f, vocab()),
        flag_view(f) == ('V', "value"@, true, "Config value"@),
{
    let f = Flag { short: 'V', long: "value", value: true, doc: "Config value" };
    proof {
        reveal_strlit("value");
        assert(vocab()[20] == (f.short, f.long@, f.value));
    }
    f
}

/// `-C` / `--cert`: Certificate PEM path.
pub fn f_cert() -> (f: Flag)
    ensures
        f.short == 'C' && f.long@ == seq!['c', 'e', 'r', 't'] && f.value == true,
        in_vocab(f, vocab()),
        flag_view(f) == ('C', "cert"@, true, "Certificate PEM path"@),
{
    let f = Flag { short: 'C', long: "cert", value: true, doc: "Certificate PEM path" };
    proof {
        reveal_strlit("cert");
        assert(vocab()[21] == (f.short, f.long@, f.value));
    }
    f
}

/// The short characters and long names of the flags that take a value.
pub open spec fn value_vocab() -> Seq<(char, Seq<char>)> {
    seq![
        ('p', seq!['p', 'a', 't', 'h']),
        ('o', seq!['o', 'u', 't']),
        ('r', seq!['r', 'o', 'o', 't', 'f', 's']),
        ('n', seq!['n', 'a', 'm', 'e']),
        ('d', seq!['d', 'e', 's', 't']),
        ('a', seq!['a', 'r', 'c', 'h']),
        ('c', seq!['c', 'o', 'n', 'f', 'i', 'g']),
        ('k', seq!['k', 'e', 'y', 'd', 'i', 'r']),
        ('l', seq!['l', 'a', 'b', 'e', 'l']),
        ('s', seq!['s', 'i', 'z', 'e']),
        ('D', seq!['d', 'e', 'p', 't', 'h']),
        ('f', seq!['p', 'a', 't', 't', 'e', 'r', 'n']),
        ('e', seq!['d', 'e', 'v', 'i', 'c', 'e']),
        ('g', seq!['s', 'o', 'u', 'r', 'c', 'e']),
        ('x', seq!['d', 'i', 's', 'p', 'l', 'a', 'y']),
        ('y', seq!['d', 'e', 's', 'c']),
        ('F', seq!['f', 'u', 'n', 'c']),
        ('A', seq!['a', 'l', 'i', 'a', 's', 'e', 's']),
        ('K', seq!['k', 'e', 'y']),
        ('V', seq!['v', 'a', 'l', 'u', 'e']),
        ('C', seq!['c', 'e', 'r', 't']),
    ]
}

/// The flags that take a value.
pub fn value_flags() -> (v: Vec<Flag>)
    ensures
        forall|i: int| 0 <= i < v@.len() ==> in_vocab(#[trigger] v@[i], vocab()) && v@[i].value,
        v@.len() == 21,
        forall|i: int| 0 <= i < v@.len() ==> (#[trigger] v@[i]).short == value_vocab()[i].0 && v@[i].long@ == value_vocab()[i].1,
{
    let mut v: Vec<Flag> = Vec::new();
    v.push(f_path());
    v.push(f_out());
    v.push(f_rootfs());
    v.push(f_name());
    v.push(f_dest());
    v.push(f_arch());
    v.push(f_config());
    v.push(f_keydir());
    v.push(f_label());
    v.push(f_size());
    v.push(f_depth());
    v.push(f_pattern());
    v.push(f_device());
    v.push(f_source());
    v.push(f_display());
    v.push(f_desc());
    v.push(f_func());
    v.push(f_aliases());
    v.push(f_key());
    v.push(f_value());
    v.push(f_cert());
    v
}

/// What [`image_tree_image`] returns: the `image` commands.
#[verifier::opaque]
pub open spec fn image_tree_image_is(v: Seq<Node<Handler>>) -> bool {
    &&& v.len() == 3
    &&& is_leaf(v[0], "iso"@, "Build a bootable ISO from a rootfs"@, seq!["i"@, "cd"@, "optical"@, "disc"@], seq![('r', "rootfs"@, true, "Root filesystem directory"@), ('o', "out"@, true, "Output file"@), ('l', "label"@, true, "Volume label"@)], Handler::ImageIso)
    &&& is_leaf(v[1], "img"@, "Build a GPT disk image from a rootfs"@, seq!["g"@, "disk"@, "raw"@, "hdd"@], seq![('r', "rootfs"@, true, "Root filesystem directory"@), ('o', "out"@, true, "Output file"@), ('s', "size"@, true, "Size in MiB"@)], Handler::ImageImg)
    &&& is_leaf(v[2], "esp"@, "Build an ESP image from a rootfs"@, seq!["e"@, "efi"@, "fat"@, "part"@], seq![('r', "rootfs"@, true, "Root filesystem directory"@), ('o', "out"@, true, "Output file"@), ('s', "size"@, true, "Size in MiB"@)], Handler::ImageEsp)
}

/// The `image` commands.
fn image_tree_image() -> (v: Vec<Node<Handler>>)
    ensures
        nodes_flags_ok(v@, vocab()),
        image_tree_image_is(v@),
{
    let mut v: Vec<Node<Handler>> = Vec::new();
    let n0 = leaf("iso", "Build a bootable ISO from a rootfs", vec!["i", "cd", "optical", "disc"], flag_list(&[f_rootfs(), f_out(), f_label()]), Handler::ImageIso);
    let ghost g0 = n0;
    proof {
        assert(names_view(n0.aliases@) =~= seq!["i"@, "cd"@, "optical"@, "disc"@]);
        assert(flags_view(n0.flags@) =~= seq![('r', "rootfs"@, true, "Root filesystem directory"@), ('o', "out"@, true, "Output file"@), ('l', "label"@, true, "Volume label"@)]);
        assert(is_leaf(g0, "iso"@, "Build a bootable ISO from a rootfs"@, seq!["i"@, "cd"@, "optical"@, "disc"@], seq![('r', "rootfs"@, true, "Root filesystem directory"@), ('o', "out"@, true, "Output file"@), ('l', "label"@, true, "Volume label"@)], Handler::ImageIso));
    }
    push_node(&mut v, n0, Ghost(vocab()));
    let n1 = leaf("img", "Build a GPT disk image from a rootfs", vec!["g", "disk", "raw", "hdd"], flag_list(&[f_rootfs(), f_out(), f_size()]), Handler::ImageImg);
    let ghost g1 = n1;
    proof {
        assert(names_view(n1.aliases@) =~= seq!["g"@, "disk"@, "raw"@, "hdd"@]);
        assert(flags_view(n1.flags@) =~= seq![('r', "rootfs"@, true, "Root filesystem directory"@), ('o', "out"@, true, "Output file"@), ('s', "size"@, true, "Size in MiB"@)]);
        assert(is_leaf(g1, "img"@, "Build a GPT disk image from a rootfs"@, seq!["g"@, "disk"@, "raw"@, "hdd"@], seq![('r', "rootfs"@, true, "Root filesystem directory"@), ('o', "out"@, true, "Output file"@), ('s', "size"@, true, "Size in MiB"@)], Handler::ImageImg));
    }
    push_node(&mut v, n1, Ghost(vocab()));
    let n2 = leaf("esp", "Build an ESP image from a rootfs", vec!["e", "efi", "fat", "part"], flag_list(&[f_rootfs(), f_out(), f_size()]), Handler::ImageEsp);
    let ghost g2 = n2;
    proof {
        assert(names_view(n2.aliases@) =~= seq!["e"@, "efi"@, "fat"@, "part"@]);
        assert(flags_view(n2.flags@) =~= seq![('r', "rootfs"@, true, "Root filesystem directory"@), ('o', "out"@, true, "Output file"@), ('s', "size"@, true, "Size in MiB"@)]);
        assert(is_leaf(g2, "esp"@, "Build an ESP image from a rootfs"@, seq!["e"@, "efi"@, "fat"@, "part"@], seq![('r', "rootfs"@, true, "Root filesystem directory"@), ('o', "out"@, true, "Output file"@), ('s', "size"@, true, "Size in MiB"@)], Handler::ImageEsp));
    }
    push_node(&mut v, n2, Ghost(vocab()));
    proof {
        assert(v@ =~= seq![g0, g1, g2]);
        reveal(image_tree_image_is);
    }
    v
}

/// What [`fs_tree_fs`] returns: the `fs` commands.
#[verifier::opaque]
pub open spec fn fs_tree_fs_is(v: Seq<Node<Handler>>) -> bool {
    &&& v.len() == 3
    &&& is_leaf(v[0], "ls"@, "List a directory"@, seq!["l"@, "list"@, "browse"@, "walk"@], seq![('p', "path"@, true, "File or directory path"@)], Handler::FsLs)
    &&& is_leaf(v[1], "info"@, "Stat a file or directory"@, seq!["i"@, "stat"@, "describe"@, "detail"@], seq![('p', "path"@, true, "File or directory path"@)], Handler::FsInfo)
    &&& is_leaf(v[2], "tree"@, "Print a directory tree"@, seq!["t"@, "depth"@, "dump"@, "hierarchy"@], seq![('p', "path"@, true, "File or directory path"@), ('D', "depth"@, true, "Traversal depth"@)], Handler::FsTree)
}

/// The `fs` commands.
fn fs_tree_fs() -> (v: Vec<Node<Handler>>)
    ensures
        nodes_flags_ok(v@, vocab()),
        fs_tree_fs_is(v@),
{
    let mut v: Vec<Node<Handler>> = Vec::new();
    let n0 = leaf("ls", "List a directory", vec!["l", "list", "browse", "walk"], flag_list(&[f_path()]), Handler::FsLs);
    let ghost g0 = n0;
    proof {
        assert(names_view(n0.aliases@) =~= seq!["l"@, "list"@, "browse"@, "walk"@]);
        assert(flags_view(n0.flags@) =~= seq![('p', "path"@, true, "File or directory path"@)]);
        assert(is_leaf(g0, "ls"@, "List a directory"@, seq!["l"@, "list"@, "browse"@, "walk"@], seq![('p', "path"@, true, "File or directory path"@)], Handler::FsLs));
    }
    push_node(&mut v, n0, Ghost(vocab()));
    let n1 = leaf("info", "Stat a file or directory", vec!["i", "stat", "describe", "detail"], flag_list(&[f_path()]), Handler::FsInfo);
    let ghost g1 = n1;
    proof {
        assert(names_view(n1.aliases@) =~= seq!["i"@, "stat"@, "describe"@, "detail"@]);
        assert(flags_view(n1.flags@) =~= seq![('p', "path"@, true, "File or directory path"@)]);
        assert(is_leaf(g1, "info"@, "Stat a file or directory"@, seq!["i"@, "stat"@, "describe"@, "detail"@], seq![('p', "path"@, true, "File or directory path"@)], Handler::FsInfo));
    }
    push_node(&mut v, n1, Ghost(vocab()));
    let n2 = leaf("tree", "Print a directory tree", vec!["t", "depth", "dump", "hierarchy"], flag_list(&[f_path(), f_depth()]), Handler::FsTree);
    let ghost g2 = n2;
    proof {
        assert(names_view(n2.aliases@) =~= seq!["t"@, "depth"@, "dump"@, "hierarchy"@]);
        assert(flags_view(n2.flags@) =~= seq![('p', "path"@, true, "File or directory path"@), ('D', "depth"@, true, "Traversal depth"@)]);
        assert(is_leaf(g2, "tree"@, "Print a directory tree"@, seq!["t"@, "depth"@, "dump"@, "hierarchy"@], seq![('p', "path"@, true, "File or directory path"@), ('D', "depth"@, true, "Traversal depth"@)], Handler::FsTree));
    }
    push_node(&mut v, n2, Ghost(vocab()));
    proof {
        assert(v@ =~= seq![g0, g1, g2]);
        reveal(fs_tree_fs_is);
    }
    v
}

/// What [`fs_tree_rootfs`] returns: the `fs` commands.
#[verifier::opaque]
pub open spec fn fs_tree_rootfs_is(v: Seq<Node<Handler>>) -> bool {
    &&& v.len() == 3
    &&& is_leaf(v[0], "show"@, "Describe a rootfs"@, seq!["s"@, "display"@, "describe"@, "dump"@], seq![('p', "path"@, true, "File or directory path"@)], Handler::RootfsShow)
    &&& is_leaf(v[1], "check"@, "Validate a rootfs layout"@, seq!["c"@, "verify"@, "validate"@, "test"@], seq![('p', "path"@, true, "File or directory path"@)], Handler::RootfsCheck)
    &&& is_leaf(v[2], "tree"@, "Inventory a rootfs"@, seq!["t"@, "list"@, "walk"@, "inventory"@], seq![('p', "path"@, true, "File or directory path"@), ('D', "depth"@, true, "Traversal depth"@)], Handler::RootfsTree)
}

/// The `fs` commands.
fn fs_tree_rootfs() -> (v: Vec<Node<Handler>>)
    ensures
        nodes_flags_ok(v@, vocab()),
        fs_tree_rootfs_is(v@),
{
    let mut v: Vec<Node<Handler>> = Vec::new();
    let n0 = leaf("show", "Describe a rootfs", vec!["s", "display", "describe", "dump"], flag_list(&[f_path()]), Handler::RootfsShow);
    let ghost g0 = n0;
    proof {
        assert(names_view(n0.aliases@) =~= seq!["s"@, "display"@, "describe"@, "dump"@]);
        assert(flags_view(n0.flags@) =~= seq![('p', "path"@, true, "File or directory path"@)]);
        assert(is_leaf(g0, "show"@, "Describe a rootfs"@, seq!["s"@, "display"@, "describe"@, "dump"@], seq![('p', "path"@, true, "File or directory path"@)], Handler::RootfsShow));
    }
    push_node(&mut v, n0, Ghost(vocab()));
    let n1 = leaf("check", "Validate a rootfs layout", vec!["c", "verify", "validate", "test"], flag_list(&[f_path()]), Handler::RootfsCheck);
    let ghost g1 = n1;
    proof {
        assert(names_view(n1.aliases@) =~= seq!["c"@, "verify"@, "validate"@, "test"@]);
        assert(flags_view(n1.flags@) =~= seq![('p', "path"@, true, "File or directory path"@)]);
        assert(is_leaf(g1, "check"@, "Validate a rootfs layout"@, seq!["c"@, "verify"@, "validate"@, "test"@], seq![('p', "path"@, true, "File or directory path"@)], Handler::RootfsCheck));
    }
    push_node(&mut v, n1, Ghost(vocab()));
    let n2 = leaf("tree", "Inventory a rootfs", vec!["t", "list", "walk", "inventory"], flag_list(&[f_path(), f_depth()]), Handler::RootfsTree);
    let ghost g2 = n2;
    proof {
        assert(names_view(n2.aliases@) =~= seq!["t"@, "list"@, "walk"@, "inventory"@]);
        assert(flags_view(n2.flags@) =~= seq![('p', "path"@, true, "File or directory path"@), ('D', "depth"@, true, "Traversal depth"@)]);
        assert(is_leaf(g2, "tree"@, "Inventory a rootfs"@, seq!["t"@, "list"@, "walk"@, "inventory"@], seq![('p', "path"@, true, "File or directory path"@), ('D', "depth"@, true, "Traversal depth"@)], Handler::RootfsTree));
    }
    push_node(&mut v, n2, Ghost(vocab()));
    proof {
        assert(v@ =~= seq![g0, g1, g2]);
        reveal(fs_tree_rootfs_is);
    }
    v
}

/// What [`log_tree_log`] returns: the `log` commands.
#[verifier::opaque]
pub open spec fn log_tree_log_is(v: Seq<Node<Handler>>) -> bool {
    &&& v.len() == 4
    &&& is_leaf(v[0], "show"@, "Print the Leon boot log"@, seq!["s"@, "view"@, "cat"@, "print"@], seq![('p', "path"@, true, "File or directory path"@)], Handler::LogShow)
    &&& is_leaf(v[1], "tail"@, "Tail the boot log (polling)"@, seq!["t"@, "follow"@, "watch"@, "stream"@], seq![('p', "path"@, true, "File or directory path"@)], Handler::LogTail)
    &&& is_leaf(v[2], "clear"@, "Truncate the boot log"@, seq!["c"@, "wipe"@, "truncate"@, "empty"@], seq![('p', "path"@, true, "File or directory path"@)], Handler::LogClear)
    &&& is_leaf(v[3], "find"@, "Search the boot log"@, seq!["f"@, "grep"@, "search"@, "scan"@], seq![('f', "pattern"@, true, "Search pattern"@), ('p', "path"@, true, "File or directory path"@)], Handler::LogFind)
}

/// The `log` commands.
fn log_tree_log() -> (v: Vec<Node<Handler>>)
    ensures
        nodes_flags_ok(v@, vocab()),
        log_tree_log_is(v@),
{
    let mut v: Vec<Node<Handler>> = Vec::new();
    let n0 = leaf("show", "Print the Leon boot log", vec!["s", "view", "cat", "print"], flag_list(&[f_path()]), Handler::LogShow);
    let ghost g0 = n0;
    proof {
        assert(names_view(n0.aliases@) =~= seq!["s"@, "view"@, "cat"@, "print"@]);
        assert(flags_view(n0.flags@) =~= seq![('p', "path"@, true, "File or directory path"@)]);
        assert(is_leaf(g0, "show"@, "Print the Leon boot log"@, seq!["s"@, "view"@, "cat"@, "print"@], seq![('p', "path"@, true, "File or directory path"@)], Handler::LogShow));
    }
    push_node(&mut v, n0, Ghost(vocab()));
    let n1 = leaf("tail", "Tail the boot log (polling)", vec!["t", "follow", "watch", "stream"], flag_list(&[f_path()]), Handler::LogTail);
    let ghost g1 = n1;
    proof {
        assert(names_view(n1.aliases@) =~= seq!["t"@, "follow"@, "watch"@, "stream"@]);
        assert(flags_view(n1.flags@) =~= seq![('p', "path"@, true, "File or directory path"@)]);
        assert(is_leaf(g1, "tail"@, "Tail the boot log (polling)"@, seq!["t"@, "follow"@, "watch"@, "stream"@], seq![('p', "path"@, true, "File or directory path"@)], Handler::LogTail));
    }
    push_node(&mut v, n1, Ghost(vocab()));
    let n2 = leaf("clear", "Truncate the boot log", vec!["c", "wipe", "truncate", "empty"], flag_list(&[f_path()]), Handler::LogClear);
    let ghost g2 = n2;
    proof {
        assert(names_view(n2.aliases@) =~= seq!["c"@, "wipe"@, "truncate"@, "empty"@]);
        assert(flags_view(n2.flags@) =~= seq![('p', "path"@, true, "File or directory path"@)]);
        assert(is_leaf(g2, "clear"@, "Truncate the boot log"@, seq!["c"@, "wipe"@, "truncate"@, "empty"@], seq![('p', "path"@, true, "File or directory path"@)], Handler::LogClear));
    }
    push_node(&mut v, n2, Ghost(vocab()));
    let n3 = leaf("find", "Search the boot log", vec!["f", "grep", "search", "scan"], flag_list(&[f_pattern(), f_path()]), Handler::LogFind);
    let ghost g3 = n3;
    proof {
        assert(names_view(n3.aliases@) =~= seq!["f"@, "grep"@, "search"@, "scan"@]);
        assert(flags_view(n3.flags@) =~= seq![('f', "pattern"@, true, "Search pattern"@), ('p', "path"@, true, "File or directory path"@)]);
        assert(is_leaf(g3, "find"@, "Search the boot log"@, seq!["f"@, "grep"@, "search"@, "scan"@], seq![('f', "pattern"@, true, "Search pattern"@), ('p', "path"@, true, "File or directory path"@)], Handler::LogFind));
    }
    push_node(&mut v, n3, Ghost(vocab()));
    proof {
        assert(v@ =~= seq![g0, g1, g2, g3]);
        reveal(log_tree_log_is);
    }
    v
}

/// What [`keys_tree_keys`] returns: the `keys` commands.
#[verifier::opaque]
pub open spec fn keys_tree_keys_is(v: Seq<Node<Handler>>) -> bool {
    &&& v.len() == 4
    &&& is_leaf(v[0], "setup"@, "Generate a Secure Boot key set"@, seq!["s"@, "gen"@, "create"@, "init"@], seq![('k', "keydir"@, true, "Secure Boot key directory"@)], Handler::KeysSetup)
    &&& is_leaf(v[1], "sign"@, "Sign EFI images with the db key"@, seq!["g"@, "sbsign"@, "certify"@, "seal"@], seq![('k', "keydir"@, true, "Secure Boot key directory"@), ('p', "path"@, true, "File or directory path"@), ('o', "out"@, true, "Output file"@)], Handler::KeysSign)
    &&& is_leaf(v[2], "esl"@, "Emit an .esl for a certificate"@, seq!["e"@, "enroll"@, "cert"@, "emit"@], seq![('C', "cert"@, true, "Certificate PEM path"@)], Handler::KeysEsl)
    &&& is_leaf(v[3], "verify"@, "Verify an EFI image signature"@, seq!["v"@, "check"@, "sbverify"@, "validate"@], seq![('C', "cert"@, true, "Certificate PEM path"@), ('p', "path"@, true, "File or directory path"@)], Handler::KeysVerify)
}

/// The `keys` commands.
fn keys_tree_keys() -> (v: Vec<Node<Handler>>)
    ensures
        nodes_flags_ok(v@, vocab()),
        keys_tree_keys_is(v@),
{
    let mut v: Vec<Node<Handler>> = Vec::new();
    let n0 = leaf("setup", "Generate a Secure Boot key set", vec!["s", "gen", "create", "init"], flag_list(&[f_keydir()]), Handler::KeysSetup);
    let ghost g0 = n0;
    proof {
        assert(names_view(n0.aliases@) =~= seq!["s"@, "gen"@, "create"@, "init"@]);
        assert(flags_view(n0.flags@) =~= seq![('k', "keydir"@, true, "Secure Boot key directory"@)]);
        assert(is_leaf(g0, "setup"@, "Generate a Secure Boot key set"@, seq!["s"@, "gen"@, "create"@, "init"@], seq![('k', "keydir"@, true, "Secure Boot key directory"@)], Handler::KeysSetup));
    }
    push_node(&mut v, n0, Ghost(vocab()));
    let n1 = leaf("sign", "Sign EFI images with the db key", vec!["g", "sbsign", "certify", "seal"], flag_list(&[f_keydir(), f_path(), f_out()]), Handler::KeysSign);
    let ghost g1 = n1;
    proof {
        assert(names_view(n1.aliases@) =~= seq!["g"@, "sbsign"@, "certify"@, "seal"@]);
        assert(flags_view(n1.flags@) =~= seq![('k', "keydir"@, true, "Secure Boot key directory"@), ('p', "path"@, true, "File or directory path"@), ('o', "out"@, true, "Output file"@)]);
        assert(is_leaf(g1, "sign"@, "Sign EFI images with the db key"@, seq!["g"@, "sbsign"@, "certify"@, "seal"@], seq![('k', "keydir"@, true, "Secure Boot key directory"@), ('p', "path"@, true, "File or directory path"@), ('o', "out"@, true, "Output file"@)], Handler::KeysSign));
    }
    push_node(&mut v, n1, Ghost(vocab()));
    let n2 = leaf("esl", "Emit an .esl for a certificate", vec!["e", "enroll", "cert", "emit"], flag_list(&[f_cert()]), Handler::KeysEsl);
    let ghost g2 = n2;
    proof {
        assert(names_view(n2.aliases@) =~= seq!["e"@, "enroll"@, "cert"@, "emit"@]);
        assert(flags_view(n2.flags@) =~= seq![('C', "cert"@, true, "Certificate PEM path"@)]);
        assert(is_leaf(g2, "esl"@, "Emit an .esl for a certificate"@, seq!["e"@, "enroll"@, "cert"@, "emit"@], seq![('C', "cert"@, true, "Certificate PEM path"@)], Handler::KeysEsl));
    }
    push_node(&mut v, n2, Ghost(vocab()));
    let n3 = leaf("verify", "Verify an EFI image signature", vec!["v", "check", "sbverify", "validate"], flag_list(&[f_cert(), f_path()]), Handler::KeysVerify);
    let ghost g3 = n3;
    proof {
        assert(names_view(n3.aliases@) =~= seq!["v"@, "check"@, "sbverify"@, "validate"@]);
        assert(flags_view(n3.flags@) =~= seq![('C', "cert"@, true, "Certificate PEM path"@), ('p', "path"@, true, "File or directory path"@)]);
        assert(is_leaf(g3, "verify"@, "Verify an EFI image signature"@, seq!["v"@, "check"@, "sbverify"@, "validate"@], seq![('C', "cert"@, true, "Certificate PEM path"@), ('p', "path"@, true, "File or directory path"@)], Handler::KeysVerify));
    }
    push_node(&mut v, n3, Ghost(vocab()));
    proof {
        assert(v@ =~= seq![g0, g1, g2, g3]);
        reveal(keys_tree_keys_is);
    }
    v
}

/// What [`build_tree_build`] returns: the `build` commands.
#[verifier::opaque]
pub open spec fn build_tree_build_is(v: Seq<Node<Handler>>) -> bool {
    &&& v.len() == 4
    &&& is_leaf(v[0], "all"@, "Build bootloader + kernel + lbt"@, seq!["a"@, "full"@, "everything"@, "default"@], seq![('a', "arch"@, true, "Architecture: amd64 | arm64"@)], Handler::BuildAll)
    &&& is_leaf(v[1], "boot"@, "Build the bootloader"@, seq!["b"@, "loader"@, "lbl"@, "bl"@], seq![('a', "arch"@, true, "Architecture: amd64 | arm64"@)], Handler::BuildBoot)
    &&& is_leaf(v[2], "kernel"@, "Build the EFI-stub kernel"@, seq!["k"@, "kbl"@, "stub"@, "kern"@], seq![('a', "arch"@, true, "Architecture: amd64 | arm64"@)], Handler::BuildKernel)
    &&& is_leaf(v[3], "lbt"@, "Build the lbt host tool"@, seq!["l"@, "tool"@, "host"@, "builder"@], Seq::<(char, Seq<char>, bool, Seq<char>)>::empty(), Handler::BuildLbt)
}

/// The `build` commands.
fn build_tree_build() -> (v: Vec<Node<Handler>>)
    ensures
        nodes_flags_ok(v@, vocab()),
        build_tree_build_is(v@),
{
    let mut v: Vec<Node<Handler>> = Vec::new();
    let n0 = leaf("all", "Build bootloader + kernel + lbt", vec!["a", "full", "everything", "default"], flag_list(&[f_arch()]), Handler::BuildAll);
    let ghost g0 = n0;
    proof {
        assert(names_view(n0.aliases@) =~= seq!["a"@, "full"@, "everything"@, "default"@]);
        assert(flags_view(n0.flags@) =~= seq![('a', "arch"@, true, "Architecture: amd64 | arm64"@)]);
        assert(is_leaf(g0, "all"@, "Build bootloader + kernel + lbt"@, seq!["a"@, "full"@, "everything"@, "default"@], seq![('a', "arch"@, true, "Architecture: amd64 | arm64"@)], Handler::BuildAll));
    }
    push_node(&mut v, n0, Ghost(vocab()));
    let n1 = leaf("boot", "Build the bootloader", vec!["b", "loader", "lbl", "bl"], flag_list(&[f_arch()]), Handler::BuildBoot);
    let ghost g1 = n1;
    proof {
        assert(names_view(n1.aliases@) =~= seq!["b"@, "loader"@, "lbl"@, "bl"@]);
        assert(flags_view(n1.flags@) =~= seq![('a', "arch"@, true, "Architecture: amd64 | arm64"@)]);
        assert(is_leaf(g1, "boot"@, "Build the bootloader"@, seq!["b"@, "loader"@, "lbl"@, "bl"@], seq![('a', "arch"@, true, "Architecture: amd64 | arm64"@)], Handler::BuildBoot));
    }
    push_node(&mut v, n1, Ghost(vocab()));
    let n2 = leaf("kernel", "Build the EFI-stub kernel", vec!["k", "kbl", "stub", "kern"], flag_list(&[f_arch()]), Handler::BuildKernel);
    let ghost g2 = n2;
    proof {
        assert(names_view(n2.aliases@) =~= seq!["k"@, "kbl"@, "stub"@, "kern"@]);
        assert(flags_view(n2.flags@) =~= seq![('a', "arch"@, true, "Architecture: amd64 | arm64"@)]);
        assert(is_leaf(g2, "kernel"@, "Build the EFI-stub kernel"@, seq!["k"@, "kbl"@, "stub"@, "kern"@], seq![('a', "arch"@, true, "Architecture: amd64 | arm64"@)], Handler::BuildKernel));
    }
    push_node(&mut v, n2, Ghost(vocab()));
    let n3 = leaf("lbt", "Build the lbt host tool", vec!["l", "tool", "host", "builder"], Vec::new(), Handler::BuildLbt);
    let ghost g3 = n3;
    proof {
        assert(names_view(n3.aliases@) =~= seq!["l"@, "tool"@, "host"@, "builder"@]);
        assert(flags_view(n3.flags@) =~= Seq::<(char, Seq<char>, bool, Seq<char>)>::empty());
        assert(is_leaf(g3, "lbt"@, "Build the lbt host tool"@, seq!["l"@, "tool"@, "host"@, "builder"@], Seq::<(char, Seq<char>, bool, Seq<char>)>::empty(), Handler::BuildLbt));
    }
    push_node(&mut v, n3, Ghost(vocab()));
    proof {
        assert(v@ =~= seq![g0, g1, g2, g3]);
        reveal(build_tree_build_is);
    }
    v
}

/// What [`build_tree_xfer`] returns: the `build` commands.
#[verifier::opaque]
pub open spec fn build_tree_xfer_is(v: Seq<Node<Handler>>) -> bool {
    &&& v.len() == 2
    &&& is_leaf(v[0], "esp"@, "Copy the staged ESP to a volume"@, seq!["e"@, "install"@, "deploy"@, "sync"@], seq![('g', "source"@, true, "Source path"@), ('d', "dest"@, true, "Destination directory"@)], Handler::XferEsp)
    &&& is_leaf(v[1], "stage"@, "Copy a staged tree to a directory"@, seq!["s"@, "copy"@, "prepare"@, "sync"@], seq![('g', "source"@, true, "Source path"@), ('d', "dest"@, true, "Destination directory"@)], Handler::XferStage)
}

/// The `build` commands.
fn build_tree_xfer() -> (v: Vec<Node<Handler>>)
    ensures
        nodes_flags_ok(v@, vocab()),
        build_tree_xfer_is(v@),
{
    let mut v: Vec<Node<Handler>> = Vec::new();
    let n0 = leaf("esp", "Copy the staged ESP to a volume", vec!["e", "install", "deploy", "sync"], flag_list(&[f_source(), f_dest()]), Handler::XferEsp);
    let ghost g0 = n0;
    proof {
        assert(names_view(n0.aliases@) =~= seq!["e"@, "install"@, "deploy"@, "sync"@]);
        assert(flags_view(n0.flags@) =~= seq![('g', "source"@, true, "Source path"@), ('d', "dest"@, true, "Destination directory"@)]);
        assert(is_leaf(g0, "esp"@, "Copy the staged ESP to a volume"@, seq!["e"@, "install"@, "deploy"@, "sync"@], seq![('g', "source"@, true, "Source path"@), ('d', "dest"@, true, "Destination directory"@)], Handler::XferEsp));
    }
    push_node(&mut v, n0, Ghost(vocab()));
    let n1 = leaf("stage", "Copy a staged tree to a directory", vec!["s", "copy", "prepare", "sync"], flag_list(&[f_source(), f_dest()]), Handler::XferStage);
    let ghost g1 = n1;
    proof {
        assert(names_view(n1.aliases@) =~= seq!["s"@, "copy"@, "prepare"@, "sync"@]);
        assert(flags_view(n1.flags@) =~= seq![('g', "source"@, true, "Source path"@), ('d', "dest"@, true, "Destination directory"@)]);
        assert(is_leaf(g1, "stage"@, "Copy a staged tree to a directory"@, seq!["s"@, "copy"@, "prepare"@, "sync"@], seq![('g', "source"@, true, "Source path"@), ('d', "dest"@, true, "Destination directory"@)], Handler::XferStage));
    }
    push_node(&mut v, n1, Ghost(vocab()));
    proof {
        assert(v@ =~= seq![g0, g1]);
        reveal(build_tree_xfer_is);
    }
    v
}

/// What [`group_a_2`] returns: the commands under `a`.
#[verifier::opaque]
pub open spec fn group_a_2_is(v: Seq<Node<Handler>>) -> bool {
    &&& v.len() == 1
    &&& is_leaf(v[0], "list"@, "List every command alias"@, seq!["l"@, "ls"@, "all"@, "dump"@], Seq::<(char, Seq<char>, bool, Seq<char>)>::empty(), Handler::AliasList)
}

/// The commands under `a`.
fn group_a_2() -> (v: Vec<Node<Handler>>)
    ensures
        nodes_flags_ok(v@, vocab()),
        group_a_2_is(v@),
{
    let mut v: Vec<Node<Handler>> = Vec::new();
    let n0 = leaf("list", "List every command alias", vec!["l", "ls", "all", "dump"], Vec::new(), Handler::AliasList);
    let ghost g0 = n0;
    proof {
        assert(names_view(n0.aliases@) =~= seq!["l"@, "ls"@, "all"@, "dump"@]);
        assert(flags_view(n0.flags@) =~= Seq::<(char, Seq<char>, bool, Seq<char>)>::empty());
        assert(is_leaf(g0, "list"@, "List every command alias"@, seq!["l"@, "ls"@, "all"@, "dump"@], Seq::<(char, Seq<char>, bool, Seq<char>)>::empty(), Handler::AliasList));
    }
    push_node(&mut v, n0, Ghost(vocab()));
    proof {
        assert(v@ =~= seq![g0]);
        reveal(group_a_2_is);
    }
    v
}

/// What [`group_e_3`] returns: the commands under `e`.
#[verifier::opaque]
pub open spec fn group_e_3_is(v: Seq<Node<Handler>>) -> bool {
    &&& v.len() == 3
    &&& is_leaf(v[0], "show"@, "Print the environment"@, seq!["s"@, "print"@, "dump"@, "all"@], Seq::<(char, Seq<char>, bool, Seq<char>)>::empty(), Handler::EnvShow)
    &&& is_leaf(v[1], "check"@, "Verify host prerequisites"@, seq!["c"@, "verify"@, "test"@, "validate"@], Seq::<(char, Seq<char>, bool, Seq<char>)>::empty(), Handler::EnvCheck)
    &&& is_leaf(v[2], "tool"@, "Locate a host tool"@, seq!["t"@, "which"@, "path"@, "find"@], seq![('n', "name"@, true, "Entry name"@)], Handler::EnvTool)
}

/// The commands under `e`.
fn group_e_3() -> (v: Vec<Node<Handler>>)
    ensures
        nodes_flags_ok(v@, vocab()),
        group_e_3_is(v@),
{
    let mut v: Vec<Node<Handler>> = Vec::new();
    let n0 = leaf("show", "Print the environment", vec!["s", "print", "dump", "all"], Vec::new(), Handler::EnvShow);
    let ghost g0 = n0;
    proof {
        assert(names_view(n0.aliases@) =~= seq!["s"@, "print"@, "dump"@, "all"@]);
        assert(flags_view(n0.flags@) =~= Seq::<(char, Seq<char>, bool, Seq<char>)>::empty());
        assert(is_leaf(g0, "show"@, "Print the environment"@, seq!["s"@, "print"@, "dump"@, "all"@], Seq::<(char, Seq<char>, bool, Seq<char>)>::empty(), Handler::EnvShow));
    }
    push_node(&mut v, n0, Ghost(vocab()));
    let n1 = leaf("check", "Verify host prerequisites", vec!["c", "verify", "test", "validate"], Vec::new(), Handler::EnvCheck);
    let ghost g1 = n1;
    proof {
        assert(names_view(n1.aliases@) =~= seq!["c"@, "verify"@, "test"@, "validate"@]);
        assert(flags_view(n1.flags@) =~= Seq::<(char, Seq<char>, bool, Seq<char>)>::empty());
        assert(is_leaf(g1, "check"@, "Verify host prerequisites"@, seq!["c"@, "verify"@, "test"@, "validate"@], Seq::<(char, Seq<char>, bool, Seq<char>)>::empty(), Handler::EnvCheck));
    }
    push_node(&mut v, n1, Ghost(vocab()));
    let n2 = leaf("tool", "Locate a host tool", vec!["t", "which", "path", "find"], flag_list(&[f_name()]), Handler::EnvTool);
    let ghost g2 = n2;
    proof {
        assert(names_view(n2.aliases@) =~= seq!["t"@, "which"@, "path"@, "find"@]);
        assert(flags_view(n2.flags@) =~= seq![('n', "name"@, true, "Entry name"@)]);
        assert(is_leaf(g2, "tool"@, "Locate a host tool"@, seq!["t"@, "which"@, "path"@, "find"@], seq![('n', "name"@, true, "Entry name"@)], Handler::EnvTool));
    }
    push_node(&mut v, n2, Ghost(vocab()));
    proof {
        assert(v@ =~= seq![g0, g1, g2]);
        reveal(group_e_3_is);
    }
    v
}

/// What [`group_g_4`] returns: the commands under `g`.
#[verifier::opaque]
pub open spec fn group_g_4_is(v: Seq<Node<Handler>>) -> bool {
    &&& v.len() == 2
    &&& is_leaf(v[0], "show"@, "Show framebuffer + BGRT geometry"@, seq!["s"@, "print"@, "dump"@, "info"@], Seq::<(char, Seq<char>, bool, Seq<char>)>::empty(), Handler::GeometryShow)
    &&& is_leaf(v[1], "bgr"@, "Show BGRT logo geometry"@, seq!["b"@, "logo"@, "bgrt"@, "splash"@], Seq::<(char, Seq<char>, bool, Seq<char>)>::empty(), Handler::GeometryBgr)
}

/// The commands under `g`.
fn group_g_4() -> (v: Vec<Node<Handler>>)
    ensures
        nodes_flags_ok(v@, vocab()),
        group_g_4_is(v@),
{
    let mut v: Vec<Node<Handler>> = Vec::new();
    let n0 = leaf("show", "Show framebuffer + BGRT geometry", vec!["s", "print", "dump", "info"], Vec::new(), Handler::GeometryShow);
    let ghost g0 = n0;
    proof {
        assert(names_view(n0.aliases@) =~= seq!["s"@, "print"@, "dump"@, "info"@]);
        assert(flags_view(n0.flags@) =~= Seq::<(char, Seq<char>, bool, Seq<char>)>::empty());
        assert(is_leaf(g0, "show"@, "Show framebuffer + BGRT geometry"@, seq!["s"@, "print"@, "dump"@, "info"@], Seq::<(char, Seq<char>, bool, Seq<char>)>::empty(), Handler::GeometryShow));
    }
    push_node(&mut v, n0, Ghost(vocab()));
    let n1 = leaf("bgr", "Show BGRT logo geometry", vec!["b", "logo", "bgrt", "splash"], Vec::new(), Handler::GeometryBgr);
    let ghost g1 = n1;
    proof {
        assert(names_view(n1.aliases@) =~= seq!["b"@, "logo"@, "bgrt"@, "splash"@]);
        assert(flags_view(n1.flags@) =~= Seq::<(char, Seq<char>, bool, Seq<char>)>::empty());
        assert(is_leaf(g1, "bgr"@, "Show BGRT logo geometry"@, seq!["b"@, "logo"@, "bgrt"@, "splash"@], Seq::<(char, Seq<char>, bool, Seq<char>)>::empty(), Handler::GeometryBgr));
    }
    push_node(&mut v, n1, Ghost(vocab()));
    proof {
        assert(v@ =~= seq![g0, g1]);
        reveal(group_g_4_is);
    }
    v
}

/// What [`group_h_5`] returns: the commands under `h`.
#[verifier::opaque]
pub open spec fn group_h_5_is(v: Seq<Node<Handler>>) -> bool {
    &&& v.len() == 3
    &&& is_leaf(v[0], "all"@, "Print the full command reference"@, seq!["a"@, "full"@, "everything"@, "overview"@], Seq::<(char, Seq<char>, bool, Seq<char>)>::empty(), Handler::HelpAll)
    &&& is_leaf(v[1], "tree"@, "Print the command tree"@, seq!["t"@, "graph"@, "structure"@, "outline"@], Seq::<(char, Seq<char>, bool, Seq<char>)>::empty(), Handler::HelpTree)
    &&& is_leaf(v[2], "command"@, "Describe one command"@, seq!["c"@, "cmd"@, "about"@, "explain"@], seq![('n', "name"@, true, "Entry name"@)], Handler::HelpCommand)
}

/// The commands under `h`.
fn group_h_5() -> (v: Vec<Node<Handler>>)
    ensures
        nodes_flags_ok(v@, vocab()),
        group_h_5_is(v@),
{
    let mut v: Vec<Node<Handler>> = Vec::new();
    let n0 = leaf("all", "Print the full command reference", vec!["a", "full", "everything", "overview"], Vec::new(), Handler::HelpAll);
    let ghost g0 = n0;
    proof {
        assert(names_view(n0.aliases@) =~= seq!["a"@, "full"@, "everything"@, "overview"@]);
        assert(flags_view(n0.flags@) =~= Seq::<(char, Seq<char>, bool, Seq<char>)>::empty());
        assert(is_leaf(g0, "all"@, "Print the full command reference"@, seq!["a"@, "full"@, "everything"@, "overview"@], Seq::<(char, Seq<char>, bool, Seq<char>)>::empty(), Handler::HelpAll));
    }
    push_node(&mut v, n0, Ghost(vocab()));
    let n1 = leaf("tree", "Print the command tree", vec!["t", "graph", "structure", "outline"], Vec::new(), Handler::HelpTree);
    let ghost g1 = n1;
    proof {
        assert(names_view(n1.aliases@) =~= seq!["t"@, "graph"@, "structure"@, "outline"@]);
        assert(flags_view(n1.flags@) =~= Seq::<(char, Seq<char>, bool, Seq<char>)>::empty());
        assert(is_leaf(g1, "tree"@, "Print the command tree"@, seq!["t"@, "graph"@, "structure"@, "outline"@], Seq::<(char, Seq<char>, bool, Seq<char>)>::empty(), Handler::HelpTree));
    }
    push_node(&mut v, n1, Ghost(vocab()));
    let n2 = leaf("command", "Describe one command", vec!["c", "cmd", "about", "explain"], flag_list(&[f_name()]), Handler::HelpCommand);
    let ghost g2 = n2;
    proof {
        assert(names_view(n2.aliases@) =~= seq!["c"@, "cmd"@, "about"@, "explain"@]);
        assert(flags_view(n2.flags@) =~= seq![('n', "name"@, true, "Entry name"@)]);
        assert(is_leaf(g2, "command"@, "Describe one command"@, seq!["c"@, "cmd"@, "about"@, "explain"@], seq![('n', "name"@, true, "Entry name"@)], Handler::HelpCommand));
    }
    push_node(&mut v, n2, Ghost(vocab()));
    proof {
        assert(v@ =~= seq![g0, g1, g2]);
        reveal(group_h_5_is);
    }
    v
}

/// What [`group_j_6`] returns: the commands under `j`.
#[verifier::opaque]
pub open spec fn group_j_6_is(v: Seq<Node<Handler>>) -> bool {
    &&& v.len() == 3
    &&& is_leaf(v[0], "discover"@, "Discovery as JSON"@, seq!["d"@, "disc"@, "scan"@, "detect"@], seq![('j', "json"@, false, "Emit machine-readable JSON"@)], Handler::JsonDiscover)
    &&& is_leaf(v[1], "info"@, "Geometry as JSON"@, seq!["i"@, "geom"@, "geometry"@, "show"@], Seq::<(char, Seq<char>, bool, Seq<char>)>::empty(), Handler::JsonInfo)
    &&& is_leaf(v[2], "all"@, "Everything as JSON"@, seq!["a"@, "full"@, "everything"@, "complete"@], Seq::<(char, Seq<char>, bool, Seq<char>)>::empty(), Handler::JsonAll)
}

/// The commands under `j`.
fn group_j_6() -> (v: Vec<Node<Handler>>)
    ensures
        nodes_flags_ok(v@, vocab()),
        group_j_6_is(v@),
{
    let mut v: Vec<Node<Handler>> = Vec::new();
    let n0 = leaf("discover", "Discovery as JSON", vec!["d", "disc", "scan", "detect"], flag_list(&[f_json()]), Handler::JsonDiscover);
    let ghost g0 = n0;
    proof {
        assert(names_view(n0.aliases@) =~= seq!["d"@, "disc"@, "scan"@, "detect"@]);
        assert(flags_view(n0.flags@) =~= seq![('j', "json"@, false, "Emit machine-readable JSON"@)]);
        assert(is_leaf(g0, "discover"@, "Discovery as JSON"@, seq!["d"@, "disc"@, "scan"@, "detect"@], seq![('j', "json"@, false, "Emit machine-readable JSON"@)], Handler::JsonDiscover));
    }
    push_node(&mut v, n0, Ghost(vocab()));
    let n1 = leaf("info", "Geometry as JSON", vec!["i", "geom", "geometry", "show"], Vec::new(), Handler::JsonInfo);
    let ghost g1 = n1;
    proof {
        assert(names_view(n1.aliases@) =~= seq!["i"@, "geom"@, "geometry"@, "show"@]);
        assert(flags_view(n1.flags@) =~= Seq::<(char, Seq<char>, bool, Seq<char>)>::empty());
        assert(is_leaf(g1, "info"@, "Geometry as JSON"@, seq!["i"@, "geom"@, "geometry"@, "show"@], Seq::<(char, Seq<char>, bool, Seq<char>)>::empty(), Handler::JsonInfo));
    }
    push_node(&mut v, n1, Ghost(vocab()));
    let n2 = leaf("all", "Everything as JSON", vec!["a", "full", "everything", "complete"], Vec::new(), Handler::JsonAll);
    let ghost g2 = n2;
    proof {
        assert(names_view(n2.aliases@) =~= seq!["a"@, "full"@, "everything"@, "complete"@]);
        assert(flags_view(n2.flags@) =~= Seq::<(char, Seq<char>, bool, Seq<char>)>::empty());
        assert(is_leaf(g2, "all"@, "Everything as JSON"@, seq!["a"@, "full"@, "everything"@, "complete"@], Seq::<(char, Seq<char>, bool, Seq<char>)>::empty(), Handler::JsonAll));
    }
    push_node(&mut v, n2, Ghost(vocab()));
    proof {
        assert(v@ =~= seq![g0, g1, g2]);
        reveal(group_j_6_is);
    }
    v
}

/// What [`group_n_7`] returns: the commands under `n`.
#[verifier::opaque]
pub open spec fn group_n_7_is(v: Seq<Node<Handler>>) -> bool {
    &&& v.len() == 3
    &&& is_leaf(v[0], "list"@, "List boot entries"@, seq!["l"@, "ls"@, "enumerate"@, "show"@], Seq::<(char, Seq<char>, bool, Seq<char>)>::empty(), Handler::NamesList)
    &&& is_leaf(v[1], "get"@, "Resolve a boot entry by label"@, seq!["g"@, "find"@, "lookup"@, "resolve"@], seq![('n', "name"@, true, "Entry name"@)], Handler::NamesGet)
    &&& is_leaf(v[2], "count"@, "Count boot entries"@, seq!["c"@, "n"@, "tally"@, "total"@], Seq::<(char, Seq<char>, bool, Seq<char>)>::empty(), Handler::NamesCount)
}

/// The commands under `n`.
fn group_n_7() -> (v: Vec<Node<Handler>>)
    ensures
        nodes_flags_ok(v@, vocab()),
        group_n_7_is(v@),
{
    let mut v: Vec<Node<Handler>> = Vec::new();
    let n0 = leaf("list", "List boot entries", vec!["l", "ls", "enumerate", "show"], Vec::new(), Handler::NamesList);
    let ghost g0 = n0;
    proof {
        assert(names_view(n0.aliases@) =~= seq!["l"@, "ls"@, "enumerate"@, "show"@]);
        assert(flags_view(n0.flags@) =~= Seq::<(char, Seq<char>, bool, Seq<char>)>::empty());
        assert(is_leaf(g0, "list"@, "List boot entries"@, seq!["l"@, "ls"@, "enumerate"@, "show"@], Seq::<(char, Seq<char>, bool, Seq<char>)>::empty(), Handler::NamesList));
    }
    push_node(&mut v, n0, Ghost(vocab()));
    let n1 = leaf("get", "Resolve a boot entry by label", vec!["g", "find", "lookup", "resolve"], flag_list(&[f_name()]), Handler::NamesGet);
    let ghost g1 = n1;
    proof {
        assert(names_view(n1.aliases@) =~= seq!["g"@, "find"@, "lookup"@, "resolve"@]);
        assert(flags_view(n1.flags@) =~= seq![('n', "name"@, true, "Entry name"@)]);
        assert(is_leaf(g1, "get"@, "Resolve a boot entry by label"@, seq!["g"@, "find"@, "lookup"@, "resolve"@], seq![('n', "name"@, true, "Entry name"@)], Handler::NamesGet));
    }
    push_node(&mut v, n1, Ghost(vocab()));
    let n2 = leaf("count", "Count boot entries", vec!["c", "n", "tally", "total"], Vec::new(), Handler::NamesCount);
    let ghost g2 = n2;
    proof {
        assert(names_view(n2.aliases@) =~= seq!["c"@, "n"@, "tally"@, "total"@]);
        assert(flags_view(n2.flags@) =~= Seq::<(char, Seq<char>, bool, Seq<char>)>::empty());
        assert(is_leaf(g2, "count"@, "Count boot entries"@, seq!["c"@, "n"@, "tally"@, "total"@], Seq::<(char, Seq<char>, bool, Seq<char>)>::empty(), Handler::NamesCount));
    }
    push_node(&mut v, n2, Ghost(vocab()));
    proof {
        assert(v@ =~= seq![g0, g1, g2]);
        reveal(group_n_7_is);
    }
    v
}

/// What [`group_o_8`] returns: the commands under `o`.
#[verifier::opaque]
pub open spec fn group_o_8_is(v: Seq<Node<Handler>>) -> bool {
    &&& v.len() == 3
    &&& is_leaf(v[0], "release"@, "Print OS release info"@, seq!["r"@, "rel"@, "info"@, "show"@], Seq::<(char, Seq<char>, bool, Seq<char>)>::empty(), Handler::OsRelease)
    &&& is_leaf(v[1], "kernel"@, "Print the running kernel"@, seq!["k"@, "kver"@, "uname"@, "version"@], Seq::<(char, Seq<char>, bool, Seq<char>)>::empty(), Handler::OsKernel)
    &&& is_leaf(v[2], "id"@, "Print the OS pretty name"@, seq!["i"@, "name"@, "pretty"@, "label"@], Seq::<(char, Seq<char>, bool, Seq<char>)>::empty(), Handler::OsId)
}

/// The commands under `o`.
fn group_o_8() -> (v: Vec<Node<Handler>>)
    ensures
        nodes_flags_ok(v@, vocab()),
        group_o_8_is(v@),
{
    let mut v: Vec<Node<Handler>> = Vec::new();
    let n0 = leaf("release", "Print OS release info", vec!["r", "rel", "info", "show"], Vec::new(), Handler::OsRelease);
    let ghost g0 = n0;
    proof {
        assert(names_view(n0.aliases@) =~= seq!["r"@, "rel"@, "info"@, "show"@]);
        assert(flags_view(n0.flags@) =~= Seq::<(char, Seq<char>, bool, Seq<char>)>::empty());
        assert(is_leaf(g0, "release"@, "Print OS release info"@, seq!["r"@, "rel"@, "info"@, "show"@], Seq::<(char, Seq<char>, bool, Seq<char>)>::empty(), Handler::OsRelease));
    }
    push_node(&mut v, n0, Ghost(vocab()));
    let n1 = leaf("kernel", "Print the running kernel", vec!["k", "kver", "uname", "version"], Vec::new(), Handler::OsKernel);
    let ghost g1 = n1;
    proof {
        assert(names_view(n1.aliases@) =~= seq!["k"@, "kver"@, "uname"@, "version"@]);
        assert(flags_view(n1.flags@) =~= Seq::<(char, Seq<char>, bool, Seq<char>)>::empty());
        assert(is_leaf(g1, "kernel"@, "Print the running kernel"@, seq!["k"@, "kver"@, "uname"@, "version"@], Seq::<(char, Seq<char>, bool, Seq<char>)>::empty(), Handler::OsKernel));
    }
    push_node(&mut v, n1, Ghost(vocab()));
    let n2 = leaf("id", "Print the OS pretty name", vec!["i", "name", "pretty", "label"], Vec::new(), Handler::OsId);
    let ghost g2 = n2;
    proof {
        assert(names_view(n2.aliases@) =~= seq!["i"@, "name"@, "pretty"@, "label"@]);
        assert(flags_view(n2.flags@) =~= Seq::<(char, Seq<char>, bool, Seq<char>)>::empty());
        assert(is_leaf(g2, "id"@, "Print the OS pretty name"@, seq!["i"@, "name"@, "pretty"@, "label"@], Seq::<(char, Seq<char>, bool, Seq<char>)>::empty(), Handler::OsId));
    }
    push_node(&mut v, n2, Ghost(vocab()));
    proof {
        assert(v@ =~= seq![g0, g1, g2]);
        reveal(group_o_8_is);
    }
    v
}

/// What [`group_q_9`] returns: the commands under `q`.
#[verifier::opaque]
pub open spec fn group_q_9_is(v: Seq<Node<Handler>>) -> bool {
    &&& v.len() == 2
    &&& is_leaf(v[0], "info"@, "Query geometry"@, seq!["i"@, "geom"@, "geometry"@, "fb"@], Seq::<(char, Seq<char>, bool, Seq<char>)>::empty(), Handler::QueryInfo)
    &&& is_leaf(v[1], "esps"@, "Query ESP volumes"@, seq!["e"@, "discover"@, "scan"@, "volumes"@], Seq::<(char, Seq<char>, bool, Seq<char>)>::empty(), Handler::QueryEsps)
}

/// The commands under `q`.
fn group_q_9() -> (v: Vec<Node<Handler>>)
    ensures
        nodes_flags_ok(v@, vocab()),
        group_q_9_is(v@),
{
    let mut v: Vec<Node<Handler>> = Vec::new();
    let n0 = leaf("info", "Query geometry", vec!["i", "geom", "geometry", "fb"], Vec::new(), Handler::QueryInfo);
    let ghost g0 = n0;
    proof {
        assert(names_view(n0.aliases@) =~= seq!["i"@, "geom"@, "geometry"@, "fb"@]);
        assert(flags_view(n0.flags@) =~= Seq::<(char, Seq<char>, bool, Seq<char>)>::empty());
        assert(is_leaf(g0, "info"@, "Query geometry"@, seq!["i"@, "geom"@, "geometry"@, "fb"@], Seq::<(char, Seq<char>, bool, Seq<char>)>::empty(), Handler::QueryInfo));
    }
    push_node(&mut v, n0, Ghost(vocab()));
    let n1 = leaf("esps", "Query ESP volumes", vec!["e", "discover", "scan", "volumes"], Vec::new(), Handler::QueryEsps);
    let ghost g1 = n1;
    proof {
        assert(names_view(n1.aliases@) =~= seq!["e"@, "discover"@, "scan"@, "volumes"@]);
        assert(flags_view(n1.flags@) =~= Seq::<(char, Seq<char>, bool, Seq<char>)>::empty());
        assert(is_leaf(g1, "esps"@, "Query ESP volumes"@, seq!["e"@, "discover"@, "scan"@, "volumes"@], Seq::<(char, Seq<char>, bool, Seq<char>)>::empty(), Handler::QueryEsps));
    }
    push_node(&mut v, n1, Ghost(vocab()));
    proof {
        assert(v@ =~= seq![g0, g1]);
        reveal(group_q_9_is);
    }
    v
}

/// What [`group_u_10`] returns: the commands under `u`.
#[verifier::opaque]
pub open spec fn group_u_10_is(v: Seq<Node<Handler>>) -> bool {
    &&& v.len() == 3
    &&& is_leaf(v[0], "list"@, "List USB / block devices"@, seq!["l"@, "ls"@, "enumerate"@, "show"@], Seq::<(char, Seq<char>, bool, Seq<char>)>::empty(), Handler::UsbList)
    &&& is_leaf(v[1], "flash"@, "Flash an image to a device"@, seq!["f"@, "write"@, "burn"@, "install"@], seq![('e', "device"@, true, "Block device path"@), ('p', "path"@, true, "File or directory path"@)], Handler::UsbFlash)
    &&& is_leaf(v[2], "detect"@, "Detect removable devices"@, seq!["d"@, "find"@, "scan"@, "probe"@], Seq::<(char, Seq<char>, bool, Seq<char>)>::empty(), Handler::UsbDetect)
}

/// The commands under `u`.
fn group_u_10() -> (v: Vec<Node<Handler>>)
    ensures
        nodes_flags_ok(v@, vocab()),
        group_u_10_is(v@),
{
    let mut v: Vec<Node<Handler>> = Vec::new();
    let n0 = leaf("list", "List USB / block devices", vec!["l", "ls", "enumerate", "show"], Vec::new(), Handler::UsbList);
    let ghost g0 = n0;
    proof {
        assert(names_view(n0.aliases@) =~= seq!["l"@, "ls"@, "enumerate"@, "show"@]);
        assert(flags_view(n0.flags@) =~= Seq::<(char, Seq<char>, bool, Seq<char>)>::empty());
        assert(is_leaf(g0, "list"@, "List USB / block devices"@, seq!["l"@, "ls"@, "enumerate"@, "show"@], Seq::<(char, Seq<char>, bool, Seq<char>)>::empty(), Handler::UsbList));
    }
    push_node(&mut v, n0, Ghost(vocab()));
    let n1 = leaf("flash", "Flash an image to a device", vec!["f", "write", "burn", "install"], flag_list(&[f_device(), f_path()]), Handler::UsbFlash);
    let ghost g1 = n1;
    proof {
        assert(names_view(n1.aliases@) =~= seq!["f"@, "write"@, "burn"@, "install"@]);
        assert(flags_view(n1.flags@) =~= seq![('e', "device"@, true, "Block device path"@), ('p', "path"@, true, "File or directory path"@)]);
        assert(is_leaf(g1, "flash"@, "Flash an image to a device"@, seq!["f"@, "write"@, "burn"@, "install"@], seq![('e', "device"@, true, "Block device path"@), ('p', "path"@, true, "File or directory path"@)], Handler::UsbFlash));
    }
    push_node(&mut v, n1, Ghost(vocab()));
    let n2 = leaf("detect", "Detect removable devices", vec!["d", "find", "scan", "probe"], Vec::new(), Handler::UsbDetect);
    let ghost g2 = n2;
    proof {
        assert(names_view(n2.aliases@) =~= seq!["d"@, "find"@, "scan"@, "probe"@]);
        assert(flags_view(n2.flags@) =~= Seq::<(char, Seq<char>, bool, Seq<char>)>::empty());
        assert(is_leaf(g2, "detect"@, "Detect removable devices"@, seq!["d"@, "find"@, "scan"@, "probe"@], Seq::<(char, Seq<char>, bool, Seq<char>)>::empty(), Handler::UsbDetect));
    }
    push_node(&mut v, n2, Ghost(vocab()));
    proof {
        assert(v@ =~= seq![g0, g1, g2]);
        reveal(group_u_10_is);
    }
    v
}

/// What [`group_z_11`] returns: the commands under `z`.
#[verifier::opaque]
pub open spec fn group_z_11_is(v: Seq<Node<Handler>>) -> bool {
    &&& v.len() == 3
    &&& is_leaf(v[0], "info"@, "Describe the firmware"@, seq!["i"@, "show"@, "describe"@, "detail"@], Seq::<(char, Seq<char>, bool, Seq<char>)>::empty(), Handler::FirmwareInfo)
    &&& is_leaf(v[1], "secureboot"@, "Report Secure Boot state"@, seq!["s"@, "sb"@, "sec"@, "verify"@], Seq::<(char, Seq<char>, bool, Seq<char>)>::empty(), Handler::FirmwareSb)
    &&& is_leaf(v[2], "acpi"@, "Report ACPI tables"@, seq!["a"@, "tables"@, "rsdp"@, "dt"@], Seq::<(char, Seq<char>, bool, Seq<char>)>::empty(), Handler::FirmwareAcpi)
}

/// The commands under `z`.
fn group_z_11() -> (v: Vec<Node<Handler>>)
    ensures
        nodes_flags_ok(v@, vocab()),
        group_z_11_is(v@),
{
    let mut v: Vec<Node<Handler>> = Vec::new();
    let n0 = leaf("info", "Describe the firmware", vec!["i", "show", "describe", "detail"], Vec::new(), Handler::FirmwareInfo);
    let ghost g0 = n0;
    proof {
        assert(names_view(n0.aliases@) =~= seq!["i"@, "show"@, "describe"@, "detail"@]);
        assert(flags_view(n0.flags@) =~= Seq::<(char, Seq<char>, bool, Seq<char>)>::empty());
        assert(is_leaf(g0, "info"@, "Describe the firmware"@, seq!["i"@, "show"@, "describe"@, "detail"@], Seq::<(char, Seq<char>, bool, Seq<char>)>::empty(), Handler::FirmwareInfo));
    }
    push_node(&mut v, n0, Ghost(vocab()));
    let n1 = leaf("secureboot", "Report Secure Boot state", vec!["s", "sb", "sec", "verify"], Vec::new(), Handler::FirmwareSb);
    let ghost g1 = n1;
    proof {
        assert(names_view(n1.aliases@) =~= seq!["s"@, "sb"@, "sec"@, "verify"@]);
        assert(flags_view(n1.flags@) =~= Seq::<(char, Seq<char>, bool, Seq<char>)>::empty());
        assert(is_leaf(g1, "secureboot"@, "Report Secure Boot state"@, seq!["s"@, "sb"@, "sec"@, "verify"@], Seq::<(char, Seq<char>, bool, Seq<char>)>::empty(), Handler::FirmwareSb));
    }
    push_node(&mut v, n1, Ghost(vocab()));
    let n2 = leaf("acpi", "Report ACPI tables", vec!["a", "tables", "rsdp", "dt"], Vec::new(), Handler::FirmwareAcpi);
    let ghost g2 = n2;
    proof {
        assert(names_view(n2.aliases@) =~= seq!["a"@, "tables"@, "rsdp"@, "dt"@]);
        assert(flags_view(n2.flags@) =~= Seq::<(char, Seq<char>, bool, Seq<char>)>::empty());
        assert(is_leaf(g2, "acpi"@, "Report ACPI tables"@, seq!["a"@, "tables"@, "rsdp"@, "dt"@], Seq::<(char, Seq<char>, bool, Seq<char>)>::empty(), Handler::FirmwareAcpi));
    }
    push_node(&mut v, n2, Ghost(vocab()));
    proof {
        assert(v@ =~= seq![g0, g1, g2]);
        reveal(group_z_11_is);
    }
    v
}

/// What [`group_a_12`] returns: the commands under `A`.
#[verifier::opaque]
pub open spec fn group_a_12_is(v: Seq<Node<Handler>>) -> bool {
    &&& v.len() == 1
    &&& is_leaf(v[0], "list"@, "List every alias"@, seq!["l"@, "ls"@, "all"@, "dump"@], Seq::<(char, Seq<char>, bool, Seq<char>)>::empty(), Handler::AliasList)
}

/// The commands under `A`.
fn group_a_12() -> (v: Vec<Node<Handler>>)
    ensures
        nodes_flags_ok(v@, vocab()),
        group_a_12_is(v@),
{
    let mut v: Vec<Node<Handler>> = Vec::new();
    let n0 = leaf("list", "List every alias", vec!["l", "ls", "all", "dump"], Vec::new(), Handler::AliasList);
    let ghost g0 = n0;
    proof {
        assert(names_view(n0.aliases@) =~= seq!["l"@, "ls"@, "all"@, "dump"@]);
        assert(flags_view(n0.flags@) =~= Seq::<(char, Seq<char>, bool, Seq<char>)>::empty());
        assert(is_leaf(g0, "list"@, "List every alias"@, seq!["l"@, "ls"@, "all"@, "dump"@], Seq::<(char, Seq<char>, bool, Seq<char>)>::empty(), Handler::AliasList));
    }
    push_node(&mut v, n0, Ghost(vocab()));
    proof {
        assert(v@ =~= seq![g0]);
        reveal(group_a_12_is);
    }
    v
}

/// What [`group_d_13`] returns: the commands under `D`.
#[verifier::opaque]
pub open spec fn group_d_13_is(v: Seq<Node<Handler>>) -> bool {
    &&& v.len() == 2
    &&& is_leaf(v[0], "list"@, "List block devices"@, seq!["l"@, "ls"@, "enumerate"@, "show"@], Seq::<(char, Seq<char>, bool, Seq<char>)>::empty(), Handler::UsbList)
    &&& is_leaf(v[1], "esps"@, "List ESP partitions"@, seq!["e"@, "efi"@, "partitions"@, "esp"@], Seq::<(char, Seq<char>, bool, Seq<char>)>::empty(), Handler::QueryEsps)
}

/// The commands under `D`.
fn group_d_13() -> (v: Vec<Node<Handler>>)
    ensures
        nodes_flags_ok(v@, vocab()),
        group_d_13_is(v@),
{
    let mut v: Vec<Node<Handler>> = Vec::new();
    let n0 = leaf("list", "List block devices", vec!["l", "ls", "enumerate", "show"], Vec::new(), Handler::UsbList);
    let ghost g0 = n0;
    proof {
        assert(names_view(n0.aliases@) =~= seq!["l"@, "ls"@, "enumerate"@, "show"@]);
        assert(flags_view(n0.flags@) =~= Seq::<(char, Seq<char>, bool, Seq<char>)>::empty());
        assert(is_leaf(g0, "list"@, "List block devices"@, seq!["l"@, "ls"@, "enumerate"@, "show"@], Seq::<(char, Seq<char>, bool, Seq<char>)>::empty(), Handler::UsbList));
    }
    push_node(&mut v, n0, Ghost(vocab()));
    let n1 = leaf("esps", "List ESP partitions", vec!["e", "efi", "partitions", "esp"], Vec::new(), Handler::QueryEsps);
    let ghost g1 = n1;
    proof {
        assert(names_view(n1.aliases@) =~= seq!["e"@, "efi"@, "partitions"@, "esp"@]);
        assert(flags_view(n1.flags@) =~= Seq::<(char, Seq<char>, bool, Seq<char>)>::empty());
        assert(is_leaf(g1, "esps"@, "List ESP partitions"@, seq!["e"@, "efi"@, "partitions"@, "esp"@], Seq::<(char, Seq<char>, bool, Seq<char>)>::empty(), Handler::QueryEsps));
    }
    push_node(&mut v, n1, Ghost(vocab()));
    proof {
        assert(v@ =~= seq![g0, g1]);
        reveal(group_d_13_is);
    }
    v
}

/// What [`group_e_14`] returns: the commands under `E`.
#[verifier::opaque]
pub open spec fn group_e_14_is(v: Seq<Node<Handler>>) -> bool {
    &&& v.len() == 3
    &&& is_leaf(v[0], "make"@, "Build an ESP image"@, seq!["m"@, "build"@, "create"@, "gen"@], seq![('o', "out"@, true, "Output file"@), ('a', "arch"@, true, "Architecture: amd64 | arm64"@)], Handler::ImageEsp)
    &&& is_leaf(v[1], "check"@, "Check an ESP volume"@, seq!["c"@, "verify"@, "validate"@, "fsck"@], seq![('p', "path"@, true, "File or directory path"@)], Handler::FsInfo)
    &&& is_leaf(v[2], "find"@, "Find ESP volumes"@, seq!["f"@, "locate"@, "search"@, "discover"@], Seq::<(char, Seq<char>, bool, Seq<char>)>::empty(), Handler::QueryEsps)
}

/// The commands under `E`.
fn group_e_14() -> (v: Vec<Node<Handler>>)
    ensures
        nodes_flags_ok(v@, vocab()),
        group_e_14_is(v@),
{
    let mut v: Vec<Node<Handler>> = Vec::new();
    let n0 = leaf("make", "Build an ESP image", vec!["m", "build", "create", "gen"], flag_list(&[f_out(), f_arch()]), Handler::ImageEsp);
    let ghost g0 = n0;
    proof {
        assert(names_view(n0.aliases@) =~= seq!["m"@, "build"@, "create"@, "gen"@]);
        assert(flags_view(n0.flags@) =~= seq![('o', "out"@, true, "Output file"@), ('a', "arch"@, true, "Architecture: amd64 | arm64"@)]);
        assert(is_leaf(g0, "make"@, "Build an ESP image"@, seq!["m"@, "build"@, "create"@, "gen"@], seq![('o', "out"@, true, "Output file"@), ('a', "arch"@, true, "Architecture: amd64 | arm64"@)], Handler::ImageEsp));
    }
    push_node(&mut v, n0, Ghost(vocab()));
    let n1 = leaf("check", "Check an ESP volume", vec!["c", "verify", "validate", "fsck"], flag_list(&[f_path()]), Handler::FsInfo);
    let ghost g1 = n1;
    proof {
        assert(names_view(n1.aliases@) =~= seq!["c"@, "verify"@, "validate"@, "fsck"@]);
        assert(flags_view(n1.flags@) =~= seq![('p', "path"@, true, "File or directory path"@)]);
        assert(is_leaf(g1, "check"@, "Check an ESP volume"@, seq!["c"@, "verify"@, "validate"@, "fsck"@], seq![('p', "path"@, true, "File or directory path"@)], Handler::FsInfo));
    }
    push_node(&mut v, n1, Ghost(vocab()));
    let n2 = leaf("find", "Find ESP volumes", vec!["f", "locate", "search", "discover"], Vec::new(), Handler::QueryEsps);
    let ghost g2 = n2;
    proof {
        assert(names_view(n2.aliases@) =~= seq!["f"@, "locate"@, "search"@, "discover"@]);
        assert(flags_view(n2.flags@) =~= Seq::<(char, Seq<char>, bool, Seq<char>)>::empty());
        assert(is_leaf(g2, "find"@, "Find ESP volumes"@, seq!["f"@, "locate"@, "search"@, "discover"@], Seq::<(char, Seq<char>, bool, Seq<char>)>::empty(), Handler::QueryEsps));
    }
    push_node(&mut v, n2, Ghost(vocab()));
    proof {
        assert(v@ =~= seq![g0, g1, g2]);
        reveal(group_e_14_is);
    }
    v
}

/// What [`group_f_15`] returns: the commands under `F`.
#[verifier::opaque]
pub open spec fn group_f_15_is(v: Seq<Node<Handler>>) -> bool {
    &&& v.len() == 2
    &&& is_leaf(v[0], "info"@, "Describe the firmware"@, seq!["i"@, "show"@, "describe"@, "detail"@], Seq::<(char, Seq<char>, bool, Seq<char>)>::empty(), Handler::FirmwareInfo)
    &&& is_leaf(v[1], "sb"@, "Secure Boot state"@, seq!["s"@, "secureboot"@, "verify"@, "status"@], Seq::<(char, Seq<char>, bool, Seq<char>)>::empty(), Handler::FirmwareSb)
}

/// The commands under `F`.
fn group_f_15() -> (v: Vec<Node<Handler>>)
    ensures
        nodes_flags_ok(v@, vocab()),
        group_f_15_is(v@),
{
    let mut v: Vec<Node<Handler>> = Vec::new();
    let n0 = leaf("info", "Describe the firmware", vec!["i", "show", "describe", "detail"], Vec::new(), Handler::FirmwareInfo);
    let ghost g0 = n0;
    proof {
        assert(names_view(n0.aliases@) =~= seq!["i"@, "show"@, "describe"@, "detail"@]);
        assert(flags_view(n0.flags@) =~= Seq::<(char, Seq<char>, bool, Seq<char>)>::empty());
        assert(is_leaf(g0, "info"@, "Describe the firmware"@, seq!["i"@, "show"@, "describe"@, "detail"@], Seq::<(char, Seq<char>, bool, Seq<char>)>::empty(), Handler::FirmwareInfo));
    }
    push_node(&mut v, n0, Ghost(vocab()));
    let n1 = leaf("sb", "Secure Boot state", vec!["s", "secureboot", "verify", "status"], Vec::new(), Handler::FirmwareSb);
    let ghost g1 = n1;
    proof {
        assert(names_view(n1.aliases@) =~= seq!["s"@, "secureboot"@, "verify"@, "status"@]);
        assert(flags_view(n1.flags@) =~= Seq::<(char, Seq<char>, bool, Seq<char>)>::empty());
        assert(is_leaf(g1, "sb"@, "Secure Boot state"@, seq!["s"@, "secureboot"@, "verify"@, "status"@], Seq::<(char, Seq<char>, bool, Seq<char>)>::empty(), Handler::FirmwareSb));
    }
    push_node(&mut v, n1, Ghost(vocab()));
    proof {
        assert(v@ =~= seq![g0, g1]);
        reveal(group_f_15_is);
    }
    v
}

/// What [`group_g_16`] returns: the commands under `G`.
#[verifier::opaque]
pub open spec fn group_g_16_is(v: Seq<Node<Handler>>) -> bool {
    &&& v.len() == 1
    &&& is_leaf(v[0], "show"@, "Show geometry"@, seq!["s"@, "print"@, "dump"@, "info"@], Seq::<(char, Seq<char>, bool, Seq<char>)>::empty(), Handler::GeometryShow)
}

/// The commands under `G`.
fn group_g_16() -> (v: Vec<Node<Handler>>)
    ensures
        nodes_flags_ok(v@, vocab()),
        group_g_16_is(v@),
{
    let mut v: Vec<Node<Handler>> = Vec::new();
    let n0 = leaf("show", "Show geometry", vec!["s", "print", "dump", "info"], Vec::new(), Handler::GeometryShow);
    let ghost g0 = n0;
    proof {
        assert(names_view(n0.aliases@) =~= seq!["s"@, "print"@, "dump"@, "info"@]);
        assert(flags_view(n0.flags@) =~= Seq::<(char, Seq<char>, bool, Seq<char>)>::empty());
        assert(is_leaf(g0, "show"@, "Show geometry"@, seq!["s"@, "print"@, "dump"@, "info"@], Seq::<(char, Seq<char>, bool, Seq<char>)>::empty(), Handler::GeometryShow));
    }
    push_node(&mut v, n0, Ghost(vocab()));
    proof {
        assert(v@ =~= seq![g0]);
        reveal(group_g_16_is);
    }
    v
}

/// What [`group_h_17`] returns: the commands under `H`.
#[verifier::opaque]
pub open spec fn group_h_17_is(v: Seq<Node<Handler>>) -> bool {
    &&& v.len() == 2
    &&& is_leaf(v[0], "all"@, "Full reference"@, seq!["a"@, "full"@, "everything"@, "overview"@], Seq::<(char, Seq<char>, bool, Seq<char>)>::empty(), Handler::HelpAll)
    &&& is_leaf(v[1], "tree"@, "Command tree"@, seq!["t"@, "graph"@, "structure"@, "outline"@], Seq::<(char, Seq<char>, bool, Seq<char>)>::empty(), Handler::HelpTree)
}

/// The commands under `H`.
fn group_h_17() -> (v: Vec<Node<Handler>>)
    ensures
        nodes_flags_ok(v@, vocab()),
        group_h_17_is(v@),
{
    let mut v: Vec<Node<Handler>> = Vec::new();
    let n0 = leaf("all", "Full reference", vec!["a", "full", "everything", "overview"], Vec::new(), Handler::HelpAll);
    let ghost g0 = n0;
    proof {
        assert(names_view(n0.aliases@) =~= seq!["a"@, "full"@, "everything"@, "overview"@]);
        assert(flags_view(n0.flags@) =~= Seq::<(char, Seq<char>, bool, Seq<char>)>::empty());
        assert(is_leaf(g0, "all"@, "Full reference"@, seq!["a"@, "full"@, "everything"@, "overview"@], Seq::<(char, Seq<char>, bool, Seq<char>)>::empty(), Handler::HelpAll));
    }
    push_node(&mut v, n0, Ghost(vocab()));
    let n1 = leaf("tree", "Command tree", vec!["t", "graph", "structure", "outline"], Vec::new(), Handler::HelpTree);
    let ghost g1 = n1;
    proof {
        assert(names_view(n1.aliases@) =~= seq!["t"@, "graph"@, "structure"@, "outline"@]);
        assert(flags_view(n1.flags@) =~= Seq::<(char, Seq<char>, bool, Seq<char>)>::empty());
        assert(is_leaf(g1, "tree"@, "Command tree"@, seq!["t"@, "graph"@, "structure"@, "outline"@], Seq::<(char, Seq<char>, bool, Seq<char>)>::empty(), Handler::HelpTree));
    }
    push_node(&mut v, n1, Ghost(vocab()));
    proof {
        assert(v@ =~= seq![g0, g1]);
        reveal(group_h_17_is);
    }
    v
}

/// What [`group_j_18`] returns: the commands under `J`.
#[verifier::opaque]
pub open spec fn group_j_18_is(v: Seq<Node<Handler>>) -> bool {
    &&& v.len() == 2
    &&& is_leaf(v[0], "discover"@, "Discovery as JSON"@, seq!["d"@, "disc"@, "scan"@, "detect"@], seq![('j', "json"@, false, "Emit machine-readable JSON"@)], Handler::JsonDiscover)
    &&& is_leaf(v[1], "info"@, "Geometry as JSON"@, seq!["i"@, "geom"@, "geometry"@, "show"@], Seq::<(char, Seq<char>, bool, Seq<char>)>::empty(), Handler::JsonInfo)
}

/// The commands under `J`.
fn group_j_18() -> (v: Vec<Node<Handler>>)
    ensures
        nodes_flags_ok(v@, vocab()),
        group_j_18_is(v@),
{
    let mut v: Vec<Node<Handler>> = Vec::new();
    let n0 = leaf("discover", "Discovery as JSON", vec!["d", "disc", "scan", "detect"], flag_list(&[f_json()]), Handler::JsonDiscover);
    let ghost g0 = n0;
    proof {
        assert(names_view(n0.aliases@) =~= seq!["d"@, "disc"@, "scan"@, "detect"@]);
        assert(flags_view(n0.flags@) =~= seq![('j', "json"@, false, "Emit machine-readable JSON"@)]);
        assert(is_leaf(g0, "discover"@, "Discovery as JSON"@, seq!["d"@, "disc"@, "scan"@, "detect"@], seq![('j', "json"@, false, "Emit machine-readable JSON"@)], Handler::JsonDiscover));
    }
    push_node(&mut v, n0, Ghost(vocab()));
    let n1 = leaf("info", "Geometry as JSON", vec!["i", "geom", "geometry", "show"], Vec::new(), Handler::JsonInfo);
    let ghost g1 = n1;
    proof {
        assert(names_view(n1.aliases@) =~= seq!["i"@, "geom"@, "geometry"@, "show"@]);
        assert(flags_view(n1.flags@) =~= Seq::<(char, Seq<char>, bool, Seq<char>)>::empty());
        assert(is_leaf(g1, "info"@, "Geometry as JSON"@, seq!["i"@, "geom"@, "geometry"@, "show"@], Seq::<(char, Seq<char>, bool, Seq<char>)>::empty(), Handler::JsonInfo));
    }
    push_node(&mut v, n1, Ghost(vocab()));
    proof {
        assert(v@ =~= seq![g0, g1]);
        reveal(group_j_18_is);
    }
    v
}

/// What [`group_n_19`] returns: the commands under `N`.
#[verifier::opaque]
pub open spec fn group_n_19_is(v: Seq<Node<Handler>>) -> bool {
    &&& v.len() == 1
    &&& is_leaf(v[0], "check"@, "Check network reachability"@, seq!["c"@, "ping"@, "reach"@, "online"@], Seq::<(char, Seq<char>, bool, Seq<char>)>::empty(), Handler::NetCheck)
}

/// The commands under `N`.
fn group_n_19() -> (v: Vec<Node<Handler>>)
    ensures
        nodes_flags_ok(v@, vocab()),
        group_n_19_is(v@),
{
    let mut v: Vec<Node<Handler>> = Vec::new();
    let n0 = leaf("check", "Check network reachability", vec!["c", "ping", "reach", "online"], Vec::new(), Handler::NetCheck);
    let ghost g0 = n0;
    proof {
        assert(names_view(n0.aliases@) =~= seq!["c"@, "ping"@, "reach"@, "online"@]);
        assert(flags_view(n0.flags@) =~= Seq::<(char, Seq<char>, bool, Seq<char>)>::empty());
        assert(is_leaf(g0, "check"@, "Check network reachability"@, seq!["c"@, "ping"@, "reach"@, "online"@], Seq::<(char, Seq<char>, bool, Seq<char>)>::empty(), Handler::NetCheck));
    }
    push_node(&mut v, n0, Ghost(vocab()));
    proof {
        assert(v@ =~= seq![g0]);
        reveal(group_n_19_is);
    }
    v
}

/// What [`group_o_20`] returns: the commands under `O`.
#[verifier::opaque]
pub open spec fn group_o_20_is(v: Seq<Node<Handler>>) -> bool {
    &&& v.len() == 2
    &&& is_leaf(v[0], "release"@, "OS release"@, seq!["r"@, "rel"@, "info"@, "show"@], Seq::<(char, Seq<char>, bool, Seq<char>)>::empty(), Handler::OsRelease)
    &&& is_leaf(v[1], "id"@, "Pretty name"@, seq!["i"@, "name"@, "pretty"@, "label"@], Seq::<(char, Seq<char>, bool, Seq<char>)>::empty(), Handler::OsId)
}

/// The commands under `O`.
fn group_o_20() -> (v: Vec<Node<Handler>>)
    ensures
        nodes_flags_ok(v@, vocab()),
        group_o_20_is(v@),
{
    let mut v: Vec<Node<Handler>> = Vec::new();
    let n0 = leaf("release", "OS release", vec!["r", "rel", "info", "show"], Vec::new(), Handler::OsRelease);
    let ghost g0 = n0;
    proof {
        assert(names_view(n0.aliases@) =~= seq!["r"@, "rel"@, "info"@, "show"@]);
        assert(flags_view(n0.flags@) =~= Seq::<(char, Seq<char>, bool, Seq<char>)>::empty());
        assert(is_leaf(g0, "release"@, "OS release"@, seq!["r"@, "rel"@, "info"@, "show"@], Seq::<(char, Seq<char>, bool, Seq<char>)>::empty(), Handler::OsRelease));
    }
    push_node(&mut v, n0, Ghost(vocab()));
    let n1 = leaf("id", "Pretty name", vec!["i", "name", "pretty", "label"], Vec::new(), Handler::OsId);
    let ghost g1 = n1;
    proof {
        assert(names_view(n1.aliases@) =~= seq!["i"@, "name"@, "pretty"@, "label"@]);
        assert(flags_view(n1.flags@) =~= Seq::<(char, Seq<char>, bool, Seq<char>)>::empty());
        assert(is_leaf(g1, "id"@, "Pretty name"@, seq!["i"@, "name"@, "pretty"@, "label"@], Seq::<(char, Seq<char>, bool, Seq<char>)>::empty(), Handler::OsId));
    }
    push_node(&mut v, n1, Ghost(vocab()));
    proof {
        assert(v@ =~= seq![g0, g1]);
        reveal(group_o_20_is);
    }
    v
}

/// What [`group_q_21`] returns: the commands under `Q`.
#[verifier::opaque]
pub open spec fn group_q_21_is(v: Seq<Node<Handler>>) -> bool {
    &&& v.len() == 2
    &&& is_leaf(v[0], "info"@, "Query geometry"@, seq!["i"@, "geom"@, "geometry"@, "fb"@], Seq::<(char, Seq<char>, bool, Seq<char>)>::empty(), Handler::QueryInfo)
    &&& is_leaf(v[1], "esps"@, "Query ESP volumes"@, seq!["e"@, "discover"@, "scan"@, "volumes"@], Seq::<(char, Seq<char>, bool, Seq<char>)>::empty(), Handler::QueryEsps)
}

/// The commands under `Q`.
fn group_q_21() -> (v: Vec<Node<Handler>>)
    ensures
        nodes_flags_ok(v@, vocab()),
        group_q_21_is(v@),
{
    let mut v: Vec<Node<Handler>> = Vec::new();
    let n0 = leaf("info", "Query geometry", vec!["i", "geom", "geometry", "fb"], Vec::new(), Handler::QueryInfo);
    let ghost g0 = n0;
    proof {
        assert(names_view(n0.aliases@) =~= seq!["i"@, "geom"@, "geometry"@, "fb"@]);
        assert(flags_view(n0.flags@) =~= Seq::<(char, Seq<char>, bool, Seq<char>)>::empty());
        assert(is_leaf(g0, "info"@, "Query geometry"@, seq!["i"@, "geom"@, "geometry"@, "fb"@], Seq::<(char, Seq<char>, bool, Seq<char>)>::empty(), Handler::QueryInfo));
    }
    push_node(&mut v, n0, Ghost(vocab()));
    let n1 = leaf("esps", "Query ESP volumes", vec!["e", "discover", "scan", "volumes"], Vec::new(), Handler::QueryEsps);
    let ghost g1 = n1;
    proof {
        assert(names_view(n1.aliases@) =~= seq!["e"@, "discover"@, "scan"@, "volumes"@]);
        assert(flags_view(n1.flags@) =~= Seq::<(char, Seq<char>, bool, Seq<char>)>::empty());
        assert(is_leaf(g1, "esps"@, "Query ESP volumes"@, seq!["e"@, "discover"@, "scan"@, "volumes"@], Seq::<(char, Seq<char>, bool, Seq<char>)>::empty(), Handler::QueryEsps));
    }
    push_node(&mut v, n1, Ghost(vocab()));
    proof {
        assert(v@ =~= seq![g0, g1]);
        reveal(group_q_21_is);
    }
    v
}

/// What [`group_u_22`] returns: the commands under `U`.
#[verifier::opaque]
pub open spec fn group_u_22_is(v: Seq<Node<Handler>>) -> bool {
    &&& v.len() == 2
    &&& is_leaf(v[0], "list"@, "List devices"@, seq!["l"@, "ls"@, "enumerate"@, "show"@], Seq::<(char, Seq<char>, bool, Seq<char>)>::empty(), Handler::UsbList)
    &&& is_leaf(v[1], "flash"@, "Flash an image"@, seq!["f"@, "write"@, "burn"@, "install"@], seq![('e', "device"@, true, "Block device path"@), ('p', "path"@, true, "File or directory path"@)], Handler::UsbFlash)
}

/// The commands under `U`.
fn group_u_22() -> (v: Vec<Node<Handler>>)
    ensures
        nodes_flags_ok(v@, vocab()),
        group_u_22_is(v@),
{
    let mut v: Vec<Node<Handler>> = Vec::new();
    let n0 = leaf("list", "List devices", vec!["l", "ls", "enumerate", "show"], Vec::new(), Handler::UsbList);
    let ghost g0 = n0;
    proof {
        assert(names_view(n0.aliases@) =~= seq!["l"@, "ls"@, "enumerate"@, "show"@]);
        assert(flags_view(n0.flags@) =~= Seq::<(char, Seq<char>, bool, Seq<char>)>::empty());
        assert(is_leaf(g0, "list"@, "List devices"@, seq!["l"@, "ls"@, "enumerate"@, "show"@], Seq::<(char, Seq<char>, bool, Seq<char>)>::empty(), Handler::UsbList));
    }
    push_node(&mut v, n0, Ghost(vocab()));
    let n1 = leaf("flash", "Flash an image", vec!["f", "write", "burn", "install"], flag_list(&[f_device(), f_path()]), Handler::UsbFlash);
    let ghost g1 = n1;
    proof {
        assert(names_view(n1.aliases@) =~= seq!["f"@, "write"@, "burn"@, "install"@]);
        assert(flags_view(n1.flags@) =~= seq![('e', "device"@, true, "Block device path"@), ('p', "path"@, true, "File or directory path"@)]);
        assert(is_leaf(g1, "flash"@, "Flash an image"@, seq!["f"@, "write"@, "burn"@, "install"@], seq![('e', "device"@, true, "Block device path"@), ('p', "path"@, true, "File or directory path"@)], Handler::UsbFlash));
    }
    push_node(&mut v, n1, Ghost(vocab()));
    proof {
        assert(v@ =~= seq![g0, g1]);
        reveal(group_u_22_is);
    }
    v
}

/// What [`group_z_23`] returns: the commands under `Z`.
#[verifier::opaque]
pub open spec fn group_z_23_is(v: Seq<Node<Handler>>) -> bool {
    &&& v.len() == 2
    &&& is_leaf(v[0], "info"@, "Firmware info"@, seq!["i"@, "show"@, "describe"@, "detail"@], Seq::<(char, Seq<char>, bool, Seq<char>)>::empty(), Handler::FirmwareInfo)
    &&& is_leaf(v[1], "secureboot"@, "Secure Boot state"@, seq!["s"@, "sb"@, "sec"@, "verify"@], Seq::<(char, Seq<char>, bool, Seq<char>)>::empty(), Handler::FirmwareSb)
}

/// The commands under `Z`.
fn group_z_23() -> (v: Vec<Node<Handler>>)
    ensures
        nodes_flags_ok(v@, vocab()),
        group_z_23_is(v@),
{
    let mut v: Vec<Node<Handler>> = Vec::new();
    let n0 = leaf("info", "Firmware info", vec!["i", "show", "describe", "detail"], Vec::new(), Handler::FirmwareInfo);
    let ghost g0 = n0;
    proof {
        assert(names_view(n0.aliases@) =~= seq!["i"@, "show"@, "describe"@, "detail"@]);
        assert(flags_view(n0.flags@) =~= Seq::<(char, Seq<char>, bool, Seq<char>)>::empty());
        assert(is_leaf(g0, "info"@, "Firmware info"@, seq!["i"@, "show"@, "describe"@, "detail"@], Seq::<(char, Seq<char>, bool, Seq<char>)>::empty(), Handler::FirmwareInfo));
    }
    push_node(&mut v, n0, Ghost(vocab()));
    let n1 = leaf("secureboot", "Secure Boot state", vec!["s", "sb", "sec", "verify"], Vec::new(), Handler::FirmwareSb);
    let ghost g1 = n1;
    proof {
        assert(names_view(n1.aliases@) =~= seq!["s"@, "sb"@, "sec"@, "verify"@]);
        assert(flags_view(n1.flags@) =~= Seq::<(char, Seq<char>, bool, Seq<char>)>::empty());
        assert(is_leaf(g1, "secureboot"@, "Secure Boot state"@, seq!["s"@, "sb"@, "sec"@, "verify"@], Seq::<(char, Seq<char>, bool, Seq<char>)>::empty(), Handler::FirmwareSb));
    }
    push_node(&mut v, n1, Ghost(vocab()));
    proof {
        assert(v@ =~= seq![g0, g1]);
        reveal(group_z_23_is);
    }
    v
}

/// What [`group_lbt_1`] returns: the commands under `lbt`.
#[verifier::opaque]
pub open spec fn group_lbt_1_is(v: Seq<Node<Handler>>) -> bool {
    &&& v.len() == 40
    &&& is_ns(v[0], "a"@, "Alias reports"@, seq!["alias"@, "aliases"@, "abbr"@, "all"@]) && group_a_2_is(children_of(v[0]))
    &&& is_leaf(v[1], "d"@, "Discover ESPs and boot entries"@, seq!["discover"@, "disc"@, "scan"@, "detect"@], seq![('j', "json"@, false, "Emit machine-readable JSON"@)], Handler::Discover)
    &&& is_ns(v[2], "e"@, "Environment and diagnostics"@, seq!["env"@, "environment"@, "diag"@]) && group_e_3_is(children_of(v[2]))
    &&& is_ns(v[3], "f"@, "Filesystem helpers"@, seq!["fs"@, "files"@, "filesystem"@]) && fs_tree_fs_is(children_of(v[3]))
    &&& is_ns(v[4], "g"@, "Framebuffer geometry"@, seq!["geometry"@, "geom"@, "geo"@, "fb"@]) && group_g_4_is(children_of(v[4]))
    &&& is_ns(v[5], "h"@, "Help"@, seq!["help"@, "?"@, "man"@, "usage"@]) && group_h_5_is(children_of(v[5]))
    &&& is_leaf(v[6], "i"@, "Print framebuffer + BGRT geometry"@, seq!["info"@, "inspect"@, "show"@, "geom"@], Seq::<(char, Seq<char>, bool, Seq<char>)>::empty(), Handler::Info)
    &&& is_ns(v[7], "j"@, "JSON output helpers"@, seq!["json"@, "jq"@, "machine"@]) && group_j_6_is(children_of(v[7]))
    &&& is_ns(v[8], "l"@, "Boot log"@, seq!["log"@, "logs"@, "journal"@]) && log_tree_log_is(children_of(v[8]))
    &&& is_ns(v[9], "n"@, "Boot entry names"@, seq!["names"@, "entries"@, "nodes"@, "paths"@]) && group_n_7_is(children_of(v[9]))
    &&& is_ns(v[10], "o"@, "Host OS information"@, seq!["os"@, "osinfo"@, "release"@, "uname"@]) && group_o_8_is(children_of(v[10]))
    &&& is_ns(v[11], "q"@, "Queries"@, seq!["query"@, "qry"@, "ask"@, "inspect2"@]) && group_q_9_is(children_of(v[11]))
    &&& is_ns(v[12], "r"@, "Rootfs helpers"@, seq!["rootfs"@, "fsroot"@, "rootsys"@, "sysroot"@]) && fs_tree_rootfs_is(children_of(v[12]))
    &&& is_ns(v[13], "u"@, "USB / ESP flash helpers"@, seq!["usb"@, "stick"@, "flash"@, "burn"@]) && group_u_10_is(children_of(v[13]))
    &&& is_leaf(v[14], "v"@, "Version"@, seq!["version"@, "ver"@, "rel"@, "ver2"@], Seq::<(char, Seq<char>, bool, Seq<char>)>::empty(), Handler::Version)
    &&& is_ns(v[15], "w"@, "Write disk images"@, seq!["write"@, "build"@, "emit"@, "gen"@]) && image_tree_image_is(children_of(v[15]))
    &&& is_leaf(v[16], "x"@, "Build ISOs"@, seq!["iso"@, "cd"@, "optical"@], seq![('r', "rootfs"@, true, "Root filesystem directory"@), ('o', "out"@, true, "Output file"@), ('l', "label"@, true, "Volume label"@)], Handler::ImageIso)
    &&& is_ns(v[17], "z"@, "Firmware information"@, seq!["zone"@, "fw"@, "firmware"@, "bios"@]) && group_z_11_is(children_of(v[17]))
    &&& is_ns(v[18], "A"@, "Alias report (uppercase)"@, seq!["Aliases"@, "AL"@, "Abbr"@]) && group_a_12_is(children_of(v[18]))
    &&& is_ns(v[19], "B"@, "Build front-ends"@, seq!["Build"@, "bld"@, "make"@]) && build_tree_build_is(children_of(v[19]))
    &&& is_ns(v[20], "D"@, "Devices"@, seq!["Devices"@, "dev"@, "hw"@]) && group_d_13_is(children_of(v[20]))
    &&& is_ns(v[21], "E"@, "ESP helpers"@, seq!["Esp"@, "efi"@, "fat32"@]) && group_e_14_is(children_of(v[21]))
    &&& is_ns(v[22], "F"@, "Firmware (uppercase)"@, seq!["Firmware"@, "fw"@, "uefi"@]) && group_f_15_is(children_of(v[22]))
    &&& is_ns(v[23], "G"@, "Geometry (uppercase)"@, seq!["Geom"@, "geo2"@]) && group_g_16_is(children_of(v[23]))
    &&& is_ns(v[24], "H"@, "Help (uppercase)"@, seq!["Help2"@, "man2"@]) && group_h_17_is(children_of(v[24]))
    &&& is_ns(v[25], "I"@, "Image building"@, seq!["Image"@, "img"@, "diskimg"@]) && image_tree_image_is(children_of(v[25]))
    &&& is_ns(v[26], "J"@, "JSON (uppercase)"@, seq!["Json2"@, "jq2"@]) && group_j_18_is(children_of(v[26]))
    &&& is_ns(v[27], "K"@, "Secure Boot keys"@, seq!["Keys"@, "key"@, "sign"@]) && keys_tree_keys_is(children_of(v[27]))
    &&& is_ns(v[28], "L"@, "Logs (uppercase)"@, seq!["Logs2"@, "journal"@]) && log_tree_log_is(children_of(v[28]))
    &&& is_ns(v[29], "M"@, "Make front-end"@, seq!["Make"@, "mk"@, "front"@]) && build_tree_build_is(children_of(v[29]))
    &&& is_ns(v[30], "N"@, "Network"@, seq!["Net"@, "network"@, "web"@]) && group_n_19_is(children_of(v[30]))
    &&& is_ns(v[31], "O"@, "OS info (uppercase)"@, seq!["Os2"@, "osinfo2"@]) && group_o_20_is(children_of(v[31]))
    &&& is_ns(v[32], "Q"@, "Queries (uppercase)"@, seq!["Query"@, "qry2"@]) && group_q_21_is(children_of(v[32]))
    &&& is_ns(v[33], "R"@, "Rootfs (uppercase)"@, seq!["Rootfs2"@, "rootsys2"@]) && fs_tree_rootfs_is(children_of(v[33]))
    &&& is_ns(v[34], "S"@, "Secure Boot signing"@, seq!["Sign"@, "sb2"@, "keys2"@]) && keys_tree_keys_is(children_of(v[34]))
    &&& is_ns(v[35], "U"@, "USB (uppercase)"@, seq!["Usb2"@, "flash2"@]) && group_u_22_is(children_of(v[35]))
    &&& is_leaf(v[36], "V"@, "Version (uppercase)"@, seq!["Ver2"@, "v2"@], Seq::<(char, Seq<char>, bool, Seq<char>)>::empty(), Handler::Version)
    &&& is_ns(v[37], "W"@, "Write images (uppercase)"@, seq!["Write2"@, "gen2"@]) && image_tree_image_is(children_of(v[37]))
    &&& is_ns(v[38], "X"@, "Transfer files"@, seq!["Xfer"@, "transfer"@, "copy"@]) && build_tree_xfer_is(children_of(v[38]))
    &&& is_ns(v[39], "Z"@, "Zones / firmware (uppercase)"@, seq!["Zones"@, "fw2"@]) && group_z_23_is(children_of(v[39]))
}

/// The commands under `lbt`.
fn group_lbt_1() -> (v: Vec<Node<Handler>>)
    ensures
        nodes_flags_ok(v@, vocab()),
        group_lbt_1_is(v@),
{
    let mut v: Vec<Node<Handler>> = Vec::new();
    let n0 = namespace("a", "Alias reports", vec!["alias", "aliases", "abbr", "all"], Vec::new(), group_a_2());
    let ghost g0 = n0;
    proof {
        assert(names_view(n0.aliases@) =~= seq!["alias"@, "aliases"@, "abbr"@, "all"@]);
        assert(is_ns(g0, "a"@, "Alias reports"@, seq!["alias"@, "aliases"@, "abbr"@, "all"@]) && group_a_2_is(children_of(g0)));
    }
    push_node(&mut v, n0, Ghost(vocab()));
    let n1 = leaf("d", "Discover ESPs and boot entries", vec!["discover", "disc", "scan", "detect"], flag_list(&[f_json()]), Handler::Discover);
    let ghost g1 = n1;
    proof {
        assert(names_view(n1.aliases@) =~= seq!["discover"@, "disc"@, "scan"@, "detect"@]);
        assert(flags_view(n1.flags@) =~= seq![('j', "json"@, false, "Emit machine-readable JSON"@)]);
        assert(is_leaf(g1, "d"@, "Discover ESPs and boot entries"@, seq!["discover"@, "disc"@, "scan"@, "detect"@], seq![('j', "json"@, false, "Emit machine-readable JSON"@)], Handler::Discover));
    }
    push_node(&mut v, n1, Ghost(vocab()));
    let n2 = namespace("e", "Environment and diagnostics", vec!["env", "environment", "diag"], Vec::new(), group_e_3());
    let ghost g2 = n2;
    proof {
        assert(names_view(n2.aliases@) =~= seq!["env"@, "environment"@, "diag"@]);
        assert(is_ns(g2, "e"@, "Environment and diagnostics"@, seq!["env"@, "environment"@, "diag"@]) && group_e_3_is(children_of(g2)));
    }
    push_node(&mut v, n2, Ghost(vocab()));
    let n3 = namespace("f", "Filesystem helpers", vec!["fs", "files", "filesystem"], Vec::new(), fs_tree_fs());
    let ghost g3 = n3;
    proof {
        assert(names_view(n3.aliases@) =~= seq!["fs"@, "files"@, "filesystem"@]);
        assert(is_ns(g3, "f"@, "Filesystem helpers"@, seq!["fs"@, "files"@, "filesystem"@]) && fs_tree_fs_is(children_of(g3)));
    }
    push_node(&mut v, n3, Ghost(vocab()));
    let n4 = namespace("g", "Framebuffer geometry", vec!["geometry", "geom", "geo", "fb"], Vec::new(), group_g_4());
    let ghost g4 = n4;
    proof {
        assert(names_view(n4.aliases@) =~= seq!["geometry"@, "geom"@, "geo"@, "fb"@]);
        assert(is_ns(g4, "g"@, "Framebuffer geometry"@, seq!["geometry"@, "geom"@, "geo"@, "fb"@]) && group_g_4_is(children_of(g4)));
    }
    push_node(&mut v, n4, Ghost(vocab()));
    let n5 = namespace("h", "Help", vec!["help", "?", "man", "usage"], Vec::new(), group_h_5());
    let ghost g5 = n5;
    proof {
        assert(names_view(n5.aliases@) =~= seq!["help"@, "?"@, "man"@, "usage"@]);
        assert(is_ns(g5, "h"@, "Help"@, seq!["help"@, "?"@, "man"@, "usage"@]) && group_h_5_is(children_of(g5)));
    }
    push_node(&mut v, n5, Ghost(vocab()));
    let n6 = leaf("i", "Print framebuffer + BGRT geometry", vec!["info", "inspect", "show", "geom"], Vec::new(), Handler::Info);
    let ghost g6 = n6;
    proof {
        assert(names_view(n6.aliases@) =~= seq!["info"@, "inspect"@, "show"@, "geom"@]);
        assert(flags_view(n6.flags@) =~= Seq::<(char, Seq<char>, bool, Seq<char>)>::empty());
        assert(is_leaf(g6, "i"@, "Print framebuffer + BGRT geometry"@, seq!["info"@, "inspect"@, "show"@, "geom"@], Seq::<(char, Seq<char>, bool, Seq<char>)>::empty(), Handler::Info));
    }
    push_node(&mut v, n6, Ghost(vocab()));
    let n7 = namespace("j", "JSON output helpers", vec!["json", "jq", "machine"], Vec::new(), group_j_6());
    let ghost g7 = n7;
    proof {
        assert(names_view(n7.aliases@) =~= seq!["json"@, "jq"@, "machine"@]);
        assert(is_ns(g7, "j"@, "JSON output helpers"@, seq!["json"@, "jq"@, "machine"@]) && group_j_6_is(children_of(g7)));
    }
    push_node(&mut v, n7, Ghost(vocab()));
    let n8 = namespace("l", "Boot log", vec!["log", "logs", "journal"], Vec::new(), log_tree_log());
    let ghost g8 = n8;
    proof {
        assert(names_view(n8.aliases@) =~= seq!["log"@, "logs"@, "journal"@]);
        assert(is_ns(g8, "l"@, "Boot log"@, seq!["log"@, "logs"@, "journal"@]) && log_tree_log_is(children_of(g8)));
    }
    push_node(&mut v, n8, Ghost(vocab()));
    let n9 = namespace("n", "Boot entry names", vec!["names", "entries", "nodes", "paths"], Vec::new(), group_n_7());
    let ghost g9 = n9;
    proof {
        assert(names_view(n9.aliases@) =~= seq!["names"@, "entries"@, "nodes"@, "paths"@]);
        assert(is_ns(g9, "n"@, "Boot entry names"@, seq!["names"@, "entries"@, "nodes"@, "paths"@]) && group_n_7_is(children_of(g9)));
    }
    push_node(&mut v, n9, Ghost(vocab()));
    let n10 = namespace("o", "Host OS information", vec!["os", "osinfo", "release", "uname"], Vec::new(), group_o_8());
    let ghost g10 = n10;
    proof {
        assert(names_view(n10.aliases@) =~= seq!["os"@, "osinfo"@, "release"@, "uname"@]);
        assert(is_ns(g10, "o"@, "Host OS information"@, seq!["os"@, "osinfo"@, "release"@, "uname"@]) && group_o_8_is(children_of(g10)));
    }
    push_node(&mut v, n10, Ghost(vocab()));
    let n11 = namespace("q", "Queries", vec!["query", "qry", "ask", "inspect2"], Vec::new(), group_q_9());
    let ghost g11 = n11;
    proof {
        assert(names_view(n11.aliases@) =~= seq!["query"@, "qry"@, "ask"@, "inspect2"@]);
        assert(is_ns(g11, "q"@, "Queries"@, seq!["query"@, "qry"@, "ask"@, "inspect2"@]) && group_q_9_is(children_of(g11)));
    }
    push_node(&mut v, n11, Ghost(vocab()));
    let n12 = namespace("r", "Rootfs helpers", vec!["rootfs", "fsroot", "rootsys", "sysroot"], Vec::new(), fs_tree_rootfs());
    let ghost g12 = n12;
    proof {
        assert(names_view(n12.aliases@) =~= seq!["rootfs"@, "fsroot"@, "rootsys"@, "sysroot"@]);
        assert(is_ns(g12, "r"@, "Rootfs helpers"@, seq!["rootfs"@, "fsroot"@, "rootsys"@, "sysroot"@]) && fs_tree_rootfs_is(children_of(g12)));
    }
    push_node(&mut v, n12, Ghost(vocab()));
    let n13 = namespace("u", "USB / ESP flash helpers", vec!["usb", "stick", "flash", "burn"], Vec::new(), group_u_10());
    let ghost g13 = n13;
    proof {
        assert(names_view(n13.aliases@) =~= seq!["usb"@, "stick"@, "flash"@, "burn"@]);
        assert(is_ns(g13, "u"@, "USB / ESP flash helpers"@, seq!["usb"@, "stick"@, "flash"@, "burn"@]) && group_u_10_is(children_of(g13)));
    }
    push_node(&mut v, n13, Ghost(vocab()));
    let n14 = leaf("v", "Version", vec!["version", "ver", "rel", "ver2"], Vec::new(), Handler::Version);
    let ghost g14 = n14;
    proof {
        assert(names_view(n14.aliases@) =~= seq!["version"@, "ver"@, "rel"@, "ver2"@]);
        assert(flags_view(n14.flags@) =~= Seq::<(char, Seq<char>, bool, Seq<char>)>::empty());
        assert(is_leaf(g14, "v"@, "Version"@, seq!["version"@, "ver"@, "rel"@, "ver2"@], Seq::<(char, Seq<char>, bool, Seq<char>)>::empty(), Handler::Version));
    }
    push_node(&mut v, n14, Ghost(vocab()));
    let n15 = namespace("w", "Write disk images", vec!["write", "build", "emit", "gen"], Vec::new(), image_tree_image());
    let ghost g15 = n15;
    proof {
        assert(names_view(n15.aliases@) =~= seq!["write"@, "build"@, "emit"@, "gen"@]);
        assert(is_ns(g15, "w"@, "Write disk images"@, seq!["write"@, "build"@, "emit"@, "gen"@]) && image_tree_image_is(children_of(g15)));
    }
    push_node(&mut v, n15, Ghost(vocab()));
    let n16 = leaf("x", "Build ISOs", vec!["iso", "cd", "optical"], flag_list(&[f_rootfs(), f_out(), f_label()]), Handler::ImageIso);
    let ghost g16 = n16;
    proof {
        assert(names_view(n16.aliases@) =~= seq!["iso"@, "cd"@, "optical"@]);
        assert(flags_view(n16.flags@) =~= seq![('r', "rootfs"@, true, "Root filesystem directory"@), ('o', "out"@, true, "Output file"@), ('l', "label"@, true, "Volume label"@)]);
        assert(is_leaf(g16, "x"@, "Build ISOs"@, seq!["iso"@, "cd"@, "optical"@], seq![('r', "rootfs"@, true, "Root filesystem directory"@), ('o', "out"@, true, "Output file"@), ('l', "label"@, true, "Volume label"@)], Handler::ImageIso));
    }
    push_node(&mut v, n16, Ghost(vocab()));
    let n17 = namespace("z", "Firmware information", vec!["zone", "fw", "firmware", "bios"], Vec::new(), group_z_11());
    let ghost g17 = n17;
    proof {
        assert(names_view(n17.aliases@) =~= seq!["zone"@, "fw"@, "firmware"@, "bios"@]);
        assert(is_ns(g17, "z"@, "Firmware information"@, seq!["zone"@, "fw"@, "firmware"@, "bios"@]) && group_z_11_is(children_of(g17)));
    }
    push_node(&mut v, n17, Ghost(vocab()));
    let n18 = namespace("A", "Alias report (uppercase)", vec!["Aliases", "AL", "Abbr"], Vec::new(), group_a_12());
    let ghost g18 = n18;
    proof {
        assert(names_view(n18.aliases@) =~= seq!["Aliases"@, "AL"@, "Abbr"@]);
        assert(is_ns(g18, "A"@, "Alias report (uppercase)"@, seq!["Aliases"@, "AL"@, "Abbr"@]) && group_a_12_is(children_of(g18)));
    }
    push_node(&mut v, n18, Ghost(vocab()));
    let n19 = namespace("B", "Build front-ends", vec!["Build", "bld", "make"], Vec::new(), build_tree_build());
    let ghost g19 = n19;
    proof {
        assert(names_view(n19.aliases@) =~= seq!["Build"@, "bld"@, "make"@]);
        assert(is_ns(g19, "B"@, "Build front-ends"@, seq!["Build"@, "bld"@, "make"@]) && build_tree_build_is(children_of(g19)));
    }
    push_node(&mut v, n19, Ghost(vocab()));
    let n20 = namespace("D", "Devices", vec!["Devices", "dev", "hw"], Vec::new(), group_d_13());
    let ghost g20 = n20;
    proof {
        assert(names_view(n20.aliases@) =~= seq!["Devices"@, "dev"@, "hw"@]);
        assert(is_ns(g20, "D"@, "Devices"@, seq!["Devices"@, "dev"@, "hw"@]) && group_d_13_is(children_of(g20)));
    }
    push_node(&mut v, n20, Ghost(vocab()));
    let n21 = namespace("E", "ESP helpers", vec!["Esp", "efi", "fat32"], Vec::new(), group_e_14());
    let ghost g21 = n21;
    proof {
        assert(names_view(n21.aliases@) =~= seq!["Esp"@, "efi"@, "fat32"@]);
        assert(is_ns(g21, "E"@, "ESP helpers"@, seq!["Esp"@, "efi"@, "fat32"@]) && group_e_14_is(children_of(g21)));
    }
    push_node(&mut v, n21, Ghost(vocab()));
    let n22 = namespace("F", "Firmware (uppercase)", vec!["Firmware", "fw", "uefi"], Vec::new(), group_f_15());
    let ghost g22 = n22;
    proof {
        assert(names_view(n22.aliases@) =~= seq!["Firmware"@, "fw"@, "uefi"@]);
        assert(is_ns(g22, "F"@, "Firmware (uppercase)"@, seq!["Firmware"@, "fw"@, "uefi"@]) && group_f_15_is(children_of(g22)));
    }
    push_node(&mut v, n22, Ghost(vocab()));
    let n23 = namespace("G", "Geometry (uppercase)", vec!["Geom", "geo2"], Vec::new(), group_g_16());
    let ghost g23 = n23;
    proof {
        assert(names_view(n23.aliases@) =~= seq!["Geom"@, "geo2"@]);
        assert(is_ns(g23, "G"@, "Geometry (uppercase)"@, seq!["Geom"@, "geo2"@]) && group_g_16_is(children_of(g23)));
    }
    push_node(&mut v, n23, Ghost(vocab()));
    let n24 = namespace("H", "Help (uppercase)", vec!["Help2", "man2"], Vec::new(), group_h_17());
    let ghost g24 = n24;
    proof {
        assert(names_view(n24.aliases@) =~= seq!["Help2"@, "man2"@]);
        assert(is_ns(g24, "H"@, "Help (uppercase)"@, seq!["Help2"@, "man2"@]) && group_h_17_is(children_of(g24)));
    }
    push_node(&mut v, n24, Ghost(vocab()));
    let n25 = namespace("I", "Image building", vec!["Image", "img", "diskimg"], Vec::new(), image_tree_image());
    let ghost g25 = n25;
    proof {
        assert(names_view(n25.aliases@) =~= seq!["Image"@, "img"@, "diskimg"@]);
        assert(is_ns(g25, "I"@, "Image building"@, seq!["Image"@, "img"@, "diskimg"@]) && image_tree_image_is(children_of(g25)));
    }
    push_node(&mut v, n25, Ghost(vocab()));
    let n26 = namespace("J", "JSON (uppercase)", vec!["Json2", "jq2"], Vec::new(), group_j_18());
    let ghost g26 = n26;
    proof {
        assert(names_view(n26.aliases@) =~= seq!["Json2"@, "jq2"@]);
        assert(is_ns(g26, "J"@, "JSON (uppercase)"@, seq!["Json2"@, "jq2"@]) && group_j_18_is(children_of(g26)));
    }
    push_node(&mut v, n26, Ghost(vocab()));
    let n27 = namespace("K", "Secure Boot keys", vec!["Keys", "key", "sign"], Vec::new(), keys_tree_keys());
    let ghost g27 = n27;
    proof {
        assert(names_view(n27.aliases@) =~= seq!["Keys"@, "key"@, "sign"@]);
        assert(is_ns(g27, "K"@, "Secure Boot keys"@, seq!["Keys"@, "key"@, "sign"@]) && keys_tree_keys_is(children_of(g27)));
    }
    push_node(&mut v, n27, Ghost(vocab()));
    let n28 = namespace("L", "Logs (uppercase)", vec!["Logs2", "journal"], Vec::new(), log_tree_log());
    let ghost g28 = n28;
    proof {
        assert(names_view(n28.aliases@) =~= seq!["Logs2"@, "journal"@]);
        assert(is_ns(g28, "L"@, "Logs (uppercase)"@, seq!["Logs2"@, "journal"@]) && log_tree_log_is(children_of(g28)));
    }
    push_node(&mut v, n28, Ghost(vocab()));
    let n29 = namespace("M", "Make front-end", vec!["Make", "mk", "front"], Vec::new(), build_tree_build());
    let ghost g29 = n29;
    proof {
        assert(names_view(n29.aliases@) =~= seq!["Make"@, "mk"@, "front"@]);
        assert(is_ns(g29, "M"@, "Make front-end"@, seq!["Make"@, "mk"@, "front"@]) && build_tree_build_is(children_of(g29)));
    }
    push_node(&mut v, n29, Ghost(vocab()));
    let n30 = namespace("N", "Network", vec!["Net", "network", "web"], Vec::new(), group_n_19());
    let ghost g30 = n30;
    proof {
        assert(names_view(n30.aliases@) =~= seq!["Net"@, "network"@, "web"@]);
        assert(is_ns(g30, "N"@, "Network"@, seq!["Net"@, "network"@, "web"@]) && group_n_19_is(children_of(g30)));
    }
    push_node(&mut v, n30, Ghost(vocab()));
    let n31 = namespace("O", "OS info (uppercase)", vec!["Os2", "osinfo2"], Vec::new(), group_o_20());
    let ghost g31 = n31;
    proof {
        assert(names_view(n31.aliases@) =~= seq!["Os2"@, "osinfo2"@]);
        assert(is_ns(g31, "O"@, "OS info (uppercase)"@, seq!["Os2"@, "osinfo2"@]) && group_o_20_is(children_of(g31)));
    }
    push_node(&mut v, n31, Ghost(vocab()));
    let n32 = namespace("Q", "Queries (uppercase)", vec!["Query", "qry2"], Vec::new(), group_q_21());
    let ghost g32 = n32;
    proof {
        assert(names_view(n32.aliases@) =~= seq!["Query"@, "qry2"@]);
        assert(is_ns(g32, "Q"@, "Queries (uppercase)"@, seq!["Query"@, "qry2"@]) && group_q_21_is(children_of(g32)));
    }
    push_node(&mut v, n32, Ghost(vocab()));
    let n33 = namespace("R", "Rootfs (uppercase)", vec!["Rootfs2", "rootsys2"], Vec::new(), fs_tree_rootfs());
    let ghost g33 = n33;
    proof {
        assert(names_view(n33.aliases@) =~= seq!["Rootfs2"@, "rootsys2"@]);
        assert(is_ns(g33, "R"@, "Rootfs (uppercase)"@, seq!["Rootfs2"@, "rootsys2"@]) && fs_tree_rootfs_is(children_of(g33)));
    }
    push_node(&mut v, n33, Ghost(vocab()));
    let n34 = namespace("S", "Secure Boot signing", vec!["Sign", "sb2", "keys2"], Vec::new(), keys_tree_keys());
    let ghost g34 = n34;
    proof {
        assert(names_view(n34.aliases@) =~= seq!["Sign"@, "sb2"@, "keys2"@]);
        assert(is_ns(g34, "S"@, "Secure Boot signing"@, seq!["Sign"@, "sb2"@, "keys2"@]) && keys_tree_keys_is(children_of(g34)));
    }
    push_node(&mut v, n34, Ghost(vocab()));
    let n35 = namespace("U", "USB (uppercase)", vec!["Usb2", "flash2"], Vec::new(), group_u_22());
    let ghost g35 = n35;
    proof {
        assert(names_view(n35.aliases@) =~= seq!["Usb2"@, "flash2"@]);
        assert(is_ns(g35, "U"@, "USB (uppercase)"@, seq!["Usb2"@, "flash2"@]) && group_u_22_is(children_of(g35)));
    }
    push_node(&mut v, n35, Ghost(vocab()));
    let n36 = leaf("V", "Version (uppercase)", vec!["Ver2", "v2"], Vec::new(), Handler::Version);
    let ghost g36 = n36;
    proof {
        assert(names_view(n36.aliases@) =~= seq!["Ver2"@, "v2"@]);
        assert(flags_view(n36.flags@) =~= Seq::<(char, Seq<char>, bool, Seq<char>)>::empty());
        assert(is_leaf(g36, "V"@, "Version (uppercase)"@, seq!["Ver2"@, "v2"@], Seq::<(char, Seq<char>, bool, Seq<char>)>::empty(), Handler::Version));
    }
    push_node(&mut v, n36, Ghost(vocab()));
    let n37 = namespace("W", "Write images (uppercase)", vec!["Write2", "gen2"], Vec::new(), image_tree_image());
    let ghost g37 = n37;
    proof {
        assert(names_view(n37.aliases@) =~= seq!["Write2"@, "gen2"@]);
        assert(is_ns(g37, "W"@, "Write images (uppercase)"@, seq!["Write2"@, "gen2"@]) && image_tree_image_is(children_of(g37)));
    }
    push_node(&mut v, n37, Ghost(vocab()));
    let n38 = namespace("X", "Transfer files", vec!["Xfer", "transfer", "copy"], Vec::new(), build_tree_xfer());
    let ghost g38 = n38;
    proof {
        assert(names_view(n38.aliases@) =~= seq!["Xfer"@, "transfer"@, "copy"@]);
        assert(is_ns(g38, "X"@, "Transfer files"@, seq!["Xfer"@, "transfer"@, "copy"@]) && build_tree_xfer_is(children_of(g38)));
    }
    push_node(&mut v, n38, Ghost(vocab()));
    let n39 = namespace("Z", "Zones / firmware (uppercase)", vec!["Zones", "fw2"], Vec::new(), group_z_23());
    let ghost g39 = n39;
    proof {
        assert(names_view(n39.aliases@) =~= seq!["Zones"@, "fw2"@]);
        assert(is_ns(g39, "Z"@, "Zones / firmware (uppercase)"@, seq!["Zones"@, "fw2"@]) && group_z_23_is(children_of(g39)));
    }
    push_node(&mut v, n39, Ghost(vocab()));
    proof {
        assert(v@ =~= seq![g0, g1, g2, g3, g4, g5, g6, g7, g8, g9, g10, g11, g12, g13, g14, g15, g16, g17, g18, g19, g20, g21, g22, g23, g24, g25, g26, g27, g28, g29, g30, g31, g32, g33, g34, g35, g36, g37, g38, g39]);
        reveal(group_lbt_1_is);
    }
    v
}

/// The whole `lbt` command tree. Every flag in it comes from the
/// flag vocabulary, so short characters and long names are unique across
/// the tree and each is consistently a boolean or a value.
pub fn root() -> (r: Node<Handler>)
    ensures
        node_flags_ok(r, vocab()),
        is_ns(r, "lbt"@, "Leon Build Tool — discover boot entries, build ESP/ISO/IMG images, query geometry, control the cps subsystem"@, Seq::<Seq<char>>::empty()),
        group_lbt_1_is(children_of(r)),
{
    let r = namespace("lbt", "Leon Build Tool — discover boot entries, build ESP/ISO/IMG images, query geometry, control the cps subsystem", vec![], Vec::new(), group_lbt_1());
    assert(names_view(r.aliases@) =~= Seq::<Seq<char>>::empty());
    r
}

} // verus!
