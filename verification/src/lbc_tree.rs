//! The `lbc` command tree: boot configuration and boot control.
//!
//! Every node carries a canonical name, aliases, a short help string, its
//! flags, and either child nodes or a [`Handler`].
use vstd::prelude::*;

use crate::cmd_tree::{
    children_of, flag_list, flag_view, flags_view, in_vocab, is_leaf, is_ns, leaf, names_view, namespace, node_flags_ok, nodes_flags_ok, push_node, vocab_consistent, Flag, Node,
};

verus! {

/// A runnable handler id.
#[derive(Debug, Clone, Copy, PartialEq, Eq, Structural)]
pub enum Handler {
    Info,
    Stage,
    BootOnce,
    EspSync,
    ConfigGet,
    ConfigSet,
    ConfigList,
    ConfigReset,
    ConfigPath,
    DefaultGet,
    DefaultSet,
    EntriesList,
    EntriesGet,
    EntriesCount,
    FindEsps,
    FindEntries,
    GeometryShow,
    GeometryBgr,
    JsonConfig,
    JsonDiscover,
    JsonInfo,
    JsonAll,
    NamesList,
    NamesGet,
    NamesCount,
    QueryInfo,
    QueryEsps,
    ProfileSave,
    ProfileList,
    ProfileLoad,
    ProfileDelete,
    KeymapShow,
    Version,
    HelpAll,
    HelpTree,
    HelpCommand,
    AliasList,
    Status,
}

/// The flag vocabulary of the `lbc` tree: short character, long name, and whether it takes a value.
pub open spec fn vocab() -> Seq<(char, Seq<char>, bool)> {
    seq![
        ('j', seq!['j', 's', 'o', 'n'], false),
        ('p', seq!['p', 'a', 't', 'h'], true),
        ('n', seq!['n', 'a', 'm', 'e'], true),
        ('d', seq!['d', 'e', 's', 't'], true),
        ('a', seq!['a', 'r', 'c', 'h'], true),
        ('k', seq!['k', 'e', 'y'], true),
        ('v', seq!['v', 'a', 'l', 'u', 'e'], true),
        ('U', seq!['v', 'o', 'l'], true),
        ('P', seq!['p', 'r', 'o', 'f', 'i', 'l', 'e'], true),
    ]
}

/// Short characters and long names are unique in the vocabulary, and each
/// long name consistently takes a value or not.
pub proof fn lemma_vocab_consistent()
    ensures
        vocab_consistent(vocab()),
{
}

/// `-j` / `--json`: Emit machine-readable JSON.
pub fn f_json() -> (f: Flag)
    ensures
        f.short == 'j' && f.long@ == seq!['j', 's', 'o', 'n'] && f.value == false,
        in_vocab(f, vocab()),
        flag_view(f) == ('j', "json"@, false, "Emit machine-readable JSON"@),
{
    let f = Flag { short: 'j', long: "json", value: false, doc: "Emit machine-readable JSON" };
    proof {
        reveal_strlit("json");
        assert(vocab()[0] == (f.short, f.long@, f.value));
    }
    f
}

/// `-p` / `--path`: File or directory path.
pub fn f_path() -> (f: Flag)
    ensures
        f.short == 'p' && f.long@ == seq!['p', 'a', 't', 'h'] && f.value == true,
        in_vocab(f, vocab()),
        flag_view(f) == ('p', "path"@, true, "File or directory path"@),
{
    let f = Flag { short: 'p', long: "path", value: true, doc: "File or directory path" };
    proof {
        reveal_strlit("path");
        assert(vocab()[1] == (f.short, f.long@, f.value));
    }
    f
}

/// `-n` / `--name`: Entry or command name.
pub fn f_name() -> (f: Flag)
    ensures
        f.short == 'n' && f.long@ == seq!['n', 'a', 'm', 'e'] && f.value == true,
        in_vocab(f, vocab()),
        flag_view(f) == ('n', "name"@, true, "Entry or command name"@),
{
    let f = Flag { short: 'n', long: "name", value: true, doc: "Entry or command name" };
    proof {
        reveal_strlit("name");
        assert(vocab()[2] == (f.short, f.long@, f.value));
    }
    f
}

/// `-d` / `--dest`: Destination directory.
pub fn f_dest() -> (f: Flag)
    ensures
        f.short == 'd' && f.long@ == seq!['d', 'e', 's', 't'] && f.value == true,
        in_vocab(f, vocab()),
        flag_view(f) == ('d', "dest"@, true, "Destination directory"@),
{
    let f = Flag { short: 'd', long: "dest", value: true, doc: "Destination directory" };
    proof {
        reveal_strlit("dest");
        assert(vocab()[3] == (f.short, f.long@, f.value));
    }
    f
}

/// `-a` / `--arch`: Architecture: amd64 | arm64.
pub fn f_arch() -> (f: Flag)
    ensures
        f.short == 'a' && f.long@ == seq!['a', 'r', 'c', 'h'] && f.value == true,
        in_vocab(f, vocab()),
        flag_view(f) == ('a', "arch"@, true, "Architecture: amd64 | arm64"@),
{
    let f = Flag { short: 'a', long: "arch", value: true, doc: "Architecture: amd64 | arm64" };
    proof {
        reveal_strlit("arch");
        assert(vocab()[4] == (f.short, f.long@, f.value));
    }
    f
}

/// `-k` / `--key`: Config key.
pub fn f_key() -> (f: Flag)
    ensures
        f.short == 'k' && f.long@ == seq!['k', 'e', 'y'] && f.value == true,
        in_vocab(f, vocab()),
        flag_view(f) == ('k', "key"@, true, "Config key"@),
{
    let f = Flag { short: 'k', long: "key", value: true, doc: "Config key" };
    proof {
        reveal_strlit("key");
        assert(vocab()[5] == (f.short, f.long@, f.value));
    }
    f
}

/// `-v` / `--value`: Config value.
pub fn f_value() -> (f: Flag)
    ensures
        f.short == 'v' && f.long@ == seq!['v', 'a', 'l', 'u', 'e'] && f.value == true,
        in_vocab(f, vocab()),
        flag_view(f) == ('v', "value"@, true, "Config value"@),
{
    let f = Flag { short: 'v', long: "value", value: true, doc: "Config value" };
    proof {
        reveal_strlit("value");
        assert(vocab()[6] == (f.short, f.long@, f.value));
    }
    f
}

/// `-U` / `--vol`: ESP volume path.
pub fn f_vol() -> (f: Flag)
    ensures
        f.short == 'U' && f.long@ == seq!['v', 'o', 'l'] && f.value == true,
        in_vocab(f, vocab()),
        flag_view(f) == ('U', "vol"@, true, "ESP volume path"@),
{
    let f = Flag { short: 'U', long: "vol", value: true, doc: "ESP volume path" };
    proof {
        reveal_strlit("vol");
        assert(vocab()[7] == (f.short, f.long@, f.value));
    }
    f
}

/// `-P` / `--profile`: Config profile name.
pub fn f_profile() -> (f: Flag)
    ensures
        f.short == 'P' && f.long@ == seq!['p', 'r', 'o', 'f', 'i', 'l', 'e'] && f.value == true,
        in_vocab(f, vocab()),
        flag_view(f) == ('P', "profile"@, true, "Config profile name"@),
{
    let f = Flag { short: 'P', long: "profile", value: true, doc: "Config profile name" };
    proof {
        reveal_strlit("profile");
        assert(vocab()[8] == (f.short, f.long@, f.value));
    }
    f
}

/// The short characters and long names of the flags that take a value.
pub open spec fn value_vocab() -> Seq<(char, Seq<char>)> {
    seq![
        ('p', seq!['p', 'a', 't', 'h']),
        ('n', seq!['n', 'a', 'm', 'e']),
        ('d', seq!['d', 'e', 's', 't']),
        ('a', seq!['a', 'r', 'c', 'h']),
        ('k', seq!['k', 'e', 'y']),
        ('v', seq!['v', 'a', 'l', 'u', 'e']),
        ('U', seq!['v', 'o', 'l']),
        ('P', seq!['p', 'r', 'o', 'f', 'i', 'l', 'e']),
    ]
}

/// The flags that take a value.
pub fn value_flags() -> (v: Vec<Flag>)
    ensures
        forall|i: int| 0 <= i < v@.len() ==> in_vocab(#[trigger] v@[i], vocab()) && v@[i].value,
        v@.len() == 8,
        forall|i: int| 0 <= i < v@.len() ==> (#[trigger] v@[i]).short == value_vocab()[i].0 && v@[i].long@ == value_vocab()[i].1,
{
    let mut v: Vec<Flag> = Vec::new();
    v.push(f_path());
    v.push(f_name());
    v.push(f_dest());
    v.push(f_arch());
    v.push(f_key());
    v.push(f_value());
    v.push(f_vol());
    v.push(f_profile());
    v
}

/// What [`boot_tree_config`] returns: the `boot` commands.
#[verifier::opaque]
pub open spec fn boot_tree_config_is(v: Seq<Node<Handler>>) -> bool {
    &&& v.len() == 5
    &&& is_leaf(v[0], "get"@, "Print a boot config key"@, seq!["g"@, "gt"@, "fetch"@, "read"@], seq![('k', "key"@, true, "Config key"@)], Handler::ConfigGet)
    &&& is_leaf(v[1], "set"@, "Set a boot config key"@, seq!["s"@, "st"@, "write"@, "put"@], seq![('k', "key"@, true, "Config key"@), ('v', "value"@, true, "Config value"@)], Handler::ConfigSet)
    &&& is_leaf(v[2], "list"@, "Print the whole boot config"@, seq!["l"@, "ls"@, "dump"@, "all"@], Seq::<(char, Seq<char>, bool, Seq<char>)>::empty(), Handler::ConfigList)
    &&& is_leaf(v[3], "reset"@, "Reset the boot config to defaults"@, seq!["r"@, "rm"@, "clear"@, "wipe"@], Seq::<(char, Seq<char>, bool, Seq<char>)>::empty(), Handler::ConfigReset)
    &&& is_leaf(v[4], "path"@, "Print the resolved boot config path"@, seq!["p"@, "loc"@, "where"@, "find"@], Seq::<(char, Seq<char>, bool, Seq<char>)>::empty(), Handler::ConfigPath)
}

/// The `boot` commands.
fn boot_tree_config() -> (v: Vec<Node<Handler>>)
    ensures
        nodes_flags_ok(v@, vocab()),
        boot_tree_config_is(v@),
{
    let mut v: Vec<Node<Handler>> = Vec::new();
    let n0 = leaf("get", "Print a boot config key", vec!["g", "gt", "fetch", "read"], flag_list(&[f_key()]), Handler::ConfigGet);
    let ghost g0 = n0;
    proof {
        assert(names_view(n0.aliases@) =~= seq!["g"@, "gt"@, "fetch"@, "read"@]);
        assert(flags_view(n0.flags@) =~= seq![('k', "key"@, true, "Config key"@)]);
        assert(is_leaf(g0, "get"@, "Print a boot config key"@, seq!["g"@, "gt"@, "fetch"@, "read"@], seq![('k', "key"@, true, "Config key"@)], Handler::ConfigGet));
    }
    push_node(&mut v, n0, Ghost(vocab()));
    let n1 = leaf("set", "Set a boot config key", vec!["s", "st", "write", "put"], flag_list(&[f_key(), f_value()]), Handler::ConfigSet);
    let ghost g1 = n1;
    proof {
        assert(names_view(n1.aliases@) =~= seq!["s"@, "st"@, "write"@, "put"@]);
        assert(flags_view(n1.flags@) =~= seq![('k', "key"@, true, "Config key"@), ('v', "value"@, true, "Config value"@)]);
        assert(is_leaf(g1, "set"@, "Set a boot config key"@, seq!["s"@, "st"@, "write"@, "put"@], seq![('k', "key"@, true, "Config key"@), ('v', "value"@, true, "Config value"@)], Handler::ConfigSet));
    }
    push_node(&mut v, n1, Ghost(vocab()));
    let n2 = leaf("list", "Print the whole boot config", vec!["l", "ls", "dump", "all"], Vec::new(), Handler::ConfigList);
    let ghost g2 = n2;
    proof {
        assert(names_view(n2.aliases@) =~= seq!["l"@, "ls"@, "dump"@, "all"@]);
        assert(flags_view(n2.flags@) =~= Seq::<(char, Seq<char>, bool, Seq<char>)>::empty());
        assert(is_leaf(g2, "list"@, "Print the whole boot config"@, seq!["l"@, "ls"@, "dump"@, "all"@], Seq::<(char, Seq<char>, bool, Seq<char>)>::empty(), Handler::ConfigList));
    }
    push_node(&mut v, n2, Ghost(vocab()));
    let n3 = leaf("reset", "Reset the boot config to defaults", vec!["r", "rm", "clear", "wipe"], Vec::new(), Handler::ConfigReset);
    let ghost g3 = n3;
    proof {
        assert(names_view(n3.aliases@) =~= seq!["r"@, "rm"@, "clear"@, "wipe"@]);
        assert(flags_view(n3.flags@) =~= Seq::<(char, Seq<char>, bool, Seq<char>)>::empty());
        assert(is_leaf(g3, "reset"@, "Reset the boot config to defaults"@, seq!["r"@, "rm"@, "clear"@, "wipe"@], Seq::<(char, Seq<char>, bool, Seq<char>)>::empty(), Handler::ConfigReset));
    }
    push_node(&mut v, n3, Ghost(vocab()));
    let n4 = leaf("path", "Print the resolved boot config path", vec!["p", "loc", "where", "find"], Vec::new(), Handler::ConfigPath);
    let ghost g4 = n4;
    proof {
        assert(names_view(n4.aliases@) =~= seq!["p"@, "loc"@, "where"@, "find"@]);
        assert(flags_view(n4.flags@) =~= Seq::<(char, Seq<char>, bool, Seq<char>)>::empty());
        assert(is_leaf(g4, "path"@, "Print the resolved boot config path"@, seq!["p"@, "loc"@, "where"@, "find"@], Seq::<(char, Seq<char>, bool, Seq<char>)>::empty(), Handler::ConfigPath));
    }
    push_node(&mut v, n4, Ghost(vocab()));
    proof {
        assert(v@ =~= seq![g0, g1, g2, g3, g4]);
        reveal(boot_tree_config_is);
    }
    v
}

/// What [`boot_tree_boot`] returns: the `boot` commands.
#[verifier::opaque]
pub open spec fn boot_tree_boot_is(v: Seq<Node<Handler>>) -> bool {
    &&& v.len() == 5
    &&& is_ns(v[0], "config"@, "Manage the boot config"@, seq!["cfg"@, "c"@, "conf"@]) && boot_tree_config_is(children_of(v[0]))
    &&& is_leaf(v[1], "stage"@, "Stage the ESP tree under build/esp"@, seq!["stg"@, "s"@, "deploy"@, "prepare"@], seq![('d', "dest"@, true, "Destination directory"@), ('a', "arch"@, true, "Architecture: amd64 | arm64"@)], Handler::Stage)
    &&& is_leaf(v[2], "info"@, "Report the boot volume layout"@, seq!["i"@, "show"@, "describe"@], Seq::<(char, Seq<char>, bool, Seq<char>)>::empty(), Handler::Info)
    &&& is_leaf(v[3], "once"@, "Boot one entry a single time"@, seq!["o"@, "one"@, "single"@, "next"@], seq![('n', "name"@, true, "Entry or command name"@)], Handler::BootOnce)
    &&& is_leaf(v[4], "upload"@, "Mirror the boot config onto an ESP"@, seq!["u"@, "sync"@, "up"@, "push"@], seq![('U', "vol"@, true, "ESP volume path"@)], Handler::EspSync)
}

/// The `boot` commands.
fn boot_tree_boot() -> (v: Vec<Node<Handler>>)
    ensures
        nodes_flags_ok(v@, vocab()),
        boot_tree_boot_is(v@),
{
    let mut v: Vec<Node<Handler>> = Vec::new();
    let n0 = namespace("config", "Manage the boot config", vec!["cfg", "c", "conf"], Vec::new(), boot_tree_config());
    let ghost g0 = n0;
    proof {
        assert(names_view(n0.aliases@) =~= seq!["cfg"@, "c"@, "conf"@]);
        assert(is_ns(g0, "config"@, "Manage the boot config"@, seq!["cfg"@, "c"@, "conf"@]) && boot_tree_config_is(children_of(g0)));
    }
    push_node(&mut v, n0, Ghost(vocab()));
    let n1 = leaf("stage", "Stage the ESP tree under build/esp", vec!["stg", "s", "deploy", "prepare"], flag_list(&[f_dest(), f_arch()]), Handler::Stage);
    let ghost g1 = n1;
    proof {
        assert(names_view(n1.aliases@) =~= seq!["stg"@, "s"@, "deploy"@, "prepare"@]);
        assert(flags_view(n1.flags@) =~= seq![('d', "dest"@, true, "Destination directory"@), ('a', "arch"@, true, "Architecture: amd64 | arm64"@)]);
        assert(is_leaf(g1, "stage"@, "Stage the ESP tree under build/esp"@, seq!["stg"@, "s"@, "deploy"@, "prepare"@], seq![('d', "dest"@, true, "Destination directory"@), ('a', "arch"@, true, "Architecture: amd64 | arm64"@)], Handler::Stage));
    }
    push_node(&mut v, n1, Ghost(vocab()));
    let n2 = leaf("info", "Report the boot volume layout", vec!["i", "show", "describe"], Vec::new(), Handler::Info);
    let ghost g2 = n2;
    proof {
        assert(names_view(n2.aliases@) =~= seq!["i"@, "show"@, "describe"@]);
        assert(flags_view(n2.flags@) =~= Seq::<(char, Seq<char>, bool, Seq<char>)>::empty());
        assert(is_leaf(g2, "info"@, "Report the boot volume layout"@, seq!["i"@, "show"@, "describe"@], Seq::<(char, Seq<char>, bool, Seq<char>)>::empty(), Handler::Info));
    }
    push_node(&mut v, n2, Ghost(vocab()));
    let n3 = leaf("once", "Boot one entry a single time", vec!["o", "one", "single", "next"], flag_list(&[f_name()]), Handler::BootOnce);
    let ghost g3 = n3;
    proof {
        assert(names_view(n3.aliases@) =~= seq!["o"@, "one"@, "single"@, "next"@]);
        assert(flags_view(n3.flags@) =~= seq![('n', "name"@, true, "Entry or command name"@)]);
        assert(is_leaf(g3, "once"@, "Boot one entry a single time"@, seq!["o"@, "one"@, "single"@, "next"@], seq![('n', "name"@, true, "Entry or command name"@)], Handler::BootOnce));
    }
    push_node(&mut v, n3, Ghost(vocab()));
    let n4 = leaf("upload", "Mirror the boot config onto an ESP", vec!["u", "sync", "up", "push"], flag_list(&[f_vol()]), Handler::EspSync);
    let ghost g4 = n4;
    proof {
        assert(names_view(n4.aliases@) =~= seq!["u"@, "sync"@, "up"@, "push"@]);
        assert(flags_view(n4.flags@) =~= seq![('U', "vol"@, true, "ESP volume path"@)]);
        assert(is_leaf(g4, "upload"@, "Mirror the boot config onto an ESP"@, seq!["u"@, "sync"@, "up"@, "push"@], seq![('U', "vol"@, true, "ESP volume path"@)], Handler::EspSync));
    }
    push_node(&mut v, n4, Ghost(vocab()));
    proof {
        assert(v@ =~= seq![g0, g1, g2, g3, g4]);
        reveal(boot_tree_boot_is);
    }
    v
}

/// What [`config_tree_config`] returns: the `config` commands.
#[verifier::opaque]
pub open spec fn config_tree_config_is(v: Seq<Node<Handler>>) -> bool {
    &&& v.len() == 5
    &&& is_leaf(v[0], "get"@, "Print a boot config key"@, seq!["g"@, "gt"@, "fetch"@, "read"@], seq![('k', "key"@, true, "Config key"@)], Handler::ConfigGet)
    &&& is_leaf(v[1], "set"@, "Set a boot config key"@, seq!["s"@, "st"@, "write"@, "put"@], seq![('k', "key"@, true, "Config key"@), ('v', "value"@, true, "Config value"@)], Handler::ConfigSet)
    &&& is_leaf(v[2], "list"@, "Print the whole boot config"@, seq!["l"@, "ls"@, "dump"@, "all"@], Seq::<(char, Seq<char>, bool, Seq<char>)>::empty(), Handler::ConfigList)
    &&& is_leaf(v[3], "reset"@, "Reset the boot config to defaults"@, seq!["r"@, "rm"@, "clear"@, "wipe"@], Seq::<(char, Seq<char>, bool, Seq<char>)>::empty(), Handler::ConfigReset)
    &&& is_leaf(v[4], "path"@, "Print the resolved boot config path"@, seq!["p"@, "loc"@, "where"@, "find"@], Seq::<(char, Seq<char>, bool, Seq<char>)>::empty(), Handler::ConfigPath)
}

/// The `config` commands.
fn config_tree_config() -> (v: Vec<Node<Handler>>)
    ensures
        nodes_flags_ok(v@, vocab()),
        config_tree_config_is(v@),
{
    let mut v: Vec<Node<Handler>> = Vec::new();
    let n0 = leaf("get", "Print a boot config key", vec!["g", "gt", "fetch", "read"], flag_list(&[f_key()]), Handler::ConfigGet);
    let ghost g0 = n0;
    proof {
        assert(names_view(n0.aliases@) =~= seq!["g"@, "gt"@, "fetch"@, "read"@]);
        assert(flags_view(n0.flags@) =~= seq![('k', "key"@, true, "Config key"@)]);
        assert(is_leaf(g0, "get"@, "Print a boot config key"@, seq!["g"@, "gt"@, "fetch"@, "read"@], seq![('k', "key"@, true, "Config key"@)], Handler::ConfigGet));
    }
    push_node(&mut v, n0, Ghost(vocab()));
    let n1 = leaf("set", "Set a boot config key", vec!["s", "st", "write", "put"], flag_list(&[f_key(), f_value()]), Handler::ConfigSet);
    let ghost g1 = n1;
    proof {
        assert(names_view(n1.aliases@) =~= seq!["s"@, "st"@, "write"@, "put"@]);
        assert(flags_view(n1.flags@) =~= seq![('k', "key"@, true, "Config key"@), ('v', "value"@, true, "Config value"@)]);
        assert(is_leaf(g1, "set"@, "Set a boot config key"@, seq!["s"@, "st"@, "write"@, "put"@], seq![('k', "key"@, true, "Config key"@), ('v', "value"@, true, "Config value"@)], Handler::ConfigSet));
    }
    push_node(&mut v, n1, Ghost(vocab()));
    let n2 = leaf("list", "Print the whole boot config", vec!["l", "ls", "dump", "all"], Vec::new(), Handler::ConfigList);
    let ghost g2 = n2;
    proof {
        assert(names_view(n2.aliases@) =~= seq!["l"@, "ls"@, "dump"@, "all"@]);
        assert(flags_view(n2.flags@) =~= Seq::<(char, Seq<char>, bool, Seq<char>)>::empty());
        assert(is_leaf(g2, "list"@, "Print the whole boot config"@, seq!["l"@, "ls"@, "dump"@, "all"@], Seq::<(char, Seq<char>, bool, Seq<char>)>::empty(), Handler::ConfigList));
    }
    push_node(&mut v, n2, Ghost(vocab()));
    let n3 = leaf("reset", "Reset the boot config to defaults", vec!["r", "rm", "clear", "wipe"], Vec::new(), Handler::ConfigReset);
    let ghost g3 = n3;
    proof {
        assert(names_view(n3.aliases@) =~= seq!["r"@, "rm"@, "clear"@, "wipe"@]);
        assert(flags_view(n3.flags@) =~= Seq::<(char, Seq<char>, bool, Seq<char>)>::empty());
        assert(is_leaf(g3, "reset"@, "Reset the boot config to defaults"@, seq!["r"@, "rm"@, "clear"@, "wipe"@], Seq::<(char, Seq<char>, bool, Seq<char>)>::empty(), Handler::ConfigReset));
    }
    push_node(&mut v, n3, Ghost(vocab()));
    let n4 = leaf("path", "Print the resolved boot config path", vec!["p", "loc", "where", "find"], Vec::new(), Handler::ConfigPath);
    let ghost g4 = n4;
    proof {
        assert(names_view(n4.aliases@) =~= seq!["p"@, "loc"@, "where"@, "find"@]);
        assert(flags_view(n4.flags@) =~= Seq::<(char, Seq<char>, bool, Seq<char>)>::empty());
        assert(is_leaf(g4, "path"@, "Print the resolved boot config path"@, seq!["p"@, "loc"@, "where"@, "find"@], Seq::<(char, Seq<char>, bool, Seq<char>)>::empty(), Handler::ConfigPath));
    }
    push_node(&mut v, n4, Ghost(vocab()));
    proof {
        assert(v@ =~= seq![g0, g1, g2, g3, g4]);
        reveal(config_tree_config_is);
    }
    v
}

/// What [`default_tree_default`] returns: the `default` commands.
#[verifier::opaque]
pub open spec fn default_tree_default_is(v: Seq<Node<Handler>>) -> bool {
    &&& v.len() == 2
    &&& is_leaf(v[0], "get"@, "Print the default boot entry"@, seq!["g"@, "gt"@, "fetch"@, "read"@], Seq::<(char, Seq<char>, bool, Seq<char>)>::empty(), Handler::DefaultGet)
    &&& is_leaf(v[1], "set"@, "Set the default boot entry"@, seq!["s"@, "st"@, "write"@, "put"@], seq![('n', "name"@, true, "Entry or command name"@)], Handler::DefaultSet)
}

/// The `default` commands.
fn default_tree_default() -> (v: Vec<Node<Handler>>)
    ensures
        nodes_flags_ok(v@, vocab()),
        default_tree_default_is(v@),
{
    let mut v: Vec<Node<Handler>> = Vec::new();
    let n0 = leaf("get", "Print the default boot entry", vec!["g", "gt", "fetch", "read"], Vec::new(), Handler::DefaultGet);
    let ghost g0 = n0;
    proof {
        assert(names_view(n0.aliases@) =~= seq!["g"@, "gt"@, "fetch"@, "read"@]);
        assert(flags_view(n0.flags@) =~= Seq::<(char, Seq<char>, bool, Seq<char>)>::empty());
        assert(is_leaf(g0, "get"@, "Print the default boot entry"@, seq!["g"@, "gt"@, "fetch"@, "read"@], Seq::<(char, Seq<char>, bool, Seq<char>)>::empty(), Handler::DefaultGet));
    }
    push_node(&mut v, n0, Ghost(vocab()));
    let n1 = leaf("set", "Set the default boot entry", vec!["s", "st", "write", "put"], flag_list(&[f_name()]), Handler::DefaultSet);
    let ghost g1 = n1;
    proof {
        assert(names_view(n1.aliases@) =~= seq!["s"@, "st"@, "write"@, "put"@]);
        assert(flags_view(n1.flags@) =~= seq![('n', "name"@, true, "Entry or command name"@)]);
        assert(is_leaf(g1, "set"@, "Set the default boot entry"@, seq!["s"@, "st"@, "write"@, "put"@], seq![('n', "name"@, true, "Entry or command name"@)], Handler::DefaultSet));
    }
    push_node(&mut v, n1, Ghost(vocab()));
    proof {
        assert(v@ =~= seq![g0, g1]);
        reveal(default_tree_default_is);
    }
    v
}

/// What [`entries_tree_entries`] returns: the `entries` commands.
#[verifier::opaque]
pub open spec fn entries_tree_entries_is(v: Seq<Node<Handler>>) -> bool {
    &&& v.len() == 3
    &&& is_leaf(v[0], "list"@, "List discovered boot entries"@, seq!["l"@, "ls"@, "enumerate"@, "show"@], Seq::<(char, Seq<char>, bool, Seq<char>)>::empty(), Handler::EntriesList)
    &&& is_leaf(v[1], "get"@, "Resolve one boot entry by label"@, seq!["g"@, "find"@, "lookup"@, "resolve"@], seq![('n', "name"@, true, "Entry or command name"@)], Handler::EntriesGet)
    &&& is_leaf(v[2], "count"@, "Count discovered boot entries"@, seq!["c"@, "n"@, "tally"@, "total"@], Seq::<(char, Seq<char>, bool, Seq<char>)>::empty(), Handler::EntriesCount)
}

/// The `entries` commands.
fn entries_tree_entries() -> (v: Vec<Node<Handler>>)
    ensures
        nodes_flags_ok(v@, vocab()),
        entries_tree_entries_is(v@),
{
    let mut v: Vec<Node<Handler>> = Vec::new();
    let n0 = leaf("list", "List discovered boot entries", vec!["l", "ls", "enumerate", "show"], Vec::new(), Handler::EntriesList);
    let ghost g0 = n0;
    proof {
        assert(names_view(n0.aliases@) =~= seq!["l"@, "ls"@, "enumerate"@, "show"@]);
        assert(flags_view(n0.flags@) =~= Seq::<(char, Seq<char>, bool, Seq<char>)>::empty());
        assert(is_leaf(g0, "list"@, "List discovered boot entries"@, seq!["l"@, "ls"@, "enumerate"@, "show"@], Seq::<(char, Seq<char>, bool, Seq<char>)>::empty(), Handler::EntriesList));
    }
    push_node(&mut v, n0, Ghost(vocab()));
    let n1 = leaf("get", "Resolve one boot entry by label", vec!["g", "find", "lookup", "resolve"], flag_list(&[f_name()]), Handler::EntriesGet);
    let ghost g1 = n1;
    proof {
        assert(names_view(n1.aliases@) =~= seq!["g"@, "find"@, "lookup"@, "resolve"@]);
        assert(flags_view(n1.flags@) =~= seq![('n', "name"@, true, "Entry or command name"@)]);
        assert(is_leaf(g1, "get"@, "Resolve one boot entry by label"@, seq!["g"@, "find"@, "lookup"@, "resolve"@], seq![('n', "name"@, true, "Entry or command name"@)], Handler::EntriesGet));
    }
    push_node(&mut v, n1, Ghost(vocab()));
    let n2 = leaf("count", "Count discovered boot entries", vec!["c", "n", "tally", "total"], Vec::new(), Handler::EntriesCount);
    let ghost g2 = n2;
    proof {
        assert(names_view(n2.aliases@) =~= seq!["c"@, "n"@, "tally"@, "total"@]);
        assert(flags_view(n2.flags@) =~= Seq::<(char, Seq<char>, bool, Seq<char>)>::empty());
        assert(is_leaf(g2, "count"@, "Count discovered boot entries"@, seq!["c"@, "n"@, "tally"@, "total"@], Seq::<(char, Seq<char>, bool, Seq<char>)>::empty(), Handler::EntriesCount));
    }
    push_node(&mut v, n2, Ghost(vocab()));
    proof {
        assert(v@ =~= seq![g0, g1, g2]);
        reveal(entries_tree_entries_is);
    }
    v
}

/// What [`find_tree_find`] returns: the `find` commands.
#[verifier::opaque]
pub open spec fn find_tree_find_is(v: Seq<Node<Handler>>) -> bool {
    &&& v.len() == 2
    &&& is_leaf(v[0], "esps"@, "Find ESP volumes"@, seq!["e"@, "efi"@, "esp"@, "volumes"@], Seq::<(char, Seq<char>, bool, Seq<char>)>::empty(), Handler::FindEsps)
    &&& is_leaf(v[1], "entries"@, "Find boot entries by label"@, seq!["b"@, "boot"@, "lookup"@, "search"@], seq![('n', "name"@, true, "Entry or command name"@)], Handler::FindEntries)
}

/// The `find` commands.
fn find_tree_find() -> (v: Vec<Node<Handler>>)
    ensures
        nodes_flags_ok(v@, vocab()),
        find_tree_find_is(v@),
{
    let mut v: Vec<Node<Handler>> = Vec::new();
    let n0 = leaf("esps", "Find ESP volumes", vec!["e", "efi", "esp", "volumes"], Vec::new(), Handler::FindEsps);
    let ghost g0 = n0;
    proof {
        assert(names_view(n0.aliases@) =~= seq!["e"@, "efi"@, "esp"@, "volumes"@]);
        assert(flags_view(n0.flags@) =~= Seq::<(char, Seq<char>, bool, Seq<char>)>::empty());
        assert(is_leaf(g0, "esps"@, "Find ESP volumes"@, seq!["e"@, "efi"@, "esp"@, "volumes"@], Seq::<(char, Seq<char>, bool, Seq<char>)>::empty(), Handler::FindEsps));
    }
    push_node(&mut v, n0, Ghost(vocab()));
    let n1 = leaf("entries", "Find boot entries by label", vec!["b", "boot", "lookup", "search"], flag_list(&[f_name()]), Handler::FindEntries);
    let ghost g1 = n1;
    proof {
        assert(names_view(n1.aliases@) =~= seq!["b"@, "boot"@, "lookup"@, "search"@]);
        assert(flags_view(n1.flags@) =~= seq![('n', "name"@, true, "Entry or command name"@)]);
        assert(is_leaf(g1, "entries"@, "Find boot entries by label"@, seq!["b"@, "boot"@, "lookup"@, "search"@], seq![('n', "name"@, true, "Entry or command name"@)], Handler::FindEntries));
    }
    push_node(&mut v, n1, Ghost(vocab()));
    proof {
        assert(v@ =~= seq![g0, g1]);
        reveal(find_tree_find_is);
    }
    v
}

/// What [`geometry_tree_geometry`] returns: the `geometry` commands.
#[verifier::opaque]
pub open spec fn geometry_tree_geometry_is(v: Seq<Node<Handler>>) -> bool {
    &&& v.len() == 2
    &&& is_leaf(v[0], "show"@, "Show framebuffer + BGRT geometry"@, seq!["s"@, "print"@, "dump"@, "info"@], Seq::<(char, Seq<char>, bool, Seq<char>)>::empty(), Handler::GeometryShow)
    &&& is_leaf(v[1], "bgr"@, "Show BGRT logo geometry"@, seq!["b"@, "logo"@, "bgrt"@, "splash"@], Seq::<(char, Seq<char>, bool, Seq<char>)>::empty(), Handler::GeometryBgr)
}

/// The `geometry` commands.
fn geometry_tree_geometry() -> (v: Vec<Node<Handler>>)
    ensures
        nodes_flags_ok(v@, vocab()),
        geometry_tree_geometry_is(v@),
{
    let mut v: Vec<Node<Handler>> = Vec::new();
    let n0 = leaf("show", "Show framebuffer + BGRT geometry", vec!["s", "print", "dump", "info"], Vec::new(), Handler::GeometryShow);
    let ghost g0 = n0;
    proof {
        assert(names_view(n0.aliases@) =~= seq!["s"@, "print"@, "dump"@, "info"@]);
        assert(flags_view(n0.flags@) =~= Seq::<(char, Seq<char>, bool, Seq<char>)>::empty());
        assert(is_leaf(g0, "show"@, "Show framebuffer + BGRT geometry"@, seq!["s"@, "print"@, "dump"@, "info"@], Seq::<(char, Seq<char>, bool, Seq<char>)>::empty(), Handler::GeometryShow));
    }
    push_node(&mut v, n0, Ghost(vocab()));
    let n1 = leaf("bgr", "Show BGRT logo geometry", vec!["b", "logo", "bgrt", "splash"], Vec::new(), Handler::GeometryBgr);
    let ghost g1 = n1;
    proof {
        assert(names_view(n1.aliases@) =~= seq!["b"@, "logo"@, "bgrt"@, "splash"@]);
        assert(flags_view(n1.flags@) =~= Seq::<(char, Seq<char>, bool, Seq<char>)>::empty());
        assert(is_leaf(g1, "bgr"@, "Show BGRT logo geometry"@, seq!["b"@, "logo"@, "bgrt"@, "splash"@], Seq::<(char, Seq<char>, bool, Seq<char>)>::empty(), Handler::GeometryBgr));
    }
    push_node(&mut v, n1, Ghost(vocab()));
    proof {
        assert(v@ =~= seq![g0, g1]);
        reveal(geometry_tree_geometry_is);
    }
    v
}

/// What [`help_tree_help`] returns: the `help` commands.
#[verifier::opaque]
pub open spec fn help_tree_help_is(v: Seq<Node<Handler>>) -> bool {
    &&& v.len() == 3
    &&& is_leaf(v[0], "all"@, "Print the full command reference"@, seq!["a"@, "full"@, "everything"@, "overview"@], Seq::<(char, Seq<char>, bool, Seq<char>)>::empty(), Handler::HelpAll)
    &&& is_leaf(v[1], "tree"@, "Print the command tree"@, seq!["t"@, "graph"@, "structure"@, "outline"@], Seq::<(char, Seq<char>, bool, Seq<char>)>::empty(), Handler::HelpTree)
    &&& is_leaf(v[2], "command"@, "Describe one command"@, seq!["c"@, "cmd"@, "about"@, "explain"@], seq![('n', "name"@, true, "Entry or command name"@)], Handler::HelpCommand)
}

/// The `help` commands.
fn help_tree_help() -> (v: Vec<Node<Handler>>)
    ensures
        nodes_flags_ok(v@, vocab()),
        help_tree_help_is(v@),
{
    let mut v: Vec<Node<Handler>> = Vec::new();
    let n0 = leaf("all", "Print the full command reference", vec!["a", "full", "everything", "overview"], Vec::new(), Handler::HelpAll);
    let ghost g0 = n0;
    proof {
        assert(names_view(n0.aliases@) =~= seq!["a"@, "full"@, "everything"@, "overview"@]);
        assert(flags_view(n0.flags@) =~= Seq::<(char, Seq<char>, bool, Seq<char>)>::empty());
        assert(is_leaf(g0, "all"@, "Print the full command reference"@, seq!["a"@, "full"@, "everything"@, "overview"@], Seq::<(char, Seq<char>, bool, Seq<char>)>::empty(), Handler::HelpAll));
    }
    push_node(&mut v, n0, Ghost(vocab()));
    let n1 = leaf("tree", "Print the command tree", vec!["t", "graph", "structure", "outline"], Vec::new(), Handler::HelpTree);
    let ghost g1 = n1;
    proof {
        assert(names_view(n1.aliases@) =~= seq!["t"@, "graph"@, "structure"@, "outline"@]);
        assert(flags_view(n1.flags@) =~= Seq::<(char, Seq<char>, bool, Seq<char>)>::empty());
        assert(is_leaf(g1, "tree"@, "Print the command tree"@, seq!["t"@, "graph"@, "structure"@, "outline"@], Seq::<(char, Seq<char>, bool, Seq<char>)>::empty(), Handler::HelpTree));
    }
    push_node(&mut v, n1, Ghost(vocab()));
    let n2 = leaf("command", "Describe one command", vec!["c", "cmd", "about", "explain"], flag_list(&[f_name()]), Handler::HelpCommand);
    let ghost g2 = n2;
    proof {
        assert(names_view(n2.aliases@) =~= seq!["c"@, "cmd"@, "about"@, "explain"@]);
        assert(flags_view(n2.flags@) =~= seq![('n', "name"@, true, "Entry or command name"@)]);
        assert(is_leaf(g2, "command"@, "Describe one command"@, seq!["c"@, "cmd"@, "about"@, "explain"@], seq![('n', "name"@, true, "Entry or command name"@)], Handler::HelpCommand));
    }
    push_node(&mut v, n2, Ghost(vocab()));
    proof {
        assert(v@ =~= seq![g0, g1, g2]);
        reveal(help_tree_help_is);
    }
    v
}

/// What [`json_tree_json`] returns: the `json` commands.
#[verifier::opaque]
pub open spec fn json_tree_json_is(v: Seq<Node<Handler>>) -> bool {
    &&& v.len() == 4
    &&& is_leaf(v[0], "config"@, "Boot config as JSON"@, seq!["c"@, "cfg"@, "conf"@, "boot"@], Seq::<(char, Seq<char>, bool, Seq<char>)>::empty(), Handler::JsonConfig)
    &&& is_leaf(v[1], "discover"@, "Discovery as JSON"@, seq!["d"@, "disc"@, "scan"@, "detect"@], seq![('j', "json"@, false, "Emit machine-readable JSON"@)], Handler::JsonDiscover)
    &&& is_leaf(v[2], "info"@, "Geometry as JSON"@, seq!["i"@, "geom"@, "geometry"@, "show"@], Seq::<(char, Seq<char>, bool, Seq<char>)>::empty(), Handler::JsonInfo)
    &&& is_leaf(v[3], "all"@, "Everything as JSON"@, seq!["a"@, "full"@, "everything"@, "complete"@], Seq::<(char, Seq<char>, bool, Seq<char>)>::empty(), Handler::JsonAll)
}

/// The `json` commands.
fn json_tree_json() -> (v: Vec<Node<Handler>>)
    ensures
        nodes_flags_ok(v@, vocab()),
        json_tree_json_is(v@),
{
    let mut v: Vec<Node<Handler>> = Vec::new();
    let n0 = leaf("config", "Boot config as JSON", vec!["c", "cfg", "conf", "boot"], Vec::new(), Handler::JsonConfig);
    let ghost g0 = n0;
    proof {
        assert(names_view(n0.aliases@) =~= seq!["c"@, "cfg"@, "conf"@, "boot"@]);
        assert(flags_view(n0.flags@) =~= Seq::<(char, Seq<char>, bool, Seq<char>)>::empty());
        assert(is_leaf(g0, "config"@, "Boot config as JSON"@, seq!["c"@, "cfg"@, "conf"@, "boot"@], Seq::<(char, Seq<char>, bool, Seq<char>)>::empty(), Handler::JsonConfig));
    }
    push_node(&mut v, n0, Ghost(vocab()));
    let n1 = leaf("discover", "Discovery as JSON", vec!["d", "disc", "scan", "detect"], flag_list(&[f_json()]), Handler::JsonDiscover);
    let ghost g1 = n1;
    proof {
        assert(names_view(n1.aliases@) =~= seq!["d"@, "disc"@, "scan"@, "detect"@]);
        assert(flags_view(n1.flags@) =~= seq![('j', "json"@, false, "Emit machine-readable JSON"@)]);
        assert(is_leaf(g1, "discover"@, "Discovery as JSON"@, seq!["d"@, "disc"@, "scan"@, "detect"@], seq![('j', "json"@, false, "Emit machine-readable JSON"@)], Handler::JsonDiscover));
    }
    push_node(&mut v, n1, Ghost(vocab()));
    let n2 = leaf("info", "Geometry as JSON", vec!["i", "geom", "geometry", "show"], Vec::new(), Handler::JsonInfo);
    let ghost g2 = n2;
    proof {
        assert(names_view(n2.aliases@) =~= seq!["i"@, "geom"@, "geometry"@, "show"@]);
        assert(flags_view(n2.flags@) =~= Seq::<(char, Seq<char>, bool, Seq<char>)>::empty());
        assert(is_leaf(g2, "info"@, "Geometry as JSON"@, seq!["i"@, "geom"@, "geometry"@, "show"@], Seq::<(char, Seq<char>, bool, Seq<char>)>::empty(), Handler::JsonInfo));
    }
    push_node(&mut v, n2, Ghost(vocab()));
    let n3 = leaf("all", "Everything as JSON", vec!["a", "full", "everything", "complete"], Vec::new(), Handler::JsonAll);
    let ghost g3 = n3;
    proof {
        assert(names_view(n3.aliases@) =~= seq!["a"@, "full"@, "everything"@, "complete"@]);
        assert(flags_view(n3.flags@) =~= Seq::<(char, Seq<char>, bool, Seq<char>)>::empty());
        assert(is_leaf(g3, "all"@, "Everything as JSON"@, seq!["a"@, "full"@, "everything"@, "complete"@], Seq::<(char, Seq<char>, bool, Seq<char>)>::empty(), Handler::JsonAll));
    }
    push_node(&mut v, n3, Ghost(vocab()));
    proof {
        assert(v@ =~= seq![g0, g1, g2, g3]);
        reveal(json_tree_json_is);
    }
    v
}

/// What [`keymap_tree_keymap`] returns: the `keymap` commands.
#[verifier::opaque]
pub open spec fn keymap_tree_keymap_is(v: Seq<Node<Handler>>) -> bool {
    &&& v.len() == 1
    &&& is_leaf(v[0], "show"@, "Print the boot-manager keymap"@, seq!["s"@, "print"@, "list"@, "all"@], Seq::<(char, Seq<char>, bool, Seq<char>)>::empty(), Handler::KeymapShow)
}

/// The `keymap` commands.
fn keymap_tree_keymap() -> (v: Vec<Node<Handler>>)
    ensures
        nodes_flags_ok(v@, vocab()),
        keymap_tree_keymap_is(v@),
{
    let mut v: Vec<Node<Handler>> = Vec::new();
    let n0 = leaf("show", "Print the boot-manager keymap", vec!["s", "print", "list", "all"], Vec::new(), Handler::KeymapShow);
    let ghost g0 = n0;
    proof {
        assert(names_view(n0.aliases@) =~= seq!["s"@, "print"@, "list"@, "all"@]);
        assert(flags_view(n0.flags@) =~= Seq::<(char, Seq<char>, bool, Seq<char>)>::empty());
        assert(is_leaf(g0, "show"@, "Print the boot-manager keymap"@, seq!["s"@, "print"@, "list"@, "all"@], Seq::<(char, Seq<char>, bool, Seq<char>)>::empty(), Handler::KeymapShow));
    }
    push_node(&mut v, n0, Ghost(vocab()));
    proof {
        assert(v@ =~= seq![g0]);
        reveal(keymap_tree_keymap_is);
    }
    v
}

/// What [`list_tree_list`] returns: the `list` commands.
#[verifier::opaque]
pub open spec fn list_tree_list_is(v: Seq<Node<Handler>>) -> bool {
    &&& v.len() == 2
    &&& is_leaf(v[0], "entries"@, "List boot entries"@, seq!["e"@, "boot"@, "names"@, "all"@], Seq::<(char, Seq<char>, bool, Seq<char>)>::empty(), Handler::EntriesList)
    &&& is_leaf(v[1], "esps"@, "List ESP volumes"@, seq!["s"@, "efi"@, "volumes"@, "partitions"@], Seq::<(char, Seq<char>, bool, Seq<char>)>::empty(), Handler::FindEsps)
}

/// The `list` commands.
fn list_tree_list() -> (v: Vec<Node<Handler>>)
    ensures
        nodes_flags_ok(v@, vocab()),
        list_tree_list_is(v@),
{
    let mut v: Vec<Node<Handler>> = Vec::new();
    let n0 = leaf("entries", "List boot entries", vec!["e", "boot", "names", "all"], Vec::new(), Handler::EntriesList);
    let ghost g0 = n0;
    proof {
        assert(names_view(n0.aliases@) =~= seq!["e"@, "boot"@, "names"@, "all"@]);
        assert(flags_view(n0.flags@) =~= Seq::<(char, Seq<char>, bool, Seq<char>)>::empty());
        assert(is_leaf(g0, "entries"@, "List boot entries"@, seq!["e"@, "boot"@, "names"@, "all"@], Seq::<(char, Seq<char>, bool, Seq<char>)>::empty(), Handler::EntriesList));
    }
    push_node(&mut v, n0, Ghost(vocab()));
    let n1 = leaf("esps", "List ESP volumes", vec!["s", "efi", "volumes", "partitions"], Vec::new(), Handler::FindEsps);
    let ghost g1 = n1;
    proof {
        assert(names_view(n1.aliases@) =~= seq!["s"@, "efi"@, "volumes"@, "partitions"@]);
        assert(flags_view(n1.flags@) =~= Seq::<(char, Seq<char>, bool, Seq<char>)>::empty());
        assert(is_leaf(g1, "esps"@, "List ESP volumes"@, seq!["s"@, "efi"@, "volumes"@, "partitions"@], Seq::<(char, Seq<char>, bool, Seq<char>)>::empty(), Handler::FindEsps));
    }
    push_node(&mut v, n1, Ghost(vocab()));
    proof {
        assert(v@ =~= seq![g0, g1]);
        reveal(list_tree_list_is);
    }
    v
}

/// What [`names_tree_names`] returns: the `names` commands.
#[verifier::opaque]
pub open spec fn names_tree_names_is(v: Seq<Node<Handler>>) -> bool {
    &&& v.len() == 3
    &&& is_leaf(v[0], "list"@, "List boot entry labels"@, seq!["l"@, "ls"@, "enumerate"@, "show"@], Seq::<(char, Seq<char>, bool, Seq<char>)>::empty(), Handler::NamesList)
    &&& is_leaf(v[1], "get"@, "Resolve a label to its on-ESP path"@, seq!["g"@, "find"@, "lookup"@, "resolve"@], seq![('n', "name"@, true, "Entry or command name"@)], Handler::NamesGet)
    &&& is_leaf(v[2], "count"@, "Count boot entries"@, seq!["c"@, "n"@, "tally"@, "total"@], Seq::<(char, Seq<char>, bool, Seq<char>)>::empty(), Handler::NamesCount)
}

/// The `names` commands.
fn names_tree_names() -> (v: Vec<Node<Handler>>)
    ensures
        nodes_flags_ok(v@, vocab()),
        names_tree_names_is(v@),
{
    let mut v: Vec<Node<Handler>> = Vec::new();
    let n0 = leaf("list", "List boot entry labels", vec!["l", "ls", "enumerate", "show"], Vec::new(), Handler::NamesList);
    let ghost g0 = n0;
    proof {
        assert(names_view(n0.aliases@) =~= seq!["l"@, "ls"@, "enumerate"@, "show"@]);
        assert(flags_view(n0.flags@) =~= Seq::<(char, Seq<char>, bool, Seq<char>)>::empty());
        assert(is_leaf(g0, "list"@, "List boot entry labels"@, seq!["l"@, "ls"@, "enumerate"@, "show"@], Seq::<(char, Seq<char>, bool, Seq<char>)>::empty(), Handler::NamesList));
    }
    push_node(&mut v, n0, Ghost(vocab()));
    let n1 = leaf("get", "Resolve a label to its on-ESP path", vec!["g", "find", "lookup", "resolve"], flag_list(&[f_name()]), Handler::NamesGet);
    let ghost g1 = n1;
    proof {
        assert(names_view(n1.aliases@) =~= seq!["g"@, "find"@, "lookup"@, "resolve"@]);
        assert(flags_view(n1.flags@) =~= seq![('n', "name"@, true, "Entry or command name"@)]);
        assert(is_leaf(g1, "get"@, "Resolve a label to its on-ESP path"@, seq!["g"@, "find"@, "lookup"@, "resolve"@], seq![('n', "name"@, true, "Entry or command name"@)], Handler::NamesGet));
    }
    push_node(&mut v, n1, Ghost(vocab()));
    let n2 = leaf("count", "Count boot entries", vec!["c", "n", "tally", "total"], Vec::new(), Handler::NamesCount);
    let ghost g2 = n2;
    proof {
        assert(names_view(n2.aliases@) =~= seq!["c"@, "n"@, "tally"@, "total"@]);
        assert(flags_view(n2.flags@) =~= Seq::<(char, Seq<char>, bool, Seq<char>)>::empty());
        assert(is_leaf(g2, "count"@, "Count boot entries"@, seq!["c"@, "n"@, "tally"@, "total"@], Seq::<(char, Seq<char>, bool, Seq<char>)>::empty(), Handler::NamesCount));
    }
    push_node(&mut v, n2, Ghost(vocab()));
    proof {
        assert(v@ =~= seq![g0, g1, g2]);
        reveal(names_tree_names_is);
    }
    v
}

/// What [`once_tree_once`] returns: the `once` commands.
#[verifier::opaque]
pub open spec fn once_tree_once_is(v: Seq<Node<Handler>>) -> bool {
    &&& v.len() == 1
    &&& is_leaf(v[0], "boot"@, "Boot one entry a single time"@, seq!["b"@, "run"@, "start"@, "single"@], seq![('n', "name"@, true, "Entry or command name"@)], Handler::BootOnce)
}

/// The `once` commands.
fn once_tree_once() -> (v: Vec<Node<Handler>>)
    ensures
        nodes_flags_ok(v@, vocab()),
        once_tree_once_is(v@),
{
    let mut v: Vec<Node<Handler>> = Vec::new();
    let n0 = leaf("boot", "Boot one entry a single time", vec!["b", "run", "start", "single"], flag_list(&[f_name()]), Handler::BootOnce);
    let ghost g0 = n0;
    proof {
        assert(names_view(n0.aliases@) =~= seq!["b"@, "run"@, "start"@, "single"@]);
        assert(flags_view(n0.flags@) =~= seq![('n', "name"@, true, "Entry or command name"@)]);
        assert(is_leaf(g0, "boot"@, "Boot one entry a single time"@, seq!["b"@, "run"@, "start"@, "single"@], seq![('n', "name"@, true, "Entry or command name"@)], Handler::BootOnce));
    }
    push_node(&mut v, n0, Ghost(vocab()));
    proof {
        assert(v@ =~= seq![g0]);
        reveal(once_tree_once_is);
    }
    v
}

/// What [`profile_tree_profile`] returns: the `profile` commands.
#[verifier::opaque]
pub open spec fn profile_tree_profile_is(v: Seq<Node<Handler>>) -> bool {
    &&& v.len() == 4
    &&& is_leaf(v[0], "save"@, "Save the current config as a profile"@, seq!["s"@, "store"@, "keep"@, "write"@], seq![('P', "profile"@, true, "Config profile name"@)], Handler::ProfileSave)
    &&& is_leaf(v[1], "list"@, "List saved config profiles"@, seq!["l"@, "ls"@, "enumerate"@, "show"@], Seq::<(char, Seq<char>, bool, Seq<char>)>::empty(), Handler::ProfileList)
    &&& is_leaf(v[2], "load"@, "Restore a config from a profile"@, seq!["g"@, "restore"@, "use"@, "apply"@], seq![('P', "profile"@, true, "Config profile name"@)], Handler::ProfileLoad)
    &&& is_leaf(v[3], "delete"@, "Delete a saved config profile"@, seq!["d"@, "rm"@, "remove"@, "drop"@], seq![('P', "profile"@, true, "Config profile name"@)], Handler::ProfileDelete)
}

/// The `profile` commands.
fn profile_tree_profile() -> (v: Vec<Node<Handler>>)
    ensures
        nodes_flags_ok(v@, vocab()),
        profile_tree_profile_is(v@),
{
    let mut v: Vec<Node<Handler>> = Vec::new();
    let n0 = leaf("save", "Save the current config as a profile", vec!["s", "store", "keep", "write"], flag_list(&[f_profile()]), Handler::ProfileSave);
    let ghost g0 = n0;
    proof {
        assert(names_view(n0.aliases@) =~= seq!["s"@, "store"@, "keep"@, "write"@]);
        assert(flags_view(n0.flags@) =~= seq![('P', "profile"@, true, "Config profile name"@)]);
        assert(is_leaf(g0, "save"@, "Save the current config as a profile"@, seq!["s"@, "store"@, "keep"@, "write"@], seq![('P', "profile"@, true, "Config profile name"@)], Handler::ProfileSave));
    }
    push_node(&mut v, n0, Ghost(vocab()));
    let n1 = leaf("list", "List saved config profiles", vec!["l", "ls", "enumerate", "show"], Vec::new(), Handler::ProfileList);
    let ghost g1 = n1;
    proof {
        assert(names_view(n1.aliases@) =~= seq!["l"@, "ls"@, "enumerate"@, "show"@]);
        assert(flags_view(n1.flags@) =~= Seq::<(char, Seq<char>, bool, Seq<char>)>::empty());
        assert(is_leaf(g1, "list"@, "List saved config profiles"@, seq!["l"@, "ls"@, "enumerate"@, "show"@], Seq::<(char, Seq<char>, bool, Seq<char>)>::empty(), Handler::ProfileList));
    }
    push_node(&mut v, n1, Ghost(vocab()));
    let n2 = leaf("load", "Restore a config from a profile", vec!["g", "restore", "use", "apply"], flag_list(&[f_profile()]), Handler::ProfileLoad);
    let ghost g2 = n2;
    proof {
        assert(names_view(n2.aliases@) =~= seq!["g"@, "restore"@, "use"@, "apply"@]);
        assert(flags_view(n2.flags@) =~= seq![('P', "profile"@, true, "Config profile name"@)]);
        assert(is_leaf(g2, "load"@, "Restore a config from a profile"@, seq!["g"@, "restore"@, "use"@, "apply"@], seq![('P', "profile"@, true, "Config profile name"@)], Handler::ProfileLoad));
    }
    push_node(&mut v, n2, Ghost(vocab()));
    let n3 = leaf("delete", "Delete a saved config profile", vec!["d", "rm", "remove", "drop"], flag_list(&[f_profile()]), Handler::ProfileDelete);
    let ghost g3 = n3;
    proof {
        assert(names_view(n3.aliases@) =~= seq!["d"@, "rm"@, "remove"@, "drop"@]);
        assert(flags_view(n3.flags@) =~= seq![('P', "profile"@, true, "Config profile name"@)]);
        assert(is_leaf(g3, "delete"@, "Delete a saved config profile"@, seq!["d"@, "rm"@, "remove"@, "drop"@], seq![('P', "profile"@, true, "Config profile name"@)], Handler::ProfileDelete));
    }
    push_node(&mut v, n3, Ghost(vocab()));
    proof {
        assert(v@ =~= seq![g0, g1, g2, g3]);
        reveal(profile_tree_profile_is);
    }
    v
}

/// What [`query_tree_query`] returns: the `query` commands.
#[verifier::opaque]
pub open spec fn query_tree_query_is(v: Seq<Node<Handler>>) -> bool {
    &&& v.len() == 2
    &&& is_leaf(v[0], "info"@, "Query framebuffer geometry"@, seq!["i"@, "geom"@, "geometry"@, "fb"@], Seq::<(char, Seq<char>, bool, Seq<char>)>::empty(), Handler::QueryInfo)
    &&& is_leaf(v[1], "esps"@, "Query ESP volumes"@, seq!["e"@, "discover"@, "scan"@, "volumes"@], Seq::<(char, Seq<char>, bool, Seq<char>)>::empty(), Handler::QueryEsps)
}

/// The `query` commands.
fn query_tree_query() -> (v: Vec<Node<Handler>>)
    ensures
        nodes_flags_ok(v@, vocab()),
        query_tree_query_is(v@),
{
    let mut v: Vec<Node<Handler>> = Vec::new();
    let n0 = leaf("info", "Query framebuffer geometry", vec!["i", "geom", "geometry", "fb"], Vec::new(), Handler::QueryInfo);
    let ghost g0 = n0;
    proof {
        assert(names_view(n0.aliases@) =~= seq!["i"@, "geom"@, "geometry"@, "fb"@]);
        assert(flags_view(n0.flags@) =~= Seq::<(char, Seq<char>, bool, Seq<char>)>::empty());
        assert(is_leaf(g0, "info"@, "Query framebuffer geometry"@, seq!["i"@, "geom"@, "geometry"@, "fb"@], Seq::<(char, Seq<char>, bool, Seq<char>)>::empty(), Handler::QueryInfo));
    }
    push_node(&mut v, n0, Ghost(vocab()));
    let n1 = leaf("esps", "Query ESP volumes", vec!["e", "discover", "scan", "volumes"], Vec::new(), Handler::QueryEsps);
    let ghost g1 = n1;
    proof {
        assert(names_view(n1.aliases@) =~= seq!["e"@, "discover"@, "scan"@, "volumes"@]);
        assert(flags_view(n1.flags@) =~= Seq::<(char, Seq<char>, bool, Seq<char>)>::empty());
        assert(is_leaf(g1, "esps"@, "Query ESP volumes"@, seq!["e"@, "discover"@, "scan"@, "volumes"@], Seq::<(char, Seq<char>, bool, Seq<char>)>::empty(), Handler::QueryEsps));
    }
    push_node(&mut v, n1, Ghost(vocab()));
    proof {
        assert(v@ =~= seq![g0, g1]);
        reveal(query_tree_query_is);
    }
    v
}

/// What [`group_a_2`] returns: the commands under `a`.
#[verifier::opaque]
pub open spec fn group_a_2_is(v: Seq<Node<Handler>>) -> bool {
    &&& v.len() == 1
    &&& is_leaf(v[0], "list"@, "List every command alias"@, seq!["l"@, "ls"@, "all"@, "dump"@], Seq::<(char, Seq<char>, bool, Seq<char>)>::empty(), Handler::AliasList)
}

/// The commands under `a`.
fn group_a_2() -> (v: Vec<Node<Handler>>)
    ensures
        nodes_flags_ok(v@, vocab()),
        group_a_2_is(v@),
{
    let mut v: Vec<Node<Handler>> = Vec::new();
    let n0 = leaf("list", "List every command alias", vec!["l", "ls", "all", "dump"], Vec::new(), Handler::AliasList);
    let ghost g0 = n0;
    proof {
        assert(names_view(n0.aliases@) =~= seq!["l"@, "ls"@, "all"@, "dump"@]);
        assert(flags_view(n0.flags@) =~= Seq::<(char, Seq<char>, bool, Seq<char>)>::empty());
        assert(is_leaf(g0, "list"@, "List every command alias"@, seq!["l"@, "ls"@, "all"@, "dump"@], Seq::<(char, Seq<char>, bool, Seq<char>)>::empty(), Handler::AliasList));
    }
    push_node(&mut v, n0, Ghost(vocab()));
    proof {
        assert(v@ =~= seq![g0]);
        reveal(group_a_2_is);
    }
    v
}

/// What [`group_a_3`] returns: the commands under `A`.
#[verifier::opaque]
pub open spec fn group_a_3_is(v: Seq<Node<Handler>>) -> bool {
    &&& v.len() == 1
    &&& is_leaf(v[0], "list"@, "List every alias"@, seq!["l"@, "ls"@, "all"@, "dump"@], Seq::<(char, Seq<char>, bool, Seq<char>)>::empty(), Handler::AliasList)
}

/// The commands under `A`.
fn group_a_3() -> (v: Vec<Node<Handler>>)
    ensures
        nodes_flags_ok(v@, vocab()),
        group_a_3_is(v@),
{
    let mut v: Vec<Node<Handler>> = Vec::new();
    let n0 = leaf("list", "List every alias", vec!["l", "ls", "all", "dump"], Vec::new(), Handler::AliasList);
    let ghost g0 = n0;
    proof {
        assert(names_view(n0.aliases@) =~= seq!["l"@, "ls"@, "all"@, "dump"@]);
        assert(flags_view(n0.flags@) =~= Seq::<(char, Seq<char>, bool, Seq<char>)>::empty());
        assert(is_leaf(g0, "list"@, "List every alias"@, seq!["l"@, "ls"@, "all"@, "dump"@], Seq::<(char, Seq<char>, bool, Seq<char>)>::empty(), Handler::AliasList));
    }
    push_node(&mut v, n0, Ghost(vocab()));
    proof {
        assert(v@ =~= seq![g0]);
        reveal(group_a_3_is);
    }
    v
}

/// What [`group_lbc_1`] returns: the commands under `lbc`.
#[verifier::opaque]
pub open spec fn group_lbc_1_is(v: Seq<Node<Handler>>) -> bool {
    &&& v.len() == 48
    &&& is_ns(v[0], "a"@, "Alias reports"@, seq!["alias"@, "aliases"@, "abbr"@, "all"@]) && group_a_2_is(children_of(v[0]))
    &&& is_ns(v[1], "b"@, "Boot control"@, seq!["boot"@, "bctl"@, "bootctl"@]) && boot_tree_boot_is(children_of(v[1]))
    &&& is_ns(v[2], "c"@, "Boot config control"@, seq!["config"@, "cfg"@, "conf"@, "bootcfg"@]) && config_tree_config_is(children_of(v[2]))
    &&& is_ns(v[3], "d"@, "Default boot entry"@, seq!["default"@, "def"@, "preferred"@]) && default_tree_default_is(children_of(v[3]))
    &&& is_ns(v[4], "e"@, "Boot entries"@, seq!["entries"@, "entry"@, "list"@, "boots"@]) && entries_tree_entries_is(children_of(v[4]))
    &&& is_ns(v[5], "f"@, "Find ESPs and entries"@, seq!["find"@, "locate"@, "search"@, "detect"@]) && find_tree_find_is(children_of(v[5]))
    &&& is_ns(v[6], "g"@, "Framebuffer geometry"@, seq!["geometry"@, "geom"@, "geo"@, "fb"@]) && geometry_tree_geometry_is(children_of(v[6]))
    &&& is_ns(v[7], "h"@, "Help"@, seq!["help"@, "?"@, "man"@, "usage"@]) && help_tree_help_is(children_of(v[7]))
    &&& is_leaf(v[8], "i"@, "Report the boot volume layout"@, seq!["info"@, "inspect"@, "layout"@, "show"@], Seq::<(char, Seq<char>, bool, Seq<char>)>::empty(), Handler::Info)
    &&& is_ns(v[9], "j"@, "JSON output helpers"@, seq!["json"@, "jq"@, "machine"@]) && json_tree_json_is(children_of(v[9]))
    &&& is_ns(v[10], "k"@, "Boot-manager keymap"@, seq!["keymap"@, "keys"@, "kb"@, "shortcuts"@]) && keymap_tree_keymap_is(children_of(v[10]))
    &&& is_ns(v[11], "l"@, "List helpers"@, seq!["list"@, "ls"@, "enumerate"@]) && list_tree_list_is(children_of(v[11]))
    &&& is_ns(v[12], "n"@, "Boot entry names"@, seq!["names"@, "labels"@, "titles"@]) && names_tree_names_is(children_of(v[12]))
    &&& is_ns(v[13], "o"@, "One-shot boot"@, seq!["once"@, "one"@, "single"@]) && once_tree_once_is(children_of(v[13]))
    &&& is_ns(v[14], "p"@, "Boot config profiles"@, seq!["profile"@, "prof"@, "cfgprof"@]) && profile_tree_profile_is(children_of(v[14]))
    &&& is_ns(v[15], "q"@, "Queries"@, seq!["query"@, "qry"@, "ask"@, "inspect"@]) && query_tree_query_is(children_of(v[15]))
    &&& is_leaf(v[16], "r"@, "Reset the boot config to defaults"@, seq!["reset"@, "wipe"@, "clear"@, "revert"@], Seq::<(char, Seq<char>, bool, Seq<char>)>::empty(), Handler::ConfigReset)
    &&& is_leaf(v[17], "s"@, "Stage the ESP tree"@, seq!["stage"@, "stg"@, "deploy"@, "prep"@], seq![('d', "dest"@, true, "Destination directory"@), ('a', "arch"@, true, "Architecture: amd64 | arm64"@)], Handler::Stage)
    &&& is_leaf(v[18], "u"@, "Upload the boot config to an ESP"@, seq!["upload"@, "sync"@, "push"@, "up"@], seq![('U', "vol"@, true, "ESP volume path"@)], Handler::EspSync)
    &&& is_leaf(v[19], "v"@, "Version"@, seq!["version"@, "ver"@, "rel"@, "ver2"@], Seq::<(char, Seq<char>, bool, Seq<char>)>::empty(), Handler::Version)
    &&& is_leaf(v[20], "w"@, "Write a boot config key"@, seq!["write"@, "put"@, "set"@, "edit"@], seq![('k', "key"@, true, "Config key"@), ('v', "value"@, true, "Config value"@)], Handler::ConfigSet)
    &&& is_leaf(v[21], "x"@, "Export the config as a profile"@, seq!["export"@, "xport"@, "save"@, "snapshot"@], seq![('P', "profile"@, true, "Config profile name"@)], Handler::ProfileSave)
    &&& is_leaf(v[22], "y"@, "Boot configuration status"@, seq!["status"@, "why"@, "state"@, "report"@], Seq::<(char, Seq<char>, bool, Seq<char>)>::empty(), Handler::Status)
    &&& is_leaf(v[23], "z"@, "Zap the boot config (reset)"@, seq!["zap"@, "nuke"@, "erase"@, "scrub"@], Seq::<(char, Seq<char>, bool, Seq<char>)>::empty(), Handler::ConfigReset)
    &&& is_ns(v[24], "A"@, "Alias report (uppercase)"@, seq!["Aliases"@, "AL"@, "Abbr"@]) && group_a_3_is(children_of(v[24]))
    &&& is_ns(v[25], "B"@, "Boot control (uppercase)"@, seq!["Boot2"@, "bc"@]) && boot_tree_boot_is(children_of(v[25]))
    &&& is_ns(v[26], "C"@, "Boot config (uppercase)"@, seq!["Config"@, "cfg2"@, "conf2"@]) && config_tree_config_is(children_of(v[26]))
    &&& is_ns(v[27], "D"@, "Default entry (uppercase)"@, seq!["Default"@, "def2"@]) && default_tree_default_is(children_of(v[27]))
    &&& is_ns(v[28], "E"@, "Entries (uppercase)"@, seq!["Entries"@, "entry2"@]) && entries_tree_entries_is(children_of(v[28]))
    &&& is_ns(v[29], "F"@, "Find (uppercase)"@, seq!["Find2"@, "locate2"@]) && find_tree_find_is(children_of(v[29]))
    &&& is_ns(v[30], "G"@, "Geometry (uppercase)"@, seq!["Geom"@, "geo2"@]) && geometry_tree_geometry_is(children_of(v[30]))
    &&& is_ns(v[31], "H"@, "Help (uppercase)"@, seq!["Help2"@, "man2"@]) && help_tree_help_is(children_of(v[31]))
    &&& is_leaf(v[32], "I"@, "Boot layout info (uppercase)"@, seq!["Info2"@, "layout2"@], Seq::<(char, Seq<char>, bool, Seq<char>)>::empty(), Handler::Info)
    &&& is_ns(v[33], "J"@, "JSON (uppercase)"@, seq!["Json2"@, "jq2"@]) && json_tree_json_is(children_of(v[33]))
    &&& is_ns(v[34], "K"@, "Keymap (uppercase)"@, seq!["Keys2"@, "kb2"@]) && keymap_tree_keymap_is(children_of(v[34]))
    &&& is_ns(v[35], "L"@, "List (uppercase)"@, seq!["List2"@, "ls2"@]) && list_tree_list_is(children_of(v[35]))
    &&& is_ns(v[36], "N"@, "Names (uppercase)"@, seq!["Names2"@, "labels2"@]) && names_tree_names_is(children_of(v[36]))
    &&& is_ns(v[37], "O"@, "One-shot boot (uppercase)"@, seq!["Once2"@, "single2"@]) && once_tree_once_is(children_of(v[37]))
    &&& is_ns(v[38], "P"@, "Profiles (uppercase)"@, seq!["Profile"@, "prof2"@]) && profile_tree_profile_is(children_of(v[38]))
    &&& is_ns(v[39], "Q"@, "Queries (uppercase)"@, seq!["Query"@, "qry2"@]) && query_tree_query_is(children_of(v[39]))
    &&& is_leaf(v[40], "R"@, "Reset (uppercase)"@, seq!["Reset2"@, "wipe2"@], Seq::<(char, Seq<char>, bool, Seq<char>)>::empty(), Handler::ConfigReset)
    &&& is_leaf(v[41], "S"@, "Stage (uppercase)"@, seq!["Stage2"@, "stg2"@], seq![('d', "dest"@, true, "Destination directory"@), ('a', "arch"@, true, "Architecture: amd64 | arm64"@)], Handler::Stage)
    &&& is_leaf(v[42], "U"@, "Upload (uppercase)"@, seq!["Upload2"@, "sync2"@], seq![('U', "vol"@, true, "ESP volume path"@)], Handler::EspSync)
    &&& is_leaf(v[43], "V"@, "Version (uppercase)"@, seq!["Ver2"@, "v2"@], Seq::<(char, Seq<char>, bool, Seq<char>)>::empty(), Handler::Version)
    &&& is_leaf(v[44], "W"@, "Write (uppercase)"@, seq!["Write2"@, "put2"@], seq![('k', "key"@, true, "Config key"@), ('v', "value"@, true, "Config value"@)], Handler::ConfigSet)
    &&& is_leaf(v[45], "X"@, "Export profile (uppercase)"@, seq!["Export2"@, "xport2"@], seq![('P', "profile"@, true, "Config profile name"@)], Handler::ProfileSave)
    &&& is_leaf(v[46], "Y"@, "Status (uppercase)"@, seq!["Status2"@, "state2"@], Seq::<(char, Seq<char>, bool, Seq<char>)>::empty(), Handler::Status)
    &&& is_leaf(v[47], "Z"@, "Zap (uppercase)"@, seq!["Zap2"@, "nuke2"@], Seq::<(char, Seq<char>, bool, Seq<char>)>::empty(), Handler::ConfigReset)
}

/// The commands under `lbc`.
fn group_lbc_1() -> (v: Vec<Node<Handler>>)
    ensures
        nodes_flags_ok(v@, vocab()),
        group_lbc_1_is(v@),
{
    let mut v: Vec<Node<Handler>> = Vec::new();
    let n0 = namespace("a", "Alias reports", vec!["alias", "aliases", "abbr", "all"], Vec::new(), group_a_2());
    let ghost g0 = n0;
    proof {
        assert(names_view(n0.aliases@) =~= seq!["alias"@, "aliases"@, "abbr"@, "all"@]);
        assert(is_ns(g0, "a"@, "Alias reports"@, seq!["alias"@, "aliases"@, "abbr"@, "all"@]) && group_a_2_is(children_of(g0)));
    }
    push_node(&mut v, n0, Ghost(vocab()));
    let n1 = namespace("b", "Boot control", vec!["boot", "bctl", "bootctl"], Vec::new(), boot_tree_boot());
    let ghost g1 = n1;
    proof {
        assert(names_view(n1.aliases@) =~= seq!["boot"@, "bctl"@, "bootctl"@]);
        assert(is_ns(g1, "b"@, "Boot control"@, seq!["boot"@, "bctl"@, "bootctl"@]) && boot_tree_boot_is(children_of(g1)));
    }
    push_node(&mut v, n1, Ghost(vocab()));
    let n2 = namespace("c", "Boot config control", vec!["config", "cfg", "conf", "bootcfg"], Vec::new(), config_tree_config());
    let ghost g2 = n2;
    proof {
        assert(names_view(n2.aliases@) =~= seq!["config"@, "cfg"@, "conf"@, "bootcfg"@]);
        assert(is_ns(g2, "c"@, "Boot config control"@, seq!["config"@, "cfg"@, "conf"@, "bootcfg"@]) && config_tree_config_is(children_of(g2)));
    }
    push_node(&mut v, n2, Ghost(vocab()));
    let n3 = namespace("d", "Default boot entry", vec!["default", "def", "preferred"], Vec::new(), default_tree_default());
    let ghost g3 = n3;
    proof {
        assert(names_view(n3.aliases@) =~= seq!["default"@, "def"@, "preferred"@]);
        assert(is_ns(g3, "d"@, "Default boot entry"@, seq!["default"@, "def"@, "preferred"@]) && default_tree_default_is(children_of(g3)));
    }
    push_node(&mut v, n3, Ghost(vocab()));
    let n4 = namespace("e", "Boot entries", vec!["entries", "entry", "list", "boots"], Vec::new(), entries_tree_entries());
    let ghost g4 = n4;
    proof {
        assert(names_view(n4.aliases@) =~= seq!["entries"@, "entry"@, "list"@, "boots"@]);
        assert(is_ns(g4, "e"@, "Boot entries"@, seq!["entries"@, "entry"@, "list"@, "boots"@]) && entries_tree_entries_is(children_of(g4)));
    }
    push_node(&mut v, n4, Ghost(vocab()));
    let n5 = namespace("f", "Find ESPs and entries", vec!["find", "locate", "search", "detect"], Vec::new(), find_tree_find());
    let ghost g5 = n5;
    proof {
        assert(names_view(n5.aliases@) =~= seq!["find"@, "locate"@, "search"@, "detect"@]);
        assert(is_ns(g5, "f"@, "Find ESPs and entries"@, seq!["find"@, "locate"@, "search"@, "detect"@]) && find_tree_find_is(children_of(g5)));
    }
    push_node(&mut v, n5, Ghost(vocab()));
    let n6 = namespace("g", "Framebuffer geometry", vec!["geometry", "geom", "geo", "fb"], Vec::new(), geometry_tree_geometry());
    let ghost g6 = n6;
    proof {
        assert(names_view(n6.aliases@) =~= seq!["geometry"@, "geom"@, "geo"@, "fb"@]);
        assert(is_ns(g6, "g"@, "Framebuffer geometry"@, seq!["geometry"@, "geom"@, "geo"@, "fb"@]) && geometry_tree_geometry_is(children_of(g6)));
    }
    push_node(&mut v, n6, Ghost(vocab()));
    let n7 = namespace("h", "Help", vec!["help", "?", "man", "usage"], Vec::new(), help_tree_help());
    let ghost g7 = n7;
    proof {
        assert(names_view(n7.aliases@) =~= seq!["help"@, "?"@, "man"@, "usage"@]);
        assert(is_ns(g7, "h"@, "Help"@, seq!["help"@, "?"@, "man"@, "usage"@]) && help_tree_help_is(children_of(g7)));
    }
    push_node(&mut v, n7, Ghost(vocab()));
    let n8 = leaf("i", "Report the boot volume layout", vec!["info", "inspect", "layout", "show"], Vec::new(), Handler::Info);
    let ghost g8 = n8;
    proof {
        assert(names_view(n8.aliases@) =~= seq!["info"@, "inspect"@, "layout"@, "show"@]);
        assert(flags_view(n8.flags@) =~= Seq::<(char, Seq<char>, bool, Seq<char>)>::empty());
        assert(is_leaf(g8, "i"@, "Report the boot volume layout"@, seq!["info"@, "inspect"@, "layout"@, "show"@], Seq::<(char, Seq<char>, bool, Seq<char>)>::empty(), Handler::Info));
    }
    push_node(&mut v, n8, Ghost(vocab()));
    let n9 = namespace("j", "JSON output helpers", vec!["json", "jq", "machine"], Vec::new(), json_tree_json());
    let ghost g9 = n9;
    proof {
        assert(names_view(n9.aliases@) =~= seq!["json"@, "jq"@, "machine"@]);
        assert(is_ns(g9, "j"@, "JSON output helpers"@, seq!["json"@, "jq"@, "machine"@]) && json_tree_json_is(children_of(g9)));
    }
    push_node(&mut v, n9, Ghost(vocab()));
    let n10 = namespace("k", "Boot-manager keymap", vec!["keymap", "keys", "kb", "shortcuts"], Vec::new(), keymap_tree_keymap());
    let ghost g10 = n10;
    proof {
        assert(names_view(n10.aliases@) =~= seq!["keymap"@, "keys"@, "kb"@, "shortcuts"@]);
        assert(is_ns(g10, "k"@, "Boot-manager keymap"@, seq!["keymap"@, "keys"@, "kb"@, "shortcuts"@]) && keymap_tree_keymap_is(children_of(g10)));
    }
    push_node(&mut v, n10, Ghost(vocab()));
    let n11 = namespace("l", "List helpers", vec!["list", "ls", "enumerate"], Vec::new(), list_tree_list());
    let ghost g11 = n11;
    proof {
        assert(names_view(n11.aliases@) =~= seq!["list"@, "ls"@, "enumerate"@]);
        assert(is_ns(g11, "l"@, "List helpers"@, seq!["list"@, "ls"@, "enumerate"@]) && list_tree_list_is(children_of(g11)));
    }
    push_node(&mut v, n11, Ghost(vocab()));
    let n12 = namespace("n", "Boot entry names", vec!["names", "labels", "titles"], Vec::new(), names_tree_names());
    let ghost g12 = n12;
    proof {
        assert(names_view(n12.aliases@) =~= seq!["names"@, "labels"@, "titles"@]);
        assert(is_ns(g12, "n"@, "Boot entry names"@, seq!["names"@, "labels"@, "titles"@]) && names_tree_names_is(children_of(g12)));
    }
    push_node(&mut v, n12, Ghost(vocab()));
    let n13 = namespace("o", "One-shot boot", vec!["once", "one", "single"], Vec::new(), once_tree_once());
    let ghost g13 = n13;
    proof {
        assert(names_view(n13.aliases@) =~= seq!["once"@, "one"@, "single"@]);
        assert(is_ns(g13, "o"@, "One-shot boot"@, seq!["once"@, "one"@, "single"@]) && once_tree_once_is(children_of(g13)));
    }
    push_node(&mut v, n13, Ghost(vocab()));
    let n14 = namespace("p", "Boot config profiles", vec!["profile", "prof", "cfgprof"], Vec::new(), profile_tree_profile());
    let ghost g14 = n14;
    proof {
        assert(names_view(n14.aliases@) =~= seq!["profile"@, "prof"@, "cfgprof"@]);
        assert(is_ns(g14, "p"@, "Boot config profiles"@, seq!["profile"@, "prof"@, "cfgprof"@]) && profile_tree_profile_is(children_of(g14)));
    }
    push_node(&mut v, n14, Ghost(vocab()));
    let n15 = namespace("q", "Queries", vec!["query", "qry", "ask", "inspect"], Vec::new(), query_tree_query());
    let ghost g15 = n15;
    proof {
        assert(names_view(n15.aliases@) =~= seq!["query"@, "qry"@, "ask"@, "inspect"@]);
        assert(is_ns(g15, "q"@, "Queries"@, seq!["query"@, "qry"@, "ask"@, "inspect"@]) && query_tree_query_is(children_of(g15)));
    }
    push_node(&mut v, n15, Ghost(vocab()));
    let n16 = leaf("r", "Reset the boot config to defaults", vec!["reset", "wipe", "clear", "revert"], Vec::new(), Handler::ConfigReset);
    let ghost g16 = n16;
    proof {
        assert(names_view(n16.aliases@) =~= seq!["reset"@, "wipe"@, "clear"@, "revert"@]);
        assert(flags_view(n16.flags@) =~= Seq::<(char, Seq<char>, bool, Seq<char>)>::empty());
        assert(is_leaf(g16, "r"@, "Reset the boot config to defaults"@, seq!["reset"@, "wipe"@, "clear"@, "revert"@], Seq::<(char, Seq<char>, bool, Seq<char>)>::empty(), Handler::ConfigReset));
    }
    push_node(&mut v, n16, Ghost(vocab()));
    let n17 = leaf("s", "Stage the ESP tree", vec!["stage", "stg", "deploy", "prep"], flag_list(&[f_dest(), f_arch()]), Handler::Stage);
    let ghost g17 = n17;
    proof {
        assert(names_view(n17.aliases@) =~= seq!["stage"@, "stg"@, "deploy"@, "prep"@]);
        assert(flags_view(n17.flags@) =~= seq![('d', "dest"@, true, "Destination directory"@), ('a', "arch"@, true, "Architecture: amd64 | arm64"@)]);
        assert(is_leaf(g17, "s"@, "Stage the ESP tree"@, seq!["stage"@, "stg"@, "deploy"@, "prep"@], seq![('d', "dest"@, true, "Destination directory"@), ('a', "arch"@, true, "Architecture: amd64 | arm64"@)], Handler::Stage));
    }
    push_node(&mut v, n17, Ghost(vocab()));
    let n18 = leaf("u", "Upload the boot config to an ESP", vec!["upload", "sync", "push", "up"], flag_list(&[f_vol()]), Handler::EspSync);
    let ghost g18 = n18;
    proof {
        assert(names_view(n18.aliases@) =~= seq!["upload"@, "sync"@, "push"@, "up"@]);
        assert(flags_view(n18.flags@) =~= seq![('U', "vol"@, true, "ESP volume path"@)]);
        assert(is_leaf(g18, "u"@, "Upload the boot config to an ESP"@, seq!["upload"@, "sync"@, "push"@, "up"@], seq![('U', "vol"@, true, "ESP volume path"@)], Handler::EspSync));
    }
    push_node(&mut v, n18, Ghost(vocab()));
    let n19 = leaf("v", "Version", vec!["version", "ver", "rel", "ver2"], Vec::new(), Handler::Version);
    let ghost g19 = n19;
    proof {
        assert(names_view(n19.aliases@) =~= seq!["version"@, "ver"@, "rel"@, "ver2"@]);
        assert(flags_view(n19.flags@) =~= Seq::<(char, Seq<char>, bool, Seq<char>)>::empty());
        assert(is_leaf(g19, "v"@, "Version"@, seq!["version"@, "ver"@, "rel"@, "ver2"@], Seq::<(char, Seq<char>, bool, Seq<char>)>::empty(), Handler::Version));
    }
    push_node(&mut v, n19, Ghost(vocab()));
    let n20 = leaf("w", "Write a boot config key", vec!["write", "put", "set", "edit"], flag_list(&[f_key(), f_value()]), Handler::ConfigSet);
    let ghost g20 = n20;
    proof {
        assert(names_view(n20.aliases@) =~= seq!["write"@, "put"@, "set"@, "edit"@]);
        assert(flags_view(n20.flags@) =~= seq![('k', "key"@, true, "Config key"@), ('v', "value"@, true, "Config value"@)]);
        assert(is_leaf(g20, "w"@, "Write a boot config key"@, seq!["write"@, "put"@, "set"@, "edit"@], seq![('k', "key"@, true, "Config key"@), ('v', "value"@, true, "Config value"@)], Handler::ConfigSet));
    }
    push_node(&mut v, n20, Ghost(vocab()));
    let n21 = leaf("x", "Export the config as a profile", vec!["export", "xport", "save", "snapshot"], flag_list(&[f_profile()]), Handler::ProfileSave);
    let ghost g21 = n21;
    proof {
        assert(names_view(n21.aliases@) =~= seq!["export"@, "xport"@, "save"@, "snapshot"@]);
        assert(flags_view(n21.flags@) =~= seq![('P', "profile"@, true, "Config profile name"@)]);
        assert(is_leaf(g21, "x"@, "Export the config as a profile"@, seq!["export"@, "xport"@, "save"@, "snapshot"@], seq![('P', "profile"@, true, "Config profile name"@)], Handler::ProfileSave));
    }
    push_node(&mut v, n21, Ghost(vocab()));
    let n22 = leaf("y", "Boot configuration status", vec!["status", "why", "state", "report"], Vec::new(), Handler::Status);
    let ghost g22 = n22;
    proof {
        assert(names_view(n22.aliases@) =~= seq!["status"@, "why"@, "state"@, "report"@]);
        assert(flags_view(n22.flags@) =~= Seq::<(char, Seq<char>, bool, Seq<char>)>::empty());
        assert(is_leaf(g22, "y"@, "Boot configuration status"@, seq!["status"@, "why"@, "state"@, "report"@], Seq::<(char, Seq<char>, bool, Seq<char>)>::empty(), Handler::Status));
    }
    push_node(&mut v, n22, Ghost(vocab()));
    let n23 = leaf("z", "Zap the boot config (reset)", vec!["zap", "nuke", "erase", "scrub"], Vec::new(), Handler::ConfigReset);
    let ghost g23 = n23;
    proof {
        assert(names_view(n23.aliases@) =~= seq!["zap"@, "nuke"@, "erase"@, "scrub"@]);
        assert(flags_view(n23.flags@) =~= Seq::<(char, Seq<char>, bool, Seq<char>)>::empty());
        assert(is_leaf(g23, "z"@, "Zap the boot config (reset)"@, seq!["zap"@, "nuke"@, "erase"@, "scrub"@], Seq::<(char, Seq<char>, bool, Seq<char>)>::empty(), Handler::ConfigReset));
    }
    push_node(&mut v, n23, Ghost(vocab()));
    let n24 = namespace("A", "Alias report (uppercase)", vec!["Aliases", "AL", "Abbr"], Vec::new(), group_a_3());
    let ghost g24 = n24;
    proof {
        assert(names_view(n24.aliases@) =~= seq!["Aliases"@, "AL"@, "Abbr"@]);
        assert(is_ns(g24, "A"@, "Alias report (uppercase)"@, seq!["Aliases"@, "AL"@, "Abbr"@]) && group_a_3_is(children_of(g24)));
    }
    push_node(&mut v, n24, Ghost(vocab()));
    let n25 = namespace("B", "Boot control (uppercase)", vec!["Boot2", "bc"], Vec::new(), boot_tree_boot());
    let ghost g25 = n25;
    proof {
        assert(names_view(n25.aliases@) =~= seq!["Boot2"@, "bc"@]);
        assert(is_ns(g25, "B"@, "Boot control (uppercase)"@, seq!["Boot2"@, "bc"@]) && boot_tree_boot_is(children_of(g25)));
    }
    push_node(&mut v, n25, Ghost(vocab()));
    let n26 = namespace("C", "Boot config (uppercase)", vec!["Config", "cfg2", "conf2"], Vec::new(), config_tree_config());
    let ghost g26 = n26;
    proof {
        assert(names_view(n26.aliases@) =~= seq!["Config"@, "cfg2"@, "conf2"@]);
        assert(is_ns(g26, "C"@, "Boot config (uppercase)"@, seq!["Config"@, "cfg2"@, "conf2"@]) && config_tree_config_is(children_of(g26)));
    }
    push_node(&mut v, n26, Ghost(vocab()));
    let n27 = namespace("D", "Default entry (uppercase)", vec!["Default", "def2"], Vec::new(), default_tree_default());
    let ghost g27 = n27;
    proof {
        assert(names_view(n27.aliases@) =~= seq!["Default"@, "def2"@]);
        assert(is_ns(g27, "D"@, "Default entry (uppercase)"@, seq!["Default"@, "def2"@]) && default_tree_default_is(children_of(g27)));
    }
    push_node(&mut v, n27, Ghost(vocab()));
    let n28 = namespace("E", "Entries (uppercase)", vec!["Entries", "entry2"], Vec::new(), entries_tree_entries());
    let ghost g28 = n28;
    proof {
        assert(names_view(n28.aliases@) =~= seq!["Entries"@, "entry2"@]);
        assert(is_ns(g28, "E"@, "Entries (uppercase)"@, seq!["Entries"@, "entry2"@]) && entries_tree_entries_is(children_of(g28)));
    }
    push_node(&mut v, n28, Ghost(vocab()));
    let n29 = namespace("F", "Find (uppercase)", vec!["Find2", "locate2"], Vec::new(), find_tree_find());
    let ghost g29 = n29;
    proof {
        assert(names_view(n29.aliases@) =~= seq!["Find2"@, "locate2"@]);
        assert(is_ns(g29, "F"@, "Find (uppercase)"@, seq!["Find2"@, "locate2"@]) && find_tree_find_is(children_of(g29)));
    }
    push_node(&mut v, n29, Ghost(vocab()));
    let n30 = namespace("G", "Geometry (uppercase)", vec!["Geom", "geo2"], Vec::new(), geometry_tree_geometry());
    let ghost g30 = n30;
    proof {
        assert(names_view(n30.aliases@) =~= seq!["Geom"@, "geo2"@]);
        assert(is_ns(g30, "G"@, "Geometry (uppercase)"@, seq!["Geom"@, "geo2"@]) && geometry_tree_geometry_is(children_of(g30)));
    }
    push_node(&mut v, n30, Ghost(vocab()));
    let n31 = namespace("H", "Help (uppercase)", vec!["Help2", "man2"], Vec::new(), help_tree_help());
    let ghost g31 = n31;
    proof {
        assert(names_view(n31.aliases@) =~= seq!["Help2"@, "man2"@]);
        assert(is_ns(g31, "H"@, "Help (uppercase)"@, seq!["Help2"@, "man2"@]) && help_tree_help_is(children_of(g31)));
    }
    push_node(&mut v, n31, Ghost(vocab()));
    let n32 = leaf("I", "Boot layout info (uppercase)", vec!["Info2", "layout2"], Vec::new(), Handler::Info);
    let ghost g32 = n32;
    proof {
        assert(names_view(n32.aliases@) =~= seq!["Info2"@, "layout2"@]);
        assert(flags_view(n32.flags@) =~= Seq::<(char, Seq<char>, bool, Seq<char>)>::empty());
        assert(is_leaf(g32, "I"@, "Boot layout info (uppercase)"@, seq!["Info2"@, "layout2"@], Seq::<(char, Seq<char>, bool, Seq<char>)>::empty(), Handler::Info));
    }
    push_node(&mut v, n32, Ghost(vocab()));
    let n33 = namespace("J", "JSON (uppercase)", vec!["Json2", "jq2"], Vec::new(), json_tree_json());
    let ghost g33 = n33;
    proof {
        assert(names_view(n33.aliases@) =~= seq!["Json2"@, "jq2"@]);
        assert(is_ns(g33, "J"@, "JSON (uppercase)"@, seq!["Json2"@, "jq2"@]) && json_tree_json_is(children_of(g33)));
    }
    push_node(&mut v, n33, Ghost(vocab()));
    let n34 = namespace("K", "Keymap (uppercase)", vec!["Keys2", "kb2"], Vec::new(), keymap_tree_keymap());
    let ghost g34 = n34;
    proof {
        assert(names_view(n34.aliases@) =~= seq!["Keys2"@, "kb2"@]);
        assert(is_ns(g34, "K"@, "Keymap (uppercase)"@, seq!["Keys2"@, "kb2"@]) && keymap_tree_keymap_is(children_of(g34)));
    }
    push_node(&mut v, n34, Ghost(vocab()));
    let n35 = namespace("L", "List (uppercase)", vec!["List2", "ls2"], Vec::new(), list_tree_list());
    let ghost g35 = n35;
    proof {
        assert(names_view(n35.aliases@) =~= seq!["List2"@, "ls2"@]);
        assert(is_ns(g35, "L"@, "List (uppercase)"@, seq!["List2"@, "ls2"@]) && list_tree_list_is(children_of(g35)));
    }
    push_node(&mut v, n35, Ghost(vocab()));
    let n36 = namespace("N", "Names (uppercase)", vec!["Names2", "labels2"], Vec::new(), names_tree_names());
    let ghost g36 = n36;
    proof {
        assert(names_view(n36.aliases@) =~= seq!["Names2"@, "labels2"@]);
        assert(is_ns(g36, "N"@, "Names (uppercase)"@, seq!["Names2"@, "labels2"@]) && names_tree_names_is(children_of(g36)));
    }
    push_node(&mut v, n36, Ghost(vocab()));
    let n37 = namespace("O", "One-shot boot (uppercase)", vec!["Once2", "single2"], Vec::new(), once_tree_once());
    let ghost g37 = n37;
    proof {
        assert(names_view(n37.aliases@) =~= seq!["Once2"@, "single2"@]);
        assert(is_ns(g37, "O"@, "One-shot boot (uppercase)"@, seq!["Once2"@, "single2"@]) && once_tree_once_is(children_of(g37)));
    }
    push_node(&mut v, n37, Ghost(vocab()));
    let n38 = namespace("P", "Profiles (uppercase)", vec!["Profile", "prof2"], Vec::new(), profile_tree_profile());
    let ghost g38 = n38;
    proof {
        assert(names_view(n38.aliases@) =~= seq!["Profile"@, "prof2"@]);
        assert(is_ns(g38, "P"@, "Profiles (uppercase)"@, seq!["Profile"@, "prof2"@]) && profile_tree_profile_is(children_of(g38)));
    }
    push_node(&mut v, n38, Ghost(vocab()));
    let n39 = namespace("Q", "Queries (uppercase)", vec!["Query", "qry2"], Vec::new(), query_tree_query());
    let ghost g39 = n39;
    proof {
        assert(names_view(n39.aliases@) =~= seq!["Query"@, "qry2"@]);
        assert(is_ns(g39, "Q"@, "Queries (uppercase)"@, seq!["Query"@, "qry2"@]) && query_tree_query_is(children_of(g39)));
    }
    push_node(&mut v, n39, Ghost(vocab()));
    let n40 = leaf("R", "Reset (uppercase)", vec!["Reset2", "wipe2"], Vec::new(), Handler::ConfigReset);
    let ghost g40 = n40;
    proof {
        assert(names_view(n40.aliases@) =~= seq!["Reset2"@, "wipe2"@]);
        assert(flags_view(n40.flags@) =~= Seq::<(char, Seq<char>, bool, Seq<char>)>::empty());
        assert(is_leaf(g40, "R"@, "Reset (uppercase)"@, seq!["Reset2"@, "wipe2"@], Seq::<(char, Seq<char>, bool, Seq<char>)>::empty(), Handler::ConfigReset));
    }
    push_node(&mut v, n40, Ghost(vocab()));
    let n41 = leaf("S", "Stage (uppercase)", vec!["Stage2", "stg2"], flag_list(&[f_dest(), f_arch()]), Handler::Stage);
    let ghost g41 = n41;
    proof {
        assert(names_view(n41.aliases@) =~= seq!["Stage2"@, "stg2"@]);
        assert(flags_view(n41.flags@) =~= seq![('d', "dest"@, true, "Destination directory"@), ('a', "arch"@, true, "Architecture: amd64 | arm64"@)]);
        assert(is_leaf(g41, "S"@, "Stage (uppercase)"@, seq!["Stage2"@, "stg2"@], seq![('d', "dest"@, true, "Destination directory"@), ('a', "arch"@, true, "Architecture: amd64 | arm64"@)], Handler::Stage));
    }
    push_node(&mut v, n41, Ghost(vocab()));
    let n42 = leaf("U", "Upload (uppercase)", vec!["Upload2", "sync2"], flag_list(&[f_vol()]), Handler::EspSync);
    let ghost g42 = n42;
    proof {
        assert(names_view(n42.aliases@) =~= seq!["Upload2"@, "sync2"@]);
        assert(flags_view(n42.flags@) =~= seq![('U', "vol"@, true, "ESP volume path"@)]);
        assert(is_leaf(g42, "U"@, "Upload (uppercase)"@, seq!["Upload2"@, "sync2"@], seq![('U', "vol"@, true, "ESP volume path"@)], Handler::EspSync));
    }
    push_node(&mut v, n42, Ghost(vocab()));
    let n43 = leaf("V", "Version (uppercase)", vec!["Ver2", "v2"], Vec::new(), Handler::Version);
    let ghost g43 = n43;
    proof {
        assert(names_view(n43.aliases@) =~= seq!["Ver2"@, "v2"@]);
        assert(flags_view(n43.flags@) =~= Seq::<(char, Seq<char>, bool, Seq<char>)>::empty());
        assert(is_leaf(g43, "V"@, "Version (uppercase)"@, seq!["Ver2"@, "v2"@], Seq::<(char, Seq<char>, bool, Seq<char>)>::empty(), Handler::Version));
    }
    push_node(&mut v, n43, Ghost(vocab()));
    let n44 = leaf("W", "Write (uppercase)", vec!["Write2", "put2"], flag_list(&[f_key(), f_value()]), Handler::ConfigSet);
    let ghost g44 = n44;
    proof {
        assert(names_view(n44.aliases@) =~= seq!["Write2"@, "put2"@]);
        assert(flags_view(n44.flags@) =~= seq![('k', "key"@, true, "Config key"@), ('v', "value"@, true, "Config value"@)]);
        assert(is_leaf(g44, "W"@, "Write (uppercase)"@, seq!["Write2"@, "put2"@], seq![('k', "key"@, true, "Config key"@), ('v', "value"@, true, "Config value"@)], Handler::ConfigSet));
    }
    push_node(&mut v, n44, Ghost(vocab()));
    let n45 = leaf("X", "Export profile (uppercase)", vec!["Export2", "xport2"], flag_list(&[f_profile()]), Handler::ProfileSave);
    let ghost g45 = n45;
    proof {
        assert(names_view(n45.aliases@) =~= seq!["Export2"@, "xport2"@]);
        assert(flags_view(n45.flags@) =~= seq![('P', "profile"@, true, "Config profile name"@)]);
        assert(is_leaf(g45, "X"@, "Export profile (uppercase)"@, seq!["Export2"@, "xport2"@], seq![('P', "profile"@, true, "Config profile name"@)], Handler::ProfileSave));
    }
    push_node(&mut v, n45, Ghost(vocab()));
    let n46 = leaf("Y", "Status (uppercase)", vec!["Status2", "state2"], Vec::new(), Handler::Status);
    let ghost g46 = n46;
    proof {
        assert(names_view(n46.aliases@) =~= seq!["Status2"@, "state2"@]);
        assert(flags_view(n46.flags@) =~= Seq::<(char, Seq<char>, bool, Seq<char>)>::empty());
        assert(is_leaf(g46, "Y"@, "Status (uppercase)"@, seq!["Status2"@, "state2"@], Seq::<(char, Seq<char>, bool, Seq<char>)>::empty(), Handler::Status));
    }
    push_node(&mut v, n46, Ghost(vocab()));
    let n47 = leaf("Z", "Zap (uppercase)", vec!["Zap2", "nuke2"], Vec::new(), Handler::ConfigReset);
    let ghost g47 = n47;
    proof {
        assert(names_view(n47.aliases@) =~= seq!["Zap2"@, "nuke2"@]);
        assert(flags_view(n47.flags@) =~= Seq::<(char, Seq<char>, bool, Seq<char>)>::empty());
        assert(is_leaf(g47, "Z"@, "Zap (uppercase)"@, seq!["Zap2"@, "nuke2"@], Seq::<(char, Seq<char>, bool, Seq<char>)>::empty(), Handler::ConfigReset));
    }
    push_node(&mut v, n47, Ghost(vocab()));
    proof {
        assert(v@ =~= seq![g0, g1, g2, g3, g4, g5, g6, g7, g8, g9, g10, g11, g12, g13, g14, g15, g16, g17, g18, g19, g20, g21, g22, g23, g24, g25, g26, g27, g28, g29, g30, g31, g32, g33, g34, g35, g36, g37, g38, g39, g40, g41, g42, g43, g44, g45, g46, g47]);
        reveal(group_lbc_1_is);
    }
    v
}

/// The whole `lbc` command tree. Every flag in it comes from the
/// flag vocabulary, so short characters and long names are unique across
/// the tree and each is consistently a boolean or a value.
pub fn root() -> (r: Node<Handler>)
    ensures
        node_flags_ok(r, vocab()),
        is_ns(r, "lbc"@, "Leon Boot Configuration — manage the boot config and boot control: boot-manager menu, staging, boot volume layout"@, Seq::<Seq<char>>::empty()),
        group_lbc_1_is(children_of(r)),
{
    let r = namespace("lbc", "Leon Boot Configuration — manage the boot config and boot control: boot-manager menu, staging, boot volume layout", vec![], Vec::new(), group_lbc_1());
    assert(names_view(r.aliases@) =~= Seq::<Seq<char>>::empty());
    r
}

} // verus!
