//! The table from `lbc`'s command-tree handlers to the commands they run.
use vstd::prelude::*;
use crate::boot_config::opt_view;
use crate::cli_args::{Parsed, ParsedModel, value_of};
use crate::cmd_tree::{Node, Kind, join};
use crate::lbc_tree::Handler;
use crate::text::{chars_to_string, push_str, str_chars};

verus! {

/// What a parsed `lbc` command line asks to run, with the arguments its
/// implementation reads.
pub enum LbcCommand {
    Info,
    Stage { dest: Option<String>, arch: Option<String> },
    Once { name: String },
    EspSync { vol: String },
    ConfigGet { key: Option<String> },
    ConfigSet { key: String, value: String },
    ConfigList,
    ConfigReset,
    ConfigPath,
    DefaultGet,
    DefaultSet { name: String },
    EntriesList,
    EntriesGet { name: String },
    EntriesCount,
    Esps,
    GeometryShow,
    GeometryBgr,
    JsonConfig,
    JsonDiscover,
    JsonInfo,
    JsonAll,
    NamesList,
    NamesGet { name: String },
    NamesCount,
    QueryInfo,
    QueryEsps,
    ProfileSave { profile: String },
    ProfileList,
    ProfileLoad { profile: String },
    ProfileDelete { profile: String },
    KeymapShow,
    Version,
    HelpAll,
    HelpTree,
    HelpCommand { name: String },
    AliasList,
    Status,
}

/// The value of a flag, or empty text when it was not given.
pub open spec fn value_or_empty(p: ParsedModel, long: Seq<char>) -> Seq<char> {
    match value_of(p.values, long) {
        Some(v) => v,
        None => seq![],
    }
}

/// The first positional argument, if any.
pub open spec fn first_pos(p: ParsedModel) -> Option<Seq<char>> {
    if p.positional.len() > 0 {
        Some(p.positional[0])
    } else {
        None
    }
}

/// Whether a flag was given, with or without a value.
pub open spec fn given(p: ParsedModel, long: Seq<char>) -> bool {
    p.bools.contains(long) || crate::cli_args::key_index(p.values, long) < p.values.len()
}

/// The refusal for a node that is a namespace.
pub open spec fn namespace_error(p: ParsedModel) -> Seq<char> {
    "`"@ + join(p.path, " "@) + "` is a namespace, not a command"@
}

/// Whether `c` is the command the handler `h` runs for the parsed line `p`.
pub open spec fn command_is(h: Handler, p: ParsedModel, c: LbcCommand) -> bool {
    match h {
        Handler::Info => c is Info,
        Handler::Stage => match c {
            LbcCommand::Stage { dest, arch } => opt_view(dest) == value_of(p.values, "dest"@) && opt_view(arch) == value_of(p.values, "arch"@),
            _ => false,
        },
        Handler::BootOnce => match c {
            LbcCommand::Once { name } => name@ == value_or_empty(p, "name"@),
            _ => false,
        },
        Handler::EspSync => match c {
            LbcCommand::EspSync { vol } => vol@ == value_or_empty(p, "vol"@),
            _ => false,
        },
        Handler::ConfigGet => match c {
            LbcCommand::ConfigGet { key } => opt_view(key) == value_of(p.values, "key"@),
            _ => false,
        },
        Handler::ConfigSet => match c {
            LbcCommand::ConfigSet { key, value } => key@ == value_or_empty(p, "key"@) && value@ == value_or_empty(p, "value"@),
            _ => false,
        },
        Handler::ConfigList => c is ConfigList,
        Handler::ConfigReset => c is ConfigReset,
        Handler::ConfigPath => c is ConfigPath,
        Handler::DefaultGet => c is DefaultGet,
        Handler::DefaultSet => match c {
            LbcCommand::DefaultSet { name } => name@ == value_or_empty(p, "name"@),
            _ => false,
        },
        Handler::EntriesList => c is EntriesList,
        Handler::EntriesGet => match c {
            LbcCommand::EntriesGet { name } => name@ == value_or_empty(p, "name"@),
            _ => false,
        },
        Handler::EntriesCount => c is EntriesCount,
        Handler::FindEsps => c is Esps,
        Handler::FindEntries => match c {
            LbcCommand::EntriesGet { name } => name@ == value_or_empty(p, "name"@),
            _ => false,
        },
        Handler::GeometryShow => c is GeometryShow,
        Handler::GeometryBgr => c is GeometryBgr,
        Handler::JsonConfig => c is JsonConfig,
        Handler::JsonDiscover => c is JsonDiscover,
        Handler::JsonInfo => c is JsonInfo,
        Handler::JsonAll => c is JsonAll,
        Handler::NamesList => c is NamesList,
        Handler::NamesGet => match c {
            LbcCommand::NamesGet { name } => name@ == value_or_empty(p, "name"@),
            _ => false,
        },
        Handler::NamesCount => c is NamesCount,
        Handler::QueryInfo => c is QueryInfo,
        Handler::QueryEsps => c is QueryEsps,
        Handler::ProfileSave => match c {
            LbcCommand::ProfileSave { profile } => profile@ == value_or_empty(p, "profile"@),
            _ => false,
        },
        Handler::ProfileList => c is ProfileList,
        Handler::ProfileLoad => match c {
            LbcCommand::ProfileLoad { profile } => profile@ == value_or_empty(p, "profile"@),
            _ => false,
        },
        Handler::ProfileDelete => match c {
            LbcCommand::ProfileDelete { profile } => profile@ == value_or_empty(p, "profile"@),
            _ => false,
        },
        Handler::KeymapShow => c is KeymapShow,
        Handler::Version => c is Version,
        Handler::HelpAll => c is HelpAll,
        Handler::HelpTree => c is HelpTree,
        Handler::HelpCommand => match c {
            LbcCommand::HelpCommand { name } => name@ == value_or_empty(p, "name"@),
            _ => false,
        },
        Handler::AliasList => c is AliasList,
        Handler::Status => c is Status,
    }
}

fn owned(v: Option<&str>) -> (r: Option<String>)
    ensures
        opt_view(r) == match v {
            Some(s) => Some(s@),
            None => None,
        },
{
    match v {
        Some(s) => Some(chars_to_string(&str_chars(s))),
        None => None,
    }
}

fn value_text(parsed: &Parsed, long: &str) -> (r: String)
    ensures
        r@ == value_or_empty(parsed.model(), long@),
{
    match parsed.value(long) {
        Some(s) => chars_to_string(&str_chars(s)),
        None => chars_to_string(&Vec::new()),
    }
}

/// The command a leaf node runs with its parsed arguments; a namespace is
/// refused with a message naming the command line.
pub fn dispatch(node: &Node<Handler>, parsed: &Parsed) -> (r: Result<LbcCommand, String>)
    ensures
        match node.kind {
            Kind::Leaf(h) => r matches Ok(c) && command_is(h, parsed.model(), c),
            Kind::Ns(_) => r matches Err(e) && e@ == namespace_error(parsed.model()),
        },
{
    let h = match node.handler() {
        Some(h) => h,
        None => {
            let mut m = str_chars("`");
            let cl = parsed.command_line();
            push_str(&mut m, cl.as_str());
            push_str(&mut m, "` is a namespace, not a command");
            return Err(chars_to_string(&m));
        },
    };
    let c = match h {
        Handler::Info => LbcCommand::Info,
        Handler::Stage => LbcCommand::Stage { dest: owned(parsed.value("dest")), arch: owned(parsed.value("arch")) },
        Handler::BootOnce => LbcCommand::Once { name: value_text(parsed, "name") },
        Handler::EspSync => LbcCommand::EspSync { vol: value_text(parsed, "vol") },
        Handler::ConfigGet => LbcCommand::ConfigGet { key: owned(parsed.value("key")) },
        Handler::ConfigSet => LbcCommand::ConfigSet { key: value_text(parsed, "key"), value: value_text(parsed, "value") },
        Handler::ConfigList => LbcCommand::ConfigList,
        Handler::ConfigReset => LbcCommand::ConfigReset,
        Handler::ConfigPath => LbcCommand::ConfigPath,
        Handler::DefaultGet => LbcCommand::DefaultGet,
        Handler::DefaultSet => LbcCommand::DefaultSet { name: value_text(parsed, "name") },
        Handler::EntriesList => LbcCommand::EntriesList,
        Handler::EntriesGet => LbcCommand::EntriesGet { name: value_text(parsed, "name") },
        Handler::EntriesCount => LbcCommand::EntriesCount,
        Handler::FindEsps => LbcCommand::Esps,
        Handler::FindEntries => LbcCommand::EntriesGet { name: value_text(parsed, "name") },
        Handler::GeometryShow => LbcCommand::GeometryShow,
        Handler::GeometryBgr => LbcCommand::GeometryBgr,
        Handler::JsonConfig => LbcCommand::JsonConfig,
        Handler::JsonDiscover => LbcCommand::JsonDiscover,
        Handler::JsonInfo => LbcCommand::JsonInfo,
        Handler::JsonAll => LbcCommand::JsonAll,
        Handler::NamesList => LbcCommand::NamesList,
        Handler::NamesGet => LbcCommand::NamesGet { name: value_text(parsed, "name") },
        Handler::NamesCount => LbcCommand::NamesCount,
        Handler::QueryInfo => LbcCommand::QueryInfo,
        Handler::QueryEsps => LbcCommand::QueryEsps,
        Handler::ProfileSave => LbcCommand::ProfileSave { profile: value_text(parsed, "profile") },
        Handler::ProfileList => LbcCommand::ProfileList,
        Handler::ProfileLoad => LbcCommand::ProfileLoad { profile: value_text(parsed, "profile") },
        Handler::ProfileDelete => LbcCommand::ProfileDelete { profile: value_text(parsed, "profile") },
        Handler::KeymapShow => LbcCommand::KeymapShow,
        Handler::Version => LbcCommand::Version,
        Handler::HelpAll => LbcCommand::HelpAll,
        Handler::HelpTree => LbcCommand::HelpTree,
        Handler::HelpCommand => LbcCommand::HelpCommand { name: value_text(parsed, "name") },
        Handler::AliasList => LbcCommand::AliasList,
        Handler::Status => LbcCommand::Status,
    };
    Ok(c)
}

} // verus!
