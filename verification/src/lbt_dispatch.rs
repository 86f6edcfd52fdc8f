//! The table from `lbt`'s command-tree handlers to the commands they run.
use vstd::prelude::*;
use crate::boot_config::opt_view;
use crate::cli_args::{Parsed, ParsedModel, value_of};
use crate::cmd_tree::{Node, Kind, join};
use crate::lbt_tree::Handler;
use crate::text::{chars_to_string, push_str, str_chars};

verus! {

/// What a parsed `lbt` command line asks to run, with the arguments its
/// implementation reads.
pub enum LbtCommand {
    Info { dump: Option<String> },
    Discover { json: bool },
    ImageIso { rootfs: Option<String>, out: Option<String>, label: Option<String> },
    ImageImg { rootfs: Option<String>, out: Option<String>, size: Option<String> },
    ImageEsp { rootfs: Option<String>, out: Option<String>, size: Option<String>, arch: Option<String> },
    LogShow { path: Option<String> },
    LogTail { path: Option<String> },
    LogClear { path: Option<String> },
    LogFind { pattern: Option<String>, path: Option<String> },
    EnvShow,
    EnvCheck,
    EnvTool { name: String },
    FsLs { path: Option<String> },
    FsInfo { path: Option<String> },
    FsTree { path: Option<String>, depth: Option<String> },
    RootfsShow { path: Option<String> },
    RootfsCheck { path: Option<String> },
    RootfsTree { path: Option<String>, depth: Option<String> },
    Version,
    HelpAll,
    HelpTree,
    HelpCommand { name: String },
    AliasList,
    JsonInfo,
    JsonDiscover,
    JsonAll,
    NamesList,
    NamesGet { name: String },
    NamesCount,
    OsRelease,
    OsKernel,
    OsId,
    UsbList,
    UsbFlash { device: String, path: String },
    UsbDetect,
    FirmwareInfo,
    FirmwareAcpi,
    FirmwareSb,
    BuildAll { arch: Option<String> },
    BuildBoot { arch: Option<String> },
    BuildKernel { arch: Option<String> },
    BuildLbt,
    KeysSetup { keydir: Option<String> },
    KeysSign { keydir: Option<String>, path: Option<String>, out: Option<String> },
    KeysEsl { cert: String },
    KeysVerify { cert: String, path: String },
    XferEsp { source: Option<String>, dest: Option<String> },
    XferStage { source: Option<String>, dest: Option<String> },
    QueryInfo,
    QueryEsps,
    GeometryShow,
    GeometryBgr,
    NetCheck,
}

/// The value of a flag, or empty text when it was not given.
pub open spec fn value_or_empty(p: ParsedModel, long: Seq<char>) -> Seq<char> {
    match value_of(p.values, long) {
        Some(v) => v,
        None => seq![],
    }
}

/// The first positional argument, if any.
pub open spec fn first_pos(p: ParsedModel) -> Option<Seq<char>> {
    if p.positional.len() > 0 {
        Some(p.positional[0])
    } else {
        None
    }
}

/// Whether a flag was given, with or without a value.
pub open spec fn given(p: ParsedModel, long: Seq<char>) -> bool {
    p.bools.contains(long) || crate::cli_args::key_index(p.values, long) < p.values.len()
}

/// The refusal for a node that is a namespace.
pub open spec fn namespace_error(p: ParsedModel) -> Seq<char> {
    "`"@ + join(p.path, " "@) + "` is a namespace, not a command"@
}

/// Whether `c` is the command the handler `h` runs for the parsed line `p`.
pub open spec fn command_is(h: Handler, p: ParsedModel, c: LbtCommand) -> bool {
    match h {
        Handler::Info => match c {
            LbtCommand::Info { dump } => opt_view(dump) == first_pos(p),
            _ => false,
        },
        Handler::Discover => match c {
            LbtCommand::Discover { json } => json == given(p, "json"@),
            _ => false,
        },
        Handler::ImageIso => match c {
            LbtCommand::ImageIso { rootfs, out, label } => opt_view(rootfs) == value_of(p.values, "rootfs"@) && opt_view(out) == value_of(p.values, "out"@) && opt_view(label) == value_of(p.values, "label"@),
            _ => false,
        },
        Handler::ImageImg => match c {
            LbtCommand::ImageImg { rootfs, out, size } => opt_view(rootfs) == value_of(p.values, "rootfs"@) && opt_view(out) == value_of(p.values, "out"@) && opt_view(size) == value_of(p.values, "size"@),
            _ => false,
        },
        Handler::ImageEsp => match c {
            LbtCommand::ImageEsp { rootfs, out, size, arch } => opt_view(rootfs) == value_of(p.values, "rootfs"@) && opt_view(out) == value_of(p.values, "out"@) && opt_view(size) == value_of(p.values, "size"@) && opt_view(arch) == value_of(p.values, "arch"@),
            _ => false,
        },
        Handler::LogShow => match c {
            LbtCommand::LogShow { path } => opt_view(path) == value_of(p.values, "path"@),
            _ => false,
        },
        Handler::LogTail => match c {
            LbtCommand::LogTail { path } => opt_view(path) == value_of(p.values, "path"@),
            _ => false,
        },
        Handler::LogClear => match c {
            LbtCommand::LogClear { path } => opt_view(path) == value_of(p.values, "path"@),
            _ => false,
        },
        Handler::LogFind => match c {
            LbtCommand::LogFind { pattern, path } => opt_view(pattern) == value_of(p.values, "pattern"@) && opt_view(path) == value_of(p.values, "path"@),
            _ => false,
        },
        Handler::EnvShow => c is EnvShow,
        Handler::EnvCheck => c is EnvCheck,
        Handler::EnvTool => match c {
            LbtCommand::EnvTool { name } => name@ == value_or_empty(p, "name"@),
            _ => false,
        },
        Handler::FsLs => match c {
            LbtCommand::FsLs { path } => opt_view(path) == value_of(p.values, "path"@),
            _ => false,
        },
        Handler::FsInfo => match c {
            LbtCommand::FsInfo { path } => opt_view(path) == value_of(p.values, "path"@),
            _ => false,
        },
        Handler::FsTree => match c {
            LbtCommand::FsTree { path, depth } => opt_view(path) == value_of(p.values, "path"@) && opt_view(depth) == value_of(p.values, "depth"@),
            _ => false,
        },
        Handler::RootfsShow => match c {
            LbtCommand::RootfsShow { path } => opt_view(path) == value_of(p.values, "path"@),
            _ => false,
        },
        Handler::RootfsCheck => match c {
            LbtCommand::RootfsCheck { path } => opt_view(path) == value_of(p.values, "path"@),
            _ => false,
        },
        Handler::RootfsTree => match c {
            LbtCommand::RootfsTree { path, depth } => opt_view(path) == value_of(p.values, "path"@) && opt_view(depth) == value_of(p.values, "depth"@),
            _ => false,
        },
        Handler::Version => c is Version,
        Handler::HelpAll => c is HelpAll,
        Handler::HelpTree => c is HelpTree,
        Handler::HelpCommand => match c {
            LbtCommand::HelpCommand { name } => name@ == value_or_empty(p, "name"@),
            _ => false,
        },
        Handler::AliasList => c is AliasList,
        Handler::JsonInfo => c is JsonInfo,
        Handler::JsonDiscover => c is JsonDiscover,
        Handler::JsonAll => c is JsonAll,
        Handler::NamesList => c is NamesList,
        Handler::NamesGet => match c {
            LbtCommand::NamesGet { name } => name@ == value_or_empty(p, "name"@),
            _ => false,
        },
        Handler::NamesCount => c is NamesCount,
        Handler::OsRelease => c is OsRelease,
        Handler::OsKernel => c is OsKernel,
        Handler::OsId => c is OsId,
        Handler::UsbList => c is UsbList,
        Handler::UsbFlash => match c {
            LbtCommand::UsbFlash { device, path } => device@ == value_or_empty(p, "device"@) && path@ == value_or_empty(p, "path"@),
            _ => false,
        },
        Handler::UsbDetect => c is UsbDetect,
        Handler::FirmwareInfo => c is FirmwareInfo,
        Handler::FirmwareAcpi => c is FirmwareAcpi,
        Handler::FirmwareSb => c is FirmwareSb,
        Handler::BuildAll => match c {
            LbtCommand::BuildAll { arch } => opt_view(arch) == value_of(p.values, "arch"@),
            _ => false,
        },
        Handler::BuildBoot => match c {
            LbtCommand::BuildBoot { arch } => opt_view(arch) == value_of(p.values, "arch"@),
            _ => false,
        },
        Handler::BuildKernel => match c {
            LbtCommand::BuildKernel { arch } => opt_view(arch) == value_of(p.values, "arch"@),
            _ => false,
        },
        Handler::BuildLbt => c is BuildLbt,
        Handler::KeysSetup => match c {
            LbtCommand::KeysSetup { keydir } => opt_view(keydir) == value_of(p.values, "keydir"@),
            _ => false,
        },
        Handler::KeysSign => match c {
            LbtCommand::KeysSign { keydir, path, out } => opt_view(keydir) == value_of(p.values, "keydir"@) && opt_view(path) == value_of(p.values, "path"@) && opt_view(out) == value_of(p.values, "out"@),
            _ => false,
        },
        Handler::KeysEsl => match c {
            LbtCommand::KeysEsl { cert } => cert@ == value_or_empty(p, "cert"@),
            _ => false,
        },
        Handler::KeysVerify => match c {
            LbtCommand::KeysVerify { cert, path } => cert@ == value_or_empty(p, "cert"@) && path@ == value_or_empty(p, "path"@),
            _ => false,
        },
        Handler::XferEsp => match c {
            LbtCommand::XferEsp { source, dest } => opt_view(source) == value_of(p.values, "source"@) && opt_view(dest) == value_of(p.values, "dest"@),
            _ => false,
        },
        Handler::XferStage => match c {
            LbtCommand::XferStage { source, dest } => opt_view(source) == value_of(p.values, "source"@) && opt_view(dest) == value_of(p.values, "dest"@),
            _ => false,
        },
        Handler::QueryInfo => c is QueryInfo,
        Handler::QueryEsps => c is QueryEsps,
        Handler::GeometryShow => c is GeometryShow,
        Handler::GeometryBgr => c is GeometryBgr,
        Handler::NetCheck => c is NetCheck,
    }
}

fn owned(v: Option<&str>) -> (r: Option<String>)
    ensures
        opt_view(r) == match v {
            Some(s) => Some(s@),
            None => None,
        },
{
    match v {
        Some(s) => Some(chars_to_string(&str_chars(s))),
        None => None,
    }
}

fn value_text(parsed: &Parsed, long: &str) -> (r: String)
    ensures
        r@ == value_or_empty(parsed.model(), long@),
{
    match parsed.value(long) {
        Some(s) => chars_to_string(&str_chars(s)),
        None => chars_to_string(&Vec::new()),
    }
}

/// The command a leaf node runs with its parsed arguments; a namespace is
/// refused with a message naming the command line.
pub fn dispatch(node: &Node<Handler>, parsed: &Parsed) -> (r: Result<LbtCommand, String>)
    ensures
        match node.kind {
            Kind::Leaf(h) => r matches Ok(c) && command_is(h, parsed.model(), c),
            Kind::Ns(_) => r matches Err(e) && e@ == namespace_error(parsed.model()),
        },
{
    let h = match node.handler() {
        Some(h) => h,
        None => {
            let mut m = str_chars("`");
            let cl = parsed.command_line();
            push_str(&mut m, cl.as_str());
            push_str(&mut m, "` is a namespace, not a command");
            return Err(chars_to_string(&m));
        },
    };
    let c = match h {
        Handler::Info => LbtCommand::Info { dump: owned(parsed.pos(0)) },
        Handler::Discover => LbtCommand::Discover { json: parsed.flag("json") },
        Handler::ImageIso => LbtCommand::ImageIso { rootfs: owned(parsed.value("rootfs")), out: owned(parsed.value("out")), label: owned(parsed.value("label")) },
        Handler::ImageImg => LbtCommand::ImageImg { rootfs: owned(parsed.value("rootfs")), out: owned(parsed.value("out")), size: owned(parsed.value("size")) },
        Handler::ImageEsp => LbtCommand::ImageEsp { rootfs: owned(parsed.value("rootfs")), out: owned(parsed.value("out")), size: owned(parsed.value("size")), arch: owned(parsed.value("arch")) },
        Handler::LogShow => LbtCommand::LogShow { path: owned(parsed.value("path")) },
        Handler::LogTail => LbtCommand::LogTail { path: owned(parsed.value("path")) },
        Handler::LogClear => LbtCommand::LogClear { path: owned(parsed.value("path")) },
        Handler::LogFind => LbtCommand::LogFind { pattern: owned(parsed.value("pattern")), path: owned(parsed.value("path")) },
        Handler::EnvShow => LbtCommand::EnvShow,
        Handler::EnvCheck => LbtCommand::EnvCheck,
        Handler::EnvTool => LbtCommand::EnvTool { name: value_text(parsed, "name") },
        Handler::FsLs => LbtCommand::FsLs { path: owned(parsed.value("path")) },
        Handler::FsInfo => LbtCommand::FsInfo { path: owned(parsed.value("path")) },
        Handler::FsTree => LbtCommand::FsTree { path: owned(parsed.value("path")), depth: owned(parsed.value("depth")) },
        Handler::RootfsShow => LbtCommand::RootfsShow { path: owned(parsed.value("path")) },
        Handler::RootfsCheck => LbtCommand::RootfsCheck { path: owned(parsed.value("path")) },
        Handler::RootfsTree => LbtCommand::RootfsTree { path: owned(parsed.value("path")), depth: owned(parsed.value("depth")) },
        Handler::Version => LbtCommand::Version,
        Handler::HelpAll => LbtCommand::HelpAll,
        Handler::HelpTree => LbtCommand::HelpTree,
        Handler::HelpCommand => LbtCommand::HelpCommand { name: value_text(parsed, "name") },
        Handler::AliasList => LbtCommand::AliasList,
        Handler::JsonInfo => LbtCommand::JsonInfo,
        Handler::JsonDiscover => LbtCommand::JsonDiscover,
        Handler::JsonAll => LbtCommand::JsonAll,
        Handler::NamesList => LbtCommand::NamesList,
        Handler::NamesGet => LbtCommand::NamesGet { name: value_text(parsed, "name") },
        Handler::NamesCount => LbtCommand::NamesCount,
        Handler::OsRelease => LbtCommand::OsRelease,
        Handler::OsKernel => LbtCommand::OsKernel,
        Handler::OsId => LbtCommand::OsId,
        Handler::UsbList => LbtCommand::UsbList,
        Handler::UsbFlash => LbtCommand::UsbFlash { device: value_text(parsed, "device"), path: value_text(parsed, "path") },
        Handler::UsbDetect => LbtCommand::UsbDetect,
        Handler::FirmwareInfo => LbtCommand::FirmwareInfo,
        Handler::FirmwareAcpi => LbtCommand::FirmwareAcpi,
        Handler::FirmwareSb => LbtCommand::FirmwareSb,
        Handler::BuildAll => LbtCommand::BuildAll { arch: owned(parsed.value("arch")) },
        Handler::BuildBoot => LbtCommand::BuildBoot { arch: owned(parsed.value("arch")) },
        Handler::BuildKernel => LbtCommand::BuildKernel { arch: owned(parsed.value("arch")) },
        Handler::BuildLbt => LbtCommand::BuildLbt,
        Handler::KeysSetup => LbtCommand::KeysSetup { keydir: owned(parsed.value("keydir")) },
        Handler::KeysSign => LbtCommand::KeysSign { keydir: owned(parsed.value("keydir")), path: owned(parsed.value("path")), out: owned(parsed.value("out")) },
        Handler::KeysEsl => LbtCommand::KeysEsl { cert: value_text(parsed, "cert") },
        Handler::KeysVerify => LbtCommand::KeysVerify { cert: value_text(parsed, "cert"), path: value_text(parsed, "path") },
        Handler::XferEsp => LbtCommand::XferEsp { source: owned(parsed.value("source")), dest: owned(parsed.value("dest")) },
        Handler::XferStage => LbtCommand::XferStage { source: owned(parsed.value("source")), dest: owned(parsed.value("dest")) },
        Handler::QueryInfo => LbtCommand::QueryInfo,
        Handler::QueryEsps => LbtCommand::QueryEsps,
        Handler::GeometryShow => LbtCommand::GeometryShow,
        Handler::GeometryBgr => LbtCommand::GeometryBgr,
        Handler::NetCheck => LbtCommand::NetCheck,
    };
    Ok(c)
}

} // verus!
