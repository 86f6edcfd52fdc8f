//! The boot configuration `\EFI\leon\boot.toml`: its model, the parser the
//! bootloader runs at every boot, the serializer the host tools use, and the
//! key/value editing surface of the host-side `config get` / `config set`.
//!
//! Only the keys the tools manage are understood — `timeout` (integer
//! seconds), `default_entry`, `theme`, `splash`, `entries_file` — and unknown
//! keys are ignored so the bootloader tolerates forward-compatible files.
//! String values accept both TOML basic strings (`"..."`, with the escapes
//! `\\`, `\"`, `\n`, `\t`) and TOML literal strings (`'...'`, no escapes).
//! Text after a `#` that stands outside a quoted string is a comment.
use vstd::prelude::*;

use vstd::string::StringExecFns;

use crate::text::{
    chars_eq_str, chars_to_string, contains_char, copy_range, dec, dec_chars,
    find_char, index_of, lemma_index_of, lemma_index_of_is, parse_u32, parse_u32_chars, push_all,
    push_str, split_once, str_chars, trim, trim_chars, is_ws, all_digits, is_digit,
    lemma_dec_digits, lemma_parse_dec, lemma_trim_fixed, lemma_trim_leading_space,
    lemma_trim_trailing_space,
};

verus! {

broadcast use vstd::string::group_string_axioms;

/// Boot configuration as parsed from the boot volume.
#[derive(Debug, Clone, PartialEq, Eq)]
pub struct BootConfig {
    /// Seconds to wait before booting the default entry.
    pub timeout: Option<u32>,
    /// Label of the entry booted when the timeout elapses.
    pub default_entry: Option<String>,
    /// Splash theme file (host-side authoring concern).
    pub theme: Option<String>,
    /// Whether the splash menu is enabled.
    pub splash: Option<bool>,
    /// Where the bootloader writes the auto-detected boot entries (JSONC).
    pub entries_file: Option<String>,
}

/// The mathematical content of a [`BootConfig`].
pub struct BootConfigModel {
    pub timeout: Option<u32>,
    pub default_entry: Option<Seq<char>>,
    pub theme: Option<Seq<char>>,
    pub splash: Option<bool>,
    pub entries_file: Option<Seq<char>>,
}

/// The view of an optional string.
pub open spec fn opt_view(o: Option<String>) -> Option<Seq<char>> {
    match o {
        Some(s) => Some(s@),
        None => None,
    }
}

impl View for BootConfig {
    type V = BootConfigModel;

    open spec fn view(&self) -> BootConfigModel {
        BootConfigModel {
            timeout: self.timeout,
            default_entry: opt_view(self.default_entry),
            theme: opt_view(self.theme),
            splash: self.splash,
            entries_file: opt_view(self.entries_file),
        }
    }
}

/// The configuration with every key unset.
pub open spec fn empty_model() -> BootConfigModel {
    BootConfigModel {
        timeout: None,
        default_entry: None,
        theme: None,
        splash: None,
        entries_file: None,
    }
}

impl BootConfig {
    /// The configuration with every key unset.
    pub fn empty() -> (c: BootConfig)
        ensures
            c@ == empty_model(),
    {
        BootConfig {
            timeout: None,
            default_entry: None,
            theme: None,
            splash: None,
            entries_file: None,
        }
    }
}

impl Default for BootConfig {
    fn default() -> (c: BootConfig)
        ensures
            c@ == empty_model(),
    {
        BootConfig::empty()
    }
}

/// A parse failure in `boot.toml`.
#[derive(Debug, Clone, Copy, PartialEq, Eq)]
pub enum BootConfigError {
    /// A non-empty line without `=`.
    ExpectedKeyValue,
    /// `timeout` is not a `u32`.
    BadTimeout,
    /// A basic string holds an unknown escape or ends in a lone backslash.
    BadEscape,
    /// A string value that is neither double- nor single-quoted.
    Unquoted,
    /// `splash` is neither `true` nor `false`.
    BadSplash,
}

/// The message shown for each parse failure.
pub open spec fn error_message(e: BootConfigError) -> Seq<char> {
    match e {
        BootConfigError::ExpectedKeyValue => "expected 'key = value'"@,
        BootConfigError::BadTimeout => "timeout must be a number of seconds"@,
        BootConfigError::BadEscape => "invalid escape in string value"@,
        BootConfigError::Unquoted => "string values must be double- or single-quoted"@,
        BootConfigError::BadSplash => "splash must be true or false"@,
    }
}

impl BootConfigError {
    /// The human-readable message for this error.
    pub fn message(&self) -> (m: &'static str)
        ensures
            m@ == error_message(*self),
    {
        match self {
            BootConfigError::ExpectedKeyValue => "expected 'key = value'",
            BootConfigError::BadTimeout => "timeout must be a number of seconds",
            BootConfigError::BadEscape => "invalid escape in string value",
            BootConfigError::Unquoted => "string values must be double- or single-quoted",
            BootConfigError::BadSplash => "splash must be true or false",
        }
    }
}

// ── Parsing specification ───────────────────────────────────────────────────

/// The character a basic-string escape `\d` stands for.
pub open spec fn escape_target(d: char) -> Option<char> {
    if d == '\\' {
        Some('\\')
    } else if d == '"' {
        Some('"')
    } else if d == 'n' {
        Some('\n')
    } else if d == 't' {
        Some('\t')
    } else {
        None
    }
}

/// Decodes the body of a TOML basic string; `None` on a bad escape.
pub open spec fn unescape(s: Seq<char>) -> Option<Seq<char>>
    decreases s.len(),
{
    if s.len() == 0 {
        Some(Seq::empty())
    } else if s[0] != '\\' {
        match unescape(s.drop_first()) {
            Some(r) => Some(seq![s[0]] + r),
            None => None,
        }
    } else if s.len() < 2 {
        None
    } else {
        match escape_target(s[1]) {
            None => None,
            Some(c) => match unescape(s.skip(2)) {
                Some(r) => Some(seq![c] + r),
                None => None,
            },
        }
    }
}

/// A string value: a basic string (escapes decoded) or a literal string.
pub open spec fn parse_string_spec(v: Seq<char>) -> Result<Seq<char>, BootConfigError> {
    let t = trim(v);
    if t.len() >= 2 && t[0] == '"' && t.last() == '"' {
        match unescape(t.subrange(1, t.len() - 1)) {
            Some(u) => Ok(u),
            None => Err(BootConfigError::BadEscape),
        }
    } else if t.len() >= 2 && t[0] == '\'' && t.last() == '\'' {
        Ok(t.subrange(1, t.len() - 1))
    } else {
        Err(BootConfigError::Unquoted)
    }
}

/// A boolean value: exactly `true` or `false` once trimmed.
pub open spec fn parse_bool_spec(v: Seq<char>) -> Result<bool, BootConfigError> {
    if trim(v) == "true"@ {
        Ok(true)
    } else if trim(v) == "false"@ {
        Ok(false)
    } else {
        Err(BootConfigError::BadSplash)
    }
}

/// Where the comment of a line starts, scanning from index `i` in lexer state
/// `st`: 0 outside any string, 1 inside a basic string, 2 just after a
/// backslash inside a basic string, 3 inside a literal string. A `#` starts a
/// comment only outside strings; with no comment the result is `s.len()`.
pub open spec fn comment_scan(s: Seq<char>, i: int, st: nat) -> int
    decreases s.len() - i,
{
    if i < 0 || i >= s.len() {
        s.len() as int
    } else if st == 0 {
        if s[i] == '#' {
            i
        } else if s[i] == '"' {
            comment_scan(s, i + 1, 1)
        } else if s[i] == '\'' {
            comment_scan(s, i + 1, 3)
        } else {
            comment_scan(s, i + 1, 0)
        }
    } else if st == 1 {
        if s[i] == '\\' {
            comment_scan(s, i + 1, 2)
        } else if s[i] == '"' {
            comment_scan(s, i + 1, 0)
        } else {
            comment_scan(s, i + 1, 1)
        }
    } else if st == 2 {
        comment_scan(s, i + 1, 1)
    } else if s[i] == '\'' {
        comment_scan(s, i + 1, 0)
    } else {
        comment_scan(s, i + 1, 3)
    }
}

/// The index of the `#` that starts the comment of `raw`: the first one
/// outside a quoted string (`raw.len()` when there is none).
pub open spec fn comment_start(raw: Seq<char>) -> int {
    comment_scan(raw, 0, 0)
}

/// Applies one line (without its `\n`) to `cfg`.
pub open spec fn parse_line_spec(raw: Seq<char>, cfg: BootConfigModel) -> Result<
    BootConfigModel,
    BootConfigError,
> {
    let line = trim(raw.take(comment_start(raw)));
    if line.len() == 0 {
        Ok(cfg)
    } else {
        match split_once(line, '=') {
            None => Err(BootConfigError::ExpectedKeyValue),
            Some((k, v)) => {
                let key = trim(k);
                if key == "timeout"@ {
                    match parse_u32(trim(v)) {
                        Some(t) => Ok(BootConfigModel { timeout: Some(t), ..cfg }),
                        None => Err(BootConfigError::BadTimeout),
                    }
                } else if key == "default_entry"@ {
                    match parse_string_spec(v) {
                        Ok(s) => Ok(BootConfigModel { default_entry: Some(s), ..cfg }),
                        Err(e) => Err(e),
                    }
                } else if key == "theme"@ {
                    match parse_string_spec(v) {
                        Ok(s) => Ok(BootConfigModel { theme: Some(s), ..cfg }),
                        Err(e) => Err(e),
                    }
                } else if key == "splash"@ {
                    match parse_bool_spec(v) {
                        Ok(b) => Ok(BootConfigModel { splash: Some(b), ..cfg }),
                        Err(e) => Err(e),
                    }
                } else if key == "entries_file"@ {
                    match parse_string_spec(v) {
                        Ok(s) => Ok(BootConfigModel { entries_file: Some(s), ..cfg }),
                        Err(e) => Err(e),
                    }
                } else {
                    Ok(cfg)
                }
            },
        }
    }
}

/// Applies every `\n`-separated line of `s`, in order, starting from `cfg`;
/// the first failing line decides the error.
pub open spec fn parse_text(s: Seq<char>, cfg: BootConfigModel) -> Result<
    BootConfigModel,
    BootConfigError,
>
    decreases s.len(),
{
    let i = index_of(s, '\n');
    match parse_line_spec(s.take(i), cfg) {
        Err(e) => Err(e),
        Ok(c) => if 0 <= i < s.len() {
            parse_text(s.skip(i + 1), c)
        } else {
            Ok(c)
        },
    }
}

/// What `parse_boot_config` returns for the document `s`.
pub open spec fn parse_spec(s: Seq<char>) -> Result<BootConfigModel, BootConfigError> {
    parse_text(s, empty_model())
}

/// The view of a parse result.
pub open spec fn result_view(r: Result<BootConfig, BootConfigError>) -> Result<
    BootConfigModel,
    BootConfigError,
> {
    match r {
        Ok(c) => Ok(c@),
        Err(e) => Err(e),
    }
}

// ── Serialization specification ─────────────────────────────────────────────

/// The basic-string escape of one character.
pub open spec fn escape_char(c: char) -> Seq<char> {
    if c == '"' {
        seq!['\\', '"']
    } else if c == '\\' {
        seq!['\\', '\\']
    } else if c == '\n' {
        seq!['\\', 'n']
    } else if c == '\t' {
        seq!['\\', 't']
    } else {
        seq![c]
    }
}

/// The body of a TOML basic string holding `v`.
pub open spec fn escape(v: Seq<char>) -> Seq<char>
    decreases v.len(),
{
    if v.len() == 0 {
        Seq::empty()
    } else {
        escape_char(v[0]) + escape(v.drop_first())
    }
}

/// A TOML string value: a literal string when `v` holds no single quote and
/// no newline, otherwise a basic string (whose escapes cover both).
pub open spec fn quote(v: Seq<char>) -> Seq<char> {
    if !v.contains('\'') && !v.contains('\n') {
        seq!['\''] + v + seq!['\'']
    } else {
        seq!['"'] + escape(v) + seq!['"']
    }
}

/// One `key = value` line with its newline.
pub open spec fn kv_line(key: Seq<char>, value: Seq<char>) -> Seq<char> {
    key + seq![' ', '=', ' '] + value + seq!['\n']
}

/// The text of a boolean.
pub open spec fn bool_text(b: bool) -> Seq<char> {
    if b {
        "true"@
    } else {
        "false"@
    }
}

/// The serialized document: set keys in the order `timeout`, `splash`,
/// `theme`, `default_entry`, `entries_file`; unset keys are omitted.
pub open spec fn serialize_spec(cfg: BootConfigModel) -> Seq<char> {
    let t = match cfg.timeout {
        Some(t) => kv_line("timeout"@, dec(t as nat)),
        None => Seq::empty(),
    };
    let s = match cfg.splash {
        Some(b) => kv_line("splash"@, bool_text(b)),
        None => Seq::empty(),
    };
    let th = match cfg.theme {
        Some(v) => kv_line("theme"@, quote(v)),
        None => Seq::empty(),
    };
    let d = match cfg.default_entry {
        Some(v) => kv_line("default_entry"@, quote(v)),
        None => Seq::empty(),
    };
    let e = match cfg.entries_file {
        Some(v) => kv_line("entries_file"@, quote(v)),
        None => Seq::empty(),
    };
    t + (s + (th + (d + e)))
}

// ── Executable parser ───────────────────────────────────────────────────────

/// Parses a `boot.toml` document. A missing file is not an error: callers
/// treat a failed `read` as an all-default config.
pub fn parse_boot_config(content: &str) -> (r: Result<BootConfig, BootConfigError>)
    ensures
        result_view(r) == parse_spec(content@),
{
    let cs = str_chars(content);
    let mut cfg = BootConfig::empty();
    let mut pos: usize = 0;
    assert(cs@.skip(0) =~= cs@);
    loop
        invariant
            0 <= pos <= cs@.len(),
            parse_spec(content@) == parse_text(cs@.skip(pos as int), cfg@),
            cs@ == content@,
        decreases cs@.len() - pos,
    {
        let ghost rest = cs@.skip(pos as int);
        let j = find_char_from(&cs, pos, '\n');
        proof {
            lemma_index_of(rest, '\n');
        }
        let line = copy_range(&cs, pos, j);
        assert(line@ =~= rest.take(j - pos));
        match parse_line(&line, cfg) {
            Err(e) => {
                return Err(e);
            },
            Ok(c) => {
                cfg = c;
            },
        }
        if j >= cs.len() {
            return Ok(cfg);
        }
        proof {
            assert(rest.skip(j - pos + 1) =~= cs@.skip(j + 1));
        }
        pos = j + 1;
    }
}

/// Index of the first `c` at or after `start` (`s.len()` when absent).
fn find_char_from(s: &[char], start: usize, c: char) -> (i: usize)
    requires
        start <= s@.len(),
    ensures
        i == start + index_of(s@.skip(start as int), c),
{
    let ghost t = s@.skip(start as int);
    let mut i: usize = start;
    while i < s.len()
        invariant
            start <= i <= s@.len(),
            t == s@.skip(start as int),
            forall|j: int| 0 <= j < i - start ==> t[j] != c,
        decreases s@.len() - i,
    {
        if s[i] == c {
            proof {
                lemma_index_of_is(t, c, i - start);
            }
            return i;
        }
        i += 1;
    }
    proof {
        lemma_index_of_is(t, c, i - start);
    }
    i
}

/// Index of the `#` that starts the comment of `raw` (`raw.len()` if none).
fn find_comment(raw: &[char]) -> (h: usize)
    ensures
        h as int == comment_start(raw@),
        h <= raw@.len(),
{
    let mut st: u8 = 0;
    let mut i: usize = 0;
    while i < raw.len()
        invariant
            0 <= i <= raw@.len(),
            st <= 3,
            comment_start(raw@) == comment_scan(raw@, i as int, st as nat),
        decreases raw@.len() - i,
    {
        let c = raw[i];
        if st == 0 {
            if c == '#' {
                return i;
            } else if c == '"' {
                st = 1;
            } else if c == '\'' {
                st = 3;
            }
        } else if st == 1 {
            if c == '\\' {
                st = 2;
            } else if c == '"' {
                st = 0;
            }
        } else if st == 2 {
            st = 1;
        } else if c == '\'' {
            st = 0;
        }
        i += 1;
    }
    i
}

/// Applies one line (without its newline) to `cfg`.
fn parse_line(raw: &[char], cfg: BootConfig) -> (r: Result<BootConfig, BootConfigError>)
    ensures
        result_view(r) == parse_line_spec(raw@, cfg@),
{
    let h = find_comment(raw);
    let pre = copy_range(raw, 0, h);
    assert(pre@ =~= raw@.take(comment_start(raw@)));
    let line = trim_chars(&pre);
    if line.len() == 0 {
        return Ok(cfg);
    }
    let e = find_char(&line, '=');
    proof {
        lemma_index_of(line@, '=');
    }
    if e >= line.len() {
        return Err(BootConfigError::ExpectedKeyValue);
    }
    let k = copy_range(&line, 0, e);
    let v = copy_range(&line, e + 1, line.len());
    assert(k@ =~= line@.take(e as int));
    assert(v@ =~= line@.skip(e + 1));
    let key = trim_chars(&k);
    if chars_eq_str(&key, "timeout") {
        let tv = trim_chars(&v);
        match parse_u32_chars(&tv) {
            Some(t) => Ok(BootConfig { timeout: Some(t), ..cfg }),
            None => Err(BootConfigError::BadTimeout),
        }
    } else if chars_eq_str(&key, "default_entry") {
        match parse_string(&v) {
            Ok(s) => Ok(BootConfig { default_entry: Some(s), ..cfg }),
            Err(e) => Err(e),
        }
    } else if chars_eq_str(&key, "theme") {
        match parse_string(&v) {
            Ok(s) => Ok(BootConfig { theme: Some(s), ..cfg }),
            Err(e) => Err(e),
        }
    } else if chars_eq_str(&key, "splash") {
        match parse_bool(&v) {
            Ok(b) => Ok(BootConfig { splash: Some(b), ..cfg }),
            Err(e) => Err(e),
        }
    } else if chars_eq_str(&key, "entries_file") {
        match parse_string(&v) {
            Ok(s) => Ok(BootConfig { entries_file: Some(s), ..cfg }),
            Err(e) => Err(e),
        }
    } else {
        Ok(cfg)
    }
}

/// Parses a string value (basic or literal TOML string).
fn parse_string(v: &[char]) -> (r: Result<String, BootConfigError>)
    ensures
        match r {
            Ok(s) => parse_string_spec(v@) == Ok::<Seq<char>, BootConfigError>(s@),
            Err(e) => parse_string_spec(v@) == Err::<Seq<char>, BootConfigError>(e),
        },
{
    let t = trim_chars(v);
    let n = t.len();
    if n >= 2 && t[0] == '"' && t[n - 1] == '"' {
        let inner = copy_range(&t, 1, n - 1);
        match unescape_chars(&inner) {
            Some(u) => Ok(chars_to_string(&u)),
            None => Err(BootConfigError::BadEscape),
        }
    } else if n >= 2 && t[0] == '\'' && t[n - 1] == '\'' {
        let inner = copy_range(&t, 1, n - 1);
        Ok(chars_to_string(&inner))
    } else {
        Err(BootConfigError::Unquoted)
    }
}

/// Decodes the body of a basic string.
fn unescape_chars(s: &[char]) -> (r: Option<Vec<char>>)
    ensures
        match r {
            Some(u) => unescape(s@) == Some(u@),
            None => unescape(s@) is None,
        },
{
    let mut out: Vec<char> = Vec::new();
    let mut i: usize = 0;
    assert(s@.skip(0) =~= s@);
    proof {
        match unescape(s@) {
            Some(r) => {
                assert(out@ + r =~= r);
            },
            None => {},
        }
    }
    while i < s.len()
        invariant
            0 <= i <= s@.len(),
            unescape(s@) == match unescape(s@.skip(i as int)) {
                Some(r) => Some(out@ + r),
                None => None,
            },
        decreases s@.len() - i,
    {
        let ghost rest = s@.skip(i as int);
        let c = s[i];
        if c != '\\' {
            assert(rest.drop_first() =~= s@.skip(i + 1));
            proof {
                match unescape(s@.skip(i + 1)) {
                    Some(r) => {
                        assert(out@.push(c) + r =~= out@ + (seq![c] + r));
                    },
                    None => {},
                }
            }
            out.push(c);
            i += 1;
        } else {
            if i + 1 >= s.len() {
                return None;
            }
            let d = s[i + 1];
            let m = if d == '\\' {
                '\\'
            } else if d == '"' {
                '"'
            } else if d == 'n' {
                '\n'
            } else if d == 't' {
                '\t'
            } else {
                return None;
            };
            assert(rest[1] == d);
            assert(rest.skip(2) =~= s@.skip(i + 2));
            proof {
                match unescape(s@.skip(i + 2)) {
                    Some(r) => {
                        assert(out@.push(m) + r =~= out@ + (seq![m] + r));
                    },
                    None => {},
                }
            }
            out.push(m);
            i += 2;
        }
    }
    assert(s@.skip(i as int) =~= Seq::<char>::empty());
    assert(out@ + Seq::<char>::empty() =~= out@);
    Some(out)
}

/// Parses `true` / `false`.
fn parse_bool(v: &[char]) -> (r: Result<bool, BootConfigError>)
    ensures
        r == parse_bool_spec(v@),
{
    let t = trim_chars(v);
    if chars_eq_str(&t, "true") {
        Ok(true)
    } else if chars_eq_str(&t, "false") {
        Ok(false)
    } else {
        Err(BootConfigError::BadSplash)
    }
}

// ── Executable serializer ───────────────────────────────────────────────────

/// Serializes a [`BootConfig`] back to TOML, omitting unset keys — the
/// inverse of [`parse_boot_config`] (see [`lemma_serialize_parse_roundtrip`]),
/// in the same shape the host tools write.
pub fn serialize_boot_config(cfg: &BootConfig) -> (out: String)
    ensures
        out@ == serialize_spec(cfg@),
{
    let mut e: Vec<char> = Vec::new();
    if let Some(v) = &cfg.entries_file {
        e = key_value_line("entries_file", v);
    }
    let mut d: Vec<char> = Vec::new();
    if let Some(v) = &cfg.default_entry {
        d = key_value_line("default_entry", v);
    }
    let mut th: Vec<char> = Vec::new();
    if let Some(v) = &cfg.theme {
        th = key_value_line("theme", v);
    }
    let mut s: Vec<char> = Vec::new();
    if let Some(b) = cfg.splash {
        s = splash_line(b);
    }
    let mut out: Vec<char> = Vec::new();
    if let Some(t) = cfg.timeout {
        out = timeout_line(t);
    }
    let ghost t_part = out@;
    push_all(&mut out, &s);
    push_all(&mut out, &th);
    push_all(&mut out, &d);
    push_all(&mut out, &e);
    assert(out@ =~= t_part + (s@ + (th@ + (d@ + e@))));
    chars_to_string(&out)
}

/// `timeout = <t>\n`.
fn timeout_line(t: u32) -> (line: Vec<char>)
    ensures
        line@ == kv_line("timeout"@, dec(t as nat)),
{
    let mut line: Vec<char> = Vec::new();
    push_str(&mut line, "timeout");
    push_str(&mut line, " = ");
    let digits = dec_chars(t as u64);
    push_all(&mut line, &digits);
    line.push('\n');
    proof {
        reveal_strlit(" = ");
        assert(line@ =~= kv_line("timeout"@, dec(t as nat)));
    }
    line
}

/// `splash = <b>\n`.
fn splash_line(b: bool) -> (line: Vec<char>)
    ensures
        line@ == kv_line("splash"@, bool_text(b)),
{
    let mut line: Vec<char> = Vec::new();
    push_str(&mut line, "splash");
    push_str(&mut line, " = ");
    if b {
        push_str(&mut line, "true");
    } else {
        push_str(&mut line, "false");
    }
    line.push('\n');
    proof {
        reveal_strlit(" = ");
        assert(line@ =~= kv_line("splash"@, bool_text(b)));
    }
    line
}

/// `key = <quoted value>\n`.
fn key_value_line(key: &str, v: &String) -> (line: Vec<char>)
    ensures
        line@ == kv_line(key@, quote(v@)),
{
    let mut line: Vec<char> = Vec::new();
    push_str(&mut line, key);
    push_str(&mut line, " = ");
    let vc = str_chars(v.as_str());
    push_string(&mut line, &vc);
    line.push('\n');
    proof {
        reveal_strlit(" = ");
        assert(line@ =~= kv_line(key@, quote(v@)));
    }
    line
}

/// Appends a TOML string value. Values without a single quote or newline use
/// a TOML literal string (`'...'`, no escapes); the others fall back to a
/// double-quoted basic string with the escapes the parser knows.
fn push_string(out: &mut Vec<char>, v: &[char])
    ensures
        final(out)@ == old(out)@ + quote(v@),
{
    if !contains_char(v, '\'') && !contains_char(v, '\n') {
        out.push('\'');
        push_all(out, v);
        out.push('\'');
        assert(out@ =~= old(out)@ + quote(v@));
    } else {
        out.push('"');
        let ghost start = out@;
        let mut i: usize = 0;
        assert(v@.take(0) =~= Seq::<char>::empty());
        assert(v@.skip(0) =~= v@);
        assert(escape(v@) =~= escape(v@.take(0)) + escape(v@.skip(0)));
        while i < v.len()
            invariant
                0 <= i <= v@.len(),
                out@ == start + escape(v@.take(i as int)),
                escape(v@) == escape(v@.take(i as int)) + escape(v@.skip(i as int)),
            decreases v@.len() - i,
        {
            let c = v[i];
            proof {
                let rest = v@.skip(i as int);
                assert(rest[0] == c);
                assert(rest.drop_first() =~= v@.skip(i + 1));
                lemma_escape_append(v@.take(i as int), c);
                assert(v@.take(i + 1) =~= v@.take(i as int).push(c));
                assert(escape(rest) == escape_char(c) + escape(v@.skip(i + 1)));
                assert(escape(v@) =~= escape(v@.take(i + 1)) + escape(v@.skip(i + 1)));
            }
            if c == '"' {
                out.push('\\');
                out.push('"');
            } else if c == '\\' {
                out.push('\\');
                out.push('\\');
            } else if c == '\n' {
                out.push('\\');
                out.push('n');
            } else if c == '\t' {
                out.push('\\');
                out.push('t');
            } else {
                out.push(c);
            }
            i += 1;
            assert(out@ =~= start + escape(v@.take(i as int)));
        }
        assert(v@.take(v@.len() as int) =~= v@);
        out.push('"');
        assert(out@ =~= old(out)@ + quote(v@));
    }
}

/// Escaping distributes over appending one character.
proof fn lemma_escape_append(s: Seq<char>, c: char)
    ensures
        escape(s.push(c)) == escape(s) + escape_char(c),
    decreases s.len(),
{
    if s.len() == 0 {
        assert(s.push(c).drop_first() =~= Seq::<char>::empty());
        assert(escape(Seq::<char>::empty()) == Seq::<char>::empty());
        assert(s.push(c)[0] == c);
        assert(escape(s.push(c)) == escape_char(c) + escape(Seq::<char>::empty()));
        assert(escape(s.push(c)) =~= escape_char(c));
        assert(escape(s) == Seq::<char>::empty());
        assert(escape(s) + escape_char(c) =~= escape_char(c));
    } else {
        lemma_escape_append(s.drop_first(), c);
        assert(s.push(c).drop_first() =~= s.drop_first().push(c));
        assert(escape(s.push(c)) =~= escape(s) + escape_char(c));
    }
}

// ── The round-trip law ──────────────────────────────────────────────────────

/// Parsing the serialized form of any configuration gives the configuration
/// back.
pub proof fn lemma_serialize_parse_roundtrip(cfg: BootConfig)
    ensures
        parse_spec(serialize_spec(cfg@)) == Ok::<BootConfigModel, BootConfigError>(cfg@),
{
    let m = cfg@;
    reveal_strlit("timeout");
    reveal_strlit("splash");
    reveal_strlit("theme");
    reveal_strlit("default_entry");
    reveal_strlit("entries_file");
    reveal_strlit("true");
    reveal_strlit("false");
    let e = match m.entries_file {
        Some(v) => kv_line("entries_file"@, quote(v)),
        None => Seq::empty(),
    };
    let d = match m.default_entry {
        Some(v) => kv_line("default_entry"@, quote(v)),
        None => Seq::empty(),
    };
    let th = match m.theme {
        Some(v) => kv_line("theme"@, quote(v)),
        None => Seq::empty(),
    };
    let sp = match m.splash {
        Some(b) => kv_line("splash"@, bool_text(b)),
        None => Seq::empty(),
    };
    let t = match m.timeout {
        Some(t) => kv_line("timeout"@, dec(t as nat)),
        None => Seq::empty(),
    };
    let c0 = empty_model();
    let c1 = BootConfigModel { timeout: m.timeout, ..c0 };
    let c2 = BootConfigModel { splash: m.splash, ..c1 };
    let c3 = BootConfigModel { theme: m.theme, ..c2 };
    let c4 = BootConfigModel { default_entry: m.default_entry, ..c3 };
    let c5 = BootConfigModel { entries_file: m.entries_file, ..c4 };
    assert(c5 == m);
    lemma_parse_text_empty(c5);
    // entries_file
    match m.entries_file {
        Some(v) => {
            lemma_string_line("entries_file"@, v, c4);
            lemma_parse_text_line(kv_body("entries_file"@, quote(v)), Seq::empty(), c4);
            assert(e =~= kv_body("entries_file"@, quote(v)) + seq!['\n'] + Seq::<char>::empty());
        },
        None => {
            assert(e =~= Seq::<char>::empty());
        },
    }
    assert(parse_text(e, c4) == Ok::<BootConfigModel, BootConfigError>(c5));
    // default_entry
    match m.default_entry {
        Some(v) => {
            lemma_string_line("default_entry"@, v, c3);
            lemma_parse_text_line(kv_body("default_entry"@, quote(v)), e, c3);
            assert(d + e =~= kv_body("default_entry"@, quote(v)) + seq!['\n'] + e);
        },
        None => {
            assert(d + e =~= e);
        },
    }
    assert(parse_text(d + e, c3) == Ok::<BootConfigModel, BootConfigError>(c5));
    // theme
    match m.theme {
        Some(v) => {
            lemma_string_line("theme"@, v, c2);
            lemma_parse_text_line(kv_body("theme"@, quote(v)), d + e, c2);
            assert(th + (d + e) =~= kv_body("theme"@, quote(v)) + seq!['\n'] + (d + e));
        },
        None => {
            assert(th + (d + e) =~= d + e);
        },
    }
    assert(parse_text(th + (d + e), c2) == Ok::<BootConfigModel, BootConfigError>(c5));
    // splash
    match m.splash {
        Some(b) => {
            let body = kv_body("splash"@, bool_text(b));
            assert(plain(bool_text(b)));
            lemma_kv_plain("splash"@, bool_text(b));
            lemma_kv_line_shape("splash"@, bool_text(b));
            assert(trim(seq![' '] + bool_text(b)) == bool_text(b));
            assert(parse_bool_spec(seq![' '] + bool_text(b)) == Ok::<bool, BootConfigError>(b));
            lemma_parse_text_line(body, th + (d + e), c1);
            assert(sp + (th + (d + e)) =~= body + seq!['\n'] + (th + (d + e)));
        },
        None => {
            assert(sp + (th + (d + e)) =~= th + (d + e));
        },
    }
    assert(parse_text(sp + (th + (d + e)), c1) == Ok::<BootConfigModel, BootConfigError>(c5));
    // timeout
    match m.timeout {
        Some(tv) => {
            let digits = dec(tv as nat);
            lemma_dec_digits(tv as nat);
            lemma_parse_dec(tv);
            assert(is_digit(digits[0]));
            assert(is_digit(digits.last()));
            assert(plain(digits)) by {
                assert forall|k: int| 0 <= k < digits.len() implies digits[k] != '#'
                    && digits[k] != '"' && digits[k] != '\'' by {
                    assert(is_digit(digits[k]));
                }
            }
            assert(!digits.contains('\n')) by {
                if digits.contains('\n') {
                    let k = choose|k: int| 0 <= k < digits.len() && digits[k] == '\n';
                    assert(is_digit(digits[k]));
                }
            }
            let body = kv_body("timeout"@, digits);
            lemma_kv_plain("timeout"@, digits);
            lemma_kv_line_shape("timeout"@, digits);
            lemma_parse_text_line(body, sp + (th + (d + e)), c0);
            assert(t + (sp + (th + (d + e))) =~= body + seq!['\n'] + (sp + (th + (d + e))));
        },
        None => {
            assert(t + (sp + (th + (d + e))) =~= sp + (th + (d + e)));
        },
    }
    assert(serialize_spec(m) == t + (sp + (th + (d + e))));
}

/// The `\n`-separated lines of a document, as the parser visits them: the
/// text after the last newline is a line too (empty when the document ends
/// with a newline).
pub open spec fn nl_lines(s: Seq<char>) -> Seq<Seq<char>>
    decreases s.len(),
{
    let i = index_of(s, '\n');
    if i < s.len() {
        proof {
            lemma_index_of(s, '\n');
        }
        seq![s.take(i)] + nl_lines(s.skip(i + 1))
    } else {
        seq![s]
    }
}

/// Whether the line `l` is refused (whatever was parsed before it).
pub open spec fn line_fails(l: Seq<char>) -> bool {
    parse_line_spec(l, empty_model()) is Err
}

/// Whether a line is refused, and with which error, does not depend on the
/// configuration parsed so far.
proof fn lemma_line_error_alone(l: Seq<char>, c: BootConfigModel)
    ensures
        (parse_line_spec(l, c) is Err) == line_fails(l),
        line_fails(l) ==> parse_line_spec(l, c) == parse_line_spec(l, empty_model()),
{
}

/// A document parsed from any starting configuration fails exactly when
/// one of its lines is refused.
proof fn lemma_parse_text_fails(s: Seq<char>, c: BootConfigModel)
    ensures
        (parse_text(s, c) is Err) <==> (exists|j: int|
            0 <= j < nl_lines(s).len() && #[trigger] line_fails(nl_lines(s)[j])),
    decreases s.len(),
{
    let i = index_of(s, '\n');
    lemma_index_of(s, '\n');
    lemma_line_error_alone(s.take(i), c);
    if i < s.len() {
        let rest = s.skip(i + 1);
        let ls = nl_lines(s);
        assert(ls == seq![s.take(i)] + nl_lines(rest));
        if line_fails(s.take(i)) {
            assert(line_fails(ls[0]));
        } else {
            let c2 = parse_line_spec(s.take(i), c)->Ok_0;
            lemma_parse_text_fails(rest, c2);
            assert(parse_text(s, c) == parse_text(rest, c2));
            if exists|j: int| 0 <= j < nl_lines(rest).len() && #[trigger] line_fails(nl_lines(rest)[j]) {
                let j = choose|j: int| 0 <= j < nl_lines(rest).len() && #[trigger] line_fails(nl_lines(rest)[j]);
                assert(ls[j + 1] == nl_lines(rest)[j]);
            }
            if exists|j: int| 0 <= j < ls.len() && #[trigger] line_fails(ls[j]) {
                let j = choose|j: int| 0 <= j < ls.len() && #[trigger] line_fails(ls[j]);
                assert(j > 0);
                assert(ls[j] == nl_lines(rest)[j - 1]);
            }
        }
    } else {
        assert(s.take(i) =~= s);
        assert(nl_lines(s) == seq![s]);
        if line_fails(s) {
            assert(line_fails(nl_lines(s)[0]));
        }
    }
}

/// `parse_boot_config` refuses a document exactly when one of its lines is
/// refused: a line whose text before its comment is, once trimmed, neither
/// empty nor a `key = value` pair, or a known key with a value of the wrong
/// form (a `timeout` that is no `u32`, a `splash` other than `true` or
/// `false`, a string key whose value is no well-formed quoted string).
pub proof fn lemma_parse_fails_iff(s: Seq<char>)
    ensures
        (parse_spec(s) is Err) <==> (exists|j: int|
            0 <= j < nl_lines(s).len() && #[trigger] line_fails(nl_lines(s)[j])),
{
    lemma_parse_text_fails(s, empty_model());
}

/// A `key = value` line without its newline.
pub open spec fn kv_body(key: Seq<char>, value: Seq<char>) -> Seq<char> {
    key + seq![' ', '=', ' '] + value
}

/// The document that is just `\n`-free text `l`, a newline, then `rest` is
/// parsed line `l` first, then `rest`.
proof fn lemma_parse_text_line(l: Seq<char>, rest: Seq<char>, c: BootConfigModel)
    requires
        !l.contains('\n'),
    ensures
        parse_text(l + seq!['\n'] + rest, c) == match parse_line_spec(l, c) {
            Err(e) => Err(e),
            Ok(c2) => parse_text(rest, c2),
        },
{
    let s = l + seq!['\n'] + rest;
    assert forall|j: int| 0 <= j < l.len() implies s[j] != '\n' by {
        assert(s[j] == l[j]);
        if s[j] == '\n' {
            assert(l.contains('\n'));
        }
    }
    lemma_index_of_is(s, '\n', l.len() as int);
    assert(s.take(l.len() as int) =~= l);
    assert(s.skip(l.len() as int + 1) =~= rest);
}

/// The empty document leaves the configuration unchanged.
proof fn lemma_parse_text_empty(c: BootConfigModel)
    ensures
        parse_text(Seq::empty(), c) == Ok::<BootConfigModel, BootConfigError>(c),
{
    let s = Seq::<char>::empty();
    lemma_index_of(s, '\n');
    assert(s.take(0) =~= s);
    assert(comment_start(s) == 0);
    assert(s.take(0) =~= s);
    assert(trim(s) =~= s);
}

/// The shape of a serialized `key = value` line: nothing is cut off as a
/// comment or trimmed, it splits at the `=` after the key, and both halves
/// trim back to the key and the value.
proof fn lemma_kv_line_shape(key: Seq<char>, value: Seq<char>)
    requires
        key.len() > 0,
        !is_ws(key[0]),
        !is_ws(key.last()),
        !key.contains('='),
        !key.contains('\n'),
        value.len() > 0,
        !is_ws(value[0]),
        !is_ws(value.last()),
        !value.contains('\n'),
        comment_start(kv_body(key, value)) == kv_body(key, value).len(),
    ensures
        !kv_body(key, value).contains('\n'),
        trim(kv_body(key, value).take(comment_start(kv_body(key, value)))) == kv_body(key, value),
        split_once(kv_body(key, value), '=') == Some((key + seq![' '], seq![' '] + value)),
        trim(key + seq![' ']) == key,
        trim(seq![' '] + value) == value,
{
    let l = kv_body(key, value);
    let n = key.len() as int;
    assert forall|j: int| 0 <= j < l.len() implies l[j] != '\n' by {
        if j < n {
            assert(l[j] == key[j]);
            if l[j] == '\n' {
                assert(key.contains('\n'));
            }
        } else if j >= n + 3 {
            assert(l[j] == value[j - n - 3]);
            if l[j] == '\n' {
                assert(value.contains('\n'));
            }
        }
    }
    assert(!l.contains('\n'));
    assert(l.take(l.len() as int) =~= l);
    assert(l[0] == key[0]);
    assert(l.last() == value.last());
    lemma_trim_fixed(l);
    assert forall|j: int| 0 <= j < n + 1 implies l[j] != '=' by {
        if j < n {
            assert(l[j] == key[j]);
            if l[j] == '=' {
                assert(key.contains('='));
            }
        }
    }
    assert(l[n + 1] == '=');
    lemma_index_of_is(l, '=', n + 1);
    assert(l.take(n + 1) =~= key + seq![' ']);
    assert(l.skip(n + 2) =~= seq![' '] + value);
    lemma_trim_trailing_space(key);
    lemma_trim_leading_space(value);
}

/// A serialized string value line parses back to the value.
proof fn lemma_string_line(key: Seq<char>, v: Seq<char>, c: BootConfigModel)
    requires
        key == "entries_file"@ || key == "default_entry"@ || key == "theme"@,
    ensures
        !kv_body(key, quote(v)).contains('\n'),
        parse_line_spec(kv_body(key, quote(v)), c) == Ok::<BootConfigModel, BootConfigError>(
            if key == "entries_file"@ {
                BootConfigModel { entries_file: Some(v), ..c }
            } else if key == "default_entry"@ {
                BootConfigModel { default_entry: Some(v), ..c }
            } else {
                BootConfigModel { theme: Some(v), ..c }
            },
        ),
{
    reveal_strlit("timeout");
    reveal_strlit("splash");
    reveal_strlit("theme");
    reveal_strlit("default_entry");
    reveal_strlit("entries_file");
    let q = quote(v);
    lemma_quote(v);
    assert(!key.contains('=')) by {
        if key.contains('=') {
            let k = choose|k: int| 0 <= k < key.len() && key[k] == '=';
        }
    }
    assert(plain(key));
    assert(!key.contains('\n')) by {
        if key.contains('\n') {
            let k = choose|k: int| 0 <= k < key.len() && key[k] == '\n';
        }
    }
    lemma_kv_quoted(key, v);
    lemma_kv_line_shape(key, q);
}

/// The quoted form of a value is bounded by quote characters, holds no
/// newline, and parses back to the value.
proof fn lemma_quote(v: Seq<char>)
    ensures
        quote(v).len() >= 2,
        quote(v)[0] == '\'' || quote(v)[0] == '"',
        quote(v).last() == '\'' || quote(v).last() == '"',
        !quote(v).contains('\n'),
        parse_string_spec(seq![' '] + quote(v)) == Ok::<Seq<char>, BootConfigError>(v),
{
    let q = quote(v);
    if !v.contains('\'') && !v.contains('\n') {
        assert(q == seq!['\''] + v + seq!['\'']);
        assert forall|j: int| 0 <= j < q.len() implies q[j] != '\n' by {
            if 0 < j < q.len() - 1 {
                assert(q[j] == v[j - 1]);
                if q[j] == '\n' {
                    assert(v.contains('\n'));
                }
            }
        }
        lemma_trim_leading_space(q);
        assert(q.subrange(1, q.len() - 1) =~= v);
    } else {
        let body = escape(v);
        assert(q == seq!['"'] + body + seq!['"']);
        lemma_escape_clean(v);
        assert forall|j: int| 0 <= j < q.len() implies q[j] != '\n' by {
            if 0 < j < q.len() - 1 {
                assert(q[j] == body[j - 1]);
                if q[j] == '\n' {
                    assert(body.contains('\n'));
                }
            }
        }
        lemma_trim_leading_space(q);
        assert(q.subrange(1, q.len() - 1) =~= body);
        lemma_unescape_escape(v);
    }
}

/// Escaping never produces a newline.
proof fn lemma_escape_clean(v: Seq<char>)
    ensures
        !escape(v).contains('\n'),
    decreases v.len(),
{
    if v.len() > 0 {
        let r = v.drop_first();
        lemma_escape_clean(r);
        let a = escape_char(v[0]);
        let e = escape(v);
        assert(e == a + escape(r));
        assert forall|j: int| 0 <= j < e.len() implies e[j] != '\n' by {
            if j >= a.len() {
                assert(e[j] == escape(r)[j - a.len()]);
                if e[j] == '\n' {
                    assert(escape(r).contains('\n'));
                }
            }
        }
    }
}

/// No character of `s` is a `#` or a quote.
spec fn plain(s: Seq<char>) -> bool {
    forall|k: int| 0 <= k < s.len() ==> s[k] != '#' && s[k] != '"' && s[k] != '\''
}

/// Outside strings, plain characters keep the scanner outside strings.
proof fn lemma_scan_plain(s: Seq<char>, i: int, j: int)
    requires
        0 <= i <= j <= s.len(),
        forall|k: int| i <= k < j ==> s[k] != '#' && s[k] != '"' && s[k] != '\'',
    ensures
        comment_scan(s, i, 0) == comment_scan(s, j, 0),
    decreases j - i,
{
    if i < j {
        lemma_scan_plain(s, i + 1, j);
    }
}

/// Inside a literal string, characters other than `'` keep the scanner there.
proof fn lemma_scan_literal(s: Seq<char>, i: int, j: int)
    requires
        0 <= i <= j <= s.len(),
        forall|k: int| i <= k < j ==> s[k] != '\'',
    ensures
        comment_scan(s, i, 3) == comment_scan(s, j, 3),
    decreases j - i,
{
    if i < j {
        lemma_scan_literal(s, i + 1, j);
    }
}

/// Inside a basic string, an escaped body keeps the scanner inside it.
proof fn lemma_scan_escaped(s: Seq<char>, i: int, v: Seq<char>)
    requires
        0 <= i,
        i + escape(v).len() <= s.len(),
        forall|k: int| 0 <= k < escape(v).len() ==> s[i + k] == escape(v)[k],
    ensures
        comment_scan(s, i, 1) == comment_scan(s, i + escape(v).len(), 1),
    decreases v.len(),
{
    if v.len() > 0 {
        let r = v.drop_first();
        let a = escape_char(v[0]);
        let e = escape(v);
        assert(e == a + escape(r));
        assert forall|k: int| 0 <= k < escape(r).len() implies s[i + a.len() + k] == escape(
            r,
        )[k] by {
            assert(e[a.len() + k] == escape(r)[k]);
        }
        lemma_scan_escaped(s, i + a.len(), r);
        assert(s[i] == e[0]);
        if a.len() == 1 {
            assert(s[i] != '\\' && s[i] != '"');
            assert(comment_scan(s, i, 1) == comment_scan(s, i + 1, 1));
        } else {
            assert(s[i] == '\\');
            assert(comment_scan(s, i, 1) == comment_scan(s, i + 1, 2));
            assert(comment_scan(s, i + 1, 2) == comment_scan(s, i + 2, 1));
        }
    }
}

/// A `key = value` line of plain text has no comment.
proof fn lemma_kv_plain(key: Seq<char>, value: Seq<char>)
    requires
        plain(key),
        plain(value),
    ensures
        comment_start(kv_body(key, value)) == kv_body(key, value).len(),
{
    let l = kv_body(key, value);
    let n = key.len() as int;
    assert forall|k: int| 0 <= k < l.len() implies l[k] != '#' && l[k] != '"' && l[k] != '\''
        by {
        if k < n {
            assert(l[k] == key[k]);
        } else if k >= n + 3 {
            assert(l[k] == value[k - n - 3]);
        }
    }
    lemma_scan_plain(l, 0, l.len() as int);
}

/// A serialized `key = <quoted value>` line has no comment, whatever the
/// value holds.
proof fn lemma_kv_quoted(key: Seq<char>, v: Seq<char>)
    requires
        plain(key),
    ensures
        comment_start(kv_body(key, quote(v))) == kv_body(key, quote(v)).len(),
{
    let q = quote(v);
    let l = kv_body(key, q);
    let n = key.len() as int;
    let m = l.len() as int;
    assert forall|k: int| 0 <= k < n + 3 implies l[k] != '#' && l[k] != '"' && l[k] != '\''
        by {
        if k < n {
            assert(l[k] == key[k]);
        }
    }
    lemma_scan_plain(l, 0, n + 3);
    if !v.contains('\'') && !v.contains('\n') {
        assert(q == seq!['\''] + v + seq!['\'']);
        assert(l[n + 3] == '\'');
        assert forall|k: int| n + 4 <= k < m - 1 implies l[k] != '\'' by {
            assert(l[k] == v[k - n - 4]);
        }
        lemma_scan_literal(l, n + 4, m - 1);
        assert(l[m - 1] == '\'');
        assert(comment_scan(l, n + 3, 0) == comment_scan(l, n + 4, 3));
        assert(comment_scan(l, m - 1, 3) == comment_scan(l, m, 0));
    } else {
        let body = escape(v);
        assert(q == seq!['"'] + body + seq!['"']);
        assert(l[n + 3] == '"');
        assert forall|k: int| 0 <= k < body.len() implies l[n + 4 + k] == body[k] by {}
        lemma_scan_escaped(l, n + 4, v);
        assert(l[m - 1] == '"');
        assert(comment_scan(l, n + 3, 0) == comment_scan(l, n + 4, 1));
        assert(comment_scan(l, m - 1, 1) == comment_scan(l, m, 0));
    }
}

/// Decoding an escaped value gives the value back.
proof fn lemma_unescape_escape(v: Seq<char>)
    ensures
        unescape(escape(v)) == Some(v),
    decreases v.len(),
{
    if v.len() == 0 {
        assert(escape(v) =~= Seq::<char>::empty());
        assert(v =~= Seq::<char>::empty());
    } else {
        let r = v.drop_first();
        lemma_unescape_escape(r);
        let c = v[0];
        let a = escape_char(c);
        let s = a + escape(r);
        assert(escape(v) == s);
        if a.len() == 1 {
            assert(s[0] == c);
            assert(s.drop_first() =~= escape(r));
        } else {
            assert(s[0] == '\\');
            assert(s.skip(2) =~= escape(r));
        }
        assert(seq![c] + r =~= v);
    }
}

// ── Host-side key access (`config get` / `config set`) ───────────────────────

/// The keys the tools manage, in their documented order.
pub fn config_keys() -> (keys: Vec<&'static str>)
    ensures
        keys@.len() == 5,
        keys@[0]@ == "timeout"@,
        keys@[1]@ == "default_entry"@,
        keys@[2]@ == "theme"@,
        keys@[3]@ == "splash"@,
        keys@[4]@ == "entries_file"@,
{
    let mut keys: Vec<&'static str> = Vec::new();
    keys.push("timeout");
    keys.push("default_entry");
    keys.push("theme");
    keys.push("splash");
    keys.push("entries_file");
    keys
}

/// The text `config get <key>` prints: the value of a set key, `None` for an
/// unset or unknown key.
pub open spec fn field_spec(c: BootConfigModel, key: Seq<char>) -> Option<Seq<char>> {
    if key == "timeout"@ {
        match c.timeout {
            Some(t) => Some(dec(t as nat)),
            None => None,
        }
    } else if key == "default_entry"@ {
        c.default_entry
    } else if key == "theme"@ {
        c.theme
    } else if key == "splash"@ {
        match c.splash {
            Some(b) => Some(bool_text(b)),
            None => None,
        }
    } else if key == "entries_file"@ {
        c.entries_file
    } else {
        None
    }
}

/// Why `config set` refused a key/value pair.
#[derive(Debug, Clone, Copy, PartialEq, Eq)]
pub enum SetFieldError {
    /// `timeout` takes a number of seconds.
    BadTimeout,
    /// `splash` takes `true` or `false`.
    BadSplash,
    /// The key is not one of the managed keys.
    UnknownKey,
}

/// The configuration after `config set <key> <value>`, or why it is refused.
/// Values are taken verbatim (no trimming); `splash` accepts exactly the two
/// booleans the bootloader's parser accepts.
pub open spec fn set_field_spec(c: BootConfigModel, key: Seq<char>, value: Seq<char>) -> Result<
    BootConfigModel,
    SetFieldError,
> {
    if key == "timeout"@ {
        match parse_u32(value) {
            Some(n) => Ok(BootConfigModel { timeout: Some(n), ..c }),
            None => Err(SetFieldError::BadTimeout),
        }
    } else if key == "default_entry"@ {
        Ok(BootConfigModel { default_entry: Some(value), ..c })
    } else if key == "theme"@ {
        Ok(BootConfigModel { theme: Some(value), ..c })
    } else if key == "splash"@ {
        if value == "true"@ {
            Ok(BootConfigModel { splash: Some(true), ..c })
        } else if value == "false"@ {
            Ok(BootConfigModel { splash: Some(false), ..c })
        } else {
            Err(SetFieldError::BadSplash)
        }
    } else if key == "entries_file"@ {
        Ok(BootConfigModel { entries_file: Some(value), ..c })
    } else {
        Err(SetFieldError::UnknownKey)
    }
}

impl BootConfig {
    /// The value of `key` as text, if the key is known and set.
    pub fn field(&self, key: &str) -> (r: Option<String>)
        ensures
            opt_view(r) == field_spec(self@, key@),
    {
        let k = str_chars(key);
        if chars_eq_str(&k, "timeout") {
            match self.timeout {
                Some(t) => {
                    let d = dec_chars(t as u64);
                    Some(chars_to_string(&d))
                },
                None => None,
            }
        } else if chars_eq_str(&k, "default_entry") {
            self.default_entry.clone()
        } else if chars_eq_str(&k, "theme") {
            self.theme.clone()
        } else if chars_eq_str(&k, "splash") {
            match self.splash {
                Some(b) => Some(String::from_str(if b {
                    "true"
                } else {
                    "false"
                })),
                None => None,
            }
        } else if chars_eq_str(&k, "entries_file") {
            self.entries_file.clone()
        } else {
            None
        }
    }

    /// Sets `key` to `value`; on a refusal the configuration is unchanged.
    pub fn set_field(&mut self, key: &str, value: &str) -> (r: Result<(), SetFieldError>)
        ensures
            match set_field_spec(old(self)@, key@, value@) {
                Ok(c) => r is Ok && final(self)@ == c,
                Err(e) => r == Err::<(), SetFieldError>(e) && final(self)@ == old(self)@,
            },
    {
        let k = str_chars(key);
        if chars_eq_str(&k, "timeout") {
            let v = str_chars(value);
            match parse_u32_chars(&v) {
                Some(n) => {
                    self.timeout = Some(n);
                    Ok(())
                },
                None => Err(SetFieldError::BadTimeout),
            }
        } else if chars_eq_str(&k, "default_entry") {
            self.default_entry = Some(String::from_str(value));
            Ok(())
        } else if chars_eq_str(&k, "theme") {
            self.theme = Some(String::from_str(value));
            Ok(())
        } else if chars_eq_str(&k, "splash") {
            let v = str_chars(value);
            if chars_eq_str(&v, "true") {
                self.splash = Some(true);
                Ok(())
            } else if chars_eq_str(&v, "false") {
                self.splash = Some(false);
                Ok(())
            } else {
                Err(SetFieldError::BadSplash)
            }
        } else if chars_eq_str(&k, "entries_file") {
            self.entries_file = Some(String::from_str(value));
            Ok(())
        } else {
            Err(SetFieldError::UnknownKey)
        }
    }
}

/// What `config get` prints for `key` right after a successful
/// `config set <key> <value>`: the value itself, or for `timeout` the decimal
/// form of the number it denotes; every other key keeps its value.
pub proof fn lemma_set_then_get(cfg: BootConfig, key: Seq<char>, value: Seq<char>, other: Seq<char>)
    requires
        set_field_spec(cfg@, key, value) is Ok,
        other != key,
    ensures
        ({
            let c2 = set_field_spec(cfg@, key, value)->Ok_0;
            &&& field_spec(c2, key) == Some(
                if key == "timeout"@ {
                    dec(parse_u32(value)->Some_0 as nat)
                } else {
                    value
                },
            )
            &&& field_spec(c2, other) == field_spec(cfg@, other)
        }),
{
    reveal_strlit("timeout");
    reveal_strlit("splash");
    reveal_strlit("theme");
    reveal_strlit("default_entry");
    reveal_strlit("entries_file");
    reveal_strlit("true");
    reveal_strlit("false");
}

} // verus!
