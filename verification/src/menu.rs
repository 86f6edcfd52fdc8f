//! The menuconfig-style editor of `boot.toml`: reading the bootloader's
//! `entries.jsonc`, the rows of the main menu, and what each menu action
//! does to the configuration.
use vstd::prelude::*;
use crate::boot_config::{BootConfig, opt_view};
use crate::text::{
    chars_to_string, dec, dec_chars, parse_u32, parse_u32_chars, push_all, push_str, str_chars,
    trim, trim_chars,
};

verus! {

// ── JSONC comments ──────────────────────────────────────────────────────────

/// Where the comment stripper stands.
#[derive(PartialEq, Eq, Structural, Clone, Copy)]
pub enum JState {
    /// Ordinary JSON text.
    Code,
    /// Inside a string literal.
    Str,
    /// Inside a string literal, right after a backslash.
    Esc,
    /// Inside a `//` comment.
    Line,
    /// Inside a `/* */` comment; whether the character before was `*`.
    Block(bool),
}

/// What stripping emits for `s[i..]`, starting in state `st`.
pub open spec fn strip_rest(s: Seq<char>, i: int, st: JState) -> Seq<char>
    decreases s.len() - i,
{
    if i < 0 || i >= s.len() {
        seq![]
    } else {
        let c = s[i];
        match st {
            JState::Str => seq![c] + strip_rest(
                s,
                i + 1,
                if c == '\\' {
                    JState::Esc
                } else if c == '"' {
                    JState::Code
                } else {
                    JState::Str
                },
            ),
            JState::Esc => seq![c] + strip_rest(s, i + 1, JState::Str),
            JState::Code => if c == '"' {
                seq![c] + strip_rest(s, i + 1, JState::Str)
            } else if c == '/' && i + 1 < s.len() && s[i + 1] == '/' {
                strip_rest(s, i + 2, JState::Line)
            } else if c == '/' && i + 1 < s.len() && s[i + 1] == '*' {
                strip_rest(s, i + 2, JState::Block(false))
            } else {
                seq![c] + strip_rest(s, i + 1, JState::Code)
            },
            JState::Line => if c == '\n' {
                seq!['\n'] + strip_rest(s, i + 1, JState::Code)
            } else {
                strip_rest(s, i + 1, JState::Line)
            },
            JState::Block(star) => if star && c == '/' {
                strip_rest(s, i + 1, JState::Code)
            } else {
                strip_rest(s, i + 1, JState::Block(c == '*'))
            },
        }
    }
}

/// `input` with `//` line comments (the newline kept) and `/* */` block
/// comments removed; comment markers inside string literals are text.
pub open spec fn strip_jsonc(s: Seq<char>) -> Seq<char> {
    strip_rest(s, 0, JState::Code)
}

/// Removes the comments of JSONC text so a JSON parser can read it.
pub fn strip_jsonc_comments(input: &str) -> (r: String)
    ensures
        r@ == strip_jsonc(input@),
{
    let s = str_chars(input);
    let mut out: Vec<char> = Vec::new();
    let mut st = JState::Code;
    let mut i: usize = 0;
    while i < s.len()
        invariant
            0 <= i <= s.len() + 1,
            out@ + strip_rest(s@, i as int, st) == strip_jsonc(s@),
            s@ == input@,
        decreases s.len() + 1 - i,
    {
        let c = s[i];
        let ghost before = out@;
        let ghost i0 = i as int;
        let ghost st0 = st;
        assert(s@[i0] == c);
        match st {
            JState::Str => {
                out.push(c);
                st = if c == '\\' {
                    JState::Esc
                } else if c == '"' {
                    JState::Code
                } else {
                    JState::Str
                };
                i += 1;
                assert(strip_rest(s@, i0, st0) == seq![c] + strip_rest(s@, i as int, st));
            },
            JState::Esc => {
                out.push(c);
                st = JState::Str;
                i += 1;
                assert(strip_rest(s@, i0, st0) == seq![c] + strip_rest(s@, i as int, st));
            },
            JState::Code => {
                if c == '"' {
                    out.push(c);
                    st = JState::Str;
                    i += 1;
                    assert(strip_rest(s@, i0, st0) == seq![c] + strip_rest(s@, i as int, st));
                } else if c == '/' && i + 1 < s.len() && s[i + 1] == '/' {
                    st = JState::Line;
                    i += 2;
                    assert(strip_rest(s@, i0, st0) == strip_rest(s@, i as int, st));
                } else if c == '/' && i + 1 < s.len() && s[i + 1] == '*' {
                    st = JState::Block(false);
                    i += 2;
                    assert(strip_rest(s@, i0, st0) == strip_rest(s@, i as int, st));
                } else {
                    out.push(c);
                    i += 1;
                    assert(strip_rest(s@, i0, st0) == seq![c] + strip_rest(s@, i as int, st));
                }
            },
            JState::Line => {
                if c == '\n' {
                    out.push('\n');
                    st = JState::Code;
                    i += 1;
                    assert(strip_rest(s@, i0, st0) == seq!['\n'] + strip_rest(s@, i as int, st));
                } else {
                    i += 1;
                    assert(strip_rest(s@, i0, st0) == strip_rest(s@, i as int, st));
                }
            },
            JState::Block(star) => {
                if star && c == '/' {
                    st = JState::Code;
                } else {
                    st = JState::Block(c == '*');
                }
                i += 1;
                assert(strip_rest(s@, i0, st0) == strip_rest(s@, i as int, st));
            },
        }
        assert(out@ + strip_rest(s@, i as int, st) =~= before + strip_rest(s@, i0, st0));
    }
    chars_to_string(&out)
}


/// Text with no `/` outside string literals is left as it is; only
/// comments go.
proof fn lemma_strip_plain(s: Seq<char>, i: int, st: JState)
    requires
        0 <= i <= s.len(),
        st == JState::Code || st == JState::Str || st == JState::Esc,
        forall|j: int| 0 <= j < s.len() ==> s[j] != '/',
    ensures
        strip_rest(s, i, st) == s.skip(i),
    decreases s.len() - i,
{
    if i < s.len() {
        let c = s[i];
        let next = match st {
            JState::Str => if c == '\\' { JState::Esc } else if c == '"' { JState::Code } else { JState::Str },
            JState::Esc => JState::Str,
            _ => if c == '"' { JState::Str } else { JState::Code },
        };
        lemma_strip_plain(s, i + 1, next);
        assert(s.skip(i) =~= seq![c] + s.skip(i + 1));
    } else {
        assert(s.skip(i) =~= Seq::<char>::empty());
    }
}

/// JSON without a `/` anywhere passes through unchanged.
pub proof fn lemma_strip_no_slash(s: Seq<char>)
    requires
        forall|j: int| 0 <= j < s.len() ==> s[j] != '/',
    ensures
        strip_jsonc(s) == s,
{
    lemma_strip_plain(s, 0, JState::Code);
    assert(s.skip(0) =~= s);
}

// ── Menu rows ───────────────────────────────────────────────────────────────

/// Width the labels of the main menu are padded to.
pub const LABEL_WIDTH: usize = 34;

/// `n` spaces.
pub open spec fn spaces(n: nat) -> Seq<char> {
    Seq::new(n, |_i: int| ' ')
}

/// `label` left-aligned in a field of [`LABEL_WIDTH`] characters, then `value`.
pub open spec fn padded(label: Seq<char>, value: Seq<char>) -> Seq<char> {
    if label.len() < LABEL_WIDTH {
        label + spaces((LABEL_WIDTH - label.len()) as nat) + value
    } else {
        label + value
    }
}

/// One menu row: the label padded to the value column, then the value.
pub fn pad_label(label: &str, value: &str) -> (r: String)
    ensures
        r@ == padded(label@, value@),
{
    let mut out = str_chars(label);
    let ghost l = out@;
    if out.len() < LABEL_WIDTH {
        let n = LABEL_WIDTH - out.len();
        let mut k: usize = 0;
        while k < n
            invariant
                0 <= k <= n,
                n == LABEL_WIDTH - l.len(),
                out@ == l + spaces(k as nat),
            decreases n - k,
        {
            out.push(' ');
            k += 1;
            assert(out@ =~= l + spaces(k as nat));
        }
    }
    let ghost mid = out@;
    push_str(&mut out, value);
    assert(out@ =~= padded(l, value@));
    chars_to_string(&out)
}

/// What a row of the main menu does when chosen.
#[derive(PartialEq, Eq, Structural, Clone, Copy, Debug)]
pub enum MenuAction {
    ToggleSplash,
    EditTimeout,
    EditTheme,
    EditEntriesFile,
    EditDefaultEntry,
    ViewEntries,
    ViewSecureBoot,
    Save,
    SaveAndQuit,
    QuitWithoutSaving,
}

/// `(text)`.
pub open spec fn paren(t: Seq<char>) -> Seq<char> {
    seq!['('] + t + seq![')']
}

/// An optional string, or `d` when unset.
pub open spec fn or_else(o: Option<Seq<char>>, d: Seq<char>) -> Seq<char> {
    match o {
        Some(s) => s,
        None => d,
    }
}

/// The rows of the main menu for `c`, in order, with the action of each.
pub open spec fn menu_rows_spec(c: crate::boot_config::BootConfigModel) -> Seq<(Seq<char>, MenuAction)> {
    seq![
        (padded("[Boot Timeout (seconds)]"@, paren(dec(match c.timeout { Some(t) => t as nat, None => 5 }))), MenuAction::EditTimeout),
        (padded("[Show Boot Menu (splash)]"@, if match c.splash { Some(b) => b, None => true } { "[*]"@ } else { "[ ]"@ }), MenuAction::ToggleSplash),
        (padded("[Splash Theme]"@, paren(or_else(c.theme, "default"@))), MenuAction::EditTheme),
        (padded("[Entries File]"@, or_else(c.entries_file, "\\EFI\\leon\\entries.jsonc"@)), MenuAction::EditEntriesFile),
        (padded("[Default Boot Entry]"@, paren(or_else(c.default_entry, "auto"@))), MenuAction::EditDefaultEntry),
        (padded("[Discovered Boot Entries]"@, "--->"@), MenuAction::ViewEntries),
        (padded("[Secure Boot Status]"@, "--->"@), MenuAction::ViewSecureBoot),
    ]
}

/// The views of the rows.
pub open spec fn rows_view(v: Seq<(String, MenuAction)>) -> Seq<(Seq<char>, MenuAction)> {
    v.map_values(|r: (String, MenuAction)| (r.0@, r.1))
}

fn paren_string(t: &[char]) -> (r: String)
    ensures
        r@ == paren(t@),
{
    let mut v: Vec<char> = Vec::new();
    v.push('(');
    push_all(&mut v, t);
    v.push(')');
    assert(v@ =~= paren(t@));
    chars_to_string(&v)
}

fn or_default_chars(o: &Option<String>, d: &str) -> (r: Vec<char>)
    ensures
        r@ == or_else(opt_view(*o), d@),
{
    match o {
        Some(s) => str_chars(s.as_str()),
        None => str_chars(d),
    }
}

/// The rows of the main menu, each a padded label and value with its action.
pub fn menu_rows(c: &BootConfig) -> (v: Vec<(String, MenuAction)>)
    ensures
        rows_view(v@) == menu_rows_spec(c@),
{
    let mut v: Vec<(String, MenuAction)> = Vec::new();
    let t: u64 = match c.timeout {
        Some(t) => t as u64,
        None => 5,
    };
    let td = dec_chars(t);
    let tv = paren_string(&td);
    v.push((pad_label("[Boot Timeout (seconds)]", tv.as_str()), MenuAction::EditTimeout));
    let on = match c.splash {
        Some(b) => b,
        None => true,
    };
    let sv = if on {
        "[*]"
    } else {
        "[ ]"
    };
    v.push((pad_label("[Show Boot Menu (splash)]", sv), MenuAction::ToggleSplash));
    let th = or_default_chars(&c.theme, "default");
    let thv = paren_string(&th);
    v.push((pad_label("[Splash Theme]", thv.as_str()), MenuAction::EditTheme));
    let ef = or_default_chars(&c.entries_file, "\\EFI\\leon\\entries.jsonc");
    let efs = chars_to_string(&ef);
    v.push((pad_label("[Entries File]", efs.as_str()), MenuAction::EditEntriesFile));
    let de = or_default_chars(&c.default_entry, "auto");
    let dev = paren_string(&de);
    v.push((pad_label("[Default Boot Entry]", dev.as_str()), MenuAction::EditDefaultEntry));
    v.push((pad_label("[Discovered Boot Entries]", "--->"), MenuAction::ViewEntries));
    v.push((pad_label("[Secure Boot Status]", "--->"), MenuAction::ViewSecureBoot));
    assert(rows_view(v@) =~= menu_rows_spec(c@));
    v
}

/// The line above the menu: the file being edited, marked when unsaved.
pub open spec fn header_spec(path: Seq<char>, dirty: bool) -> Seq<char> {
    "Editing: "@ + path + if dirty { " (unsaved changes)"@ } else { ""@ }
}

/// The line above the menu.
pub fn menu_header(path: &str, dirty: bool) -> (r: String)
    ensures
        r@ == header_spec(path@, dirty),
{
    let mut v = str_chars("Editing: ");
    push_str(&mut v, path);
    if dirty {
        push_str(&mut v, " (unsaved changes)");
    }
    proof {
        reveal_strlit("");
    }
    assert(v@ =~= header_spec(path@, dirty));
    chars_to_string(&v)
}

// ── Edits ───────────────────────────────────────────────────────────────────

/// A change the user made in one of the menu's dialogs.
pub enum Edit {
    /// Flip whether the boot menu is shown.
    ToggleSplash,
    /// The text typed into the timeout dialog.
    Timeout(String),
    /// The text typed into the theme dialog.
    Theme(String),
    /// The text typed into the entries-file dialog.
    EntriesFile(String),
    /// The text typed into the default-entry dialog (blank means automatic).
    DefaultEntry(String),
    /// A discovered entry picked from the list.
    PickEntry(String),
}

/// The configuration after `e`, or `None` when the typed text is refused
/// (a timeout that is not a whole number of seconds).
pub open spec fn edit_spec(c: crate::boot_config::BootConfigModel, e: Edit) -> Option<crate::boot_config::BootConfigModel> {
    match e {
        Edit::ToggleSplash => Some(crate::boot_config::BootConfigModel {
            splash: Some(!match c.splash { Some(b) => b, None => true }),
            ..c
        }),
        Edit::Timeout(t) => match parse_u32(t@) {
            Some(n) => Some(crate::boot_config::BootConfigModel { timeout: Some(n), ..c }),
            None => None,
        },
        Edit::Theme(t) => Some(crate::boot_config::BootConfigModel { theme: Some(trim(t@)), ..c }),
        Edit::EntriesFile(t) => Some(crate::boot_config::BootConfigModel { entries_file: Some(trim(t@)), ..c }),
        Edit::DefaultEntry(t) => Some(crate::boot_config::BootConfigModel {
            default_entry: if trim(t@).len() == 0 { None } else { Some(trim(t@)) },
            ..c
        }),
        Edit::PickEntry(t) => Some(crate::boot_config::BootConfigModel { default_entry: Some(t@), ..c }),
    }
}

/// Each edit changes its own key and no other: a theme or entries-file
/// edit stores the trimmed text; a default-entry edit stores the trimmed
/// text, or clears the key for blank text; picking an entry stores its
/// label as given; a timeout edit stores the number and is refused exactly
/// when the text is no `u32`; toggling the splash turns it off when it was
/// on or unset and on when it was off.
pub proof fn lemma_edit_fields(c: crate::boot_config::BootConfigModel, e: Edit)
    ensures
        ({
            let r = edit_spec(c, e);
            match e {
                Edit::ToggleSplash => r matches Some(n) && n.splash == Some(c.splash == Some(false))
                    && n.timeout == c.timeout && n.theme == c.theme && n.default_entry == c.default_entry
                    && n.entries_file == c.entries_file,
                Edit::Timeout(t) => (r is Some <==> parse_u32(t@) is Some) && (r matches Some(n) ==> n.timeout
                    == parse_u32(t@) && n.splash == c.splash && n.theme == c.theme && n.default_entry
                    == c.default_entry && n.entries_file == c.entries_file),
                Edit::Theme(t) => r matches Some(n) && n.theme == Some(trim(t@)) && n.timeout == c.timeout
                    && n.splash == c.splash && n.default_entry == c.default_entry && n.entries_file
                    == c.entries_file,
                Edit::EntriesFile(t) => r matches Some(n) && n.entries_file == Some(trim(t@)) && n.timeout
                    == c.timeout && n.splash == c.splash && n.default_entry == c.default_entry && n.theme
                    == c.theme,
                Edit::DefaultEntry(t) => r matches Some(n) && (trim(t@).len() == 0 ==> n.default_entry is None)
                    && (trim(t@).len() > 0 ==> n.default_entry == Some(trim(t@))) && n.timeout == c.timeout
                    && n.splash == c.splash && n.theme == c.theme && n.entries_file == c.entries_file,
                Edit::PickEntry(t) => r matches Some(n) && n.default_entry == Some(t@) && n.timeout
                    == c.timeout && n.splash == c.splash && n.theme == c.theme && n.entries_file
                    == c.entries_file,
            }
        }),
{
}

/// Applies `e` to `c`; `false`, with `c` unchanged, when the text is refused.
pub fn apply_edit(c: &mut BootConfig, e: Edit) -> (ok: bool)
    ensures
        ok == (edit_spec(old(c)@, e) is Some),
        ok ==> final(c)@ == edit_spec(old(c)@, e)->0,
        !ok ==> final(c)@ == old(c)@,
{
    match e {
        Edit::ToggleSplash => {
            let on = match c.splash {
                Some(b) => b,
                None => true,
            };
            c.splash = Some(!on);
            true
        },
        Edit::Timeout(t) => {
            let tc = str_chars(t.as_str());
            match parse_u32_chars(&tc) {
                Some(n) => {
                    c.timeout = Some(n);
                    true
                },
                None => false,
            }
        },
        Edit::Theme(t) => {
            let tc = str_chars(t.as_str());
            let v = trim_chars(&tc);
            c.theme = Some(chars_to_string(&v));
            true
        },
        Edit::EntriesFile(t) => {
            let tc = str_chars(t.as_str());
            let v = trim_chars(&tc);
            c.entries_file = Some(chars_to_string(&v));
            true
        },
        Edit::DefaultEntry(t) => {
            let tc = str_chars(t.as_str());
            let v = trim_chars(&tc);
            if v.len() == 0 {
                c.default_entry = None;
            } else {
                c.default_entry = Some(chars_to_string(&v));
            }
            true
        },
        Edit::PickEntry(t) => {
            c.default_entry = Some(t);
            true
        },
    }
}

/// The text a dialog starts from: the current value, or nothing when unset.
pub open spec fn prefill_spec(c: crate::boot_config::BootConfigModel, a: MenuAction) -> Seq<char> {
    match a {
        MenuAction::EditTimeout => match c.timeout {
            Some(t) => dec(t as nat),
            None => seq![],
        },
        MenuAction::EditTheme => or_else(c.theme, seq![]),
        MenuAction::EditEntriesFile => or_else(c.entries_file, seq![]),
        MenuAction::EditDefaultEntry => or_else(c.default_entry, seq![]),
        _ => seq![],
    }
}

/// The text the edit dialog of `a` starts from.
pub fn prefill(c: &BootConfig, a: MenuAction) -> (r: String)
    ensures
        r@ == prefill_spec(c@, a),
{
    let v: Vec<char> = match a {
        MenuAction::EditTimeout => match c.timeout {
            Some(t) => dec_chars(t as u64),
            None => Vec::new(),
        },
        MenuAction::EditTheme => or_default_chars(&c.theme, ""),
        MenuAction::EditEntriesFile => or_default_chars(&c.entries_file, ""),
        MenuAction::EditDefaultEntry => or_default_chars(&c.default_entry, ""),
        _ => Vec::new(),
    };
    proof {
        reveal_strlit("");
    }
    assert(v@ =~= prefill_spec(c@, a));
    chars_to_string(&v)
}

/// The body of the "Discovered Boot Entries" dialog.
pub open spec fn entries_body_spec(entries: Option<Seq<Seq<char>>>, path: Option<Seq<char>>) -> Seq<char> {
    match (entries, path) {
        (Some(es), Some(p)) => if es.len() > 0 {
            "From "@ + p + ":\n\n"@ + entry_lines(es)
        } else {
            no_entries_text()
        },
        _ => no_entries_text(),
    }
}

/// Each entry on a line of its own, as `  - entry`.
pub open spec fn entry_lines(es: Seq<Seq<char>>) -> Seq<char>
    decreases es.len(),
{
    if es.len() == 0 {
        seq![]
    } else {
        entry_lines(es.drop_last()) + "  - "@ + es.last() + seq!['\n']
    }
}

/// What the entries dialog says when nothing was found.
pub open spec fn no_entries_text() -> Seq<char> {
    NO_ENTRIES@
}

/// The explanation shown when no `entries.jsonc` was read.
pub const NO_ENTRIES: &'static str = "No entries.jsonc was found at any of the usual ESP mount points.\n\nLeon writes this file to \\EFI\\leon\\entries.jsonc on every boot \u{2014}\nmount your ESP and pass its path as the 2nd argument to lbm, e.g.:\n\n  lbm ~/.config/leon/boot.toml /boot/efi/EFI/leon/entries.jsonc";

/// The body of the "Discovered Boot Entries" dialog for the entries read
/// from `path`.
pub fn entries_body(entries: &Option<Vec<String>>, path: &Option<String>) -> (r: String)
    ensures
        r@ == entries_body_spec(
            match entries {
                Some(es) => Some(es@.map_values(|s: String| s@)),
                None => None,
            },
            opt_view(*path),
        ),
{
    match (entries, path) {
        (Some(es), Some(p)) => {
            if es.len() > 0 {
                let mut v = str_chars("From ");
                push_str(&mut v, p.as_str());
                push_str(&mut v, ":\n\n");
                let ghost head = v@;
                let ghost ev = es@.map_values(|s: String| s@);
                let mut k: usize = 0;
                while k < es.len()
                    invariant
                        0 <= k <= es.len(),
                        ev == es@.map_values(|s: String| s@),
                        v@ == head + entry_lines(ev.take(k as int)),
                    decreases es.len() - k,
                {
                    push_str(&mut v, "  - ");
                    push_str(&mut v, es[k].as_str());
                    v.push('\n');
                    assert(ev.take(k + 1).drop_last() =~= ev.take(k as int));
                    k += 1;
                    assert(v@ =~= head + entry_lines(ev.take(k as int)));
                }
                assert(ev.take(es.len() as int) =~= ev);
                chars_to_string(&v)
            } else {
                chars_to_string(&str_chars(NO_ENTRIES))
            }
        },
        _ => chars_to_string(&str_chars(NO_ENTRIES)),
    }
}

/// How one entry of `entries.jsonc` is shown: the first of its `label`,
/// `name`, `path`, `file` and `vendor` text fields that it has, else its
/// JSON text.
pub open spec fn describe_spec(fields: Seq<Option<Seq<char>>>, json: Seq<char>) -> Seq<char>
    decreases fields.len(),
{
    if fields.len() == 0 {
        json
    } else {
        match fields[0] {
            Some(t) => t,
            None => describe_spec(fields.drop_first(), json),
        }
    }
}

/// The text shown for an entry whose `label`, `name`, `path`, `file` and
/// `vendor` fields, in that order, are `fields` (`None` where absent or
/// not text), and whose JSON text is `json`.
pub fn describe_entry(fields: &[Option<String>], json: &str) -> (r: String)
    ensures
        r@ == describe_spec(fields@.map_values(|o: Option<String>| opt_view(o)), json@),
{
    let ghost fv = fields@.map_values(|o: Option<String>| opt_view(o));
    let mut i: usize = 0;
    assert(fv.skip(0) =~= fv);
    while i < fields.len()
        invariant
            fv == fields@.map_values(|o: Option<String>| opt_view(o)),
            0 <= i <= fields@.len(),
            describe_spec(fv, json@) == describe_spec(fv.skip(i as int), json@),
        decreases fields@.len() - i,
    {
        assert(fv.skip(i as int)[0] == opt_view(fields@[i as int]));
        match &fields[i] {
            Some(t) => {
                return chars_to_string(&str_chars(t.as_str()));
            },
            None => {},
        }
        assert(fv.skip(i as int).drop_first() =~= fv.skip(i + 1));
        i += 1;
    }
    assert(fv.skip(i as int).len() == 0);
    chars_to_string(&str_chars(json))
}

// ── The editing session ─────────────────────────────────────────────────────

/// What happens to the session: a row was chosen, an edit dialog was
/// confirmed (`true` when the value was accepted), or writing the
/// configuration finished.
#[derive(PartialEq, Eq, Structural, Clone, Copy, Debug)]
pub enum SessionEvent {
    Chose(MenuAction),
    EditConfirmed(bool),
    SaveDone { ok: bool, then_quit: bool },
}

/// What the front end does next.
#[derive(PartialEq, Eq, Structural, Clone, Copy, Debug)]
pub enum SessionEffect {
    /// Draw the menu again (its header shows whether there are unsaved changes).
    Redraw,
    /// Open the dialog of the chosen row.
    OpenDialog,
    /// Write the configuration, then report back with `SaveDone`.
    Write { then_quit: bool },
    /// Ask whether to quit and drop the unsaved changes.
    ConfirmQuit,
    /// Leave the menu.
    Quit,
    /// Tell the user the configuration could not be written.
    ReportSaveError,
    /// Tell the user the value was refused (timeout not a number).
    ReportBadValue,
}

/// The session's decisions: the new unsaved-changes flag and what to do.
pub open spec fn session_spec(dirty: bool, ev: SessionEvent) -> (bool, SessionEffect) {
    match ev {
        SessionEvent::Chose(a) => match a {
            MenuAction::ToggleSplash => (true, SessionEffect::Redraw),
            MenuAction::Save => (dirty, SessionEffect::Write { then_quit: false }),
            MenuAction::SaveAndQuit => (dirty, SessionEffect::Write { then_quit: true }),
            MenuAction::QuitWithoutSaving => (dirty, if dirty {
                SessionEffect::ConfirmQuit
            } else {
                SessionEffect::Quit
            }),
            _ => (dirty, SessionEffect::OpenDialog),
        },
        SessionEvent::EditConfirmed(accepted) => if accepted {
            (true, SessionEffect::Redraw)
        } else {
            (dirty, SessionEffect::ReportBadValue)
        },
        SessionEvent::SaveDone { ok, then_quit } => if !ok {
            (dirty, SessionEffect::ReportSaveError)
        } else if then_quit {
            (dirty, SessionEffect::Quit)
        } else {
            (false, SessionEffect::Redraw)
        },
    }
}

/// One decision of the editing session. Toggling the splash and every
/// accepted edit leave unsaved changes; a written configuration leaves
/// none; quitting with unsaved changes asks first.
pub fn session_step(dirty: bool, ev: SessionEvent) -> (r: (bool, SessionEffect))
    ensures
        r == session_spec(dirty, ev),
{
    match ev {
        SessionEvent::Chose(a) => match a {
            MenuAction::ToggleSplash => (true, SessionEffect::Redraw),
            MenuAction::Save => (dirty, SessionEffect::Write { then_quit: false }),
            MenuAction::SaveAndQuit => (dirty, SessionEffect::Write { then_quit: true }),
            MenuAction::QuitWithoutSaving => (dirty, if dirty {
                SessionEffect::ConfirmQuit
            } else {
                SessionEffect::Quit
            }),
            _ => (dirty, SessionEffect::OpenDialog),
        },
        SessionEvent::EditConfirmed(accepted) => if accepted {
            (true, SessionEffect::Redraw)
        } else {
            (dirty, SessionEffect::ReportBadValue)
        },
        SessionEvent::SaveDone { ok, then_quit } => if !ok {
            (dirty, SessionEffect::ReportSaveError)
        } else if then_quit {
            (dirty, SessionEffect::Quit)
        } else {
            (false, SessionEffect::Redraw)
        },
    }
}

/// Unsaved changes are never dropped silently: the session quits only with
/// nothing unsaved, or right after the configuration was written; a failed
/// write keeps the changes marked unsaved; a successful one clears the mark.
pub proof fn lemma_session_keeps_changes(dirty: bool, ev: SessionEvent)
    ensures
        session_spec(dirty, ev).1 == SessionEffect::Quit ==> !dirty || ev == (SessionEvent::SaveDone {
            ok: true,
            then_quit: true,
        }),
        ev matches SessionEvent::SaveDone { ok, .. } && !ok ==> session_spec(dirty, ev).0 == dirty,
        ev == (SessionEvent::SaveDone { ok: true, then_quit: false }) ==> !session_spec(dirty, ev).0,
{
}

} // verus!
