//! The keyboard-driven boot-manager menu: the entries it lists, where they
//! come from, and how every key changes what is shown.
//!
//! Keys: `↑↓/jk` move, `PgUp/PgDn` page, `Home/End` jump, `1-9/0` jump to an
//! entry by position, `/` search (live filter), `n` next match / `N`,`p`
//! previous match, `d` details, `h` help, `r` refresh, `s`/space/Enter
//! boot-preview, `Esc` dismiss (help → preview → filter → quit), `q` quit.
use vstd::prelude::*;
use crate::boot_config::{BootConfig, field_spec, opt_view};
use crate::discovery::{BootEntry, entry_view};
use crate::text::{
    ascii_lower, before_first, chars_to_string, is_ascii_text, contains_chars, contains_seq, copy_range, dec, dec_chars,
    find_char, index_of, lemma_index_of, lines_of, parse_u32, parse_u32_chars, push_all, push_str,
    split_lines, str_chars, trim, trim_chars,
};

verus! {

/// One boot entry shown in the menu.
pub struct Entry {
    pub label: String,
    pub path: String,
    pub source: String,
}

/// The live state the menu renders: geometry, entries, and boot config.
pub struct Context {
    pub entries: Vec<Entry>,
    pub width: u32,
    pub height: u32,
    pub stride: u32,
    pub format: String,
    pub timeout: String,
    pub default: String,
    pub splash: String,
}

impl Default for Context {
    fn default() -> (c: Context)
        ensures
            c.entries@.len() == 0,
            c.width == 0 && c.height == 0 && c.stride == 0,
            c.format@ == Seq::<char>::empty() && c.timeout@ == Seq::<char>::empty(),
            c.default@ == Seq::<char>::empty() && c.splash@ == Seq::<char>::empty(),
    {
        Context {
            entries: Vec::new(),
            width: 0,
            height: 0,
            stride: 0,
            format: chars_to_string(&Vec::new()),
            timeout: chars_to_string(&Vec::new()),
            default: chars_to_string(&Vec::new()),
            splash: chars_to_string(&Vec::new()),
        }
    }
}

/// The labels of the entries, in order.
pub open spec fn labels(es: Seq<Entry>) -> Seq<Seq<char>> {
    es.map_values(|e: Entry| e.label@)
}

/// What `str::to_lowercase` gives for a text: its Unicode lowercase mapping
/// (which looks at the neighbours of a Greek capital sigma to pick its final
/// form), a function of the text alone.
pub uninterp spec fn lower_case(s: Seq<char>) -> Seq<char>;

/// Calls `str::to_lowercase`. The contract claims that the result is
/// [`lower_case`] of the text, a function of the text alone, and that an
/// all-ASCII text (the empty one included) is lowercased by the ASCII rule;
/// what the Unicode mapping produces for other characters is left unsaid.
#[verifier::external_body]
fn to_lower(s: &str) -> (r: String)
    ensures
        r@ == lower_case(s@),
        is_ascii_text(s@) ==> r@ == ascii_lower(s@),
{
    s.to_lowercase()
}

/// What `str::to_lowercase` gives for `s`: the ASCII rule on ASCII text,
/// [`lower_case`] otherwise.
pub open spec fn lower_text(s: Seq<char>) -> Seq<char> {
    if is_ascii_text(s) {
        ascii_lower(s)
    } else {
        lower_case(s)
    }
}

// ── The model ───────────────────────────────────────────────────────────────

/// What the menu shows, apart from the context it was given.
pub struct Ui {
    /// Indices into the entries that pass the filter, in order.
    pub filtered: Seq<usize>,
    /// Position within `filtered` of the selection marker.
    pub selected: int,
    /// Top visible row within `filtered`.
    pub scroll: int,
    /// Number of list rows the last drawing had room for.
    pub page: int,
    /// The search text.
    pub filter: Seq<char>,
    /// Whether the search line is being typed.
    pub editing: bool,
    pub details: bool,
    pub help: bool,
    pub preview: bool,
    /// One-shot message shown in the header.
    pub status: Option<Seq<char>>,
    pub quit: bool,
}

/// Whether an entry labelled `l` passes the lowercased query `q`.
pub open spec fn shown(l: Seq<char>, q: Seq<char>) -> bool {
    q.len() == 0 || contains_seq(lower_text(l), q)
}

/// The indices among the first `n` labels that pass the query, in order.
pub open spec fn filter_idx(ls: Seq<Seq<char>>, q: Seq<char>, n: nat) -> Seq<usize>
    decreases n,
{
    if n == 0 {
        seq![]
    } else {
        let r = filter_idx(ls, q, (n - 1) as nat);
        if shown(ls[n - 1], q) {
            r.push((n - 1) as usize)
        } else {
            r
        }
    }
}

/// The indices among the first `n` already-lowercased labels that contain
/// the query (all of them for an empty query), in order.
pub open spec fn match_idx(lls: Seq<Seq<char>>, q: Seq<char>, n: nat) -> Seq<usize>
    decreases n,
{
    if n == 0 {
        seq![]
    } else {
        let r = match_idx(lls, q, (n - 1) as nat);
        if q.len() == 0 || contains_seq(lls[n - 1], q) {
            r.push((n - 1) as usize)
        } else {
            r
        }
    }
}

/// The indices `0..n`, in order: every entry.
pub open spec fn all_indices(n: nat) -> Seq<usize> {
    Seq::new(n, |i: int| i as usize)
}

/// The scroll offset moved the least that brings the selection into view.
pub open spec fn ensure_visible_spec(u: Ui) -> Ui {
    if u.page == 0 || u.filtered.len() == 0 {
        u
    } else if u.selected < u.scroll {
        Ui { scroll: u.selected, ..u }
    } else if u.selected >= u.scroll + u.page {
        Ui { scroll: u.selected + 1 - u.page, ..u }
    } else {
        u
    }
}

/// The last valid position in a list of `n` rows (`0` when empty).
pub open spec fn top(n: int) -> int {
    if n <= 0 {
        0
    } else {
        n - 1
    }
}

/// The visible list recomputed from the filter, the selection clamped.
pub open spec fn rebuild_spec(u: Ui, ls: Seq<Seq<char>>) -> Ui {
    let f = filter_idx(ls, lower_text(u.filter), ls.len());
    let t = top(f.len() as int);
    ensure_visible_spec(Ui { filtered: f, selected: if u.selected < t { u.selected } else { t }, ..u })
}

/// `x` clamped into `[lo, hi]`.
pub open spec fn clamp(x: int, lo: int, hi: int) -> int {
    if x < lo {
        lo
    } else if x > hi {
        hi
    } else {
        x
    }
}

/// The selection moved by `d` rows, without wrapping.
pub open spec fn move_spec(u: Ui, d: int) -> Ui {
    if u.filtered.len() == 0 {
        u
    } else {
        ensure_visible_spec(Ui { selected: clamp(u.selected + d, 0, u.filtered.len() - 1), ..u })
    }
}

/// A single-step move (arrows, `j`/`k`, `n`/`N`/`p`): it walks the entries
/// the filter currently matches, so it never lands past the last of them.
pub open spec fn step_spec(u: Ui, ls: Seq<Seq<char>>, d: int) -> Ui {
    move_spec(rebuild_spec(u, ls), d)
}

/// The page size used by PgUp/PgDn.
pub open spec fn page_size(u: Ui) -> int {
    if u.page < 1 {
        1
    } else {
        u.page
    }
}

/// Home.
pub open spec fn to_start_spec(u: Ui) -> Ui {
    if u.filtered.len() == 0 {
        u
    } else {
        Ui { selected: 0, scroll: 0, ..u }
    }
}

/// End.
pub open spec fn to_end_spec(u: Ui) -> Ui {
    if u.filtered.len() == 0 {
        u
    } else {
        let s = u.filtered.len() - 1;
        Ui { selected: s, scroll: if u.page > 0 && s + 1 > u.page { s + 1 - u.page } else { u.scroll }, ..u }
    }
}

/// A key as the terminal reports it.
#[derive(PartialEq, Eq, Structural, Clone, Copy, Debug)]
pub enum KeyCode {
    Char(char),
    Backspace,
    Delete,
    Enter,
    Esc,
    Up,
    Down,
    PageUp,
    PageDown,
    Home,
    End,
    /// Any other key (function keys, Tab, ...).
    Other,
}

/// Whether a key went down, repeats, or went up.
#[derive(PartialEq, Eq, Structural, Clone, Copy, Debug)]
pub enum KeyEventKind {
    Press,
    Repeat,
    Release,
}

/// One key event: the key, whether Ctrl was held, and its kind.
#[derive(PartialEq, Eq, Structural, Clone, Copy, Debug)]
pub struct KeyEvent {
    pub code: KeyCode,
    pub ctrl: bool,
    pub kind: KeyEventKind,
}

/// What the caller must do after a key: nothing, or re-read the context
/// and hand it to [`App::refresh`].
#[derive(PartialEq, Eq, Structural, Clone, Copy, Debug)]
pub enum Request {
    Nothing,
    Refresh,
}

/// `char::is_control`: the Unicode control characters (category Cc).
pub open spec fn is_control(c: char) -> bool {
    (c as u32) < 0x20 || (0x7f <= (c as u32) && (c as u32) <= 0x9f)
}

/// A key while the search line is being typed.
pub open spec fn editing_spec(u: Ui, ls: Seq<Seq<char>>, k: KeyEvent) -> Ui {
    match k.code {
        KeyCode::Char(c) => if k.ctrl && c == 'u' {
            rebuild_spec(Ui { filter: seq![], ..u }, ls)
        } else if k.ctrl && c == 'c' {
            Ui { quit: true, ..u }
        } else if is_control(c) {
            u
        } else {
            rebuild_spec(Ui { filter: u.filter.push(c), ..u }, ls)
        },
        KeyCode::Backspace | KeyCode::Delete => rebuild_spec(
            Ui { filter: if u.filter.len() > 0 { u.filter.drop_last() } else { u.filter }, ..u },
            ls,
        ),
        KeyCode::Enter => rebuild_spec(Ui { editing: false, ..u }, ls),
        KeyCode::Esc => rebuild_spec(Ui { filter: seq![], editing: false, ..u }, ls),
        _ => u,
    }
}

/// The entry position a digit key jumps to (`1`-`9`, then `0` for the tenth).
pub open spec fn digit_target(c: char) -> int {
    if c == '0' {
        9
    } else {
        (c as u32) - ('1' as u32)
    }
}

/// A key while browsing the list.
pub open spec fn browsing_spec(u: Ui, ls: Seq<Seq<char>>, k: KeyEvent) -> (Ui, Request) {
    let u0 = Ui { status: None, ..u };
    match k.code {
        KeyCode::Char(c) => if c == 'q' || c == 'Q' || (c == 'c' && k.ctrl) {
            (Ui { quit: true, ..u0 }, Request::Nothing)
        } else if c == '/' {
            (rebuild_spec(Ui { filter: seq![], editing: true, help: false, preview: false, ..u0 }, ls), Request::Nothing)
        } else if c == 'n' || c == 'j' {
            (step_spec(u0, ls, 1), Request::Nothing)
        } else if c == 'N' || c == 'p' || c == 'k' {
            (step_spec(u0, ls, -1), Request::Nothing)
        } else if c == 'd' {
            (Ui { details: !u0.details, ..u0 }, Request::Nothing)
        } else if c == 'h' || c == '?' {
            (Ui { help: !u0.help, ..u0 }, Request::Nothing)
        } else if c == 'r' {
            (rebuild_spec(Ui {
                filter: seq![],
                editing: false,
                help: false,
                preview: false,
                selected: 0,
                scroll: 0,
                ..u0
            }, ls), Request::Refresh)
        } else if c == 's' || c == ' ' {
            (Ui { preview: !u0.preview, ..u0 }, Request::Nothing)
        } else if '0' <= c && c <= '9' {
            if digit_target(c) < u0.filtered.len() {
                (ensure_visible_spec(Ui { selected: digit_target(c), ..u0 }), Request::Nothing)
            } else {
                (u0, Request::Nothing)
            }
        } else {
            (u0, Request::Nothing)
        },
        KeyCode::Esc => if u0.help {
            (Ui { help: false, ..u0 }, Request::Nothing)
        } else if u0.preview {
            (Ui { preview: false, ..u0 }, Request::Nothing)
        } else if u0.filter.len() > 0 {
            (Ui { selected: 0, ..rebuild_spec(Ui { filter: seq![], ..u0 }, ls) }, Request::Nothing)
        } else {
            (Ui { quit: true, ..u0 }, Request::Nothing)
        },
        KeyCode::Enter => (Ui { preview: !u0.preview, ..u0 }, Request::Nothing),
        KeyCode::Up => (step_spec(u0, ls, -1), Request::Nothing),
        KeyCode::Down => (step_spec(u0, ls, 1), Request::Nothing),
        KeyCode::PageUp => (move_spec(u0, -page_size(u0)), Request::Nothing),
        KeyCode::PageDown => (move_spec(u0, page_size(u0)), Request::Nothing),
        KeyCode::Home => (to_start_spec(u0), Request::Nothing),
        KeyCode::End => (to_end_spec(u0), Request::Nothing),
        _ => (u0, Request::Nothing),
    }
}

/// What a key does to the menu: releases are ignored; while the search
/// line is open keys edit it, otherwise they browse.
pub open spec fn on_key_spec(u: Ui, ls: Seq<Seq<char>>, k: KeyEvent) -> (Ui, Request) {
    if k.kind == KeyEventKind::Release {
        (u, Request::Nothing)
    } else if u.editing {
        (editing_spec(u, ls, k), Request::Nothing)
    } else {
        browsing_spec(u, ls, k)
    }
}

/// The message shown after a refresh.
pub open spec fn refreshed_text(total: nat, shown: nat) -> Seq<char> {
    "refreshed: "@ + dec(total) + " entries, "@ + dec(shown) + " shown"@
}

// ── The application ─────────────────────────────────────────────────────────

/// A boot-preview pane (what `s`/space/Enter shows).
pub struct Preview {
    pub open: bool,
}

/// The menu application. State is kept here so every redraw is
/// deterministic.
pub struct App {
    pub context: Context,
    /// Indices into `context.entries` currently visible (after the filter).
    pub filtered: Vec<usize>,
    /// Position within `filtered` that the `▶` marker points at.
    pub selected: usize,
    /// Top visible row within `filtered`.
    pub scroll_offset: usize,
    /// Cached number of list rows currently visible.
    pub page_height: usize,
    /// The `/` search query. Empty means no filter.
    pub filter: String,
    /// True while the user is typing the query (the prompt line is shown).
    pub editing: bool,
    pub show_details: bool,
    pub show_help: bool,
    pub preview: Preview,
    /// One-shot status message shown in the header (e.g. after a refresh).
    pub status: Option<String>,
    pub quit: bool,
}

impl App {
    /// The menu state as a model.
    pub open spec fn ui(&self) -> Ui {
        Ui {
            filtered: self.filtered@,
            selected: self.selected as int,
            scroll: self.scroll_offset as int,
            page: self.page_height as int,
            filter: self.filter@,
            editing: self.editing,
            details: self.show_details,
            help: self.show_help,
            preview: self.preview.open,
            status: match self.status {
                Some(s) => Some(s@),
                None => None,
            },
            quit: self.quit,
        }
    }

    /// The labels of the context's entries.
    pub open spec fn labels(&self) -> Seq<Seq<char>> {
        labels(self.context.entries@)
    }

    /// A menu over `context`, nothing filtered, the first entry selected.
    pub fn new(context: Context) -> (app: App)
        ensures
            app.context == context,
            app.ui() == rebuild_spec(
                Ui {
                    filtered: seq![],
                    selected: 0,
                    scroll: 0,
                    page: 0,
                    filter: seq![],
                    editing: false,
                    details: false,
                    help: false,
                    preview: false,
                    status: None,
                    quit: false,
                },
                labels(context.entries@),
            ),
            app.ui().filtered == all_indices(context.entries@.len()),
            app.ui().selected == 0,
    {
        let mut app = App {
            context,
            filtered: Vec::new(),
            selected: 0,
            scroll_offset: 0,
            page_height: 0,
            filter: chars_to_string(&Vec::new()),
            editing: false,
            show_details: false,
            show_help: false,
            preview: Preview { open: false },
            status: None,
            quit: false,
        };
        assert(app.ui().filter =~= seq![]);
        assert(app.ui().filtered =~= seq![]);
        app.rebuild_filter();
        proof {
            lemma_filter_all(labels(context.entries@), context.entries@.len());
        }
        app
    }

    fn set_filter(&mut self, f: &Vec<char>)
        ensures
            final(self).ui() == (Ui { filter: f@, ..old(self).ui() }),
            final(self).context == old(self).context,
    {
        self.filter = chars_to_string(f);
    }

    /// Handles one key event; asks for a refresh of the context on `r`.
    pub fn on_key(&mut self, key: KeyEvent) -> (r: Request)
        ensures
            (final(self).ui(), r) == on_key_spec(old(self).ui(), old(self).labels(), key),
            final(self).context == old(self).context,
    {
        if key.kind == KeyEventKind::Release {
            return Request::Nothing;
        }
        if self.editing {
            self.on_key_editing(key);
            Request::Nothing
        } else {
            self.on_key_browsing(key)
        }
    }

    fn on_key_editing(&mut self, key: KeyEvent)
        requires
            old(self).editing,
        ensures
            final(self).ui() == editing_spec(old(self).ui(), old(self).labels(), key),
            final(self).context == old(self).context,
    {
        match key.code {
            KeyCode::Char(c) => {
                if key.ctrl && c == 'u' {
                    self.set_filter(&Vec::new());
                    self.rebuild_filter();
                } else if key.ctrl && c == 'c' {
                    self.quit = true;
                } else if (c as u32) < 0x20 || (0x7f <= (c as u32) && (c as u32) <= 0x9f) {
                } else {
                    let mut f = str_chars(self.filter.as_str());
                    f.push(c);
                    self.set_filter(&f);
                    self.rebuild_filter();
                }
            },
            KeyCode::Backspace | KeyCode::Delete => {
                let mut f = str_chars(self.filter.as_str());
                if f.len() > 0 {
                    f.pop();
                }
                self.set_filter(&f);
                self.rebuild_filter();
            },
            KeyCode::Enter => {
                self.editing = false;
                self.rebuild_filter();
            },
            KeyCode::Esc => {
                self.set_filter(&Vec::new());
                self.editing = false;
                self.rebuild_filter();
            },
            _ => {},
        }
    }

    fn on_key_browsing(&mut self, key: KeyEvent) -> (r: Request)
        requires
            !old(self).editing,
        ensures
            (final(self).ui(), r) == browsing_spec(old(self).ui(), old(self).labels(), key),
            final(self).context == old(self).context,
    {
        self.status = None;
        match key.code {
            KeyCode::Char(c) => {
                if c == 'q' || c == 'Q' || (c == 'c' && key.ctrl) {
                    self.quit = true;
                } else if c == '/' {
                    self.set_filter(&Vec::new());
                    self.editing = true;
                    self.show_help = false;
                    self.preview.open = false;
                    self.rebuild_filter();
                } else if c == 'n' || c == 'j' {
                    self.rebuild_filter();
                    self.move_selection(true, 1);
                } else if c == 'N' || c == 'p' || c == 'k' {
                    self.rebuild_filter();
                    self.move_selection(false, 1);
                } else if c == 'd' {
                    self.show_details = !self.show_details;
                } else if c == 'h' || c == '?' {
                    self.show_help = !self.show_help;
                } else if c == 'r' {
                    self.set_filter(&Vec::new());
                    self.editing = false;
                    self.show_help = false;
                    self.preview.open = false;
                    self.selected = 0;
                    self.scroll_offset = 0;
                    self.rebuild_filter();
                    return Request::Refresh;
                } else if c == 's' || c == ' ' {
                    self.preview.open = !self.preview.open;
                } else if '0' <= c && c <= '9' {
                    let nth: usize = if c == '0' {
                        9
                    } else {
                        ((c as u32) - ('1' as u32)) as usize
                    };
                    if nth < self.filtered.len() {
                        self.selected = nth;
                        self.ensure_visible();
                    }
                }
            },
            KeyCode::Esc => {
                if self.show_help {
                    self.show_help = false;
                } else if self.preview.open {
                    self.preview.open = false;
                } else if str_chars(self.filter.as_str()).len() > 0 {
                    self.set_filter(&Vec::new());
                    self.rebuild_filter();
                    self.selected = 0;
                } else {
                    self.quit = true;
                }
            },
            KeyCode::Enter => {
                self.preview.open = !self.preview.open;
            },
            KeyCode::Up => {
                self.rebuild_filter();
                self.move_selection(false, 1);
            },
            KeyCode::Down => {
                self.rebuild_filter();
                self.move_selection(true, 1);
            },
            KeyCode::PageUp => {
                let page = if self.page_height < 1 {
                    1
                } else {
                    self.page_height
                };
                self.move_selection(false, page);
            },
            KeyCode::PageDown => {
                let page = if self.page_height < 1 {
                    1
                } else {
                    self.page_height
                };
                self.move_selection(true, page);
            },
            KeyCode::Home => self.move_selection_to_start(),
            KeyCode::End => self.move_selection_to_end(),
            _ => {},
        }
        Request::Nothing
    }

    /// Recomputes the visible entry list from the filter and clamps the
    /// selection into range. Matches on the entry label only (paths all
    /// share the `/efi/` prefix, so matching them would make a search like
    /// "efi" match everything).
    pub fn rebuild_filter(&mut self)
        ensures
            final(self).ui() == rebuild_spec(old(self).ui(), old(self).labels()),
            final(self).context == old(self).context,
    {
        let query = to_lower(self.filter.as_str());
        let q = str_chars(query.as_str());
        let ghost ls = self.labels();
        let n = self.context.entries.len();
        let mut lowered: Vec<Vec<char>> = Vec::new();
        let mut i: usize = 0;
        while i < n
            invariant
                0 <= i <= n,
                n == self.context.entries@.len(),
                ls == labels(self.context.entries@),
                lowered@.len() == i,
                forall|k: int| 0 <= k < i ==> (#[trigger] lowered@[k])@ == lower_text(ls[k]),
            decreases n - i,
        {
            let l = to_lower(self.context.entries[i].label.as_str());
            assert(ls[i as int] == self.context.entries@[i as int].label@);
            lowered.push(str_chars(l.as_str()));
            i += 1;
        }
        let f = match_lowered(&lowered, &q);
        proof {
            let lls = lowered@.map_values(|v: Vec<char>| v@);
            lemma_match_filter(ls, lls, q@, n as nat);
        }
        let len = f.len();
        self.filtered = f;
        let t: usize = if len == 0 {
            0
        } else {
            len - 1
        };
        if self.selected > t {
            self.selected = t;
        }
        self.ensure_visible();
    }

    /// Moves the selection `amount` rows down (`down`) or up, clamped to
    /// the list without wrapping; the list itself is left alone, and a
    /// selection that was in range and in view stays so.
    pub fn move_selection(&mut self, down: bool, amount: usize)
        ensures
            final(self).ui() == move_spec(old(self).ui(), if down { amount as int } else { -amount }),
            final(self).context == old(self).context,
            final(self).filtered@ == old(self).filtered@,
            old(self).filtered@.len() > 0 ==> final(self).selected == clamp(
                old(self).selected + if down { amount as int } else { -amount },
                0,
                old(self).filtered@.len() - 1,
            ),
            old(self).filtered@.len() == 0 ==> final(self).ui() == old(self).ui(),
            (old(self).filtered@.len() > 0 ==> old(self).selected < old(self).filtered@.len())
                && (old(self).page_height > 0 ==> old(self).scroll_offset <= old(self).selected
                < old(self).scroll_offset + old(self).page_height) ==> {
                &&& final(self).filtered@.len() > 0 ==> final(self).selected < final(self).filtered@.len()
                &&& final(self).page_height > 0 ==> final(self).scroll_offset <= final(self).selected
                    < final(self).scroll_offset + final(self).page_height
            },
    {
        proof {
            let u = old(self).ui();
            if (u.filtered.len() > 0 ==> 0 <= u.selected < u.filtered.len()) && (u.page > 0 ==> u.scroll
                <= u.selected < u.scroll + u.page) {
                lemma_move_clamps(u, if down { amount as int } else { -amount });
            }
        }
        if self.filtered.len() == 0 {
            return;
        }
        let t = self.filtered.len() - 1;
        let s = self.selected;
        let next: usize = if down {
            if s >= t || t - s <= amount {
                t
            } else {
                s + amount
            }
        } else {
            if s <= amount {
                0
            } else if s - amount > t {
                t
            } else {
                s - amount
            }
        };
        self.selected = next;
        self.ensure_visible();
    }

    /// Scrolls the least amount that brings the selection into view.
    pub fn ensure_visible(&mut self)
        ensures
            final(self).ui() == ensure_visible_spec(old(self).ui()),
            final(self).context == old(self).context,
    {
        if self.page_height == 0 || self.filtered.len() == 0 {
            return;
        }
        if self.selected < self.scroll_offset {
            self.scroll_offset = self.selected;
        } else if self.selected - self.scroll_offset >= self.page_height {
            self.scroll_offset = self.selected - self.page_height + 1;
        }
    }

    fn move_selection_to_start(&mut self)
        ensures
            final(self).ui() == to_start_spec(old(self).ui()),
            final(self).context == old(self).context,
    {
        if self.filtered.len() > 0 {
            self.selected = 0;
            self.scroll_offset = 0;
        }
    }

    fn move_selection_to_end(&mut self)
        ensures
            final(self).ui() == to_end_spec(old(self).ui()),
            final(self).context == old(self).context,
    {
        if self.filtered.len() > 0 {
            self.selected = self.filtered.len() - 1;
            if self.page_height > 0 && self.filtered.len() > self.page_height {
                self.scroll_offset = self.filtered.len() - self.page_height;
            }
        }
    }

    /// Replaces the context with a freshly read one and reports how many
    /// entries it holds and how many pass the filter.
    pub fn refresh(&mut self, context: Context)
        ensures
            final(self).context == context,
            final(self).ui() == (Ui {
                status: Some(refreshed_text(
                    context.entries@.len() as nat,
                    rebuild_spec(old(self).ui(), labels(context.entries@)).filtered.len() as nat,
                )),
                ..rebuild_spec(old(self).ui(), labels(context.entries@))
            }),
    {
        self.context = context;
        self.rebuild_filter();
        let mut t = str_chars("refreshed: ");
        let a = dec_chars(self.context.entries.len() as u64);
        push_all(&mut t, &a);
        push_str(&mut t, " entries, ");
        let b = dec_chars(self.filtered.len() as u64);
        push_all(&mut t, &b);
        push_str(&mut t, " shown");
        self.status = Some(chars_to_string(&t));
    }

    /// Records how many list rows the last drawing had room for and
    /// scrolls the selection into view.
    pub fn set_page_height(&mut self, h: usize)
        ensures
            final(self).ui() == ensure_visible_spec(Ui { page: h as int, ..old(self).ui() }),
            final(self).context == old(self).context,
    {
        self.page_height = h;
        self.ensure_visible();
    }

    /// The entry under the selection marker, if any.
    pub fn selected_entry(&self) -> (e: Option<&Entry>)
        ensures
            match e {
                Some(x) => 0 <= self.selected < self.filtered@.len()
                    && (self.filtered@[self.selected as int] as int) < self.context.entries@.len()
                    && *x == self.context.entries@[self.filtered@[self.selected as int] as int],
                None => !(0 <= self.selected < self.filtered@.len()
                    && (self.filtered@[self.selected as int] as int) < self.context.entries@.len()),
            },
    {
        if self.selected < self.filtered.len() {
            let i = self.filtered[self.selected];
            if i < self.context.entries.len() {
                return Some(&self.context.entries[i]);
            }
        }
        None
    }
}



// ── Where the entries come from ─────────────────────────────────────────────

/// The views of a list of menu entries: label, path, source.
pub open spec fn entries_view(es: Seq<Entry>) -> Seq<(Seq<char>, Seq<char>, Seq<char>)> {
    es.map_values(|e: Entry| (e.label@, e.path@, e.source@))
}

/// The text after the first tab of `l`, or nothing without one.
pub open spec fn after_tab(l: Seq<char>) -> Seq<char> {
    if index_of(l, '\t') < l.len() {
        l.skip(index_of(l, '\t') + 1)
    } else {
        seq![]
    }
}

/// The entries of `label<TAB>path` lines: each label and path trimmed,
/// lines with an empty label skipped.
pub open spec fn backend_spec(ls: Seq<Seq<char>>) -> Seq<(Seq<char>, Seq<char>, Seq<char>)>
    decreases ls.len(),
{
    if ls.len() == 0 {
        seq![]
    } else {
        let r = backend_spec(ls.drop_last());
        let l = ls.last();
        let label = trim(before_first(l, '\t'));
        if label.len() == 0 {
            r
        } else {
            r.push((label, trim(after_tab(l)), "backend"@))
        }
    }
}

/// The entries given as text (one `label<TAB>path` per line), or `None`
/// when the text is blank and the entries are to be discovered instead.
pub fn entries_from_text(src: &str) -> (r: Option<Vec<Entry>>)
    ensures
        match r {
            Some(es) => trim(src@).len() > 0 && entries_view(es@) == backend_spec(lines_of(src@)),
            None => trim(src@).len() == 0,
        },
{
    let cs = str_chars(src);
    let t = trim_chars(&cs);
    if t.len() == 0 {
        return None;
    }
    let ls = split_lines(&cs);
    let ghost lv = ls@.map_values(|l: Vec<char>| l@);
    let mut out: Vec<Entry> = Vec::new();
    let mut i: usize = 0;
    while i < ls.len()
        invariant
            0 <= i <= ls@.len(),
            lv == ls@.map_values(|l: Vec<char>| l@),
            lv == lines_of(src@),
            entries_view(out@) == backend_spec(lv.take(i as int)),
        decreases ls@.len() - i,
    {
        let ghost ov = entries_view(out@);
        assert(lv.take(i + 1).drop_last() =~= lv.take(i as int));
        assert(lv.take(i + 1).last() == ls@[i as int]@);
        let l = &ls[i];
        let j = find_char(l, '\t');
        proof {
            lemma_index_of(l@, '\t');
        }
        let first = copy_range(l, 0, j);
        assert(first@ =~= before_first(l@, '\t'));
        let label = trim_chars(&first);
        if label.len() > 0 {
            let rest = if j < l.len() {
                copy_range(l, j + 1, l.len())
            } else {
                Vec::new()
            };
            assert(rest@ =~= after_tab(l@));
            let path = trim_chars(&rest);
            let e = Entry {
                label: chars_to_string(&label),
                path: chars_to_string(&path),
                source: chars_to_string(&str_chars("backend")),
            };
            out.push(e);
            assert(entries_view(out@) =~= ov.push((label@, path@, "backend"@)));
        }
        i += 1;
    }
    assert(lv.take(ls@.len() as int) =~= lv);
    Some(out)
}

/// Menu entries for discovered boot entries.
pub fn entries_from_discovery(es: &Vec<BootEntry>) -> (r: Vec<Entry>)
    ensures
        entries_view(r@) == es@.map_values(|e: BootEntry| (e.label@, e.path@, "discovery"@)),
{
    let mut out: Vec<Entry> = Vec::new();
    let mut i: usize = 0;
    while i < es.len()
        invariant
            0 <= i <= es@.len(),
            entries_view(out@) == es@.take(i as int).map_values(|e: BootEntry| (e.label@, e.path@, "discovery"@)),
        decreases es@.len() - i,
    {
        let ghost ov = entries_view(out@);
        let e = Entry {
            label: es[i].label.clone(),
            path: es[i].path.clone(),
            source: chars_to_string(&str_chars("discovery")),
        };
        let ghost x = (e.label@, e.path@, e.source@);
        assert(x == (es@[i as int].label@, es@[i as int].path@, "discovery"@));
        out.push(e);
        assert(entries_view(out@) =~= ov.push(x));
        assert(es@.take(i + 1) =~= es@.take(i as int).push(es@[i as int]));
        assert(entries_view(out@) =~= es@.take(i + 1).map_values(|e: BootEntry| (e.label@, e.path@, "discovery"@)));
        i += 1;
    }
    assert(es@.take(es@.len() as int) =~= es@);
    out
}

/// A number given as text, surrounding whitespace allowed.
pub fn number_from_text(s: Option<&str>) -> (r: Option<u32>)
    ensures
        r == match s {
            Some(t) => parse_u32(trim(t@)),
            None => None,
        },
{
    match s {
        Some(t) => {
            let cs = str_chars(t);
            let tc = trim_chars(&cs);
            parse_u32_chars(&tc)
        },
        None => None,
    }
}

/// The framebuffer as given by explicit settings (width, height, stride,
/// format): present when the width is a number; a missing height is `0`, a
/// missing stride is the width, a missing format is empty.
pub fn framebuffer_from_text(
    width: Option<&str>,
    height: Option<&str>,
    stride: Option<&str>,
    format: Option<&str>,
) -> (r: Option<(u32, u32, u32, String)>)
    ensures
        match number_spec(width) {
            None => r is None,
            Some(w) => r matches Some(x) && x.0 == w && x.1 == match number_spec(height) {
                Some(h) => h,
                None => 0,
            } && x.2 == match number_spec(stride) {
                Some(t) => t,
                None => w,
            } && x.3@ == match format {
                Some(f) => f@,
                None => Seq::<char>::empty(),
            },
        },
{
    match number_from_text(width) {
        None => None,
        Some(w) => {
            let h = match number_from_text(height) {
                Some(h) => h,
                None => 0,
            };
            let st = match number_from_text(stride) {
                Some(t) => t,
                None => w,
            };
            let f = match format {
                Some(f) => chars_to_string(&str_chars(f)),
                None => chars_to_string(&Vec::new()),
            };
            Some((w, h, st, f))
        },
    }
}

/// What [`number_from_text`] gives.
pub open spec fn number_spec(s: Option<&str>) -> Option<u32> {
    match s {
        Some(t) => parse_u32(trim(t@)),
        None => None,
    }
}

/// A key of the boot config as text, empty when unset.
pub open spec fn field_or_empty(c: crate::boot_config::BootConfigModel, key: Seq<char>) -> Seq<char> {
    match field_spec(c, key) {
        Some(v) => v,
        None => seq![],
    }
}

/// The boot-config values the menu shows (timeout, default entry, splash),
/// empty when unset or when the config could not be read.
pub fn config_values(cfg: Option<&BootConfig>) -> (r: (String, String, String))
    ensures
        match cfg {
            Some(c) => r.0@ == field_or_empty(c@, "timeout"@) && r.1@ == field_or_empty(c@, "default_entry"@)
                && r.2@ == field_or_empty(c@, "splash"@),
            None => r.0@.len() == 0 && r.1@.len() == 0 && r.2@.len() == 0,
        },
{
    match cfg {
        Some(c) => {
            let t = match c.field("timeout") {
                Some(v) => v,
                None => chars_to_string(&Vec::new()),
            };
            let d = match c.field("default_entry") {
                Some(v) => v,
                None => chars_to_string(&Vec::new()),
            };
            let sp = match c.field("splash") {
                Some(v) => v,
                None => chars_to_string(&Vec::new()),
            };
            (t, d, sp)
        },
        None => (chars_to_string(&Vec::new()), chars_to_string(&Vec::new()), chars_to_string(&Vec::new())),
    }
}

// ── Laws ────────────────────────────────────────────────────────────────────

/// A consistent menu over `n` entries: the visible indices are distinct
/// entries in list order and the selection lies within the visible list
/// (at `0` when it is empty).
pub open spec fn wf(u: Ui, n: nat) -> bool {
    &&& forall|i: int, j: int| 0 <= i < j < u.filtered.len() ==> u.filtered[i] < u.filtered[j]
    &&& forall|i: int| 0 <= i < u.filtered.len() ==> (u.filtered[i] as int) < n
    &&& 0 <= u.selected <= top(u.filtered.len() as int)
    &&& u.scroll >= 0
    &&& u.page >= 0
}

/// The search keeps exactly the entries whose lowercased label contains
/// the query, in list order.
pub proof fn lemma_filter_idx(ls: Seq<Seq<char>>, q: Seq<char>, n: nat)
    requires
        n <= ls.len(),
        ls.len() <= usize::MAX,
    ensures
        forall|i: int, j: int|
            0 <= i < j < filter_idx(ls, q, n).len() ==> filter_idx(ls, q, n)[i] < filter_idx(ls, q, n)[j],
        forall|i: int| 0 <= i < filter_idx(ls, q, n).len() ==> (filter_idx(ls, q, n)[i] as int) < n,
        forall|k: int| 0 <= k < n ==> (filter_idx(ls, q, n).contains(k as usize) <==> shown(ls[k], q)),
    decreases n,
{
    if n > 0 {
        let m = (n - 1) as nat;
        lemma_filter_idx(ls, q, m);
        let r = filter_idx(ls, q, m);
        assert forall|k: int| 0 <= k < n implies (filter_idx(ls, q, n).contains(k as usize) <==> shown(ls[k], q)) by {
            if shown(ls[m as int], q) {
                let f = r.push(m as usize);
                assert(f == filter_idx(ls, q, n));
                if k < m {
                    if f.contains(k as usize) {
                        let j = choose|j: int| 0 <= j < f.len() && f[j] == k as usize;
                        if j == r.len() {
                            assert(f[j] == m as usize);
                        }
                        assert(r[j] == k as usize);
                    }
                    if r.contains(k as usize) {
                        let j = choose|j: int| 0 <= j < r.len() && r[j] == k as usize;
                        assert(f[j] == k as usize);
                    }
                } else {
                    assert(f[r.len() as int] == k as usize);
                }
            } else {
                if k == m {
                    if r.contains(k as usize) {
                        let j = choose|j: int| 0 <= j < r.len() && r[j] == k as usize;
                        assert((r[j] as int) < m);
                    }
                }
            }
        }
    }
}

/// Recomputing the visible list always leaves a consistent menu.
pub proof fn lemma_rebuild_wf(u: Ui, ls: Seq<Seq<char>>)
    requires
        ls.len() <= usize::MAX,
        u.selected >= 0,
        u.scroll >= 0,
        u.page >= 0,
    ensures
        wf(rebuild_spec(u, ls), ls.len()),
{
    lemma_filter_idx(ls, lower_text(u.filter), ls.len());
}

/// Scrolling a consistent menu keeps it consistent.
proof fn lemma_visible_wf(u: Ui, n: nat)
    requires
        wf(u, n),
    ensures
        wf(ensure_visible_spec(u), n),
{
}

/// Moving the selection of a consistent menu keeps it consistent.
proof fn lemma_move_wf(u: Ui, n: nat, d: int)
    requires
        wf(u, n),
    ensures
        wf(move_spec(u, d), n),
{
    if u.filtered.len() > 0 {
        lemma_visible_wf(Ui { selected: clamp(u.selected + d, 0, u.filtered.len() - 1), ..u }, n);
    }
}

/// Every key keeps the menu consistent: whatever is pressed, the selection
/// stays on a visible entry and the visible list holds distinct entries in
/// order.
pub proof fn lemma_on_key_keeps_wf(u: Ui, ls: Seq<Seq<char>>, k: KeyEvent)
    requires
        ls.len() <= usize::MAX,
        wf(u, ls.len()),
    ensures
        wf(on_key_spec(u, ls, k).0, ls.len()),
{
    let n = ls.len();
    assert forall|v: Ui| v.selected >= 0 && v.scroll >= 0 && v.page >= 0 implies #[trigger] wf(rebuild_spec(v, ls), n) by {
        lemma_rebuild_wf(v, ls);
    }
    assert forall|v: Ui, d: int| wf(v, n) implies #[trigger] wf(move_spec(v, d), n) by {
        lemma_move_wf(v, n, d);
    }
    assert forall|v: Ui| wf(v, n) implies #[trigger] wf(ensure_visible_spec(v), n) by {
        lemma_visible_wf(v, n);
    }
    let u0 = Ui { status: None, ..u };
    assert(wf(u0, n));
    if k.kind != KeyEventKind::Release && !u.editing {
        match k.code {
            KeyCode::Char(c) => {
                if '0' <= c && c <= '9' && c != '0' {
                    assert(digit_target(c) >= 0);
                }
            },
            KeyCode::Esc => {
                if !u0.help && !u0.preview && u0.filter.len() > 0 {
                    let r = rebuild_spec(Ui { filter: seq![], ..u0 }, ls);
                    assert(wf(r, n));
                    assert(wf(Ui { selected: 0, ..r }, n));
                }
            },
            KeyCode::PageUp => {
                assert(wf(move_spec(u0, -page_size(u0)), n));
            },
            KeyCode::PageDown => {
                assert(wf(move_spec(u0, page_size(u0)), n));
            },
            _ => {},
        }
    }
}

/// Up and Down never wrap around: they walk the entries the filter
/// matches, at the last one Down stays there, at the first Up stays there,
/// and otherwise each moves one row.
pub proof fn lemma_no_wrap(u: Ui, ls: Seq<Seq<char>>, k: KeyEvent)
    requires
        u.selected >= 0,
        !u.editing,
        k.kind != KeyEventKind::Release,
        k.code == KeyCode::Up || k.code == KeyCode::Down,
        rebuild_spec(Ui { status: None, ..u }, ls).filtered.len() > 0,
    ensures
        ({
            let v = rebuild_spec(Ui { status: None, ..u }, ls);
            &&& k.code == KeyCode::Down ==> on_key_spec(u, ls, k).0.selected == if v.selected + 1
                < v.filtered.len() {
                v.selected + 1
            } else {
                v.filtered.len() - 1
            }
            &&& k.code == KeyCode::Up ==> on_key_spec(u, ls, k).0.selected == if v.selected > 0 {
                v.selected - 1
            } else {
                0
            }
        }),
{
    let v = rebuild_spec(Ui { status: None, ..u }, ls);
    assert(v.selected <= top(v.filtered.len() as int));
}

/// After a search, an entry is listed exactly when its lowercased label
/// contains the lowercased query.
pub proof fn lemma_search_exact(u: Ui, ls: Seq<Seq<char>>, i: int)
    requires
        ls.len() <= usize::MAX,
        0 <= i < ls.len(),
    ensures
        rebuild_spec(u, ls).filtered.contains(i as usize) <==> shown(ls[i], lower_text(u.filter)),
{
    lemma_filter_idx(ls, lower_text(u.filter), ls.len());
}

/// The entries among `lowered` (labels already lowercased) that contain the
/// lowercased query `q`; every entry when `q` is empty.
pub fn match_lowered(lowered: &Vec<Vec<char>>, q: &[char]) -> (r: Vec<usize>)
    ensures
        r@ == match_idx(lowered@.map_values(|v: Vec<char>| v@), q@, lowered@.len()),
{
    let ghost lls = lowered@.map_values(|v: Vec<char>| v@);
    let mut f: Vec<usize> = Vec::new();
    let mut i: usize = 0;
    while i < lowered.len()
        invariant
            0 <= i <= lowered@.len(),
            lls == lowered@.map_values(|v: Vec<char>| v@),
            f@ == match_idx(lls, q@, i as nat),
        decreases lowered@.len() - i,
    {
        let keep = q.len() == 0 || contains_chars(&lowered[i], q);
        assert(lls[i as int] == lowered@[i as int]@);
        if keep {
            f.push(i);
        }
        i += 1;
    }
    f
}

/// Matching the lowercased labels is the search over the labels.
proof fn lemma_match_filter(ls: Seq<Seq<char>>, lls: Seq<Seq<char>>, q: Seq<char>, n: nat)
    requires
        n <= ls.len(),
        n <= lls.len(),
        forall|k: int| 0 <= k < n ==> lls[k] == lower_text(ls[k]),
    ensures
        match_idx(lls, q, n) == filter_idx(ls, q, n),
    decreases n,
{
    if n > 0 {
        lemma_match_filter(ls, lls, q, (n - 1) as nat);
    }
}

/// With an empty query every entry is listed.
pub proof fn lemma_filter_all(ls: Seq<Seq<char>>, n: nat)
    requires
        n <= ls.len(),
    ensures
        filter_idx(ls, lower_text(seq![]), n) == all_indices(n),
    decreases n,
{
    assert(lower_text(seq![]) =~= Seq::<char>::empty());
    if n > 0 {
        lemma_filter_all(ls, (n - 1) as nat);
        assert(filter_idx(ls, lower_text(seq![]), n) =~= all_indices(n));
    }
}

/// Esc while browsing dismisses one thing, in order: the help, else the
/// preview, else a search filter (which lists every entry again and selects
/// the first), and only with none of these open does it quit.
pub proof fn lemma_esc_order(u: Ui, ls: Seq<Seq<char>>, k: KeyEvent)
    requires
        !u.editing,
        k.kind != KeyEventKind::Release,
        k.code == KeyCode::Esc,
    ensures
        ({
            let v = on_key_spec(u, ls, k).0;
            &&& u.help ==> v == Ui { help: false, status: None, ..u }
            &&& !u.help && u.preview ==> v == Ui { preview: false, status: None, ..u }
            &&& !u.help && !u.preview && u.filter.len() > 0 ==> {
                &&& v.filter == Seq::<char>::empty()
                &&& v.filtered == all_indices(ls.len())
                &&& v.selected == 0
                &&& v.quit == u.quit
            }
            &&& !u.help && !u.preview && u.filter.len() == 0 ==> v.quit
        }),
{
    lemma_filter_all(ls, ls.len());
}

/// Moving the selection by `d` rows clamps it into the list (no wrapping),
/// leaves the list alone, and keeps the selection in range and in view.
pub proof fn lemma_move_clamps(u: Ui, d: int)
    requires
        u.filtered.len() > 0 ==> 0 <= u.selected < u.filtered.len(),
        u.page > 0 ==> u.scroll <= u.selected < u.scroll + u.page,
    ensures
        u.filtered.len() > 0 ==> move_spec(u, d).selected == clamp(
            u.selected + d,
            0,
            u.filtered.len() - 1,
        ),
        u.filtered.len() == 0 ==> move_spec(u, d) == u,
        move_spec(u, d).filtered == u.filtered,
        move_spec(u, d).filtered.len() > 0 ==> 0 <= move_spec(u, d).selected < move_spec(
            u,
            d,
        ).filtered.len(),
        move_spec(u, d).page > 0 ==> move_spec(u, d).scroll <= move_spec(u, d).selected
            < move_spec(u, d).scroll + move_spec(u, d).page,
{
}

} // verus!
