//! What the boot-manager menu draws: the header, the list rows, the details
//! and preview panes, the help text, and where the overlays go. The terminal
//! widgets only style and place these texts.
use vstd::prelude::*;
use crate::text::{chars_to_string, dec, dec_chars, push_all, push_str, str_chars};
use crate::tui_app::{App, Entry};

verus! {

/// The key hint shown at the bottom.
pub const FOOTER_HINT: &'static str = "\u{2191}\u{2193}/jk move \u{b7} PgUp/PgDn \u{b7} Home/End \u{b7} 1-9 jump \u{b7} / search \u{b7} n/N next/prev \u{b7} d details \u{b7} h/? help \u{b7} r refresh \u{b7} s/space preview \u{b7} Enter boot \u{b7} Esc dismiss \u{b7} q/Ctrl+C quit";

/// The lines of the help overlay.
pub fn help_lines() -> (v: Vec<&'static str>)
    ensures
        v@.map_values(|t: &'static str| t@) == seq!["LEON Boot Manager \u{2014} keys"@, ""@, "  \u{2191} / \u{2193} or k / j      move selection"@, "  PgUp / PgDn          page up / down"@, "  Home / End           first / last entry"@, "  1-9 / 0              jump to entry 1-10"@, "  / <text>             filter entries (substring match)"@, "  Ctrl+U               clear search"@, "  n / N / p            next / previous match"@, "  d                    toggle the details pane"@, "  h / ?                this help overlay"@, "  Ctrl+C               quit"@, "  r                    re-read geometry, entries, boot config"@, "  s / Space / Enter    preview the selected entry (boot preview)"@, "  Esc                  dismiss help / preview / filter, then quit"@, "  q                    quit"@],
{
    let mut v: Vec<&'static str> = Vec::new();
    v.push("LEON Boot Manager \u{2014} keys");
    v.push("");
    v.push("  \u{2191} / \u{2193} or k / j      move selection");
    v.push("  PgUp / PgDn          page up / down");
    v.push("  Home / End           first / last entry");
    v.push("  1-9 / 0              jump to entry 1-10");
    v.push("  / <text>             filter entries (substring match)");
    v.push("  Ctrl+U               clear search");
    v.push("  n / N / p            next / previous match");
    v.push("  d                    toggle the details pane");
    v.push("  h / ?                this help overlay");
    v.push("  Ctrl+C               quit");
    v.push("  r                    re-read geometry, entries, boot config");
    v.push("  s / Space / Enter    preview the selected entry (boot preview)");
    v.push("  Esc                  dismiss help / preview / filter, then quit");
    v.push("  q                    quit");
    assert(v@.map_values(|t: &'static str| t@) =~= seq!["LEON Boot Manager \u{2014} keys"@, ""@, "  \u{2191} / \u{2193} or k / j      move selection"@, "  PgUp / PgDn          page up / down"@, "  Home / End           first / last entry"@, "  1-9 / 0              jump to entry 1-10"@, "  / <text>             filter entries (substring match)"@, "  Ctrl+U               clear search"@, "  n / N / p            next / previous match"@, "  d                    toggle the details pane"@, "  h / ?                this help overlay"@, "  Ctrl+C               quit"@, "  r                    re-read geometry, entries, boot config"@, "  s / Space / Enter    preview the selected entry (boot preview)"@, "  Esc                  dismiss help / preview / filter, then quit"@, "  q                    quit"@]);
    v
}

/// The pieces of the header line, in order; the optional ones are present
/// only with an active filter or a status message.
pub struct Header {
    pub lead: String,
    pub count: String,
    pub geo: String,
    pub filter: Option<String>,
    pub status: Option<String>,
}

/// The framebuffer part of the header.
pub open spec fn geo_spec(w: u32, h: u32, s: u32, f: Seq<char>) -> Seq<char> {
    if w > 0 {
        "fb "@ + dec(w as nat) + "x"@ + dec(h as nat) + " stride "@ + dec(s as nat) + " "@ + f
    } else {
        "fb: not available"@
    }
}

/// The header of the menu for `a`.
pub open spec fn header_spec(a: App) -> (Seq<char>, Seq<char>, Seq<char>, Option<Seq<char>>, Option<Seq<char>>) {
    (
        " LEON Boot Manager \u{2014} "@,
        dec(a.filtered@.len()) + "/"@ + dec(a.context.entries@.len()) + " entries"@,
        "  \u{b7}  "@ + geo_spec(a.context.width, a.context.height, a.context.stride, a.context.format@),
        if a.filter@.len() > 0 {
            Some("  \u{b7}  filter: \u{201c}"@ + a.filter@ + "\u{201d}"@)
        } else {
            None
        },
        match a.status {
            Some(s) => Some("  \u{b7}  "@ + s@),
            None => None,
        },
    )
}

fn dec_string(n: usize) -> (r: Vec<char>)
    ensures
        r@ == dec(n as nat),
{
    dec_chars(n as u64)
}

/// The header line's pieces.
pub fn header(a: &App) -> (h: Header)
    ensures
        (h.lead@, h.count@, h.geo@, match h.filter {
            Some(f) => Some(f@),
            None => None,
        }, match h.status {
            Some(s) => Some(s@),
            None => None,
        }) == header_spec(*a),
{
    let mut count = dec_string(a.filtered.len());
    push_str(&mut count, "/");
    let t = dec_string(a.context.entries.len());
    push_all(&mut count, &t);
    push_str(&mut count, " entries");
    let mut geo = str_chars("  \u{b7}  ");
    if a.context.width > 0 {
        push_str(&mut geo, "fb ");
        push_all(&mut geo, &dec_chars(a.context.width as u64));
        push_str(&mut geo, "x");
        push_all(&mut geo, &dec_chars(a.context.height as u64));
        push_str(&mut geo, " stride ");
        push_all(&mut geo, &dec_chars(a.context.stride as u64));
        push_str(&mut geo, " ");
        push_str(&mut geo, a.context.format.as_str());
    } else {
        push_str(&mut geo, "fb: not available");
    }
    let fc = str_chars(a.filter.as_str());
    let filter = if fc.len() > 0 {
        let mut f = str_chars("  \u{b7}  filter: \u{201c}");
        push_all(&mut f, &fc);
        push_str(&mut f, "\u{201d}");
        Some(chars_to_string(&f))
    } else {
        None
    };
    let status = match &a.status {
        Some(s) => {
            let mut v = str_chars("  \u{b7}  ");
            push_str(&mut v, s.as_str());
            Some(chars_to_string(&v))
        },
        None => None,
    };
    let h = Header {
        lead: chars_to_string(&str_chars(" LEON Boot Manager \u{2014} ")),
        count: chars_to_string(&count),
        geo: chars_to_string(&geo),
        filter,
        status,
    };
    assert(h.count@ =~= header_spec(*a).1);
    assert(h.geo@ =~= header_spec(*a).2);
    h
}

/// The prompt line while a search is typed.
pub fn search_line(a: &App) -> (r: String)
    ensures
        r@ == " / "@ + a.filter@ + "\u{258f}"@,
{
    let mut v = str_chars(" / ");
    push_str(&mut v, a.filter.as_str());
    push_str(&mut v, "\u{258f}");
    chars_to_string(&v)
}

/// One row of the list: marker and number, the entry's label (its path
/// when it has none), and its path.
pub struct Row {
    pub prefix: String,
    pub label: String,
    pub path: String,
    pub selected: bool,
}

/// `n` right-aligned in two columns.
pub open spec fn num2(n: nat) -> Seq<char> {
    if dec(n).len() < 2 {
        seq![' '] + dec(n)
    } else {
        dec(n)
    }
}

/// The row for position `row` showing entry `e`.
pub open spec fn row_spec(row: nat, selected: bool, e: Entry) -> (Seq<char>, Seq<char>, Seq<char>) {
    (
        seq![' '] + (if selected { "\u{25b6}"@ } else { " "@ }) + seq![' '] + num2(row + 1) + seq![' '],
        if e.label@.len() == 0 { e.path@ } else { e.label@ },
        e.path@,
    )
}

/// The first row shown.
pub open spec fn first_row(a: App) -> int {
    if a.scroll_offset < a.filtered@.len() {
        a.scroll_offset as int
    } else {
        a.filtered@.len() as int
    }
}

/// How many rows fit.
pub open spec fn rows_shown(a: App, height: nat) -> int {
    let left = a.filtered@.len() - first_row(a);
    if left < height {
        left
    } else {
        height as int
    }
}

/// Every visible index names an existing entry.
pub open spec fn indices_valid(a: App) -> bool {
    forall|i: int| 0 <= i < a.filtered@.len() ==> (#[trigger] a.filtered@[i] as int) < a.context.entries@.len()
}

/// The rows visible in a list `height` rows tall, from the scroll offset.
pub fn list_rows(a: &App, height: usize) -> (v: Vec<Row>)
    requires
        indices_valid(*a),
    ensures
        v@.len() == rows_shown(*a, height as nat),
        forall|r: int| 0 <= r < v@.len() ==> {
            let idx = first_row(*a) + r;
            &&& (#[trigger] v@[r]).selected == (idx == a.selected)
            &&& (v@[r].prefix@, v@[r].label@, v@[r].path@) == row_spec(
                idx as nat,
                idx == a.selected,
                a.context.entries@[a.filtered@[idx] as int],
            )
        },
{
    let start = if a.scroll_offset < a.filtered.len() {
        a.scroll_offset
    } else {
        a.filtered.len()
    };
    let mut out: Vec<Row> = Vec::new();
    let mut r: usize = 0;
    while r < height && r < a.filtered.len() - start
        invariant
            start == first_row(*a),
            start <= a.filtered@.len(),
            indices_valid(*a),
            r <= height,
            start + r <= a.filtered@.len(),
            out@.len() == r,
            forall|q: int| 0 <= q < out@.len() ==> {
                let idx = first_row(*a) + q;
                &&& (#[trigger] out@[q]).selected == (idx == a.selected)
                &&& (out@[q].prefix@, out@[q].label@, out@[q].path@) == row_spec(
                    idx as nat,
                    idx == a.selected,
                    a.context.entries@[a.filtered@[idx] as int],
                )
            },
        decreases height - r,
    {
        let idx = start + r;
        let e = &a.context.entries[a.filtered[idx]];
        let sel = idx == a.selected;
        let mut p: Vec<char> = Vec::new();
        p.push(' ');
        if sel {
            push_str(&mut p, "\u{25b6}");
        } else {
            p.push(' ');
        }
        p.push(' ');
        let d = dec_chars((idx as u64) + 1);
        if d.len() < 2 {
            p.push(' ');
        }
        push_all(&mut p, &d);
        p.push(' ');
        let lc = str_chars(e.label.as_str());
        let label = if lc.len() == 0 {
            e.path.clone()
        } else {
            e.label.clone()
        };
        let row = Row { prefix: chars_to_string(&p), label, path: e.path.clone(), selected: sel };
        proof {
            reveal_strlit(" ");
        }
        assert(row.prefix@ =~= row_spec(idx as nat, sel, *e).0);
        let ghost before = out@;
        out.push(row);
        assert(out@[r as int] == row);
        assert forall|q: int| 0 <= q < out@.len() implies {
            let idx2 = first_row(*a) + q;
            &&& (#[trigger] out@[q]).selected == (idx2 == a.selected)
            &&& (out@[q].prefix@, out@[q].label@, out@[q].path@) == row_spec(
                idx2 as nat,
                idx2 == a.selected,
                a.context.entries@[a.filtered@[idx2] as int],
            )
        } by {
            if q < r {
                assert(out@[q] == before[q]);
            }
        }
        r += 1;
    }
    out
}

/// What the list says when no row is shown.
pub open spec fn empty_message_spec(filter: Seq<char>) -> Seq<char> {
    if filter.len() == 0 {
        " no boot entries found (run `lbc entries list`)"@
    } else {
        " no entries match \u{201c}"@ + filter + "\u{201d}"@
    }
}

/// The placeholder line of an empty list.
pub fn empty_message(a: &App) -> (r: String)
    ensures
        r@ == empty_message_spec(a.filter@),
{
    let f = str_chars(a.filter.as_str());
    if f.len() == 0 {
        chars_to_string(&str_chars(" no boot entries found (run `lbc entries list`)"))
    } else {
        let mut v = str_chars(" no entries match \u{201c}");
        push_all(&mut v, &f);
        push_str(&mut v, "\u{201d}");
        chars_to_string(&v)
    }
}

/// The entry under the selection marker, if any.
pub open spec fn selected_spec(a: App) -> Option<Entry> {
    if 0 <= a.selected < a.filtered@.len() && (a.filtered@[a.selected as int] as int) < a.context.entries@.len() {
        Some(a.context.entries@[a.filtered@[a.selected as int] as int])
    } else {
        None
    }
}

/// The lines of the details pane.
pub open spec fn details_spec(a: App) -> Seq<Seq<char>> {
    match selected_spec(a) {
        Some(e) => seq![
            " label:   "@ + e.label@,
            " path:    "@ + e.path@,
            " source:  "@ + e.source@,
            " boot:    timeout "@ + a.context.timeout@ + " \u{b7} default "@ + a.context.default@
                + " \u{b7} splash "@ + a.context.splash@,
        ],
        None => seq!["no entry selected"@],
    }
}

fn line_of(lead: &str, text: &str) -> (r: String)
    ensures
        r@ == lead@ + text@,
{
    let mut v = str_chars(lead);
    push_str(&mut v, text);
    chars_to_string(&v)
}

/// The lines of the details pane.
pub fn details_lines(a: &App) -> (v: Vec<String>)
    ensures
        v@.map_values(|s: String| s@) == details_spec(*a),
{
    let mut v: Vec<String> = Vec::new();
    match a.selected_entry() {
        Some(e) => {
            v.push(line_of(" label:   ", e.label.as_str()));
            v.push(line_of(" path:    ", e.path.as_str()));
            v.push(line_of(" source:  ", e.source.as_str()));
            let mut b = str_chars(" boot:    timeout ");
            push_str(&mut b, a.context.timeout.as_str());
            push_str(&mut b, " \u{b7} default ");
            push_str(&mut b, a.context.default.as_str());
            push_str(&mut b, " \u{b7} splash ");
            push_str(&mut b, a.context.splash.as_str());
            v.push(chars_to_string(&b));
        },
        None => {
            v.push(chars_to_string(&str_chars("no entry selected")));
        },
    }
    assert(v@.map_values(|s: String| s@) =~= details_spec(*a));
    v
}

/// The lines of the boot-preview pane.
pub open spec fn preview_spec(a: App) -> Seq<Seq<char>> {
    match selected_spec(a) {
        Some(e) => seq![
            "  label:  "@ + e.label@,
            "  path:   "@ + e.path@,
            "  (preview \u{2014} s/space/Enter toggles, Esc closes)"@,
        ],
        None => seq!["  no entry selected"@],
    }
}

/// The lines of the boot-preview pane.
pub fn preview_lines(a: &App) -> (v: Vec<String>)
    ensures
        v@.map_values(|s: String| s@) == preview_spec(*a),
{
    let mut v: Vec<String> = Vec::new();
    match a.selected_entry() {
        Some(e) => {
            v.push(line_of("  label:  ", e.label.as_str()));
            v.push(line_of("  path:   ", e.path.as_str()));
            v.push(chars_to_string(&str_chars("  (preview \u{2014} s/space/Enter toggles, Esc closes)")));
        },
        None => {
            v.push(chars_to_string(&str_chars("  no entry selected")));
        },
    }
    assert(v@.map_values(|s: String| s@) =~= preview_spec(*a));
    v
}

// ── Placement ───────────────────────────────────────────────────────────────

/// A rectangle of terminal cells.
#[derive(PartialEq, Eq, Structural, Clone, Copy, Debug)]
pub struct Area {
    pub x: u16,
    pub y: u16,
    pub width: u16,
    pub height: u16,
}

/// `a - b`, or `0` when `b` is larger.
pub open spec fn sat(a: int, b: int) -> int {
    if a > b {
        a - b
    } else {
        0
    }
}

/// `min(a, b)`.
pub open spec fn min(a: int, b: int) -> int {
    if a < b {
        a
    } else {
        b
    }
}

/// A `w`×`h` rectangle centered in `area`, clamped to fit.
pub open spec fn centered_spec(area: Area, w: int, h: int) -> (int, int, int, int) {
    let w2 = min(w, area.width as int);
    let h2 = min(h, area.height as int);
    (area.x + sat(area.width as int, w2) / 2, area.y + sat(area.height as int, h2) / 2, w2, h2)
}

/// Returns a rectangle of `w`×`h` cells centered in `area` (clamped to fit).
pub fn centered(area: Area, w: u16, h: u16) -> (r: Area)
    requires
        area.x + area.width <= u16::MAX,
        area.y + area.height <= u16::MAX,
    ensures
        (r.x as int, r.y as int, r.width as int, r.height as int) == centered_spec(area, w as int, h as int),
{
    let w2 = if w < area.width {
        w
    } else {
        area.width
    };
    let h2 = if h < area.height {
        h
    } else {
        area.height
    };
    Area { x: area.x + (area.width - w2) / 2, y: area.y + (area.height - h2) / 2, width: w2, height: h2 }
}

/// Where the help overlay goes: at most 60 columns (at least 20, when the
/// screen leaves room), as tall as its text plus borders.
pub open spec fn help_area_spec(area: Area, lines: int) -> (int, int, int, int) {
    let max_w = if sat(area.width as int, 8) > 20 { sat(area.width as int, 8) } else { 20 };
    centered_spec(area, min(max_w, 60), min(lines + 2, sat(area.height as int, 4)))
}

/// The rectangle of the help overlay.
pub fn help_area(area: Area) -> (r: Area)
    requires
        area.x + area.width <= u16::MAX,
        area.y + area.height <= u16::MAX,
    ensures
        (r.x as int, r.y as int, r.width as int, r.height as int) == help_area_spec(area, 16),
{
    let s = if area.width > 8 {
        area.width - 8
    } else {
        0
    };
    let max_w = if s > 20 {
        s
    } else {
        20
    };
    let width = if max_w < 60 {
        max_w
    } else {
        60
    };
    let room = if area.height > 4 {
        area.height - 4
    } else {
        0
    };
    let height = if 18 < room {
        18
    } else {
        room
    };
    centered(area, width, height)
}

/// Where the preview overlay goes: between 20 and 60 columns wide, as tall
/// as its `lines` lines plus borders.
pub open spec fn preview_area_spec(area: Area, lines: int) -> (int, int, int, int) {
    let w = min(sat(area.width as int, 8), 60);
    centered_spec(area, if w > 20 { w } else { 20 }, min(lines + 2, sat(area.height as int, 4)))
}

/// The rectangle of the preview overlay for a pane of `lines` lines.
pub fn preview_area(area: Area, lines: u16) -> (r: Area)
    requires
        area.x + area.width <= u16::MAX,
        area.y + area.height <= u16::MAX,
        lines + 2 <= u16::MAX,
    ensures
        (r.x as int, r.y as int, r.width as int, r.height as int) == preview_area_spec(area, lines as int),
{
    let s = if area.width > 8 {
        area.width - 8
    } else {
        0
    };
    let w0 = if s < 60 {
        s
    } else {
        60
    };
    let width = if w0 > 20 {
        w0
    } else {
        20
    };
    let room = if area.height > 4 {
        area.height - 4
    } else {
        0
    };
    let height = if lines + 2 < room {
        lines + 2
    } else {
        room
    };
    centered(area, width, height)
}

} // verus!
