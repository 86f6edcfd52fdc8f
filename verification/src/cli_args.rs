//! Command-line parsing for the `lbt` command tree.
//!
//! Flags may appear before, between, or after subcommand tokens: short and
//! long flags, `--name=value`, clustered short flags (`-abc`, `-fVAL`),
//! aliases, positional arguments, and `--` to end flag parsing.
use vstd::prelude::*;

use crate::cmd_tree::{children_of, join, matches_spec, names_view, strs_view, Flag, Kind, Node};
use crate::text::{chars_eq, chars_to_string, copy_range, push_all, push_str, str_chars};

verus! {

/// The parsed command: the canonical path walked, flags, and positionals.
pub struct Parsed {
    /// Canonical names of the nodes walked from the root.
    pub path: Vec<&'static str>,
    /// Long flags given a value, each once (`--name=val`, `-n val`).
    pub values: Vec<(String, String)>,
    /// Flags set as booleans, each once (`--json`, `-j`).
    pub bools: Vec<String>,
    /// Bare positional tokens.
    pub positional: Vec<String>,
}

/// A parse as plain values.
pub struct ParsedModel {
    pub path: Seq<Seq<char>>,
    pub values: Seq<(Seq<char>, Seq<char>)>,
    pub bools: Seq<Seq<char>>,
    pub positional: Seq<Seq<char>>,
}

impl Parsed {
    /// The parse as plain values.
    pub open spec fn model(&self) -> ParsedModel {
        ParsedModel {
            path: names_view(self.path@),
            values: self.values@.map_values(|e: (String, String)| (e.0@, e.1@)),
            bools: strs_view(self.bools@),
            positional: strs_view(self.positional@),
        }
    }
}

/// Index of the first pair with key `k`, or `vs.len()`.
pub open spec fn key_index(vs: Seq<(Seq<char>, Seq<char>)>, k: Seq<char>) -> int
    decreases vs.len(),
{
    if vs.len() == 0 {
        0
    } else if vs[0].0 == k {
        0
    } else {
        1 + key_index(vs.drop_first(), k)
    }
}

/// `vs` with `k` set to `v`: the pair replaced where `k` is, else appended.
pub open spec fn put_value(vs: Seq<(Seq<char>, Seq<char>)>, k: Seq<char>, v: Seq<char>) -> Seq<(Seq<char>, Seq<char>)> {
    let i = key_index(vs, k);
    if i < vs.len() {
        vs.update(i, (k, v))
    } else {
        vs.push((k, v))
    }
}

/// `bs` with `k` added unless present.
pub open spec fn put_bool(bs: Seq<Seq<char>>, k: Seq<char>) -> Seq<Seq<char>> {
    if bs.contains(k) {
        bs
    } else {
        bs.push(k)
    }
}

/// The value of `k` in `vs`.
pub open spec fn value_of(vs: Seq<(Seq<char>, Seq<char>)>, k: Seq<char>) -> Option<Seq<char>> {
    let i = key_index(vs, k);
    if i < vs.len() {
        Some(vs[i].1)
    } else {
        None
    }
}

proof fn lemma_key_index(vs: Seq<(Seq<char>, Seq<char>)>, k: Seq<char>)
    ensures
        0 <= key_index(vs, k) <= vs.len(),
        key_index(vs, k) < vs.len() ==> vs[key_index(vs, k)].0 == k,
        forall|j: int| 0 <= j < key_index(vs, k) ==> vs[j].0 != k,
    decreases vs.len(),
{
    if vs.len() > 0 && vs[0].0 != k {
        lemma_key_index(vs.drop_first(), k);
        assert forall|j: int| 0 <= j < key_index(vs, k) implies vs[j].0 != k by {
            if j > 0 {
                assert(vs[j] == vs.drop_first()[j - 1]);
            }
        }
    }
}

proof fn lemma_key_index_is(vs: Seq<(Seq<char>, Seq<char>)>, k: Seq<char>, i: int)
    requires
        0 <= i <= vs.len(),
        forall|j: int| 0 <= j < i ==> vs[j].0 != k,
        i < vs.len() ==> vs[i].0 == k,
    ensures
        key_index(vs, k) == i,
    decreases i,
{
    if i > 0 {
        assert forall|j: int| 0 <= j < i - 1 implies vs.drop_first()[j].0 != k by {
            assert(vs.drop_first()[j] == vs[j + 1]);
        }
        lemma_key_index_is(vs.drop_first(), k, i - 1);
    }
}

/// Index of the pair with key `k` in `vs`, or `vs.len()`.
fn find_key(vs: &Vec<(String, String)>, k: &[char]) -> (i: usize)
    ensures
        i == key_index(vs@.map_values(|e: (String, String)| (e.0@, e.1@)), k@),
{
    let ghost m = vs@.map_values(|e: (String, String)| (e.0@, e.1@));
    let mut i: usize = 0;
    while i < vs.len()
        invariant
            m == vs@.map_values(|e: (String, String)| (e.0@, e.1@)),
            0 <= i <= vs@.len(),
            forall|j: int| 0 <= j < i ==> m[j].0 != k@,
        decreases vs@.len() - i,
    {
        if chars_eq(&str_chars(vs[i].0.as_str()), k) {
            proof {
                lemma_key_index_is(m, k@, i as int);
            }
            return i;
        }
        i += 1;
    }
    proof {
        lemma_key_index_is(m, k@, i as int);
    }
    i
}

/// Sets `k` to `v`.
fn set_value(vs: &mut Vec<(String, String)>, k: &[char], v: &[char])
    ensures
        final(vs)@.map_values(|e: (String, String)| (e.0@, e.1@)) == put_value(
            old(vs)@.map_values(|e: (String, String)| (e.0@, e.1@)),
            k@,
            v@,
        ),
{
    let i = find_key(vs, k);
    let ghost before = vs@.map_values(|e: (String, String)| (e.0@, e.1@));
    if i < vs.len() {
        vs.set(i, (chars_to_string(k), chars_to_string(v)));
        assert(vs@.map_values(|e: (String, String)| (e.0@, e.1@)) =~= before.update(i as int, (k@, v@)));
    } else {
        vs.push((chars_to_string(k), chars_to_string(v)));
        assert(vs@.map_values(|e: (String, String)| (e.0@, e.1@)) =~= before.push((k@, v@)));
    }
}

/// Whether `k` is among `bs`.
fn has_str(bs: &Vec<String>, k: &[char]) -> (b: bool)
    ensures
        b == strs_view(bs@).contains(k@),
{
    let mut i: usize = 0;
    while i < bs.len()
        invariant
            0 <= i <= bs@.len(),
            forall|j: int| 0 <= j < i ==> bs@[j]@ != k@,
        decreases bs@.len() - i,
    {
        if chars_eq(&str_chars(bs[i].as_str()), k) {
            assert(strs_view(bs@)[i as int] == k@);
            return true;
        }
        i += 1;
    }
    proof {
        if strs_view(bs@).contains(k@) {
            let j = choose|j: int| 0 <= j < strs_view(bs@).len() && strs_view(bs@)[j] == k@;
            assert(bs@[j]@ == k@);
        }
    }
    false
}

/// Adds `k` unless present.
fn add_bool(bs: &mut Vec<String>, k: &[char])
    ensures
        strs_view(final(bs)@) == put_bool(strs_view(old(bs)@), k@),
{
    if !has_str(bs, k) {
        let ghost before = strs_view(bs@);
        bs.push(chars_to_string(k));
        assert(strs_view(bs@) =~= before.push(k@));
    }
}

impl Parsed {
    /// Whether a flag (long name) was given, with or without a value.
    pub fn flag(&self, long: &str) -> (b: bool)
        ensures
            b == (self.model().bools.contains(long@) || key_index(self.model().values, long@) < self.model().values.len()),
    {
        let l = str_chars(long);
        if has_str(&self.bools, &l) {
            return true;
        }
        let i = find_key(&self.values, &l);
        proof {
            lemma_key_index(self.model().values, long@);
        }
        i < self.values.len()
    }

    /// The value of a flag, if given.
    pub fn value(&self, long: &str) -> (r: Option<&str>)
        ensures
            match r {
                Some(v) => value_of(self.model().values, long@) == Some(v@),
                None => value_of(self.model().values, long@) is None,
            },
    {
        let l = str_chars(long);
        let i = find_key(&self.values, &l);
        proof {
            lemma_key_index(self.model().values, long@);
        }
        if i < self.values.len() {
            Some(self.values[i].1.as_str())
        } else {
            None
        }
    }

    /// The i-th positional argument, if any.
    pub fn pos(&self, i: usize) -> (r: Option<&str>)
        ensures
            match r {
                Some(v) => i < self.positional@.len() && v@ == self.positional@[i as int]@,
                None => i >= self.positional@.len(),
            },
    {
        if i < self.positional.len() {
            Some(self.positional[i].as_str())
        } else {
            None
        }
    }

    /// The full canonical command line (`info`, `boot config get`, ...).
    pub fn command_line(&self) -> (s: String)
        ensures
            s@ == join(self.model().path, " "@),
    {
        let v = crate::cmd_tree::join_chars(self.path.as_slice(), " ");
        chars_to_string(&v)
    }
}

// ── Flags along the path ────────────────────────────────────────────────────

/// Index of the first node named `name` (canonical name only), or `cs.len()`.
pub open spec fn name_index<H>(cs: Seq<Node<H>>, name: Seq<char>) -> int
    decreases cs.len(),
{
    if cs.len() == 0 {
        0
    } else if cs[0].name@ == name {
        0
    } else {
        1 + name_index(cs.drop_first(), name)
    }
}

/// The long name of the first flag of `fs` with short character `c`.
pub open spec fn short_in(fs: Seq<Flag>, c: char) -> Option<Seq<char>>
    decreases fs.len(),
{
    if fs.len() == 0 {
        None
    } else if fs[0].short == c {
        Some(fs[0].long@)
    } else {
        short_in(fs.drop_first(), c)
    }
}

/// Following `path` down from `n`: the long name of the first flag with
/// short character `c` on a node of the path (below `n`).
pub open spec fn short_walk<H>(n: Node<H>, path: Seq<Seq<char>>, c: char) -> Option<Seq<char>>
    decreases path.len(),
{
    if path.len() == 0 {
        None
    } else {
        let cs = children_of(n);
        let k = name_index(cs, path[0]);
        if k >= cs.len() {
            None
        } else {
            match short_in(cs[k].flags@, c) {
                Some(l) => Some(l),
                None => short_walk(cs[k], path.drop_first(), c),
            }
        }
    }
}

/// The long name a short flag stands for on the path: the root's flags
/// first, then each node of the path in turn.
pub open spec fn short_to_long_spec<H>(root: Node<H>, path: Seq<Seq<char>>, c: char) -> Option<Seq<char>> {
    match short_in(root.flags@, c) {
        Some(l) => Some(l),
        None => short_walk(root, path, c),
    }
}

/// Following `path` down from `n`: some node of the path (below `n`)
/// declares the long flag.
pub open spec fn long_walk<H>(n: Node<H>, path: Seq<Seq<char>>, long: Seq<char>) -> bool
    decreases path.len(),
{
    if path.len() == 0 {
        false
    } else {
        let cs = children_of(n);
        let k = name_index(cs, path[0]);
        if k >= cs.len() {
            false
        } else {
            crate::cmd_tree::find_flag(cs[k].flags@, long) is Some || long_walk(cs[k], path.drop_first(), long)
        }
    }
}

/// The root or a node of the path declares the long flag.
pub open spec fn flag_on_path_spec<H>(root: Node<H>, path: Seq<Seq<char>>, long: Seq<char>) -> bool {
    crate::cmd_tree::find_flag(root.flags@, long) is Some || long_walk(root, path, long)
}

/// Index of the first child named `name`.
fn name_index_in<H: Copy>(cs: &[Node<H>], name: &[char]) -> (k: usize)
    ensures
        k == name_index(cs@, name@),
{
    let mut k: usize = 0;
    assert(cs@.skip(0) =~= cs@);
    while k < cs.len()
        invariant
            0 <= k <= cs@.len(),
            name_index(cs@, name@) == k + name_index(cs@.skip(k as int), name@),
        decreases cs@.len() - k,
    {
        assert(cs@.skip(k as int)[0] == cs@[k as int]);
        assert(cs@.skip(k as int).drop_first() =~= cs@.skip(k + 1));
        if chars_eq(&str_chars(cs[k].name), name) {
            return k;
        }
        k += 1;
    }
    k
}

/// The long name of the first flag of `fs` with short character `c`.
fn short_in_flags(fs: &[Flag], c: char) -> (r: Option<&'static str>)
    ensures
        match r {
            Some(l) => short_in(fs@, c) == Some(l@),
            None => short_in(fs@, c) is None,
        },
{
    let mut i: usize = 0;
    assert(fs@.skip(0) =~= fs@);
    while i < fs.len()
        invariant
            0 <= i <= fs@.len(),
            short_in(fs@, c) == short_in(fs@.skip(i as int), c),
        decreases fs@.len() - i,
    {
        assert(fs@.skip(i as int)[0] == fs@[i as int]);
        assert(fs@.skip(i as int).drop_first() =~= fs@.skip(i + 1));
        if fs[i].short == c {
            return Some(fs[i].long);
        }
        i += 1;
    }
    None
}

/// The long name a short flag stands for on `path`.
pub fn short_to_long<H: Copy>(root: &Node<H>, path: &[&'static str], c: char) -> (r: Option<&'static str>)
    ensures
        match r {
            Some(l) => short_to_long_spec(*root, names_view(path@), c) == Some(l@),
            None => short_to_long_spec(*root, names_view(path@), c) is None,
        },
{
    if let Some(l) = short_in_flags(root.flags.as_slice(), c) {
        return Some(l);
    }
    let ghost ps = names_view(path@);
    let mut node = root;
    let mut i: usize = 0;
    assert(ps.skip(0) =~= ps);
    while i < path.len()
        invariant
            ps == names_view(path@),
            0 <= i <= path@.len(),
            short_to_long_spec(*root, ps, c) == short_walk(*node, ps.skip(i as int), c),
        decreases path@.len() - i,
    {
        let ghost rest = ps.skip(i as int);
        assert(rest[0] == path@[i as int]@);
        assert(rest.drop_first() =~= ps.skip(i + 1));
        let cs = node.children();
        let k = name_index_in(cs, &str_chars(path[i]));
        if k >= cs.len() {
            return None;
        }
        node = &cs[k];
        if let Some(l) = short_in_flags(node.flags.as_slice(), c) {
            return Some(l);
        }
        i += 1;
    }
    None
}

/// Whether the root or a node of `path` declares the long flag.
pub fn flag_on_path<H: Copy>(root: &Node<H>, path: &[&'static str], long: &[char]) -> (b: bool)
    ensures
        b == flag_on_path_spec(*root, names_view(path@), long@),
{
    let l = chars_to_string(long);
    if crate::cmd_tree::find_flag_in(root.flags.as_slice(), l.as_str()).is_some() {
        return true;
    }
    let ghost ps = names_view(path@);
    let mut node = root;
    let mut i: usize = 0;
    assert(ps.skip(0) =~= ps);
    while i < path.len()
        invariant
            ps == names_view(path@),
            l@ == long@,
            0 <= i <= path@.len(),
            flag_on_path_spec(*root, ps, long@) == long_walk(*node, ps.skip(i as int), long@),
        decreases path@.len() - i,
    {
        let ghost rest = ps.skip(i as int);
        assert(rest[0] == path@[i as int]@);
        assert(rest.drop_first() =~= ps.skip(i + 1));
        let cs = node.children();
        let k = name_index_in(cs, &str_chars(path[i]));
        if k >= cs.len() {
            return false;
        }
        node = &cs[k];
        if crate::cmd_tree::find_flag_in(node.flags.as_slice(), l.as_str()).is_some() {
            return true;
        }
        i += 1;
    }
    false
}

// ── Scanning the tokens ─────────────────────────────────────────────────────

/// Why a command line cannot be parsed, as plain values.
pub enum ParseErr {
    /// A flag that takes a value came last (the flag as typed).
    MissingValue(Seq<char>),
    /// A flag that no node on the path declares, and the command line.
    UnknownFlag(Seq<char>, Seq<char>),
}

/// Why a command line cannot be parsed.
#[derive(Debug)]
pub enum ParseError {
    /// A flag that takes a value came last (the flag as typed, `--path` or `-p`).
    MissingValue(String),
    /// A flag that no node on the path declares, and the canonical command line.
    UnknownFlag(String, String),
}

impl ParseError {
    /// The error as plain values.
    pub open spec fn model(&self) -> ParseErr {
        match self {
            ParseError::MissingValue(f) => ParseErr::MissingValue(f@),
            ParseError::UnknownFlag(f, c) => ParseErr::UnknownFlag(f@, c@),
        }
    }
}

/// The state of a scan: the node reached, the parse so far, whether help
/// was asked for, and whether `--` was seen.
#[verifier::reject_recursive_types(H)]
pub struct Scan<H> {
    pub node: Node<H>,
    pub p: ParsedModel,
    pub help: bool,
    pub after_dd: bool,
}

/// Index of the first node matching `tok` by name or alias, or `cs.len()`.
pub open spec fn child_index<H>(cs: Seq<Node<H>>, tok: Seq<char>) -> int
    decreases cs.len(),
{
    if cs.len() == 0 {
        0
    } else if matches_spec(cs[0], tok) {
        0
    } else {
        1 + child_index(cs.drop_first(), tok)
    }
}

/// The value-taking long names.
pub open spec fn value_longs() -> Seq<Seq<char>> {
    crate::lbt_tree::value_vocab().map_values(|e: (char, Seq<char>)| e.1)
}

/// The value-taking short characters.
pub open spec fn value_shorts() -> Seq<char> {
    crate::lbt_tree::value_vocab().map_values(|e: (char, Seq<char>)| e.0)
}

/// `-c`.
pub open spec fn dash(c: char) -> Seq<char> {
    seq!['-', c]
}

/// A cluster of short flags `cs` from index `j` (in token `i`): boolean
/// flags are recorded as `-c` until the first value flag, which takes the
/// rest of the cluster or, when nothing follows, the next token (then also
/// consumed: the `1` of the result).
pub open spec fn scan_shorts<H>(root: Node<H>, toks: Seq<Seq<char>>, i: int, cs: Seq<char>, j: nat, p: ParsedModel) -> Result<(ParsedModel, nat), ParseErr>
    decreases cs.len() - j,
{
    if j >= cs.len() {
        Ok((p, 0))
    } else {
        let c = cs[j as int];
        if value_shorts().contains(c) {
            let rest = cs.skip((j + 1) as int);
            let key = match short_to_long_spec(root, p.path, c) {
                Some(l) => l,
                None => dash(c),
            };
            if rest.len() > 0 {
                Ok((ParsedModel { values: put_value(p.values, key, rest), ..p }, 0))
            } else if i + 1 < toks.len() {
                Ok((ParsedModel { values: put_value(p.values, key, toks[i + 1]), ..p }, 1))
            } else {
                Err(ParseErr::MissingValue(dash(c)))
            }
        } else {
            scan_shorts(root, toks, i, cs, j + 1, ParsedModel { bools: put_bool(p.bools, dash(c)), ..p })
        }
    }
}

/// The scan of tokens `i..`: after `--` everything is positional; `-h` and
/// `--help` ask for help; `--name=value`, `--name value` for a value flag,
/// and `--name` for a boolean; short clusters; a child's name or alias
/// descends; anything else is positional.
pub open spec fn scan<H>(root: Node<H>, toks: Seq<Seq<char>>, i: nat, s: Scan<H>) -> Result<Scan<H>, ParseErr>
    decreases toks.len() - i,
{
    if i >= toks.len() {
        Ok(s)
    } else {
        let tok = toks[i as int];
        if s.after_dd {
            scan(root, toks, i + 1, Scan { p: ParsedModel { positional: s.p.positional.push(tok), ..s.p }, ..s })
        } else if tok == "--"@ {
            scan(root, toks, i + 1, Scan { after_dd: true, ..s })
        } else if tok == "-h"@ || tok == "--help"@ {
            scan(root, toks, i + 1, Scan { help: true, ..s })
        } else if tok.len() >= 2 && tok[0] == '-' && tok[1] == '-' {
            let body = tok.skip(2);
            match crate::text::split_once(body, '=') {
                Some((name, val)) => scan(root, toks, i + 1, Scan { p: ParsedModel { values: put_value(s.p.values, name, val), ..s.p }, ..s }),
                None => if value_longs().contains(body) {
                    if i + 1 < toks.len() {
                        scan(root, toks, i + 2, Scan { p: ParsedModel { values: put_value(s.p.values, body, toks[(i + 1) as int]), ..s.p }, ..s })
                    } else {
                        Err(ParseErr::MissingValue("--"@ + body))
                    }
                } else {
                    scan(root, toks, i + 1, Scan { p: ParsedModel { bools: put_bool(s.p.bools, body), ..s.p }, ..s })
                },
            }
        } else if tok.len() >= 2 && tok[0] == '-' {
            match scan_shorts(root, toks, i as int, tok.skip(1), 0, s.p) {
                Err(e) => Err(e),
                Ok((p2, extra)) => if i + 1 + extra <= toks.len() {
                    scan(root, toks, i + 1 + extra, Scan { p: p2, ..s })
                } else {
                    Ok(s)
                },
            }
        } else {
            let cs = children_of(s.node);
            let k = child_index(cs, tok);
            if k < cs.len() {
                scan(root, toks, i + 1, Scan { node: cs[k], p: ParsedModel { path: s.p.path.push(cs[k].name@), ..s.p }, ..s })
            } else {
                scan(root, toks, i + 1, Scan { p: ParsedModel { positional: s.p.positional.push(tok), ..s.p }, ..s })
            }
        }
    }
}

proof fn lemma_scan_shorts_extra<H>(root: Node<H>, toks: Seq<Seq<char>>, i: int, cs: Seq<char>, j: nat, p: ParsedModel)
    ensures
        scan_shorts(root, toks, i, cs, j, p) matches Ok((_, extra)) ==> extra == 0 || (extra == 1 && i + 1 < toks.len()),
    decreases cs.len() - j,
{
    if j < cs.len() && !value_shorts().contains(cs[j as int]) {
        lemma_scan_shorts_extra(root, toks, i, cs, j + 1, ParsedModel { bools: put_bool(p.bools, dash(cs[j as int])), ..p });
    }
}

proof fn lemma_child_index<H>(cs: Seq<Node<H>>, tok: Seq<char>, k: int)
    requires
        0 <= k <= cs.len(),
        forall|j: int| 0 <= j < k ==> !matches_spec(#[trigger] cs[j], tok),
        k < cs.len() ==> matches_spec(cs[k], tok),
    ensures
        child_index(cs, tok) == k,
    decreases k,
{
    if k > 0 {
        assert forall|j: int| 0 <= j < k - 1 implies !matches_spec(#[trigger] cs.drop_first()[j], tok) by {
            assert(cs.drop_first()[j] == cs[j + 1]);
        }
        lemma_child_index(cs.drop_first(), tok, k - 1);
    }
}

/// Index of the first child matching `tok` by name or alias.
fn child_index_in<H: Copy>(cs: &[Node<H>], tok: &str) -> (k: usize)
    ensures
        k == child_index(cs@, tok@),
{
    let mut k: usize = 0;
    while k < cs.len()
        invariant
            0 <= k <= cs@.len(),
            forall|j: int| 0 <= j < k ==> !matches_spec(#[trigger] cs@[j], tok@),
        decreases cs@.len() - k,
    {
        if cs[k].matches(tok) {
            proof {
                lemma_child_index(cs@, tok@, k as int);
            }
            return k;
        }
        k += 1;
    }
    proof {
        lemma_child_index(cs@, tok@, k as int);
    }
    k
}

/// The value flags as `value_flags` returns them.
pub open spec fn value_flags_ok(vf: Seq<Flag>) -> bool {
    &&& vf.len() == crate::lbt_tree::value_vocab().len()
    &&& forall|i: int| 0 <= i < vf.len() ==> (#[trigger] vf[i]).short == crate::lbt_tree::value_vocab()[i].0
        && vf[i].long@ == crate::lbt_tree::value_vocab()[i].1
}

/// Whether `body` is the long name of a value flag.
fn is_value_long(vf: &[Flag], body: &[char]) -> (b: bool)
    requires
        value_flags_ok(vf@),
    ensures
        b == value_longs().contains(body@),
{
    let mut i: usize = 0;
    while i < vf.len()
        invariant
            value_flags_ok(vf@),
            0 <= i <= vf@.len(),
            forall|j: int| 0 <= j < i ==> value_longs()[j] != body@,
        decreases vf@.len() - i,
    {
        if chars_eq(&str_chars(vf[i].long), body) {
            assert(value_longs()[i as int] == body@);
            return true;
        }
        i += 1;
    }
    false
}

/// Whether `c` is the short character of a value flag.
fn is_value_short(vf: &[Flag], c: char) -> (b: bool)
    requires
        value_flags_ok(vf@),
    ensures
        b == value_shorts().contains(c),
{
    let mut i: usize = 0;
    while i < vf.len()
        invariant
            value_flags_ok(vf@),
            0 <= i <= vf@.len(),
            forall|j: int| 0 <= j < i ==> value_shorts()[j] != c,
        decreases vf@.len() - i,
    {
        if vf[i].short == c {
            assert(value_shorts()[i as int] == c);
            return true;
        }
        i += 1;
    }
    false
}

/// Processes a cluster of short flags; returns whether the next token was
/// consumed as a value.
fn do_shorts<H: Copy>(
    root: &Node<H>,
    vf: &[Flag],
    tokens: &Vec<String>,
    i: usize,
    cs: &[char],
    parsed: &mut Parsed,
) -> (r: Result<bool, ParseError>)
    requires
        value_flags_ok(vf@),
        i < tokens@.len(),
    ensures
        final(parsed).path@ == old(parsed).path@,
        final(parsed).positional@ == old(parsed).positional@,
        match scan_shorts(*root, strs_view(tokens@), i as int, cs@, 0, old(parsed).model()) {
            Err(e) => r matches Err(x) && x.model() == e,
            Ok((p, extra)) => r matches Ok(used) && final(parsed).model() == p && extra == (if used { 1nat } else { 0 }),
        },
{
    let ghost toks = strs_view(tokens@);
    let ghost p0 = parsed.model();
    let mut j: usize = 0;
    while j < cs.len()
        invariant
            value_flags_ok(vf@),
            i < tokens@.len(),
            toks == strs_view(tokens@),
            p0 == old(parsed).model(),
            0 <= j <= cs@.len(),
            parsed.path@ == old(parsed).path@,
            parsed.positional@ == old(parsed).positional@,
            scan_shorts(*root, toks, i as int, cs@, 0, p0) == scan_shorts(*root, toks, i as int, cs@, j as nat, parsed.model()),
        decreases cs@.len() - j,
    {
        let c = cs[j];
        if is_value_short(vf, c) {
            let rest = copy_range(cs, j + 1, cs.len());
            assert(rest@ =~= cs@.skip(j + 1));
            let key: Vec<char> = match short_to_long(root, parsed.path.as_slice(), c) {
                Some(l) => str_chars(l),
                None => {
                    let mut d: Vec<char> = Vec::new();
                    d.push('-');
                    d.push(c);
                    assert(d@ =~= dash(c));
                    d
                },
            };
            let ghost pm = parsed.model();
            assert(key@ == match short_to_long_spec(*root, pm.path, c) {
                Some(l) => l,
                None => dash(c),
            });
            if rest.len() > 0 {
                set_value(&mut parsed.values, &key, &rest);
                assert(parsed.model().values == put_value(pm.values, key@, rest@));
                assert(parsed.model().bools == pm.bools && parsed.model().path == pm.path && parsed.model().positional
                    == pm.positional);
                assert(scan_shorts(*root, toks, i as int, cs@, j as nat, pm) == Ok::<(ParsedModel, nat), ParseErr>(
                    (ParsedModel { values: put_value(pm.values, key@, rest@), ..pm }, 0nat),
                ));
                assert(parsed.model() == ParsedModel { values: put_value(pm.values, key@, rest@), ..pm });
                return Ok(false);
            } else if i < tokens.len() - 1 {
                let v = str_chars(tokens[i + 1].as_str());
                set_value(&mut parsed.values, &key, &v);
                assert(v@ == toks[i + 1]);
                assert(parsed.model().values == put_value(pm.values, key@, v@));
                assert(parsed.model().bools == pm.bools && parsed.model().path == pm.path && parsed.model().positional
                    == pm.positional);
                assert(scan_shorts(*root, toks, i as int, cs@, j as nat, pm) == Ok::<(ParsedModel, nat), ParseErr>(
                    (ParsedModel { values: put_value(pm.values, key@, v@), ..pm }, 1nat),
                ));
                assert(parsed.model() == ParsedModel { values: put_value(pm.values, key@, v@), ..pm });
                return Ok(true);
            } else {
                let mut d: Vec<char> = Vec::new();
                d.push('-');
                d.push(c);
                assert(d@ =~= dash(c));
                return Err(ParseError::MissingValue(chars_to_string(&d)));
            }
        }
        let mut d: Vec<char> = Vec::new();
        d.push('-');
        d.push(c);
        assert(d@ =~= dash(c));
        let ghost pm = parsed.model();
        add_bool(&mut parsed.bools, &d);
        assert(parsed.model().bools == put_bool(pm.bools, dash(c)));
        assert(parsed.model().values == pm.values && parsed.model().path == pm.path && parsed.model().positional
            == pm.positional);
        j += 1;
    }
    Ok(false)
}

/// The empty parse.
pub open spec fn empty_model() -> ParsedModel {
    ParsedModel { path: Seq::empty(), values: Seq::empty(), bools: Seq::empty(), positional: Seq::empty() }
}

/// Scans the tokens into `parsed`, starting at `root`; returns the node
/// reached and whether help was asked for.
fn scan_tokens<'a, H: Copy>(root: &'a Node<H>, tokens: &Vec<String>, parsed: &mut Parsed) -> (r: Result<(&'a Node<H>, bool), ParseError>)
    requires
        old(parsed).model() == empty_model(),
    ensures
        match scan(*root, strs_view(tokens@), 0, Scan { node: *root, p: empty_model(), help: false, after_dd: false }) {
            Err(e) => r matches Err(x) && x.model() == e,
            Ok(s) => r matches Ok((n, h)) && *n == s.node && h == s.help && final(parsed).model() == s.p,
        },
{
    let vf = crate::lbt_tree::value_flags();
    let ghost toks = strs_view(tokens@);
    let ghost init = Scan { node: *root, p: empty_model(), help: false, after_dd: false };
    let mut node: &'a Node<H> = root;
    let mut help = false;
    let mut after_dd = false;
    let mut i: usize = 0;
    while i < tokens.len()
        invariant
            value_flags_ok(vf@),
            toks == strs_view(tokens@),
            init == (Scan { node: *root, p: empty_model(), help: false, after_dd: false }),
            0 <= i <= tokens@.len(),
            scan(*root, toks, 0, init) == scan(*root, toks, i as nat, Scan { node: *node, p: parsed.model(), help, after_dd }),
        decreases tokens@.len() - i,
    {
        let ghost s = Scan { node: *node, p: parsed.model(), help, after_dd };
        let ghost pm = parsed.model();
        let tok = &tokens[i];
        let tc = str_chars(tok.as_str());
        assert(tc@ == toks[i as int]);
        if after_dd {
            parsed.positional.push(chars_to_string(&tc));
            assert(parsed.model() == ParsedModel { positional: pm.positional.push(tc@), ..pm }) by {
                assert(strs_view(parsed.positional@) =~= pm.positional.push(tc@));
            }
            i += 1;
        } else if crate::text::chars_eq_str(&tc, "--") {
            after_dd = true;
            i += 1;
        } else if crate::text::chars_eq_str(&tc, "-h") || crate::text::chars_eq_str(&tc, "--help") {
            help = true;
            i += 1;
        } else if tc.len() >= 2 && tc[0] == '-' && tc[1] == '-' {
            let body = copy_range(&tc, 2, tc.len());
            assert(body@ =~= tc@.skip(2));
            let k = crate::text::find_char(&body, '=');
            proof {
                crate::text::lemma_index_of(body@, '=');
            }
            if k < body.len() {
                let name = copy_range(&body, 0, k);
                let val = copy_range(&body, k + 1, body.len());
                assert(name@ =~= body@.take(k as int) && val@ =~= body@.skip(k + 1));
                set_value(&mut parsed.values, &name, &val);
                assert(parsed.model() == ParsedModel { values: put_value(pm.values, name@, val@), ..pm });
                i += 1;
            } else if is_value_long(vf.as_slice(), &body) {
                if i < tokens.len() - 1 {
                    let v = str_chars(tokens[i + 1].as_str());
                    set_value(&mut parsed.values, &body, &v);
                    assert(parsed.model() == ParsedModel { values: put_value(pm.values, body@, v@), ..pm });
                    i += 2;
                } else {
                    let mut f: Vec<char> = Vec::new();
                    push_str(&mut f, "--");
                    push_all(&mut f, &body);
                    return Err(ParseError::MissingValue(chars_to_string(&f)));
                }
            } else {
                add_bool(&mut parsed.bools, &body);
                assert(parsed.model() == ParsedModel { bools: put_bool(pm.bools, body@), ..pm });
                i += 1;
            }
        } else if tc.len() >= 2 && tc[0] == '-' {
            let cs = copy_range(&tc, 1, tc.len());
            assert(cs@ =~= tc@.skip(1));
            proof {
                lemma_scan_shorts_extra(*root, toks, i as int, cs@, 0, pm);
            }
            match do_shorts(root, vf.as_slice(), tokens, i, &cs, parsed) {
                Err(e) => {
                    return Err(e);
                },
                Ok(used) => {
                    assert(parsed.model().path == pm.path);
                    i += if used {
                        2
                    } else {
                        1
                    };
                },
            }
        } else {
            let cs = node.children();
            let k = child_index_in(cs, tok.as_str());
            if k < cs.len() {
                node = &cs[k];
                parsed.path.push(node.name);
                assert(parsed.model() == ParsedModel { path: pm.path.push(node.name@), ..pm }) by {
                    assert(names_view(parsed.path@) =~= pm.path.push(node.name@));
                }
            } else {
                parsed.positional.push(chars_to_string(&tc));
                assert(parsed.model() == ParsedModel { positional: pm.positional.push(tc@), ..pm }) by {
                    assert(strs_view(parsed.positional@) =~= pm.positional.push(tc@));
                }
            }
            i += 1;
        }
    }
    Ok((node, help))
}

/// The `-c` entries of `bs` (a dash and one ASCII character), in order.
pub open spec fn dash_entries(bs: Seq<Seq<char>>) -> Seq<Seq<char>>
    decreases bs.len(),
{
    if bs.len() == 0 {
        Seq::empty()
    } else {
        let rest = dash_entries(bs.drop_last());
        let b = bs.last();
        if b.len() == 2 && b[0] == '-' && (b[1] as u32) < 0x80 {
            rest.push(b)
        } else {
            rest
        }
    }
}

/// Each `-c` of `snap` adds the long name it stands for on the path.
pub open spec fn resolve_shorts<H>(root: Node<H>, path: Seq<Seq<char>>, bs: Seq<Seq<char>>, snap: Seq<Seq<char>>) -> Seq<Seq<char>>
    decreases snap.len(),
{
    if snap.len() == 0 {
        bs
    } else {
        let rest = resolve_shorts(root, path, bs, snap.drop_last());
        match short_to_long_spec(root, path, snap.last()[1]) {
            Some(l) => put_bool(rest, l),
            None => rest,
        }
    }
}

/// A flag as recorded is known on the path: `-c` when `c` stands for a
/// flag there, a long name when a node of the path declares it.
pub open spec fn known<H>(root: Node<H>, path: Seq<Seq<char>>, f: Seq<char>) -> bool {
    if f.len() > 0 && f[0] == '-' {
        short_to_long_spec(root, path, f[1]) is Some
    } else {
        flag_on_path_spec(root, path, f)
    }
}

/// The first of `ks` that is a lone `-` or is not known on the path.
pub open spec fn first_bad<H>(root: Node<H>, path: Seq<Seq<char>>, ks: Seq<Seq<char>>) -> Option<Seq<char>>
    decreases ks.len(),
{
    if ks.len() == 0 {
        None
    } else if ks[0] == seq!['-'] || !known(root, path, ks[0]) {
        Some(ks[0])
    } else {
        first_bad(root, path, ks.drop_first())
    }
}

/// What a parse asks for.
#[verifier::reject_recursive_types(H)]
pub enum Outcome<H> {
    /// Help for the node reached.
    Help(Node<H>),
    /// Run the leaf reached with the parse.
    Run(Node<H>, ParsedModel),
}

/// The result of parsing `toks` against `root`; `None` where a flag
/// recorded as a lone `-` would be checked (a token `---`, or `---=...`),
/// which cannot be read as a short flag.
pub open spec fn parse_outcome<H>(root: Node<H>, toks: Seq<Seq<char>>) -> Option<Result<Outcome<H>, ParseErr>> {
    match scan(root, toks, 0, Scan { node: root, p: empty_model(), help: false, after_dd: false }) {
        Err(e) => Some(Err(e)),
        Ok(s) => {
            let bools = resolve_shorts(root, s.p.path, s.p.bools, dash_entries(s.p.bools));
            let p = ParsedModel { bools, ..s.p };
            let cmd = join(p.path, " "@);
            match first_bad(root, p.path, bools) {
                Some(f) => if f == seq!['-'] {
                    None
                } else {
                    Some(Err(ParseErr::UnknownFlag(f, cmd)))
                },
                None => match first_bad(root, p.path, p.values.map_values(|e: (Seq<char>, Seq<char>)| e.0)) {
                    Some(f) => if f == seq!['-'] {
                        None
                    } else {
                        Some(Err(ParseErr::UnknownFlag(f, cmd)))
                    },
                    None => Some(
                        Ok(
                            if s.help || s.node.kind is Ns {
                                Outcome::Help(s.node)
                            } else {
                                Outcome::Run(s.node, p)
                            },
                        ),
                    ),
                },
            }
        },
    }
}

/// Adds the long names of the recorded short booleans.
fn resolve_bools<H: Copy>(root: &Node<H>, parsed: &mut Parsed)
    ensures
        final(parsed).model() == (ParsedModel {
            bools: resolve_shorts(*root, old(parsed).model().path, old(parsed).model().bools, dash_entries(old(parsed).model().bools)),
            ..old(parsed).model()
        }),
{
    let ghost pm = parsed.model();
    let mut snap: Vec<String> = Vec::new();
    let mut k: usize = 0;
    while k < parsed.bools.len()
        invariant
            pm == parsed.model(),
            0 <= k <= pm.bools.len(),
            strs_view(snap@) == dash_entries(pm.bools.take(k as int)),
        decreases pm.bools.len() - k,
    {
        let b = str_chars(parsed.bools[k].as_str());
        proof {
            let t = pm.bools.take(k + 1);
            assert(t.drop_last() =~= pm.bools.take(k as int));
            assert(t.last() == b@);
        }
        if b.len() == 2 && b[0] == '-' && (b[1] as u32) < 0x80 {
            snap.push(chars_to_string(&b));
            assert(strs_view(snap@) =~= dash_entries(pm.bools.take(k as int)).push(b@));
        }
        k += 1;
    }
    assert(pm.bools.take(pm.bools.len() as int) =~= pm.bools);
    let ghost sv = strs_view(snap@);
    let mut j: usize = 0;
    while j < snap.len()
        invariant
            sv == strs_view(snap@),
            sv == dash_entries(pm.bools),
            0 <= j <= sv.len(),
            parsed.model() == (ParsedModel { bools: resolve_shorts(*root, pm.path, pm.bools, sv.take(j as int)), ..pm }),
        decreases sv.len() - j,
    {
        let b = str_chars(snap[j].as_str());
        proof {
            let t = sv.take(j + 1);
            assert(t.drop_last() =~= sv.take(j as int));
            assert(t.last() == b@);
            lemma_dash_entries_len(pm.bools);
            assert(sv[j as int].len() == 2);
        }
        let ghost before = parsed.model();
        match short_to_long(root, parsed.path.as_slice(), b[1]) {
            Some(l) => {
                add_bool(&mut parsed.bools, &str_chars(l));
                assert(parsed.model() == (ParsedModel { bools: put_bool(before.bools, l@), ..before }));
            },
            None => {},
        }
        j += 1;
    }
    assert(sv.take(sv.len() as int) =~= sv);
}

proof fn lemma_dash_entries_len(bs: Seq<Seq<char>>)
    ensures
        forall|i: int| 0 <= i < dash_entries(bs).len() ==> (#[trigger] dash_entries(bs)[i]).len() == 2,
    decreases bs.len(),
{
    if bs.len() > 0 {
        lemma_dash_entries_len(bs.drop_last());
        let rest = dash_entries(bs.drop_last());
        let b = bs.last();
        if b.len() == 2 && b[0] == '-' && (b[1] as u32) < 0x80 {
            assert forall|i: int| 0 <= i < rest.push(b).len() implies (#[trigger] rest.push(b)[i]).len() == 2 by {
                if i < rest.len() {
                    assert(rest.push(b)[i] == rest[i]);
                }
            }
        }
    }
}

/// Whether a recorded flag is known on the path (a lone `-` is not read).
fn is_known<H: Copy>(root: &Node<H>, path: &[&'static str], f: &[char]) -> (b: bool)
    requires
        f@ != seq!['-'],
    ensures
        b == known(*root, names_view(path@), f@),
{
    if f.len() > 0 && f[0] == '-' {
        proof {
            if f.len() == 1 {
                assert(f@ =~= seq!['-']);
            }
        }
        short_to_long(root, path, f[1]).is_some()
    } else {
        flag_on_path(root, path, f)
    }
}

/// The first of `ks` that is a lone `-` or not known on the path.
fn find_bad<H: Copy>(root: &Node<H>, path: &[&'static str], ks: &[String]) -> (r: Option<String>)
    ensures
        match r {
            Some(f) => first_bad(*root, names_view(path@), strs_view(ks@)) == Some(f@),
            None => first_bad(*root, names_view(path@), strs_view(ks@)) is None,
        },
{
    let ghost kv = strs_view(ks@);
    let mut i: usize = 0;
    assert(kv.skip(0) =~= kv);
    while i < ks.len()
        invariant
            kv == strs_view(ks@),
            0 <= i <= kv.len(),
            first_bad(*root, names_view(path@), kv) == first_bad(*root, names_view(path@), kv.skip(i as int)),
        decreases kv.len() - i,
    {
        let f = str_chars(ks[i].as_str());
        assert(kv.skip(i as int)[0] == f@);
        assert(kv.skip(i as int).drop_first() =~= kv.skip(i + 1));
        let lone = f.len() == 1 && f[0] == '-';
        assert(lone == (f@ == seq!['-'])) by {
            if f@ == seq!['-'] {
                assert(f@[0] == '-');
            }
            if lone {
                assert(f@ =~= seq!['-']);
            }
        }
        if lone || !is_known(root, path, &f) {
            return Some(chars_to_string(&f));
        }
        i += 1;
    }
    None
}

/// What a successfully parsed command line wants to do.
#[verifier::reject_recursive_types(H)]
pub enum Action<'a, H> {
    /// Print help for the node reached (a namespace with no leaf, or `-h`).
    Help(&'a Node<H>),
    /// Invoke the leaf's handler with the parsed arguments.
    Run(&'a Node<H>, Parsed),
}

/// The parse result matches the outcome.
pub open spec fn action_is<H>(r: Result<Action<H>, ParseError>, o: Result<Outcome<H>, ParseErr>) -> bool {
    match o {
        Err(e) => r matches Err(x) && x.model() == e,
        Ok(Outcome::Help(n)) => r matches Ok(Action::Help(m)) && *m == n,
        Ok(Outcome::Run(n, p)) => r matches Ok(Action::Run(m, q)) && *m == n && q.model() == p,
    }
}

/// Parses a token list against the command tree `root`; `None` where the
/// command line holds a flag recorded as a lone `-` that would be checked.
pub fn parse_checked<'a, H: Copy>(root: &'a Node<H>, tokens: Vec<String>) -> (r: Option<Result<Action<'a, H>, ParseError>>)
    ensures
        match parse_outcome(*root, strs_view(tokens@)) {
            None => r is None,
            Some(o) => r matches Some(x) && action_is(x, o),
        },
{
    let mut parsed = Parsed { path: Vec::new(), values: Vec::new(), bools: Vec::new(), positional: Vec::new() };
    assert(parsed.model() =~= empty_model()) by {
        assert(parsed.model().path =~= Seq::<Seq<char>>::empty());
        assert(parsed.model().values =~= Seq::<(Seq<char>, Seq<char>)>::empty());
        assert(parsed.model().bools =~= Seq::<Seq<char>>::empty());
        assert(parsed.model().positional =~= Seq::<Seq<char>>::empty());
    }
    let (node, help) = match scan_tokens(root, &tokens, &mut parsed) {
        Err(e) => {
            return Some(Err(e));
        },
        Ok(x) => x,
    };
    resolve_bools(root, &mut parsed);
    let cmd = parsed.command_line();
    match find_bad(root, parsed.path.as_slice(), parsed.bools.as_slice()) {
        Some(f) => {
            let fc = str_chars(f.as_str());
            if fc.len() == 1 && fc[0] == '-' {
                assert(fc@ =~= seq!['-']);
                return None;
            }
            assert(f@ != seq!['-']) by {
                if f@ == seq!['-'] {
                    assert(fc@[0] == '-');
                }
            }
            return Some(Err(ParseError::UnknownFlag(f, cmd)));
        },
        None => {},
    }
    let mut keys: Vec<String> = Vec::new();
    let mut k: usize = 0;
    let ghost ks = parsed.model().values.map_values(|e: (Seq<char>, Seq<char>)| e.0);
    assert(forall|i: int| 0 <= i < ks.len() ==> #[trigger] ks[i] == parsed.values@[i].0@);
    while k < parsed.values.len()
        invariant
            0 <= k <= parsed.values@.len(),
            ks.len() == parsed.values@.len(),
            forall|i: int| 0 <= i < ks.len() ==> #[trigger] ks[i] == parsed.values@[i].0@,
            strs_view(keys@) == ks.take(k as int),
        decreases parsed.values@.len() - k,
    {
        let key = str_chars(parsed.values[k].0.as_str());
        let ghost before = keys@;
        let ks_k = chars_to_string(&key);
        assert(ks_k@ == ks[k as int]);
        keys.push(ks_k);
        assert(keys@ == before.push(ks_k));
        assert(strs_view(keys@) =~= strs_view(before).push(ks_k@));
        assert(ks.take(k + 1) =~= ks.take(k as int).push(ks[k as int]));
        k += 1;
    }
    assert(ks.take(parsed.values@.len() as int) =~= ks);
    match find_bad(root, parsed.path.as_slice(), keys.as_slice()) {
        Some(f) => {
            let fc = str_chars(f.as_str());
            if fc.len() == 1 && fc[0] == '-' {
                assert(fc@ =~= seq!['-']);
                return None;
            }
            assert(f@ != seq!['-']) by {
                if f@ == seq!['-'] {
                    assert(fc@[0] == '-');
                }
            }
            return Some(Err(ParseError::UnknownFlag(f, cmd)));
        },
        None => {},
    }
    if help {
        return Some(Ok(Action::Help(node)));
    }
    match &node.kind {
        Kind::Ns(_) => Some(Ok(Action::Help(node))),
        Kind::Leaf(_) => Some(Ok(Action::Run(node, parsed))),
    }
}

/// Parses a token list (the process arguments without `argv[0]`) against
/// the command tree `root`.
pub fn parse_from<'a, H: Copy>(root: &'a Node<H>, tokens: Vec<String>) -> (r: Result<Action<'a, H>, ParseError>)
    requires
        parse_outcome(*root, strs_view(tokens@)) is Some,
    ensures
        action_is(r, parse_outcome(*root, strs_view(tokens@))->0),
{
    match parse_checked(root, tokens) {
        Some(r) => r,
        None => Err(ParseError::MissingValue(String::new())),
    }
}

} // verus!
