//! Command trees: every node carries a canonical name, aliases, a short help
//! string, its flags, and either child nodes (a namespace) or a handler.
use vstd::prelude::*;

use crate::text::{chars_eq, chars_to_string, push_str, str_chars};

verus! {

/// One command-line flag.
#[derive(Debug, Clone, Copy)]
pub struct Flag {
    pub short: char,
    pub long: &'static str,
    pub value: bool,
    pub doc: &'static str,
}

/// A command node.
#[verifier::reject_recursive_types(H)]
pub struct Node<H> {
    pub name: &'static str,
    pub doc: &'static str,
    pub aliases: Vec<&'static str>,
    pub flags: Vec<Flag>,
    pub kind: Kind<H>,
}

/// What a node holds.
#[verifier::reject_recursive_types(H)]
pub enum Kind<H> {
    /// A namespace with children.
    Ns(Vec<Node<H>>),
    /// A runnable command.
    Leaf(H),
}

/// The children of a node (none for a leaf).
pub open spec fn children_of<H>(n: Node<H>) -> Seq<Node<H>> {
    match n.kind {
        Kind::Ns(c) => c@,
        Kind::Leaf(_) => Seq::empty(),
    }
}

/// `tok` is the node's name or one of its aliases.
pub open spec fn matches_spec<H>(n: Node<H>, tok: Seq<char>) -> bool {
    n.name@ == tok || exists|i: int| 0 <= i < n.aliases@.len() && (#[trigger] n.aliases@[i])@ == tok
}

impl<H: Copy> Node<H> {
    /// Whether a token matches this node's canonical name or any alias.
    pub fn matches(&self, tok: &str) -> (b: bool)
        ensures
            b == matches_spec(*self, tok@),
    {
        let t = str_chars(tok);
        if chars_eq(&str_chars(self.name), &t) {
            return true;
        }
        let mut i: usize = 0;
        while i < self.aliases.len()
            invariant
                t@ == tok@,
                self.name@ != tok@,
                0 <= i <= self.aliases@.len(),
                forall|j: int| 0 <= j < i ==> (#[trigger] self.aliases@[j])@ != tok@,
            decreases self.aliases@.len() - i,
        {
            if chars_eq(&str_chars(self.aliases[i]), &t) {
                return true;
            }
            i += 1;
        }
        false
    }

    /// The leaf handler if this node is a leaf.
    pub fn handler(&self) -> (h: Option<H>)
        ensures
            h == match self.kind {
                Kind::Leaf(x) => Some(x),
                Kind::Ns(_) => None::<H>,
            },
    {
        match &self.kind {
            Kind::Leaf(h) => Some(*h),
            Kind::Ns(_) => None,
        }
    }

    /// The children of a namespace (none for a leaf).
    pub fn children(&self) -> (c: &[Node<H>])
        ensures
            c@ == children_of(*self),
    {
        match &self.kind {
            Kind::Ns(c) => c.as_slice(),
            Kind::Leaf(_) => &[],
        }
    }
}

/// The first flag of `fs` with long name `long`.
pub open spec fn find_flag(fs: Seq<Flag>, long: Seq<char>) -> Option<Flag>
    decreases fs.len(),
{
    if fs.len() == 0 {
        None
    } else if fs[0].long@ == long {
        Some(fs[0])
    } else {
        find_flag(fs.drop_first(), long)
    }
}

impl<H: Copy> Node<H> {
    /// Finds a flag declaration with the given long name on this node.
    pub fn find_long(&self, long: &str) -> (f: Option<Flag>)
        ensures
            f == find_flag(self.flags@, long@),
    {
        find_flag_in(self.flags.as_slice(), long)
    }
}

/// The first flag of `fs` with long name `long`.
pub fn find_flag_in(fs: &[Flag], long: &str) -> (f: Option<Flag>)
    ensures
        f == find_flag(fs@, long@),
{
    let l = str_chars(long);
    let mut i: usize = 0;
    assert(fs@.skip(0) =~= fs@);
    while i < fs.len()
        invariant
            l@ == long@,
            0 <= i <= fs@.len(),
            find_flag(fs@, long@) == find_flag(fs@.skip(i as int), long@),
        decreases fs@.len() - i,
    {
        assert(fs@.skip(i as int)[0] == fs@[i as int]);
        assert(fs@.skip(i as int).drop_first() =~= fs@.skip(i + 1));
        if chars_eq(&str_chars(fs[i].long), &l) {
            return Some(fs[i]);
        }
        i += 1;
    }
    None
}

/// `ps` joined with `sep`.
pub open spec fn join(ps: Seq<Seq<char>>, sep: Seq<char>) -> Seq<char>
    decreases ps.len(),
{
    if ps.len() == 0 {
        Seq::empty()
    } else if ps.len() == 1 {
        ps[0]
    } else {
        join(ps.drop_last(), sep) + sep + ps.last()
    }
}

/// `n` copies of two spaces.
pub open spec fn indent(n: nat) -> Seq<char>
    decreases n,
{
    if n == 0 {
        Seq::empty()
    } else {
        indent((n - 1) as nat) + seq![' ', ' ']
    }
}

/// The line of a node reached by `path`: indented by depth, the path, and its doc.
pub open spec fn walk_line(path: Seq<Seq<char>>, doc: Seq<char>) -> Seq<char> {
    indent((path.len() - 1) as nat) + join(path, " "@) + " — "@ + doc
}

/// The lines for the nodes `cs` (and everything below them) under `prefix`,
/// depth first.
pub open spec fn walk_nodes<H>(cs: Seq<Node<H>>, prefix: Seq<Seq<char>>) -> Seq<Seq<char>>
    decreases cs,
{
    if cs.len() == 0 {
        Seq::empty()
    } else {
        let c = cs[0];
        let p = prefix.push(c.name@);
        let below = match c.kind {
            Kind::Ns(v) => {
                proof {
                    assert(decreases_to!(cs => cs[0]));
                    assert(decreases_to!(c => c.kind));
                    assert(decreases_to!(c.kind => v));
                    assert(decreases_to!(v => v@));
                    assert(decreases_to!(cs => v@));
                }
                walk_nodes(v@, p)
            },
            Kind::Leaf(_) => Seq::empty(),
        };
        seq![walk_line(p, c.doc@)] + below + walk_nodes(cs.drop_first(), prefix)
    }
}

/// The characters of each string.
pub open spec fn strs_view(v: Seq<String>) -> Seq<Seq<char>> {
    v.map_values(|s: String| s@)
}

/// The characters of each name.
pub open spec fn names_view(v: Seq<&'static str>) -> Seq<Seq<char>> {
    v.map_values(|s: &'static str| s@)
}

/// `ps` joined with `sep`.
pub fn join_chars(ps: &[&'static str], sep: &str) -> (v: Vec<char>)
    ensures
        v@ == join(names_view(ps@), sep@),
{
    let ghost ns = names_view(ps@);
    let mut v: Vec<char> = Vec::new();
    let mut j: usize = 0;
    while j < ps.len()
        invariant
            ns == names_view(ps@),
            0 <= j <= ps@.len(),
            v@ == join(ns.take(j as int), sep@),
        decreases ps@.len() - j,
    {
        if j > 0 {
            push_str(&mut v, sep);
        }
        push_str(&mut v, ps[j]);
        proof {
            let t = ns.take(j + 1);
            assert(t.drop_last() =~= ns.take(j as int));
            assert(t.last() == ps@[j as int]@);
            if j == 0 {
                assert(t =~= seq![ps@[0]@]);
            }
        }
        j += 1;
    }
    assert(ns.take(ps@.len() as int) =~= ns);
    v
}

/// The line of a node reached by `path`.
fn walk_line_chars(path: &[&'static str], doc: &str) -> (v: Vec<char>)
    requires
        path@.len() >= 1,
    ensures
        v@ == walk_line(names_view(path@), doc@),
{
    let mut v: Vec<char> = Vec::new();
    let mut k: usize = 0;
    while k < path.len() - 1
        invariant
            path@.len() >= 1,
            0 <= k <= path@.len() - 1,
            v@ == indent(k as nat),
        decreases path@.len() - 1 - k,
    {
        v.push(' ');
        v.push(' ');
        k += 1;
    }
    let j = join_chars(path, " ");
    crate::text::push_all(&mut v, &j);
    push_str(&mut v, " — ");
    push_str(&mut v, doc);
    v
}

/// Appends one line per node below `node` (its canonical path, indented by
/// depth, and its doc), depth first; `prefix` is the path down to `node`.
pub fn walk<H: Copy>(node: &Node<H>, prefix: &mut Vec<&'static str>, out: &mut Vec<String>)
    ensures
        final(prefix)@ == old(prefix)@,
        strs_view(final(out)@) == strs_view(old(out)@) + walk_nodes(children_of(*node), names_view(old(prefix)@)),
    decreases node,
{
    let cs = node.children();
    let ghost p0 = names_view(prefix@);
    let mut k: usize = 0;
    assert(cs@.skip(0) =~= cs@);
    while k < cs.len()
        invariant
            cs@ == children_of(*node),
            prefix@ == old(prefix)@,
            p0 == names_view(old(prefix)@),
            0 <= k <= cs@.len(),
            strs_view(old(out)@) + walk_nodes(cs@, p0) == strs_view(out@) + walk_nodes(cs@.skip(k as int), p0),
        decreases cs@.len() - k,
    {
        let c = &cs[k];
        proof {
            let rest = cs@.skip(k as int);
            assert(rest[0] == cs@[k as int]);
            assert(rest.drop_first() =~= cs@.skip(k + 1));
            let ghost nk = node.kind;
            if let Kind::Ns(v) = nk {
                assert(decreases_to!(node => node.kind));
                assert(decreases_to!(nk => v));
                assert(decreases_to!(v => v@));
                assert(decreases_to!(v@ => v@[k as int]));
            }
        }
        prefix.push(c.name);
        let line = walk_line_chars(prefix.as_slice(), c.doc);
        assert(names_view(prefix@) =~= p0.push(c.name@));
        let ghost before = strs_view(out@);
        out.push(chars_to_string(&line));
        walk(c, prefix, out);
        prefix.pop();
        proof {
            assert(prefix@ =~= old(prefix)@);
            let below = walk_nodes(children_of(*c), p0.push(c.name@));
            assert(walk_nodes(cs@.skip(k as int), p0) =~= seq![walk_line(p0.push(c.name@), c.doc@)] + below
                + walk_nodes(cs@.skip(k + 1), p0)) by {
                let ghost ck = c.kind;
                match ck {
                    Kind::Ns(v) => {},
                    Kind::Leaf(_) => {},
                }
            }
            assert(strs_view(out@) =~= before.push(walk_line(p0.push(c.name@), c.doc@)) + below);
        }
        k += 1;
    }
    assert(cs@.skip(cs@.len() as int) =~= Seq::<Node<H>>::empty());
}

/// The help line of one flag.
pub open spec fn flag_line(f: Flag) -> Seq<char> {
    "  -"@ + seq![f.short] + "/--"@ + f.long@ + (if f.value { " <value>"@ } else { Seq::empty() }) + "  "@ + f.doc@ + "\n"@
}

/// The help lines of the flags `fs`.
pub open spec fn flag_lines(fs: Seq<Flag>) -> Seq<char>
    decreases fs.len(),
{
    if fs.len() == 0 {
        Seq::empty()
    } else {
        flag_lines(fs.drop_last()) + flag_line(fs.last())
    }
}

/// Each line followed by a newline.
pub open spec fn lines_text(ls: Seq<Seq<char>>) -> Seq<char>
    decreases ls.len(),
{
    if ls.len() == 0 {
        Seq::empty()
    } else {
        lines_text(ls.drop_last()) + ls.last() + "\n"@
    }
}

/// The help of a node: name and doc, aliases, flags, and the subcommand tree.
pub open spec fn help_spec<H>(n: Node<H>) -> Seq<char> {
    n.name@ + " — "@ + n.doc@ + "\n"@ + (if n.aliases@.len() > 0 {
        "aliases: "@ + join(names_view(n.aliases@), ", "@) + "\n"@
    } else {
        Seq::empty()
    }) + (if n.flags@.len() > 0 {
        "flags:\n"@ + flag_lines(n.flags@)
    } else {
        Seq::empty()
    }) + (if children_of(n).len() > 0 {
        "\nsubcommands:\n"@ + lines_text(walk_nodes(children_of(n), seq![n.name@]))
    } else {
        Seq::empty()
    })
}

/// Renders help for a node: name, doc, aliases, flags, and every command below it.
pub fn help_for<H: Copy>(node: &Node<H>) -> (s: String)
    ensures
        s@ == help_spec(*node),
{
    let mut v: Vec<char> = Vec::new();
    push_str(&mut v, node.name);
    push_str(&mut v, " — ");
    push_str(&mut v, node.doc);
    push_str(&mut v, "\n");
    if node.aliases.len() > 0 {
        push_str(&mut v, "aliases: ");
        let j = join_chars(node.aliases.as_slice(), ", ");
        crate::text::push_all(&mut v, &j);
        push_str(&mut v, "\n");
    }
    if node.flags.len() > 0 {
        push_str(&mut v, "flags:\n");
        let ghost before = v@;
        let mut i: usize = 0;
        while i < node.flags.len()
            invariant
                0 <= i <= node.flags@.len(),
                v@ == before + flag_lines(node.flags@.take(i as int)),
            decreases node.flags@.len() - i,
        {
            let f = node.flags[i];
            push_str(&mut v, "  -");
            v.push(f.short);
            push_str(&mut v, "/--");
            push_str(&mut v, f.long);
            if f.value {
                push_str(&mut v, " <value>");
            }
            push_str(&mut v, "  ");
            push_str(&mut v, f.doc);
            push_str(&mut v, "\n");
            proof {
                let t = node.flags@.take(i + 1);
                assert(t.drop_last() =~= node.flags@.take(i as int));
                assert(t.last() == f);
            }
            i += 1;
        }
        assert(node.flags@.take(node.flags@.len() as int) =~= node.flags@);
    }
    let cs = node.children();
    if cs.len() > 0 {
        push_str(&mut v, "\nsubcommands:\n");
        let mut prefix: Vec<&'static str> = Vec::new();
        prefix.push(node.name);
        let mut out: Vec<String> = Vec::new();
        walk(node, &mut prefix, &mut out);
        assert(names_view(seq![node.name]) =~= seq![node.name@]);
        assert(strs_view(Seq::<String>::empty()) =~= Seq::<Seq<char>>::empty());
        let ghost ls = strs_view(out@);
        let ghost before = v@;
        let mut i: usize = 0;
        while i < out.len()
            invariant
                ls == strs_view(out@),
                0 <= i <= out@.len(),
                v@ == before + lines_text(ls.take(i as int)),
            decreases out@.len() - i,
        {
            push_str(&mut v, out[i].as_str());
            push_str(&mut v, "\n");
            proof {
                let t = ls.take(i + 1);
                assert(t.drop_last() =~= ls.take(i as int));
            }
            i += 1;
        }
        assert(ls.take(ls.len() as int) =~= ls);
    }
    chars_to_string(&v)
}

// ── Building trees ──────────────────────────────────────────────────────────

/// A flag is one of the vocabulary's `(short, long, takes a value)` entries.
pub open spec fn in_vocab(f: Flag, vocab: Seq<(char, Seq<char>, bool)>) -> bool {
    exists|i: int| 0 <= i < vocab.len() && #[trigger] vocab[i] == (f.short, f.long@, f.value)
}

/// Every flag of the nodes `cs`, and of everything below them, is in the vocabulary.
pub open spec fn nodes_flags_ok<H>(cs: Seq<Node<H>>, vocab: Seq<(char, Seq<char>, bool)>) -> bool
    decreases cs,
{
    if cs.len() == 0 {
        true
    } else {
        let c = cs[0];
        let below = match c.kind {
            Kind::Ns(v) => {
                proof {
                    assert(decreases_to!(cs => cs[0]));
                    assert(decreases_to!(c => c.kind));
                    assert(decreases_to!(c.kind => v));
                    assert(decreases_to!(v => v@));
                    assert(decreases_to!(cs => v@));
                }
                nodes_flags_ok(v@, vocab)
            },
            Kind::Leaf(_) => true,
        };
        (forall|i: int| 0 <= i < c.flags@.len() ==> in_vocab(#[trigger] c.flags@[i], vocab)) && below
            && nodes_flags_ok(cs.drop_first(), vocab)
    }
}

/// The flags of `n` are in the vocabulary, and those below it.
pub open spec fn node_flags_ok<H>(n: Node<H>, vocab: Seq<(char, Seq<char>, bool)>) -> bool {
    &&& forall|i: int| 0 <= i < n.flags@.len() ==> in_vocab(#[trigger] n.flags@[i], vocab)
    &&& match n.kind {
        Kind::Ns(v) => nodes_flags_ok(v@, vocab),
        Kind::Leaf(_) => true,
    }
}

/// A single node is a tree of one.
#[verifier::spinoff_prover]
pub proof fn lemma_node_flags_ok<H>(n: Node<H>, vocab: Seq<(char, Seq<char>, bool)>)
    requires
        node_flags_ok(n, vocab),
    ensures
        nodes_flags_ok(seq![n], vocab),
{
    let cs = seq![n];
    assert(cs.len() == 1 && cs[0] == n);
    assert(cs.drop_first() =~= Seq::<Node<H>>::empty());
    assert(nodes_flags_ok(Seq::<Node<H>>::empty(), vocab));
    assert(nodes_flags_ok(cs, vocab));
}

proof fn lemma_flags_ok_push<H>(cs: Seq<Node<H>>, n: Node<H>, vocab: Seq<(char, Seq<char>, bool)>)
    requires
        nodes_flags_ok(cs, vocab),
        nodes_flags_ok(seq![n], vocab),
    ensures
        nodes_flags_ok(cs.push(n), vocab),
    decreases cs.len(),
{
    if cs.len() == 0 {
        assert(cs.push(n) =~= seq![n]);
    } else {
        lemma_flags_ok_push(cs.drop_first(), n, vocab);
        assert(cs.push(n).drop_first() =~= cs.drop_first().push(n));
        assert(cs.push(n)[0] == cs[0]);
    }
}

/// A flag as plain values: short character, long name, whether it takes a
/// value, and its help text.
pub open spec fn flag_view(f: Flag) -> (char, Seq<char>, bool, Seq<char>) {
    (f.short, f.long@, f.value, f.doc@)
}

/// Flags as plain values.
pub open spec fn flags_view(fs: Seq<Flag>) -> Seq<(char, Seq<char>, bool, Seq<char>)> {
    fs.map_values(|f: Flag| flag_view(f))
}

/// `n` is the runnable command `name` with help `doc`, these aliases and
/// flags, and handler `h`.
pub open spec fn is_leaf<H>(
    n: Node<H>,
    name: Seq<char>,
    doc: Seq<char>,
    aliases: Seq<Seq<char>>,
    flags: Seq<(char, Seq<char>, bool, Seq<char>)>,
    h: H,
) -> bool {
    &&& n.name@ == name
    &&& n.doc@ == doc
    &&& names_view(n.aliases@) == aliases
    &&& flags_view(n.flags@) == flags
    &&& n.kind == Kind::<H>::Leaf(h)
}

/// `n` is the namespace `name` with help `doc`, these aliases and no flags;
/// its children are described separately.
pub open spec fn is_ns<H>(n: Node<H>, name: Seq<char>, doc: Seq<char>, aliases: Seq<Seq<char>>) -> bool {
    &&& n.name@ == name
    &&& n.doc@ == doc
    &&& names_view(n.aliases@) == aliases
    &&& n.flags@.len() == 0
    &&& n.kind is Ns
}

/// Appends a node whose flags are in the vocabulary.
pub fn push_node<H>(v: &mut Vec<Node<H>>, n: Node<H>, Ghost(vocab): Ghost<Seq<(char, Seq<char>, bool)>>)
    requires
        nodes_flags_ok(old(v)@, vocab),
        node_flags_ok(n, vocab),
    ensures
        final(v)@ == old(v)@.push(n),
        nodes_flags_ok(final(v)@, vocab),
{
    proof {
        lemma_node_flags_ok(n, vocab);
        lemma_flags_ok_push(v@, n, vocab);
    }
    v.push(n);
}

/// The flags `fs`, as a vector.
pub fn flag_list(fs: &[Flag]) -> (v: Vec<Flag>)
    ensures
        v@ == fs@,
{
    let mut v: Vec<Flag> = Vec::new();
    let mut i: usize = 0;
    while i < fs.len()
        invariant
            0 <= i <= fs@.len(),
            v@ == fs@.take(i as int),
        decreases fs@.len() - i,
    {
        v.push(fs[i]);
        i += 1;
        assert(v@ =~= fs@.take(i as int));
    }
    assert(fs@.take(fs@.len() as int) =~= fs@);
    v
}

/// A runnable command.
pub fn leaf<H>(name: &'static str, doc: &'static str, aliases: Vec<&'static str>, flags: Vec<Flag>, h: H) -> (n: Node<H>)
    ensures
        n.name == name,
        n.doc == doc,
        n.aliases == aliases,
        n.flags == flags,
        n.kind == Kind::<H>::Leaf(h),
{
    Node { name, doc, aliases, flags, kind: Kind::Leaf(h) }
}

/// A namespace over `children`.
pub fn namespace<H>(
    name: &'static str,
    doc: &'static str,
    aliases: Vec<&'static str>,
    flags: Vec<Flag>,
    children: Vec<Node<H>>,
) -> (n: Node<H>)
    ensures
        n.name == name,
        n.doc == doc,
        n.aliases == aliases,
        n.flags == flags,
        n.kind == Kind::<H>::Ns(children),
{
    Node { name, doc, aliases, flags, kind: Kind::Ns(children) }
}

/// Two vocabulary entries with the same short character have the same long
/// name and vice versa, and a long name either always or never takes a value.
pub open spec fn vocab_consistent(vocab: Seq<(char, Seq<char>, bool)>) -> bool {
    forall|i: int, j: int|
        0 <= i < vocab.len() && 0 <= j < vocab.len() ==> ((#[trigger] vocab[i]).0 == (#[trigger] vocab[j]).0
            <==> vocab[i].1 == vocab[j].1) && (vocab[i].1 == vocab[j].1 ==> vocab[i].2 == vocab[j].2)
}

/// Flags from a consistent vocabulary agree: same short character exactly
/// when same long name, and the same long name always takes a value or never.
pub proof fn lemma_flags_agree(f1: Flag, f2: Flag, vocab: Seq<(char, Seq<char>, bool)>)
    requires
        vocab_consistent(vocab),
        in_vocab(f1, vocab),
        in_vocab(f2, vocab),
    ensures
        (f1.short == f2.short) == (f1.long@ == f2.long@),
        f1.long@ == f2.long@ ==> f1.value == f2.value,
{
    let i = choose|i: int| 0 <= i < vocab.len() && #[trigger] vocab[i] == (f1.short, f1.long@, f1.value);
    let j = choose|j: int| 0 <= j < vocab.len() && #[trigger] vocab[j] == (f2.short, f2.long@, f2.value);
    assert(vocab[i] == (f1.short, f1.long@, f1.value));
    assert(vocab[j] == (f2.short, f2.long@, f2.value));
}

} // verus!
