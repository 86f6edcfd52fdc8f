//! The command reference (`help all`) and the alias list (`alias list`) of a
//! command tree: rows collected depth first, sorted as text, and laid out
//! in aligned columns.
use vstd::prelude::*;
use crate::cmd_tree::{Flag, Kind, Node, children_of, join, join_chars, names_view, strs_view};
use crate::discovery::{lex_le, lex_le_text};
use crate::text::{chars_eq, chars_to_string, dec, dec_chars, push_all, push_str, str_chars};

verus! {

// ── Rows ────────────────────────────────────────────────────────────────────

/// A row as plain values: a name and its tags.
pub open spec fn row_view(r: (String, Vec<String>)) -> (Seq<char>, Seq<Seq<char>>) {
    (r.0@, strs_view(r.1@))
}

/// Rows as plain values.
pub open spec fn rows_view(v: Seq<(String, Vec<String>)>) -> Seq<(Seq<char>, Seq<Seq<char>>)> {
    v.map_values(|r: (String, Vec<String>)| row_view(r))
}

/// A flag as `-c/--long`.
pub open spec fn flag_tag(f: Flag) -> Seq<char> {
    seq!['-', f.short] + "/--"@ + f.long@
}

/// The row of a leaf: its name and its flags.
pub open spec fn leaf_row<H>(n: Node<H>) -> (Seq<char>, Seq<Seq<char>>) {
    (n.name@, n.flags@.map_values(|f: Flag| flag_tag(f)))
}

/// The rows of every leaf among `cs` and below them, depth first.
pub open spec fn leaf_rows_spec<H>(cs: Seq<Node<H>>) -> Seq<(Seq<char>, Seq<Seq<char>>)>
    decreases cs,
{
    if cs.len() == 0 {
        Seq::empty()
    } else {
        let c = cs[0];
        match c.kind {
            Kind::Leaf(_) => seq![leaf_row(c)] + leaf_rows_spec(cs.drop_first()),
            Kind::Ns(v) => {
                proof {
                    assert(decreases_to!(cs => cs[0]));
                    assert(decreases_to!(c => c.kind));
                    assert(decreases_to!(c.kind => v));
                    assert(decreases_to!(v => v@));
                    assert(decreases_to!(cs => v@));
                }
                leaf_rows_spec(v@) + leaf_rows_spec(cs.drop_first())
            },
        }
    }
}

/// One row per command among `cs` (and below them) that has aliases: its
/// path from the root, words separated by spaces, and its aliases.
pub open spec fn alias_rows_spec<H>(cs: Seq<Node<H>>, prefix: Seq<Seq<char>>) -> Seq<(Seq<char>, Seq<Seq<char>>)>
    decreases cs,
{
    if cs.len() == 0 {
        Seq::empty()
    } else {
        let c = cs[0];
        let p = prefix.push(c.name@);
        let own = if c.aliases@.len() > 0 {
            seq![(join(p, " "@), names_view(c.aliases@))]
        } else {
            Seq::empty()
        };
        let below = match c.kind {
            Kind::Ns(v) => {
                proof {
                    assert(decreases_to!(cs => cs[0]));
                    assert(decreases_to!(c => c.kind));
                    assert(decreases_to!(c.kind => v));
                    assert(decreases_to!(v => v@));
                    assert(decreases_to!(cs => v@));
                }
                alias_rows_spec(v@, p)
            },
            Kind::Leaf(_) => Seq::empty(),
        };
        own + below + alias_rows_spec(cs.drop_first(), prefix)
    }
}

fn flag_tags(fs: &[Flag]) -> (v: Vec<String>)
    ensures
        strs_view(v@) == fs@.map_values(|f: Flag| flag_tag(f)),
{
    let mut v: Vec<String> = Vec::new();
    let mut i: usize = 0;
    while i < fs.len()
        invariant
            0 <= i <= fs@.len(),
            strs_view(v@) == fs@.take(i as int).map_values(|f: Flag| flag_tag(f)),
        decreases fs@.len() - i,
    {
        let mut t: Vec<char> = Vec::new();
        t.push('-');
        t.push(fs[i].short);
        push_str(&mut t, "/--");
        push_str(&mut t, fs[i].long);
        let ghost b = strs_view(v@);
        v.push(chars_to_string(&t));
        assert(t@ =~= flag_tag(fs@[i as int]));
        assert(fs@.take(i + 1) =~= fs@.take(i as int).push(fs@[i as int]));
        assert(strs_view(v@) =~= b.push(flag_tag(fs@[i as int])));
        i += 1;
    }
    assert(fs@.take(fs@.len() as int) =~= fs@);
    v
}

fn name_strings(ns: &[&'static str]) -> (v: Vec<String>)
    ensures
        strs_view(v@) == names_view(ns@),
{
    let mut v: Vec<String> = Vec::new();
    let mut i: usize = 0;
    while i < ns.len()
        invariant
            0 <= i <= ns@.len(),
            strs_view(v@) == names_view(ns@.take(i as int)),
        decreases ns@.len() - i,
    {
        let ghost b = strs_view(v@);
        v.push(chars_to_string(&str_chars(ns[i])));
        assert(ns@.take(i + 1) =~= ns@.take(i as int).push(ns@[i as int]));
        assert(strs_view(v@) =~= b.push(ns@[i as int]@));
        assert(names_view(ns@.take(i + 1)) =~= names_view(ns@.take(i as int)).push(ns@[i as int]@));
        i += 1;
    }
    assert(ns@.take(ns@.len() as int) =~= ns@);
    v
}

/// Appends the row of every leaf below `node`, depth first.
pub fn leaf_rows<H: Copy>(node: &Node<H>, out: &mut Vec<(String, Vec<String>)>)
    ensures
        rows_view(final(out)@) == rows_view(old(out)@) + leaf_rows_spec(children_of(*node)),
    decreases node,
{
    let cs = node.children();
    let mut k: usize = 0;
    assert(cs@.skip(0) =~= cs@);
    while k < cs.len()
        invariant
            cs@ == children_of(*node),
            0 <= k <= cs@.len(),
            rows_view(old(out)@) + leaf_rows_spec(cs@) == rows_view(out@) + leaf_rows_spec(cs@.skip(k as int)),
        decreases cs@.len() - k,
    {
        let c = &cs[k];
        proof {
            let rest = cs@.skip(k as int);
            assert(rest[0] == cs@[k as int]);
            assert(rest.drop_first() =~= cs@.skip(k + 1));
            let ghost nk = node.kind;
            if let Kind::Ns(v) = nk {
                assert(decreases_to!(node => node.kind));
                assert(decreases_to!(nk => v));
                assert(decreases_to!(v => v@));
                assert(decreases_to!(v@ => v@[k as int]));
            }
        }
        let ghost before = rows_view(out@);
        if c.handler().is_some() {
            let tags = flag_tags(c.flags.as_slice());
            out.push((chars_to_string(&str_chars(c.name)), tags));
            assert(rows_view(out@) =~= before.push(leaf_row(*c)));
        }
        let ghost mid = rows_view(out@);
        leaf_rows(c, out);
        proof {
            let ghost ck = c.kind;
            match ck {
                Kind::Leaf(_) => {
                    assert(children_of(*c) =~= Seq::<Node<H>>::empty());
                    assert(leaf_rows_spec(cs@.skip(k as int)) =~= seq![leaf_row(*c)] + leaf_rows_spec(
                        cs@.skip(k + 1),
                    ));
                    assert(rows_view(out@) =~= before + seq![leaf_row(*c)]);
                },
                Kind::Ns(v) => {
                    assert(leaf_rows_spec(cs@.skip(k as int)) =~= leaf_rows_spec(v@) + leaf_rows_spec(cs@.skip(k + 1)));
                    assert(mid == before);
                },
            }
        }
        k += 1;
    }
    assert(cs@.skip(cs@.len() as int) =~= Seq::<Node<H>>::empty());
}

/// Appends one row per command below `node` that has aliases; `prefix` is
/// the path down to `node`.
pub fn alias_rows<H: Copy>(node: &Node<H>, prefix: &mut Vec<&'static str>, out: &mut Vec<(String, Vec<String>)>)
    ensures
        final(prefix)@ == old(prefix)@,
        rows_view(final(out)@) == rows_view(old(out)@) + alias_rows_spec(children_of(*node), names_view(old(prefix)@)),
    decreases node,
{
    let cs = node.children();
    let ghost p0 = names_view(prefix@);
    let mut k: usize = 0;
    assert(cs@.skip(0) =~= cs@);
    while k < cs.len()
        invariant
            cs@ == children_of(*node),
            prefix@ == old(prefix)@,
            p0 == names_view(old(prefix)@),
            0 <= k <= cs@.len(),
            rows_view(old(out)@) + alias_rows_spec(cs@, p0) == rows_view(out@) + alias_rows_spec(
                cs@.skip(k as int),
                p0,
            ),
        decreases cs@.len() - k,
    {
        let c = &cs[k];
        proof {
            let rest = cs@.skip(k as int);
            assert(rest[0] == cs@[k as int]);
            assert(rest.drop_first() =~= cs@.skip(k + 1));
            let ghost nk = node.kind;
            if let Kind::Ns(v) = nk {
                assert(decreases_to!(node => node.kind));
                assert(decreases_to!(nk => v));
                assert(decreases_to!(v => v@));
                assert(decreases_to!(v@ => v@[k as int]));
            }
        }
        prefix.push(c.name);
        assert(names_view(prefix@) =~= p0.push(c.name@));
        let ghost before = rows_view(out@);
        let ghost own = if c.aliases@.len() > 0 {
            seq![(join(p0.push(c.name@), " "@), names_view(c.aliases@))]
        } else {
            Seq::<(Seq<char>, Seq<Seq<char>>)>::empty()
        };
        if c.aliases.len() > 0 {
            let path = join_chars(prefix.as_slice(), " ");
            let names = name_strings(c.aliases.as_slice());
            out.push((chars_to_string(&path), names));
        }
        assert(rows_view(out@) =~= before + own);
        alias_rows(c, prefix, out);
        prefix.pop();
        proof {
            assert(prefix@ =~= old(prefix)@);
            let below = alias_rows_spec(children_of(*c), p0.push(c.name@));
            assert(alias_rows_spec(cs@.skip(k as int), p0) =~= own + below + alias_rows_spec(cs@.skip(k + 1), p0)) by {
                let ghost ck = c.kind;
                match ck {
                    Kind::Ns(v) => {},
                    Kind::Leaf(_) => {},
                }
            }
        }
        k += 1;
    }
    assert(cs@.skip(cs@.len() as int) =~= Seq::<Node<H>>::empty());
}

// ── Sorting ─────────────────────────────────────────────────────────────────

/// Lexicographic order of lists of texts (the order of `Vec<String>`).
pub open spec fn seqs_le(a: Seq<Seq<char>>, b: Seq<Seq<char>>) -> bool
    decreases a.len(),
{
    if a.len() == 0 {
        true
    } else if b.len() == 0 {
        false
    } else if a[0] == b[0] {
        seqs_le(a.drop_first(), b.drop_first())
    } else {
        lex_le(a[0], b[0])
    }
}

/// The order of rows: by name, then by tags (the order of the tuple).
pub open spec fn row_le(a: (Seq<char>, Seq<Seq<char>>), b: (Seq<char>, Seq<Seq<char>>)) -> bool {
    if a.0 == b.0 {
        seqs_le(a.1, b.1)
    } else {
        lex_le(a.0, b.0)
    }
}

/// `e` placed after every row of `s` that is not greater.
pub open spec fn row_ins(s: Seq<(Seq<char>, Seq<Seq<char>>)>, e: (Seq<char>, Seq<Seq<char>>)) -> Seq<(Seq<char>, Seq<Seq<char>>)>
    decreases s.len(),
{
    if s.len() == 0 {
        seq![e]
    } else if row_le(s.last(), e) {
        s.push(e)
    } else {
        row_ins(s.drop_last(), e).push(s.last())
    }
}

/// `s` sorted by [`row_le`], by insertion.
pub open spec fn row_sort(s: Seq<(Seq<char>, Seq<Seq<char>>)>) -> Seq<(Seq<char>, Seq<Seq<char>>)>
    decreases s.len(),
{
    if s.len() == 0 {
        s
    } else {
        row_ins(row_sort(s.drop_last()), s.last())
    }
}

fn seqs_le_exec(a: &[String], b: &[String]) -> (r: bool)
    ensures
        r == seqs_le(strs_view(a@), strs_view(b@)),
{
    let ghost av = strs_view(a@);
    let ghost bv = strs_view(b@);
    let mut i: usize = 0;
    assert(av.skip(0) =~= av);
    assert(bv.skip(0) =~= bv);
    while i < a.len() && i < b.len()
        invariant
            av == strs_view(a@),
            bv == strs_view(b@),
            0 <= i <= a@.len(),
            i <= b@.len(),
            seqs_le(av, bv) == seqs_le(av.skip(i as int), bv.skip(i as int)),
        decreases a@.len() - i,
    {
        let x = str_chars(a[i].as_str());
        let y = str_chars(b[i].as_str());
        assert(av.skip(i as int)[0] == x@);
        assert(bv.skip(i as int)[0] == y@);
        if !chars_eq(&x, &y) {
            return lex_le_text(&x, &y);
        }
        assert(av.skip(i as int).drop_first() =~= av.skip(i + 1));
        assert(bv.skip(i as int).drop_first() =~= bv.skip(i + 1));
        i += 1;
    }
    if i >= a.len() {
        assert(av.skip(i as int).len() == 0);
        true
    } else {
        assert(bv.skip(i as int).len() == 0);
        false
    }
}

fn row_le_exec(a: &(String, Vec<String>), b: &(String, Vec<String>)) -> (r: bool)
    ensures
        r == row_le(row_view(*a), row_view(*b)),
{
    let x = str_chars(a.0.as_str());
    let y = str_chars(b.0.as_str());
    if chars_eq(&x, &y) {
        seqs_le_exec(a.1.as_slice(), b.1.as_slice())
    } else {
        lex_le_text(&x, &y)
    }
}

proof fn lemma_row_ins_split(s: Seq<(Seq<char>, Seq<Seq<char>>)>, e: (Seq<char>, Seq<Seq<char>>), p: int)
    requires
        0 <= p <= s.len(),
        forall|j: int| p <= j < s.len() ==> !row_le(#[trigger] s[j], e),
        p == 0 || row_le(s[p - 1], e),
    ensures
        row_ins(s, e) == s.take(p).push(e) + s.skip(p),
    decreases s.len(),
{
    if s.len() == 0 {
        assert(s.take(p).push(e) + s.skip(p) =~= seq![e]);
    } else if p == s.len() {
        assert(s.take(p).push(e) + s.skip(p) =~= s.push(e));
    } else {
        let t = s.drop_last();
        assert(!row_le(s.last(), e));
        assert forall|j: int| p <= j < t.len() implies !row_le(#[trigger] t[j], e) by {
            assert(t[j] == s[j]);
        }
        if p > 0 {
            assert(t[p - 1] == s[p - 1]);
        }
        lemma_row_ins_split(t, e, p);
        assert(t.take(p).push(e) + t.skip(p) + seq![s.last()] =~= s.take(p).push(e) + s.skip(p));
    }
}

fn insert_row(v: &mut Vec<(String, Vec<String>)>, x: (String, Vec<String>))
    ensures
        rows_view(final(v)@) == row_ins(rows_view(old(v)@), row_view(x)),
{
    let ghost sv = rows_view(v@);
    let mut p: usize = v.len();
    let mut stop = false;
    while p > 0 && !stop
        invariant
            0 <= p <= v@.len(),
            sv == rows_view(v@),
            forall|j: int| p <= j < sv.len() ==> !row_le(#[trigger] sv[j], row_view(x)),
            stop ==> p > 0 && row_le(sv[p - 1], row_view(x)),
        decreases p + if stop { 0int } else { 1int },
    {
        if row_le_exec(&v[p - 1], &x) {
            stop = true;
        } else {
            p -= 1;
        }
    }
    proof {
        lemma_row_ins_split(sv, row_view(x), p as int);
    }
    v.insert(p, x);
    assert(rows_view(v@) =~= sv.take(p as int).push(row_view(x)) + sv.skip(p as int));
}

/// The rows sorted by name, then by tags.
pub fn sort_rows(rows: Vec<(String, Vec<String>)>) -> (r: Vec<(String, Vec<String>)>)
    ensures
        rows_view(r@) == row_sort(rows_view(rows@)),
{
    let ghost s = rows_view(rows@);
    let ghost n = rows@.len();
    let mut rest = rows;
    let mut sorted: Vec<(String, Vec<String>)> = Vec::new();
    assert(s.take(0) =~= Seq::<(Seq<char>, Seq<Seq<char>>)>::empty());
    assert(s.skip(0) =~= s);
    while rest.len() > 0
        invariant
            rest@.len() <= n,
            s.len() == n,
            rows_view(rest@) == s.skip(n - rest@.len()),
            rows_view(sorted@) == row_sort(s.take(n - rest@.len())),
        decreases rest@.len(),
    {
        let ghost i = n - rest@.len();
        let ghost rv = rows_view(rest@);
        let ghost r0 = rest@;
        let x = rest.remove(0);
        assert(rest@ =~= r0.subrange(1, r0.len() as int));
        assert(rows_view(rest@) =~= rv.subrange(1, rv.len() as int));
        assert(rv[0] == row_view(x));
        assert(s[i] == rv[0]);
        insert_row(&mut sorted, x);
        assert(s.take(i + 1).drop_last() =~= s.take(i));
        assert(rows_view(rest@) =~= s.skip(i + 1));
    }
    assert(s.take(n as int) =~= s);
    sorted
}

// ── Laws of the order ───────────────────────────────────────────────────────

/// Texts ordered both ways are equal.
pub proof fn lemma_lex_antisym(a: Seq<char>, b: Seq<char>)
    requires
        lex_le(a, b),
        lex_le(b, a),
    ensures
        a == b,
    decreases a.len(),
{
    if a.len() == 0 {
        assert(b.len() == 0);
        assert(a =~= b);
    } else {
        assert(b.len() > 0);
        assert(!((a[0] as u32) < (b[0] as u32)));
        assert(!((a[0] as u32) > (b[0] as u32)));
        vstd::utf8::char_u32_cast(a[0], a[0] as u32);
        vstd::utf8::char_u32_cast(b[0], b[0] as u32);
        assert(a[0] == b[0]);
        lemma_lex_antisym(a.drop_first(), b.drop_first());
        assert(a =~= seq![a[0]] + a.drop_first());
        assert(b =~= seq![b[0]] + b.drop_first());
    }
}

proof fn lemma_seqs_total(a: Seq<Seq<char>>, b: Seq<Seq<char>>)
    ensures
        seqs_le(a, b) || seqs_le(b, a),
    decreases a.len(),
{
    if a.len() > 0 && b.len() > 0 {
        if a[0] == b[0] {
            lemma_seqs_total(a.drop_first(), b.drop_first());
        } else {
            crate::discovery::lemma_lex_total(a[0], b[0]);
        }
    }
}

proof fn lemma_seqs_trans(a: Seq<Seq<char>>, b: Seq<Seq<char>>, c: Seq<Seq<char>>)
    requires
        seqs_le(a, b),
        seqs_le(b, c),
    ensures
        seqs_le(a, c),
    decreases a.len(),
{
    if a.len() > 0 && b.len() > 0 && c.len() > 0 {
        if a[0] == b[0] && b[0] == c[0] {
            lemma_seqs_trans(a.drop_first(), b.drop_first(), c.drop_first());
        } else if a[0] != b[0] && b[0] != c[0] {
            crate::discovery::lemma_lex_trans(a[0], b[0], c[0]);
            if a[0] == c[0] {
                lemma_lex_antisym(a[0], b[0]);
            }
        }
    }
}

/// Any two rows are ordered one way or the other.
pub proof fn lemma_row_total(a: (Seq<char>, Seq<Seq<char>>), b: (Seq<char>, Seq<Seq<char>>))
    ensures
        row_le(a, b) || row_le(b, a),
{
    if a.0 == b.0 {
        lemma_seqs_total(a.1, b.1);
    } else {
        crate::discovery::lemma_lex_total(a.0, b.0);
    }
}

/// The order of rows is transitive.
pub proof fn lemma_row_trans(a: (Seq<char>, Seq<Seq<char>>), b: (Seq<char>, Seq<Seq<char>>), c: (Seq<char>, Seq<Seq<char>>))
    requires
        row_le(a, b),
        row_le(b, c),
    ensures
        row_le(a, c),
{
    if a.0 == b.0 && b.0 == c.0 {
        lemma_seqs_trans(a.1, b.1, c.1);
    } else if a.0 != b.0 && b.0 != c.0 {
        crate::discovery::lemma_lex_trans(a.0, b.0, c.0);
        if a.0 == c.0 {
            lemma_lex_antisym(a.0, b.0);
        }
    }
}

/// Rows in non-decreasing order.
pub open spec fn rows_sorted(s: Seq<(Seq<char>, Seq<Seq<char>>)>) -> bool {
    forall|i: int, j: int| 0 <= i < j < s.len() ==> row_le(#[trigger] s[i], #[trigger] s[j])
}

proof fn lemma_row_ins_perm(t: Seq<(Seq<char>, Seq<Seq<char>>)>, e: (Seq<char>, Seq<Seq<char>>))
    ensures
        row_ins(t, e).to_multiset() =~= t.to_multiset().insert(e),
    decreases t.len(),
{
    broadcast use vstd::seq_lib::group_to_multiset_ensures;

    if t.len() == 0 {
        assert(seq![e] =~= Seq::<(Seq<char>, Seq<Seq<char>>)>::empty().push(e));
        assert(t =~= Seq::<(Seq<char>, Seq<Seq<char>>)>::empty());
    } else if row_le(t.last(), e) {
    } else {
        let u = t.drop_last();
        lemma_row_ins_perm(u, e);
        assert(t =~= u.push(t.last()));
        assert(row_ins(t, e).to_multiset() =~= row_ins(u, e).to_multiset().insert(t.last()));
    }
}

proof fn lemma_row_ins_sorted(t: Seq<(Seq<char>, Seq<Seq<char>>)>, e: (Seq<char>, Seq<Seq<char>>))
    requires
        rows_sorted(t),
    ensures
        rows_sorted(row_ins(t, e)),
    decreases t.len(),
{
    broadcast use vstd::seq_lib::group_to_multiset_ensures;

    if t.len() == 0 {
    } else if row_le(t.last(), e) {
        let r = t.push(e);
        assert forall|i: int, j: int| 0 <= i < j < r.len() implies row_le(#[trigger] r[i], #[trigger] r[j]) by {
            if j == t.len() && i < t.len() - 1 {
                lemma_row_trans(t[i], t.last(), e);
            }
        }
    } else {
        let u = t.drop_last();
        let l = t.last();
        lemma_row_ins_sorted(u, e);
        lemma_row_ins_perm(u, e);
        lemma_row_total(l, e);
        let v = row_ins(u, e);
        let r = v.push(l);
        assert forall|i: int| 0 <= i < v.len() implies row_le(#[trigger] v[i], l) by {
            assert(v.contains(v[i]));
            assert(v.to_multiset().count(v[i]) > 0);
            if v[i] != e {
                assert(u.to_multiset().count(v[i]) > 0);
                assert(u.contains(v[i]));
                let k = choose|k: int| 0 <= k < u.len() && u[k] == v[i];
                assert(t[k] == u[k]);
                assert(row_le(t[k], t[t.len() - 1]));
            }
        }
        assert forall|i: int, j: int| 0 <= i < j < r.len() implies row_le(#[trigger] r[i], #[trigger] r[j]) by {
            if j == v.len() {
                assert(r[i] == v[i]);
            } else {
                assert(r[i] == v[i] && r[j] == v[j]);
            }
        }
    }
}

/// Sorting rows orders them and keeps exactly the rows it was given, so
/// the command reference and the alias list show every row once, in order.
pub proof fn lemma_row_sort(s: Seq<(Seq<char>, Seq<Seq<char>>)>)
    ensures
        rows_sorted(row_sort(s)),
        row_sort(s).to_multiset() =~= s.to_multiset(),
    decreases s.len(),
{
    broadcast use vstd::seq_lib::group_to_multiset_ensures;

    if s.len() > 0 {
        lemma_row_sort(s.drop_last());
        lemma_row_ins_sorted(row_sort(s.drop_last()), s.last());
        lemma_row_ins_perm(row_sort(s.drop_last()), s.last());
        assert(s =~= s.drop_last().push(s.last()));
    }
}

// ── Layout ──────────────────────────────────────────────────────────────────

/// The longest name among the rows.
pub open spec fn name_width(rows: Seq<(Seq<char>, Seq<Seq<char>>)>) -> nat
    decreases rows.len(),
{
    if rows.len() == 0 {
        0
    } else {
        let w = name_width(rows.drop_last());
        if rows.last().0.len() > w {
            rows.last().0.len()
        } else {
            w
        }
    }
}

/// `s` padded with spaces to `w` characters.
pub open spec fn pad(s: Seq<char>, w: nat) -> Seq<char> {
    if s.len() < w {
        s + Seq::new((w - s.len()) as nat, |i: int| ' ')
    } else {
        s
    }
}

/// One line of the command reference: the name alone, or padded and
/// followed by the flags.
pub open spec fn help_row_line(r: (Seq<char>, Seq<Seq<char>>), w: nat) -> Seq<char> {
    if r.1.len() == 0 {
        "  "@ + r.0
    } else {
        "  "@ + pad(r.0, w) + "  "@ + join(r.1, " "@)
    }
}

/// The command reference of the tree under `root`, below a title line and
/// a blank line.
pub open spec fn help_all_spec<H>(root: Node<H>, title: Seq<char>) -> Seq<Seq<char>> {
    let rows = row_sort(leaf_rows_spec(children_of(root)));
    seq![title, ""@] + rows.map_values(|r: (Seq<char>, Seq<Seq<char>>)| help_row_line(r, name_width(rows)))
}

/// The alias list of the tree under `root`: one aligned line per command
/// with aliases and their count, or a note that there are none.
pub open spec fn alias_list_spec<H>(root: Node<H>) -> Seq<Seq<char>> {
    let rows = row_sort(alias_rows_spec(children_of(root), seq![]));
    if rows.len() == 0 {
        seq!["no aliases declared"@]
    } else {
        rows.map_values(
            |r: (Seq<char>, Seq<Seq<char>>)| "  "@ + pad(r.0, name_width(rows)) + "  "@ + join(r.1, ", "@),
        ) + seq![""@, dec(rows.len()) + " commands have aliases"@]
    }
}

fn width_of(rows: &[(String, Vec<String>)]) -> (w: usize)
    ensures
        w == name_width(rows_view(rows@)),
{
    let ghost rv = rows_view(rows@);
    let mut w: usize = 0;
    let mut i: usize = 0;
    while i < rows.len()
        invariant
            rv == rows_view(rows@),
            0 <= i <= rows@.len(),
            w == name_width(rv.take(i as int)),
        decreases rows@.len() - i,
    {
        let n = str_chars(rows[i].0.as_str()).len();
        assert(rv.take(i + 1).drop_last() =~= rv.take(i as int));
        assert(rv.take(i + 1).last() == rv[i as int]);
        if n > w {
            w = n;
        }
        i += 1;
    }
    assert(rv.take(rows@.len() as int) =~= rv);
    w
}

fn push_padded(v: &mut Vec<char>, s: &str, w: usize)
    ensures
        final(v)@ == old(v)@ + pad(s@, w as nat),
{
    let cs = str_chars(s);
    push_all(v, &cs);
    let ghost mid = v@;
    let mut k: usize = cs.len();
    while k < w
        invariant
            cs@ == s@,
            cs@.len() <= k <= w || (k == cs@.len() && k >= w),
            v@ == mid + Seq::new((k - cs@.len()) as nat, |i: int| ' '),
        decreases w - k,
    {
        v.push(' ');
        assert(Seq::new((k + 1 - cs@.len()) as nat, |i: int| ' ') =~= Seq::new((k - cs@.len()) as nat, |i: int| ' ').push(' '));
        k += 1;
    }
    if cs.len() < w {
        assert(k == w);
    } else {
        assert(Seq::new((k - cs@.len()) as nat, |i: int| ' ') =~= Seq::<char>::empty());
    }
    assert(v@ =~= old(v)@ + pad(s@, w as nat));
}

fn join_strings(ps: &[String], sep: &str) -> (v: Vec<char>)
    ensures
        v@ == join(strs_view(ps@), sep@),
{
    let ghost ns = strs_view(ps@);
    let mut v: Vec<char> = Vec::new();
    let mut j: usize = 0;
    while j < ps.len()
        invariant
            ns == strs_view(ps@),
            0 <= j <= ps@.len(),
            v@ == join(ns.take(j as int), sep@),
        decreases ps@.len() - j,
    {
        if j > 0 {
            push_str(&mut v, sep);
        }
        push_str(&mut v, ps[j].as_str());
        proof {
            let t = ns.take(j + 1);
            assert(t.drop_last() =~= ns.take(j as int));
            assert(t.last() == ps@[j as int]@);
            if j == 0 {
                assert(t =~= seq![ps@[0]@]);
            }
        }
        j += 1;
    }
    assert(ns.take(ps@.len() as int) =~= ns);
    v
}

/// The lines of `help all` for the tree under `root`.
pub fn help_all_lines<H: Copy>(root: &Node<H>, title: &str) -> (v: Vec<String>)
    ensures
        strs_view(v@) == help_all_spec(*root, title@),
{
    let mut raw: Vec<(String, Vec<String>)> = Vec::new();
    leaf_rows(root, &mut raw);
    assert(rows_view(raw@) =~= leaf_rows_spec(children_of(*root)));
    let rows = sort_rows(raw);
    let ghost rv = rows_view(rows@);
    let w = width_of(rows.as_slice());
    let mut v: Vec<String> = Vec::new();
    let empty: Vec<char> = Vec::new();
    v.push(chars_to_string(&str_chars(title)));
    v.push(chars_to_string(&empty));
    let ghost head = seq![title@, ""@];
    proof {
        reveal_strlit("");
    }
    assert(strs_view(v@)[0] == title@);
    assert(strs_view(v@)[1] =~= ""@);
    assert(strs_view(v@) =~= head);
    let mut i: usize = 0;
    while i < rows.len()
        invariant
            rv == rows_view(rows@),
            w == name_width(rv),
            0 <= i <= rows@.len(),
            strs_view(v@) == head + rv.take(i as int).map_values(
                |r: (Seq<char>, Seq<Seq<char>>)| help_row_line(r, name_width(rv)),
            ),
        decreases rows@.len() - i,
    {
        let mut t = str_chars("  ");
        if rows[i].1.len() == 0 {
            push_str(&mut t, rows[i].0.as_str());
        } else {
            push_padded(&mut t, rows[i].0.as_str(), w);
            push_str(&mut t, "  ");
            let j = join_strings(rows[i].1.as_slice(), " ");
            push_all(&mut t, &j);
        }
        assert(t@ =~= help_row_line(rv[i as int], name_width(rv)));
        let ghost b = strs_view(v@);
        v.push(chars_to_string(&t));
        assert(rv.take(i + 1) =~= rv.take(i as int).push(rv[i as int]));
        assert(strs_view(v@) =~= b.push(help_row_line(rv[i as int], name_width(rv))));
        i += 1;
    }
    assert(rv.take(rows@.len() as int) =~= rv);
    v
}

/// The lines of `alias list` for the tree under `root`.
pub fn alias_list_lines<H: Copy>(root: &Node<H>) -> (v: Vec<String>)
    ensures
        strs_view(v@) == alias_list_spec(*root),
{
    let mut raw: Vec<(String, Vec<String>)> = Vec::new();
    let mut prefix: Vec<&'static str> = Vec::new();
    alias_rows(root, &mut prefix, &mut raw);
    assert(names_view(Seq::<&'static str>::empty()) =~= Seq::<Seq<char>>::empty());
    assert(rows_view(raw@) =~= alias_rows_spec(children_of(*root), seq![]));
    let rows = sort_rows(raw);
    let ghost rv = rows_view(rows@);
    let mut v: Vec<String> = Vec::new();
    if rows.len() == 0 {
        v.push(chars_to_string(&str_chars("no aliases declared")));
        assert(strs_view(v@) =~= alias_list_spec(*root));
        return v;
    }
    let w = width_of(rows.as_slice());
    let ghost f = |r: (Seq<char>, Seq<Seq<char>>)| "  "@ + pad(r.0, name_width(rv)) + "  "@ + join(r.1, ", "@);
    let mut i: usize = 0;
    while i < rows.len()
        invariant
            rv == rows_view(rows@),
            w == name_width(rv),
            0 <= i <= rows@.len(),
            f == (|r: (Seq<char>, Seq<Seq<char>>)| "  "@ + pad(r.0, name_width(rv)) + "  "@ + join(r.1, ", "@)),
            strs_view(v@) == rv.take(i as int).map_values(f),
        decreases rows@.len() - i,
    {
        let mut t = str_chars("  ");
        push_padded(&mut t, rows[i].0.as_str(), w);
        push_str(&mut t, "  ");
        let j = join_strings(rows[i].1.as_slice(), ", ");
        push_all(&mut t, &j);
        assert(t@ =~= f(rv[i as int]));
        let ghost b = strs_view(v@);
        v.push(chars_to_string(&t));
        assert(rv.take(i + 1) =~= rv.take(i as int).push(rv[i as int]));
        assert(strs_view(v@) =~= b.push(f(rv[i as int])));
        i += 1;
    }
    assert(rv.take(rows@.len() as int) =~= rv);
    let ghost body = strs_view(v@);
    let empty: Vec<char> = Vec::new();
    let es = chars_to_string(&empty);
    proof {
        reveal_strlit("");
    }
    assert(es@ =~= ""@);
    v.push(es);
    assert(strs_view(v@) =~= body.push(""@));
    let ghost b2 = strs_view(v@);
    let mut last = dec_chars(rows.len() as u64);
    push_str(&mut last, " commands have aliases");
    v.push(chars_to_string(&last));
    assert(strs_view(v@) =~= b2.push(last@));
    assert(strs_view(v@) =~= body + seq![""@, last@]);
    assert(last@ =~= dec(rv.len()) + " commands have aliases"@);
    assert(body == rv.map_values(f));
    assert(strs_view(v@) =~= alias_list_spec(*root));
    v
}

} // verus!
