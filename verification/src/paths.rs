//! Host paths of the toolkit's own configuration: resolving a configured
//! path against the directory of the file that names it.
use vstd::prelude::*;
use crate::cmd_tree::join;
use crate::text::{chars_to_string, str_chars};

verus! {

/// A path segment as `Path::components` keeps it: empty segments (from
/// repeated or trailing slashes) and `.` vanish.
pub open spec fn keep_seg(x: Seq<char>) -> Seq<Seq<char>> {
    if x.len() == 0 || x == seq!['.'] {
        seq![]
    } else {
        seq![x]
    }
}

/// The segments kept so far and the segment being read, after `s`.
pub open spec fn scan_segs(s: Seq<char>) -> (Seq<Seq<char>>, Seq<char>)
    decreases s.len(),
{
    if s.len() == 0 {
        (seq![], seq![])
    } else {
        let (d, c) = scan_segs(s.drop_last());
        if s.last() == '/' {
            (d + keep_seg(c), seq![])
        } else {
            (d, c.push(s.last()))
        }
    }
}

/// The normal components of the path `s`, in order.
pub open spec fn segments_of(s: Seq<char>) -> Seq<Seq<char>> {
    let (d, c) = scan_segs(s);
    d + keep_seg(c)
}

/// Whether `s` is an absolute (rooted) path.
pub open spec fn is_abs(s: Seq<char>) -> bool {
    s.len() > 0 && s[0] == '/'
}

/// The path made of `segs`, rooted when `abs`.
pub open spec fn clean_path(segs: Seq<Seq<char>>, abs: bool) -> Seq<char> {
    if abs {
        seq!['/'] + join(segs, seq!['/'])
    } else {
        join(segs, seq!['/'])
    }
}

/// `~` alone or a leading `~/` replaced by the home directory, when known.
pub open spec fn expand_tilde(p: Seq<char>, home: Option<Seq<char>>) -> Seq<char> {
    match home {
        Some(h) => if p == seq!['~'] {
            h
        } else if p.len() >= 2 && p[0] == '~' && p[1] == '/' {
            h + p.skip(1)
        } else {
            p
        },
        None => p,
    }
}

/// `path` with `~` expanded and, when still relative, resolved against
/// `base`; `.` segments dropped. An empty path stays empty.
pub open spec fn absolutize_spec(path: Seq<char>, base: Seq<char>, home: Option<Seq<char>>) -> Seq<char> {
    let e = expand_tilde(path, home);
    if path.len() == 0 {
        e
    } else if is_abs(e) {
        clean_path(segments_of(e), true)
    } else {
        clean_path(segments_of(base) + segments_of(e), is_abs(base))
    }
}

/// The characters of each segment.
pub open spec fn segs_view(v: Seq<Vec<char>>) -> Seq<Seq<char>> {
    v.map_values(|x: Vec<char>| x@)
}

fn push_kept(out: &mut Vec<Vec<char>>, cur: Vec<char>)
    ensures
        segs_view(final(out)@) == segs_view(old(out)@) + keep_seg(cur@),
{
    let dot = cur.len() == 1 && cur[0] == '.';
    if cur.len() == 0 || dot {
        assert(keep_seg(cur@) =~= seq![]) by {
            if dot {
                assert(cur@ =~= seq!['.']);
            }
        }
        assert(segs_view(out@) + keep_seg(cur@) =~= segs_view(out@));
    } else {
        assert(cur@ != seq!['.']) by {
            if cur@ == seq!['.'] {
                assert(cur@[0] == '.');
            }
        }
        let ghost before = out@;
        out.push(cur);
        assert(segs_view(out@) =~= segs_view(before) + keep_seg(cur@));
    }
}

/// The normal components of `s` (`Path::components` without `.`).
fn segments(s: &[char]) -> (v: Vec<Vec<char>>)
    ensures
        segs_view(v@) == segments_of(s@),
{
    let mut done: Vec<Vec<char>> = Vec::new();
    let mut cur: Vec<char> = Vec::new();
    let mut i: usize = 0;
    while i < s.len()
        invariant
            0 <= i <= s.len(),
            (segs_view(done@), cur@) == scan_segs(s@.take(i as int)),
        decreases s.len() - i,
    {
        assert(s@.take(i + 1).drop_last() =~= s@.take(i as int));
        if s[i] == '/' {
            let c = cur;
            cur = Vec::new();
            push_kept(&mut done, c);
        } else {
            cur.push(s[i]);
        }
        i += 1;
    }
    assert(s@.take(s.len() as int) =~= s@);
    push_kept(&mut done, cur);
    done
}

/// Appends `segs` joined with `/` to `out`.
fn push_joined(out: &mut Vec<char>, segs: &Vec<Vec<char>>)
    ensures
        final(out)@ == old(out)@ + join(segs_view(segs@), seq!['/']),
{
    let ghost start = out@;
    let ghost sv = segs_view(segs@);
    let mut k: usize = 0;
    while k < segs.len()
        invariant
            0 <= k <= segs.len(),
            sv == segs_view(segs@),
            out@ == start + join(sv.take(k as int), seq!['/']),
        decreases segs.len() - k,
    {
        let ghost prev = out@;
        if k > 0 {
            out.push('/');
        }
        let seg = &segs[k];
        let mut j: usize = 0;
        let ghost mid = out@;
        while j < seg.len()
            invariant
                0 <= j <= seg.len(),
                out@ == mid + seg@.take(j as int),
            decreases seg.len() - j,
        {
            out.push(seg[j]);
            j += 1;
            assert(out@ =~= mid + seg@.take(j as int));
        }
        assert(seg@.take(seg.len() as int) =~= seg@);
        assert(sv.take(k + 1).drop_last() =~= sv.take(k as int));
        assert(sv[k as int] == seg@);
        if k == 0 {
            assert(sv.take(1) =~= seq![seg@]);
            assert(out@ =~= start + join(sv.take(k + 1), seq!['/']));
        } else {
            assert(out@ =~= start + join(sv.take(k + 1), seq!['/']));
        }
        k += 1;
    }
    assert(sv.take(segs.len() as int) =~= sv);
}

/// Expands a leading `~` against `home` and, when the path is still
/// relative, resolves it against `base`; `.` segments are dropped so
/// `./venv` becomes `<base>/venv`. An empty path stays empty (it means
/// "not configured").
pub fn absolutize(path: &str, base: &str, home: Option<&str>) -> (r: String)
    ensures
        r@ == absolutize_spec(path@, base@, match home {
            Some(h) => Some(h@),
            None => None,
        }),
{
    let ghost hv: Option<Seq<char>> = match home {
        Some(h) => Some(h@),
        None => None,
    };
    let p = str_chars(path);
    let mut e: Vec<char> = Vec::new();
    match home {
        Some(h) => {
            if p.len() == 1 && p[0] == '~' {
                assert(p@ =~= seq!['~']);
                e = str_chars(h);
            } else if p.len() >= 2 && p[0] == '~' && p[1] == '/' {
                e = str_chars(h);
                let mut i: usize = 1;
                let ghost hs = e@;
                while i < p.len()
                    invariant
                        1 <= i <= p.len(),
                        e@ == hs + p@.subrange(1, i as int),
                    decreases p.len() - i,
                {
                    e.push(p[i]);
                    i += 1;
                    assert(e@ =~= hs + p@.subrange(1, i as int));
                }
                assert(p@.subrange(1, p.len() as int) =~= p@.skip(1));
            } else {
                assert(p@ != seq!['~']) by {
                    if p@ == seq!['~'] {
                        assert(p@[0] == '~');
                    }
                }
                e = p.clone();
            }
        },
        None => {
            e = p.clone();
        },
    }
    assert(e@ == expand_tilde(path@, hv));
    if p.len() == 0 {
        return chars_to_string(&e);
    }
    let mut out: Vec<char> = Vec::new();
    if e.len() > 0 && e[0] == '/' {
        let segs = segments(&e);
        out.push('/');
        push_joined(&mut out, &segs);
        assert(out@ =~= clean_path(segments_of(e@), true));
    } else {
        let b = str_chars(base);
        let mut segs = segments(&b);
        let more = segments(&e);
        let ghost bs = segs_view(segs@);
        let ghost ms = segs_view(more@);
        let mut k: usize = 0;
        while k < more.len()
            invariant
                0 <= k <= more.len(),
                ms == segs_view(more@),
                segs_view(segs@) == bs + ms.take(k as int),
            decreases more.len() - k,
        {
            let ghost prev = segs@;
            let m = more[k].clone();
            assert(m@ == ms[k as int]);
            segs.push(m);
            assert(segs_view(segs@) =~= segs_view(prev).push(m@));
            k += 1;
            assert(segs_view(segs@) =~= bs + ms.take(k as int));
        }
        assert(ms.take(more.len() as int) =~= ms);
        let abs = b.len() > 0 && b[0] == '/';
        if abs {
            out.push('/');
        }
        push_joined(&mut out, &segs);
        assert(out@ =~= clean_path(segments_of(base@) + segments_of(e@), is_abs(base@)));
    }
    chars_to_string(&out)
}


// ── Laws ────────────────────────────────────────────────────────────────────

/// The segments kept while scanning are real names: neither empty nor `.`,
/// and free of `/`; the segment being read holds no `/`.
proof fn lemma_scan_clean(s: Seq<char>)
    ensures
        forall|i: int| 0 <= i < scan_segs(s).0.len() ==> {
            let x = #[trigger] scan_segs(s).0[i];
            x.len() > 0 && x != seq!['.'] && !x.contains('/')
        },
        !scan_segs(s).1.contains('/'),
    decreases s.len(),
{
    if s.len() > 0 {
        lemma_scan_clean(s.drop_last());
        let (d, c) = scan_segs(s.drop_last());
        if s.last() != '/' {
            assert forall|j: int| 0 <= j < c.push(s.last()).len() implies c.push(s.last())[j] != '/' by {
                if j < c.len() {
                    assert(c.push(s.last())[j] == c[j]);
                    assert(!c.contains('/'));
                }
            }
        } else {
            let d2 = d + keep_seg(c);
            assert forall|i: int| 0 <= i < d2.len() implies {
                let x = #[trigger] d2[i];
                x.len() > 0 && x != seq!['.'] && !x.contains('/')
            } by {
                if i < d.len() {
                    assert(d2[i] == d[i]);
                } else {
                    assert(d2[i] == c);
                }
            }
            assert(!Seq::<char>::empty().contains('/'));
        }
    }
}

/// `.` segments are dropped: every segment a path resolves to is a real
/// name, neither empty nor `.`, and holds no `/`.
pub proof fn lemma_segments_clean(s: Seq<char>)
    ensures
        forall|i: int| 0 <= i < segments_of(s).len() ==> {
            let x = #[trigger] segments_of(s)[i];
            x.len() > 0 && x != seq!['.'] && !x.contains('/')
        },
{
    lemma_scan_clean(s);
    let (d, c) = scan_segs(s);
    let r = d + keep_seg(c);
    assert forall|i: int| 0 <= i < r.len() implies {
        let x = #[trigger] r[i];
        x.len() > 0 && x != seq!['.'] && !x.contains('/')
    } by {
        if i < d.len() {
            assert(r[i] == d[i]);
        } else {
            assert(r[i] == c);
        }
    }
}

/// A configured path never depends on the working directory: once
/// resolved against an absolute base, a non-empty path is absolute.
pub proof fn lemma_absolutize_is_absolute(path: Seq<char>, base: Seq<char>, home: Option<Seq<char>>)
    requires
        path.len() > 0,
        is_abs(base),
    ensures
        is_abs(absolutize_spec(path, base, home)),
{
}

/// An empty path means "not configured" and stays empty.
pub proof fn lemma_absolutize_empty(base: Seq<char>, home: Option<Seq<char>>)
    ensures
        absolutize_spec(seq![], base, home) == Seq::<char>::empty(),
{
}

} // verus!
