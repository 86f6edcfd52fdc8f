//! Character-level text helpers shared by the parsers and formatters.
//!
//! Strings are handled as sequences of `char`s: `&str` inputs are turned into
//! `Vec<char>` once, and the helpers below are specified over `Seq<char>`.
use vstd::prelude::*;
use vstd::std_specs::iter::IteratorSpec;

verus! {

broadcast use vstd::string::group_string_axioms;

// ── Specifications ──────────────────────────────────────────────────────────

/// Every character of `s` is ASCII.
pub open spec fn is_ascii_text(s: Seq<char>) -> bool {
    forall|i: int| 0 <= i < s.len() ==> (s[i] as u32) < 0x80
}

/// `char::to_ascii_lowercase`: `A`-`Z` become `a`-`z`, all else is kept.
pub open spec fn ascii_lower_char(c: char) -> char {
    if 'A' <= c && c <= 'Z' {
        ((c as u32) + 32) as char
    } else {
        c
    }
}

/// `char::to_ascii_uppercase`: `a`-`z` become `A`-`Z`, all else is kept.
pub open spec fn ascii_upper_char(c: char) -> char {
    if 'a' <= c && c <= 'z' {
        ((c as u32) - 32) as char
    } else {
        c
    }
}

/// `s` lowercased by the ASCII rule, character by character.
pub open spec fn ascii_lower(s: Seq<char>) -> Seq<char> {
    s.map_values(|c: char| ascii_lower_char(c))
}

/// `s` uppercased by the ASCII rule, character by character.
pub open spec fn ascii_upper(s: Seq<char>) -> Seq<char> {
    s.map_values(|c: char| ascii_upper_char(c))
}

/// Unicode `White_Space`, the set that `char::is_whitespace` (and therefore
/// `str::trim`) recognizes.
pub open spec fn is_ws(c: char) -> bool {
    let u: u32 = c as u32;
    ||| 0x09 <= u <= 0x0D
    ||| u == 0x20
    ||| u == 0x85
    ||| u == 0xA0
    ||| u == 0x1680
    ||| 0x2000 <= u <= 0x200A
    ||| u == 0x2028
    ||| u == 0x2029
    ||| u == 0x202F
    ||| u == 0x205F
    ||| u == 0x3000
}

/// `s` without its leading whitespace.
pub open spec fn trim_start(s: Seq<char>) -> Seq<char>
    decreases s.len(),
{
    if s.len() > 0 && is_ws(s[0]) {
        trim_start(s.drop_first())
    } else {
        s
    }
}

/// `s` without its trailing whitespace.
pub open spec fn trim_end(s: Seq<char>) -> Seq<char>
    decreases s.len(),
{
    if s.len() > 0 && is_ws(s.last()) {
        trim_end(s.drop_last())
    } else {
        s
    }
}

/// `s` without leading and trailing whitespace (`str::trim`).
pub open spec fn trim(s: Seq<char>) -> Seq<char> {
    trim_end(trim_start(s))
}

/// Index of the first `c` in `s`, or `s.len()` when there is none.
pub open spec fn index_of(s: Seq<char>, c: char) -> int
    decreases s.len(),
{
    if s.len() == 0 {
        0
    } else if s[0] == c {
        0
    } else {
        1 + index_of(s.drop_first(), c)
    }
}

/// Index of the last `c` in `s`, or `-1` when there is none.
pub open spec fn last_index_of(s: Seq<char>, c: char) -> int
    decreases s.len(),
{
    if s.len() == 0 {
        -1
    } else if s.last() == c {
        s.len() - 1
    } else {
        last_index_of(s.drop_last(), c)
    }
}

/// The text before the first `c` (all of `s` without one), i.e.
/// `s.split(c).next()`.
pub open spec fn before_first(s: Seq<char>, c: char) -> Seq<char> {
    s.take(index_of(s, c))
}

/// `s.split_once(c)`: the parts before and after the first `c`.
pub open spec fn split_once(s: Seq<char>, c: char) -> Option<(Seq<char>, Seq<char>)> {
    let i = index_of(s, c);
    if i < s.len() {
        Some((s.take(i), s.skip(i + 1)))
    } else {
        None
    }
}

/// An ASCII decimal digit.
pub open spec fn is_digit(c: char) -> bool {
    '0' <= c && c <= '9'
}

/// The value of a decimal digit.
pub open spec fn digit_value(c: char) -> nat {
    (c as u32 - '0' as u32) as nat
}

/// The digit character for `d < 10`.
pub open spec fn digit_char(d: nat) -> char {
    (d + '0' as u32) as char
}

/// Every character of `s` is a decimal digit.
pub open spec fn all_digits(s: Seq<char>) -> bool {
    forall|i: int| 0 <= i < s.len() ==> #[trigger] is_digit(s[i])
}

/// The value of a string of decimal digits.
pub open spec fn digits_value(s: Seq<char>) -> nat
    decreases s.len(),
{
    if s.len() == 0 {
        0
    } else {
        digits_value(s.drop_last()) * 10 + digit_value(s.last())
    }
}

/// `str::parse::<u32>`: an optional `+`, then at least one decimal digit,
/// with a value that fits in a `u32`.
pub open spec fn parse_u32(s: Seq<char>) -> Option<u32> {
    let body = if s.len() > 0 && s[0] == '+' {
        s.drop_first()
    } else {
        s
    };
    if body.len() > 0 && all_digits(body) && digits_value(body) <= u32::MAX {
        Some(digits_value(body) as u32)
    } else {
        None
    }
}

/// The decimal rendering of `n` (what `to_string` gives for an integer).
pub open spec fn dec(n: nat) -> Seq<char>
    decreases n,
{
    if n < 10 {
        seq![digit_char(n)]
    } else {
        dec(n / 10).push(digit_char(n % 10))
    }
}

/// The decimal rendering of a signed integer, with a leading `-` when negative.
pub open spec fn dec_int(n: int) -> Seq<char> {
    if n < 0 {
        seq!['-'] + dec((-n) as nat)
    } else {
        dec(n as nat)
    }
}

// ── Lemmas ──────────────────────────────────────────────────────────────────

/// `index_of` is the first position holding `c`.
pub proof fn lemma_index_of(s: Seq<char>, c: char)
    ensures
        0 <= index_of(s, c) <= s.len(),
        forall|j: int| 0 <= j < index_of(s, c) ==> s[j] != c,
        index_of(s, c) < s.len() ==> s[index_of(s, c)] == c,
    decreases s.len(),
{
    if s.len() > 0 && s[0] != c {
        lemma_index_of(s.drop_first(), c);
        assert forall|j: int| 0 <= j < index_of(s, c) implies s[j] != c by {
            if j > 0 {
                assert(s[j] == s.drop_first()[j - 1]);
            }
        }
    }
}

/// Any position that is the first `c` is `index_of`.
pub proof fn lemma_index_of_is(s: Seq<char>, c: char, i: int)
    requires
        0 <= i <= s.len(),
        forall|j: int| 0 <= j < i ==> s[j] != c,
        i < s.len() ==> s[i] == c,
    ensures
        index_of(s, c) == i,
    decreases s.len(),
{
    lemma_index_of(s, c);
    if index_of(s, c) < i {
        assert(s[index_of(s, c)] == c);
    } else if index_of(s, c) > i {
        assert(s[i] != c);
    }
}

/// `last_index_of` is the last position holding `c`.
pub proof fn lemma_last_index_of(s: Seq<char>, c: char)
    ensures
        -1 <= last_index_of(s, c) < s.len(),
        forall|j: int| last_index_of(s, c) < j < s.len() ==> s[j] != c,
        last_index_of(s, c) >= 0 ==> s[last_index_of(s, c)] == c,
    decreases s.len(),
{
    if s.len() > 0 && s.last() != c {
        lemma_last_index_of(s.drop_last(), c);
        assert forall|j: int| last_index_of(s, c) < j < s.len() implies s[j] != c by {
            if j < s.len() - 1 {
                assert(s[j] == s.drop_last()[j]);
            }
        }
    }
}

/// `trim_start` drops exactly the leading whitespace run.
pub proof fn lemma_trim_start_is(s: Seq<char>, k: int)
    requires
        0 <= k <= s.len(),
        forall|j: int| 0 <= j < k ==> is_ws(#[trigger] s[j]),
        k < s.len() ==> !is_ws(s[k]),
    ensures
        trim_start(s) == s.skip(k),
    decreases s.len(),
{
    if k == 0 {
        assert(s.skip(0) =~= s);
    } else {
        assert(is_ws(s[0]));
        let t = s.drop_first();
        assert forall|j: int| 0 <= j < k - 1 implies is_ws(#[trigger] t[j]) by {
            assert(t[j] == s[j + 1]);
        }
        lemma_trim_start_is(t, k - 1);
        assert(t.skip(k - 1) =~= s.skip(k));
    }
}

/// `trim_end` drops exactly the trailing whitespace run.
pub proof fn lemma_trim_end_is(s: Seq<char>, k: int)
    requires
        0 <= k <= s.len(),
        forall|j: int| k <= j < s.len() ==> is_ws(#[trigger] s[j]),
        k > 0 ==> !is_ws(s[k - 1]),
    ensures
        trim_end(s) == s.take(k),
    decreases s.len(),
{
    if k == s.len() {
        assert(s.take(k) =~= s);
    } else {
        assert(is_ws(s.last()));
        let t = s.drop_last();
        assert forall|j: int| k <= j < t.len() implies is_ws(#[trigger] t[j]) by {
            assert(t[j] == s[j]);
        }
        lemma_trim_end_is(t, k);
        assert(t.take(k) =~= s.take(k));
    }
}

/// Text that starts and ends with a non-whitespace character is its own trim.
pub proof fn lemma_trim_fixed(s: Seq<char>)
    requires
        s.len() > 0,
        !is_ws(s[0]),
        !is_ws(s.last()),
    ensures
        trim(s) == s,
{
    lemma_trim_start_is(s, 0);
    assert(s.skip(0) =~= s);
    lemma_trim_end_is(s, s.len() as int);
    assert(s.take(s.len() as int) =~= s);
}

/// A single leading space in front of non-whitespace-bounded text is trimmed away.
pub proof fn lemma_trim_leading_space(s: Seq<char>)
    requires
        s.len() > 0,
        !is_ws(s[0]),
        !is_ws(s.last()),
    ensures
        trim(seq![' '] + s) == s,
{
    let t = seq![' '] + s;
    assert(t[1] == s[0]);
    assert forall|j: int| 0 <= j < 1 implies is_ws(#[trigger] t[j]) by {}
    lemma_trim_start_is(t, 1);
    assert(t.skip(1) =~= s);
    lemma_trim_fixed(s);
}

/// A single trailing space after non-whitespace-bounded text is trimmed away.
pub proof fn lemma_trim_trailing_space(s: Seq<char>)
    requires
        s.len() > 0,
        !is_ws(s[0]),
        !is_ws(s.last()),
    ensures
        trim(s + seq![' ']) == s,
{
    let t = s + seq![' '];
    assert(t[0] == s[0]);
    lemma_trim_start_is(t, 0);
    assert(t.skip(0) =~= t);
    assert(t[s.len() - 1] == s.last());
    assert forall|j: int| s.len() <= j < t.len() implies is_ws(#[trigger] t[j]) by {}
    lemma_trim_end_is(t, s.len() as int);
    assert(t.take(s.len() as int) =~= s);
}

/// The decimal rendering is a non-empty run of digits.
pub proof fn lemma_dec_digits(n: nat)
    ensures
        dec(n).len() > 0,
        all_digits(dec(n)),
        digits_value(dec(n)) == n,
    decreases n,
{
    if n >= 10 {
        lemma_dec_digits(n / 10);
        let d = dec(n / 10);
        assert(dec(n) == d.push(digit_char(n % 10)));
        assert(dec(n).drop_last() =~= d);
        lemma_digit_char(n % 10);
        assert(dec(n).last() == digit_char(n % 10));
        assert(digits_value(dec(n)) == digits_value(d) * 10 + digit_value(digit_char(n % 10)));
        assert(digits_value(dec(n)) == n);
        assert forall|i: int| 0 <= i < dec(n).len() implies #[trigger] is_digit(dec(n)[i]) by {
            if i < d.len() {
                assert(dec(n)[i] == d[i]);
            }
        }
    } else {
        lemma_digit_char(n);
        assert(dec(n).drop_last() =~= Seq::<char>::empty());
        assert(dec(n).last() == digit_char(n));
        assert(digits_value(Seq::<char>::empty()) == 0);
        assert(digits_value(dec(n)) == digits_value(dec(n).drop_last()) * 10 + digit_value(
            dec(n).last(),
        ));
        assert(digits_value(dec(n)) == n);
    }
}

/// `digit_char` and `digit_value` are inverse on `0..10`.
pub proof fn lemma_digit_char(d: nat)
    requires
        d < 10,
    ensures
        is_digit(digit_char(d)),
        digit_value(digit_char(d)) == d,
{
}

/// `parse_u32` reads back the decimal rendering of every `u32`.
pub proof fn lemma_parse_dec(n: u32)
    ensures
        parse_u32(dec(n as nat)) == Some(n),
{
    lemma_dec_digits(n as nat);
    let s = dec(n as nat);
    assert(is_digit(s[0]));
}

// ── Executable helpers ──────────────────────────────────────────────────────

/// The characters of `s`, in order.
pub fn str_chars(s: &str) -> (v: Vec<char>)
    ensures
        v@ == s@,
{
    let mut v: Vec<char> = Vec::new();
    let it = s.chars();
    for c in iter: it
        invariant
            v@ == iter.seq().take(iter.index() as int),
            iter.seq() == s@,
    {
        v.push(c);
    }
    v
}

/// Calls `String::from_iter` over the characters of `v`; the contract
/// claims the string holds exactly those characters, in order.
#[verifier::external_body]
pub(crate) fn chars_to_string(v: &[char]) -> (s: String)
    ensures
        s@ == v@,
{
    String::from_iter(v.iter())
}

/// Whether `c` is Unicode whitespace (`char::is_whitespace`).
pub fn char_is_ws(c: char) -> (b: bool)
    ensures
        b == is_ws(c),
{
    let u: u32 = c as u32;
    (0x09 <= u && u <= 0x0D) || u == 0x20 || u == 0x85 || u == 0xA0 || u == 0x1680 || (0x2000
        <= u && u <= 0x200A) || u == 0x2028 || u == 0x2029 || u == 0x202F || u == 0x205F || u
        == 0x3000
}

/// Copies `s[a..b]`.
pub fn copy_range(s: &[char], a: usize, b: usize) -> (v: Vec<char>)
    requires
        a <= b <= s@.len(),
    ensures
        v@ == s@.subrange(a as int, b as int),
{
    let mut v: Vec<char> = Vec::new();
    let mut i: usize = a;
    while i < b
        invariant
            a <= i <= b <= s@.len(),
            v@ == s@.subrange(a as int, i as int),
        decreases b - i,
    {
        v.push(s[i]);
        i += 1;
        assert(v@ =~= s@.subrange(a as int, i as int));
    }
    v
}

/// Appends `t` to `v`.
pub fn push_all(v: &mut Vec<char>, t: &[char])
    ensures
        final(v)@ == old(v)@ + t@,
{
    let mut i: usize = 0;
    while i < t.len()
        invariant
            0 <= i <= t@.len(),
            v@ == old(v)@ + t@.take(i as int),
        decreases t@.len() - i,
    {
        v.push(t[i]);
        i += 1;
        assert(v@ =~= old(v)@ + t@.take(i as int));
    }
    assert(t@.take(t@.len() as int) =~= t@);
}

/// Appends the characters of `t` to `v`.
pub fn push_str(v: &mut Vec<char>, t: &str)
    ensures
        final(v)@ == old(v)@ + t@,
{
    let cs = str_chars(t);
    push_all(v, &cs);
}

/// Index of the first `c` in `s` (`s.len()` when absent).
pub fn find_char(s: &[char], c: char) -> (i: usize)
    ensures
        i == index_of(s@, c),
{
    let mut i: usize = 0;
    while i < s.len()
        invariant
            0 <= i <= s@.len(),
            forall|j: int| 0 <= j < i ==> s@[j] != c,
        decreases s@.len() - i,
    {
        if s[i] == c {
            proof {
                lemma_index_of_is(s@, c, i as int);
            }
            return i;
        }
        i += 1;
    }
    proof {
        lemma_index_of_is(s@, c, i as int);
    }
    i
}

/// Whether `c` occurs in `s`.
pub fn contains_char(s: &[char], c: char) -> (b: bool)
    ensures
        b == s@.contains(c),
{
    let i: usize = find_char(s, c);
    proof {
        lemma_index_of(s@, c);
        if s@.contains(c) {
            let k = choose|k: int| 0 <= k < s@.len() && s@[k] == c;
            assert(i <= k);
        }
    }
    i < s.len()
}

/// Index of the last `c` in `s`, if any.
pub fn rfind_char(s: &[char], c: char) -> (r: Option<usize>)
    ensures
        match r {
            Some(i) => i as int == last_index_of(s@, c),
            None => last_index_of(s@, c) == -1,
        },
{
    let mut i: usize = s.len();
    assert(s@.take(s@.len() as int) =~= s@);
    while i > 0
        invariant
            0 <= i <= s@.len(),
            last_index_of(s@, c) == last_index_of(s@.take(i as int), c),
        decreases i,
    {
        let ghost t = s@.take(i as int);
        if s[i - 1] == c {
            assert(t.last() == c);
            return Some(i - 1);
        }
        assert(t.drop_last() =~= s@.take(i - 1));
        i -= 1;
    }
    assert(s@.take(0) =~= Seq::<char>::empty());
    None
}

/// `trim(s)` as a new vector.
pub fn trim_chars(s: &[char]) -> (v: Vec<char>)
    ensures
        v@ == trim(s@),
{
    let mut a: usize = 0;
    while a < s.len() && char_is_ws(s[a])
        invariant
            0 <= a <= s@.len(),
            forall|j: int| 0 <= j < a ==> is_ws(#[trigger] s@[j]),
        decreases s@.len() - a,
    {
        a += 1;
    }
    proof {
        lemma_trim_start_is(s@, a as int);
    }
    let ghost t = s@.skip(a as int);
    let mut b: usize = s.len();
    while b > a && char_is_ws(s[b - 1])
        invariant
            a <= b <= s@.len(),
            t == s@.skip(a as int),
            forall|j: int| (b - a) <= j < t.len() ==> is_ws(#[trigger] t[j]),
        decreases b - a,
    {
        assert(t[(b - 1 - a) as int] == s@[b - 1]);
        b -= 1;
    }
    proof {
        if b > a {
            assert(t[(b - 1 - a) as int] == s@[b - 1]);
        }
        lemma_trim_end_is(t, (b - a) as int);
        assert(t.take((b - a) as int) =~= s@.subrange(a as int, b as int));
    }
    copy_range(s, a, b)
}

/// Whether two character slices are equal.
pub fn chars_eq(a: &[char], b: &[char]) -> (r: bool)
    ensures
        r == (a@ == b@),
{
    if a.len() != b.len() {
        return false;
    }
    let mut i: usize = 0;
    while i < a.len()
        invariant
            a@.len() == b@.len(),
            0 <= i <= a@.len(),
            forall|j: int| 0 <= j < i ==> a@[j] == b@[j],
        decreases a@.len() - i,
    {
        if a[i] != b[i] {
            return false;
        }
        i += 1;
    }
    assert(a@ =~= b@);
    true
}

/// Whether `a` equals the characters of `b`.
pub fn chars_eq_str(a: &[char], b: &str) -> (r: bool)
    ensures
        r == (a@ == b@),
{
    let bc = str_chars(b);
    chars_eq(a, &bc)
}

/// `str::parse::<u32>` over characters.
pub fn parse_u32_chars(s: &[char]) -> (r: Option<u32>)
    ensures
        r == parse_u32(s@),
{
    let start: usize = if s.len() > 0 && s[0] == '+' {
        1
    } else {
        0
    };
    let ghost body = if s@.len() > 0 && s@[0] == '+' {
        s@.drop_first()
    } else {
        s@
    };
    assert(body =~= s@.skip(start as int));
    if start >= s.len() {
        assert(body.len() == 0);
        return None;
    }
    let mut acc: u64 = 0;
    let mut over = false;
    let mut i: usize = start;
    while i < s.len()
        invariant
            start <= i <= s@.len(),
            body == s@.skip(start as int),
            body == (if s@.len() > 0 && s@[0] == '+' {
                s@.drop_first()
            } else {
                s@
            }),
            all_digits(body.take((i - start) as int)),
            !over ==> acc == digits_value(body.take((i - start) as int)),
            !over ==> acc <= u32::MAX,
            over ==> digits_value(body.take((i - start) as int)) > u32::MAX,
        decreases s@.len() - i,
    {
        let c = s[i];
        if !('0' <= c && c <= '9') {
            assert(body[(i - start) as int] == s@[i as int]);
            assert(!is_digit(body[(i - start) as int]));
            assert(!all_digits(body));
            return None;
        }
        let ghost pre = body.take((i - start) as int);
        let ghost post = body.take((i + 1 - start) as int);
        assert(post.drop_last() =~= pre);
        assert(post.last() == c);
        assert forall|j: int| 0 <= j < post.len() implies #[trigger] is_digit(post[j]) by {
            if j < pre.len() {
                assert(post[j] == pre[j]);
            }
        }
        let d: u64 = (c as u32 - '0' as u32) as u64;
        if !over {
            let next: u64 = acc * 10 + d;
            if next > 0xFFFF_FFFF {
                over = true;
            } else {
                acc = next;
            }
        } else {
            assert(digits_value(post) >= digits_value(pre)) by (nonlinear_arith)
                requires
                    digits_value(post) == digits_value(pre) * 10 + digit_value(c),
            ;
        }
        i += 1;
    }
    assert(body.take((i - start) as int) =~= body);
    if over {
        None
    } else {
        Some(acc as u32)
    }
}


/// `str::parse::<u64>`: an optional `+`, then at least one decimal digit,
/// with a value that fits in a `u64`.
pub open spec fn parse_u64(s: Seq<char>) -> Option<u64> {
    let body = if s.len() > 0 && s[0] == '+' {
        s.drop_first()
    } else {
        s
    };
    if body.len() > 0 && all_digits(body) && digits_value(body) <= u64::MAX {
        Some(digits_value(body) as u64)
    } else {
        None
    }
}

/// `str::parse::<u64>` over characters.
pub fn parse_u64_chars(s: &[char]) -> (r: Option<u64>)
    ensures
        r == parse_u64(s@),
{
    let start: usize = if s.len() > 0 && s[0] == '+' {
        1
    } else {
        0
    };
    let ghost body = if s@.len() > 0 && s@[0] == '+' {
        s@.drop_first()
    } else {
        s@
    };
    assert(body =~= s@.skip(start as int));
    if start >= s.len() {
        assert(body.len() == 0);
        return None;
    }
    let mut acc: u128 = 0;
    let mut over = false;
    let mut i: usize = start;
    while i < s.len()
        invariant
            start <= i <= s@.len(),
            body == s@.skip(start as int),
            body == (if s@.len() > 0 && s@[0] == '+' {
                s@.drop_first()
            } else {
                s@
            }),
            all_digits(body.take((i - start) as int)),
            !over ==> acc == digits_value(body.take((i - start) as int)),
            !over ==> acc <= u64::MAX,
            over ==> digits_value(body.take((i - start) as int)) > u64::MAX,
        decreases s@.len() - i,
    {
        let c = s[i];
        if !('0' <= c && c <= '9') {
            assert(body[(i - start) as int] == s@[i as int]);
            assert(!is_digit(body[(i - start) as int]));
            assert(!all_digits(body));
            return None;
        }
        let ghost pre = body.take((i - start) as int);
        let ghost post = body.take((i + 1 - start) as int);
        assert(post.drop_last() =~= pre);
        assert(post.last() == c);
        assert forall|j: int| 0 <= j < post.len() implies #[trigger] is_digit(post[j]) by {
            if j < pre.len() {
                assert(post[j] == pre[j]);
            }
        }
        let d: u128 = (c as u32 - '0' as u32) as u128;
        if !over {
            let next: u128 = acc * 10 + d;
            if next > 0xFFFF_FFFF_FFFF_FFFF {
                over = true;
            } else {
                acc = next;
            }
        } else {
            assert(digits_value(post) >= digits_value(pre)) by (nonlinear_arith)
                requires
                    digits_value(post) == digits_value(pre) * 10 + digit_value(c),
            ;
        }
        i += 1;
    }
    assert(body.take((i - start) as int) =~= body);
    if over {
        None
    } else {
        Some(acc as u64)
    }
}

/// `str::parse::<u16>`.
pub open spec fn parse_u16(s: Seq<char>) -> Option<u16> {
    match parse_u32(s) {
        Some(v) => if v <= 0xFFFF {
            Some(v as u16)
        } else {
            None
        },
        None => None,
    }
}

/// `str::parse::<u8>`.
pub open spec fn parse_u8(s: Seq<char>) -> Option<u8> {
    match parse_u32(s) {
        Some(v) => if v <= 0xFF {
            Some(v as u8)
        } else {
            None
        },
        None => None,
    }
}

/// `str::parse::<i32>`: an optional sign, then at least one decimal digit,
/// with a value in range.
pub open spec fn parse_i32(s: Seq<char>) -> Option<i32> {
    if s.len() > 0 && s[0] == '-' {
        let body = s.drop_first();
        if body.len() > 0 && all_digits(body) && digits_value(body) <= 0x8000_0000 {
            Some((-(digits_value(body) as int)) as i32)
        } else {
            None
        }
    } else {
        match parse_u32(s) {
            Some(v) => if v <= 0x7FFF_FFFF {
                Some(v as i32)
            } else {
                None
            },
            None => None,
        }
    }
}

/// `str::parse::<u16>` over characters.
pub fn parse_u16_chars(s: &[char]) -> (r: Option<u16>)
    ensures
        r == parse_u16(s@),
{
    match parse_u32_chars(s) {
        Some(v) => if v <= 0xFFFF {
            Some(v as u16)
        } else {
            None
        },
        None => None,
    }
}

/// `str::parse::<u8>` over characters.
pub fn parse_u8_chars(s: &[char]) -> (r: Option<u8>)
    ensures
        r == parse_u8(s@),
{
    match parse_u32_chars(s) {
        Some(v) => if v <= 0xFF {
            Some(v as u8)
        } else {
            None
        },
        None => None,
    }
}

/// `str::parse::<i32>` over characters.
pub fn parse_i32_chars(s: &[char]) -> (r: Option<i32>)
    ensures
        r == parse_i32(s@),
{
    if s.len() > 0 && s[0] == '-' {
        let body = copy_range(s, 1, s.len());
        assert(body@ =~= s@.drop_first());
        if body.len() == 0 || body[0] == '+' {
            proof {
                if body@.len() > 0 {
                    assert(!is_digit(body@[0]));
                }
            }
            return None;
        }
        proof {
            assert(!(body@.len() > 0 && body@[0] == '+'));
        }
        match parse_u32_chars(&body) {
            Some(v) => if v <= 0x8000_0000 {
                let r: i64 = -(v as i64);
                Some(r as i32)
            } else {
                None
            },
            None => None,
        }
    } else {
        match parse_u32_chars(s) {
            Some(v) => if v <= 0x7FFF_FFFF {
                Some(v as i32)
            } else {
                None
            },
            None => None,
        }
    }
}

/// The decimal rendering of `n`.
pub fn dec_chars(n: u64) -> (v: Vec<char>)
    ensures
        v@ == dec(n as nat),
    decreases n,
{
    if n < 10 {
        let c = char_from_digit(n);
        let mut v = Vec::new();
        v.push(c);
        assert(v@ =~= seq![digit_char(n as nat)]);
        v
    } else {
        let mut v = dec_chars(n / 10);
        v.push(char_from_digit(n % 10));
        v
    }
}

/// The digit character for `d < 10`.
pub fn char_from_digit(d: u64) -> (c: char)
    requires
        d < 10,
    ensures
        c == digit_char(d as nat),
{
    match d {
        0 => '0',
        1 => '1',
        2 => '2',
        3 => '3',
        4 => '4',
        5 => '5',
        6 => '6',
        7 => '7',
        8 => '8',
        _ => '9',
    }
}

/// The decimal rendering of a signed integer.
pub fn dec_i64_chars(n: i64) -> (v: Vec<char>)
    ensures
        v@ == dec_int(n as int),
{
    if n < 0 {
        let m: u64 = if n == i64::MIN {
            0x8000_0000_0000_0000
        } else {
            (-n) as u64
        };
        let mut v = Vec::new();
        v.push('-');
        let d = dec_chars(m);
        push_all(&mut v, &d);
        assert(v@ =~= seq!['-'] + dec((-(n as int)) as nat));
        v
    } else {
        dec_chars(n as u64)
    }
}

// ── UTF-16 ──────────────────────────────────────────────────────────────────

/// The UTF-16 code units of one character (`char::encode_utf16`).
pub open spec fn utf16_of(c: char) -> Seq<u16> {
    let u = c as u32;
    if u < 0x10000 {
        seq![u as u16]
    } else {
        seq![(0xD800 + (u - 0x10000) / 1024) as u16, (0xDC00 + (u - 0x10000) % 1024) as u16]
    }
}

/// The UTF-16 code units of `s` (`str::encode_utf16`).
pub open spec fn utf16(s: Seq<char>) -> Seq<u16>
    decreases s.len(),
{
    if s.len() == 0 {
        Seq::empty()
    } else {
        utf16(s.drop_last()) + utf16_of(s.last())
    }
}

/// The UTF-16 code units of `s`.
pub fn encode_utf16(s: &[char]) -> (v: Vec<u16>)
    ensures
        v@ == utf16(s@),
{
    let mut v: Vec<u16> = Vec::new();
    let mut i: usize = 0;
    while i < s.len()
        invariant
            0 <= i <= s@.len(),
            v@ == utf16(s@.take(i as int)),
        decreases s@.len() - i,
    {
        let c = s[i];
        let u: u32 = c as u32;
        proof {
            let t = s@.take(i + 1);
            assert(t.drop_last() =~= s@.take(i as int));
            assert(t.last() == c);
        }
        if u < 0x10000 {
            v.push(u as u16);
        } else {
            v.push((0xD800 + (u - 0x10000) / 1024) as u16);
            v.push((0xDC00 + (u - 0x10000) % 1024) as u16);
        }
        i += 1;
        assert(v@ =~= utf16(s@.take(i as int)));
    }
    assert(s@.take(s@.len() as int) =~= s@);
    v
}

/// The number of bytes of the UTF-8 encoding of one character.
pub open spec fn utf8_len_of(c: char) -> nat {
    let u = c as u32;
    if u < 0x80 {
        1
    } else if u < 0x800 {
        2
    } else if u < 0x10000 {
        3
    } else {
        4
    }
}

/// The number of bytes of the UTF-8 encoding of `s` (`str::len`).
pub open spec fn utf8_len(s: Seq<char>) -> nat
    decreases s.len(),
{
    if s.len() == 0 {
        0
    } else {
        utf8_len(s.drop_last()) + utf8_len_of(s.last())
    }
}


// ── Lines and substrings ────────────────────────────────────────────────────

/// A line without the `\r` of a `\r\n` ending.
pub open spec fn strip_cr(l: Seq<char>) -> Seq<char> {
    if l.len() > 0 && l.last() == '\r' {
        l.drop_last()
    } else {
        l
    }
}

/// `str::lines`: the text split at `\n` or `\r\n`; a final line ending
/// adds no empty line, and empty text has no lines.
pub open spec fn lines_of(s: Seq<char>) -> Seq<Seq<char>>
    decreases s.len(),
{
    if s.len() == 0 {
        seq![]
    } else {
        let i = index_of(s, '\n');
        if i < s.len() {
            proof {
                lemma_index_of(s, '\n');
            }
            seq![strip_cr(s.take(i))] + lines_of(s.skip(i + 1))
        } else {
            seq![s]
        }
    }
}

/// The characters of each line of `s` (`str::lines`).
pub fn split_lines(s: &[char]) -> (v: Vec<Vec<char>>)
    ensures
        v@.map_values(|l: Vec<char>| l@) == lines_of(s@),
{
    let mut v: Vec<Vec<char>> = Vec::new();
    let mut pos: usize = 0;
    assert(s@.skip(0) =~= s@);
    while pos < s.len()
        invariant
            0 <= pos <= s@.len(),
            v@.map_values(|l: Vec<char>| l@) + lines_of(s@.skip(pos as int)) == lines_of(s@),
        decreases s@.len() - pos,
    {
        let ghost rest = s@.skip(pos as int);
        let ghost before = v@.map_values(|l: Vec<char>| l@);
        let j = find_char_at(s, pos, '\n');
        proof {
            lemma_index_of(rest, '\n');
        }
        let mut line = copy_range(s, pos, j);
        assert(line@ =~= rest.take(j - pos));
        if j < s.len() {
            if line.len() > 0 && line[line.len() - 1] == '\r' {
                line.pop();
            }
            assert(line@ == strip_cr(rest.take(j - pos)));
            v.push(line);
            assert(rest.skip(j - pos + 1) =~= s@.skip(j + 1));
            assert(v@.map_values(|l: Vec<char>| l@) =~= before.push(strip_cr(rest.take(j - pos))));
            assert(lines_of(rest) == seq![strip_cr(rest.take(j - pos))] + lines_of(s@.skip(j + 1)));
            assert(v@.map_values(|l: Vec<char>| l@) + lines_of(s@.skip(j + 1)) =~= before + lines_of(rest));
            pos = j + 1;
        } else {
            assert(rest.take(j - pos) =~= rest);
            v.push(line);
            assert(v@.map_values(|l: Vec<char>| l@) =~= before.push(rest));
            assert(s@.skip(s@.len() as int) =~= seq![]);
            assert(v@.map_values(|l: Vec<char>| l@) + lines_of(s@.skip(s@.len() as int)) =~= before + lines_of(rest));
            pos = s.len();
        }
    }
    assert(s@.skip(pos as int) =~= seq![]);
    assert(v@.map_values(|l: Vec<char>| l@) + lines_of(s@.skip(pos as int)) =~= v@.map_values(|l: Vec<char>| l@));
    v
}

/// Index of the first `c` at or after `start` (`s.len()` when absent).
pub fn find_char_at(s: &[char], start: usize, c: char) -> (i: usize)
    requires
        start <= s@.len(),
    ensures
        i == start + index_of(s@.skip(start as int), c),
{
    let ghost t = s@.skip(start as int);
    let mut i: usize = start;
    while i < s.len()
        invariant
            start <= i <= s@.len(),
            t == s@.skip(start as int),
            forall|j: int| 0 <= j < i - start ==> t[j] != c,
        decreases s@.len() - i,
    {
        if s[i] == c {
            proof {
                lemma_index_of_is(t, c, i - start);
            }
            return i;
        }
        i += 1;
    }
    proof {
        lemma_index_of_is(t, c, t.len() as int);
    }
    i
}

/// Whether `n` occurs in `h` at position `i`.
pub open spec fn occurs_at(h: Seq<char>, n: Seq<char>, i: int) -> bool {
    0 <= i && i + n.len() <= h.len() && h.subrange(i, i + n.len()) == n
}

/// Whether `n` occurs somewhere in `h` (`str::contains`).
pub open spec fn contains_seq(h: Seq<char>, n: Seq<char>) -> bool {
    exists|i: int| #[trigger] occurs_at(h, n, i)
}

/// Whether `h[i..]` starts with `n`.
fn occurs_at_exec(h: &[char], n: &[char], i: usize) -> (b: bool)
    requires
        i + n@.len() <= h@.len(),
    ensures
        b == occurs_at(h@, n@, i as int),
{
    let mut k: usize = 0;
    while k < n.len()
        invariant
            0 <= k <= n@.len(),
            i + n@.len() <= h@.len(),
            forall|j: int| 0 <= j < k ==> h@[i + j] == n@[j],
        decreases n@.len() - k,
    {
        assert(i + k < h.len());
        if h[i + k] != n[k] {
            assert(h@.subrange(i as int, i + n@.len())[k as int] != n@[k as int]);
            return false;
        }
        k += 1;
    }
    assert(h@.subrange(i as int, i + n@.len()) =~= n@);
    true
}

/// Whether `n` occurs in `h`.
pub fn contains_chars(h: &[char], n: &[char]) -> (b: bool)
    ensures
        b == contains_seq(h@, n@),
{
    if n.len() > h.len() {
        assert forall|i: int| !occurs_at(h@, n@, i) by {}
        return false;
    }
    let last = h.len() - n.len();
    let mut i: usize = 0;
    loop
        invariant
            last == h@.len() - n@.len(),
            0 <= i <= last,
            forall|j: int| 0 <= j < i ==> !occurs_at(h@, n@, j),
        decreases last - i,
    {
        if occurs_at_exec(h, n, i) {
            return true;
        }
        if i == last {
            assert forall|j: int| !occurs_at(h@, n@, j) by {
                if 0 <= j <= i {
                }
            }
            return false;
        }
        i += 1;
    }
}

} // verus!
