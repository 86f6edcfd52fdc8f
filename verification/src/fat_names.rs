//! 8.3 short names and VFAT long-name entries.
use vstd::prelude::*;

use crate::bytes::le16_bytes;
use crate::text::{
    ascii_upper, is_ascii_text,
    chars_to_string, copy_range, dec, dec_chars, encode_utf16, last_index_of, push_all,
    rfind_char, str_chars, utf16,
};

verus! {

// ── Specification ───────────────────────────────────────────────────────────

/// A character an 8.3 name may hold: ASCII letters and digits, and `$%'-_~!#@`.
pub open spec fn legal_83(c: char) -> bool {
    ('A' <= c && c <= 'Z') || ('a' <= c && c <= 'z') || ('0' <= c && c <= '9') || c == '$' || c
        == '%' || c == '\'' || c == '-' || c == '_' || c == '~' || c == '!' || c == '#' || c
        == '@'
}

/// The characters of `s` that an 8.3 name may hold, in order.
pub open spec fn legal_only(s: Seq<char>) -> Seq<char>
    decreases s.len(),
{
    if s.len() == 0 {
        s
    } else if legal_83(s.last()) {
        legal_only(s.drop_last()).push(s.last())
    } else {
        legal_only(s.drop_last())
    }
}

/// The first `n` elements of `s`, or all of it when shorter.
pub open spec fn take_at_most<A>(s: Seq<A>, n: nat) -> Seq<A> {
    if n < s.len() {
        s.take(n as int)
    } else {
        s
    }
}

/// The upper-case form of a string, as `str::to_uppercase` computes it.
pub uninterp spec fn upper_case(s: Seq<char>) -> Seq<char>;

/// What `str::to_uppercase` gives for `s`: the ASCII rule on ASCII text,
/// [`upper_case`] otherwise.
pub open spec fn upper_text(s: Seq<char>) -> Seq<char> {
    if is_ascii_text(s) {
        ascii_upper(s)
    } else {
        upper_case(s)
    }
}

/// `s` upper-cased, reduced to legal 8.3 characters and cut to `max`.
pub open spec fn clean_spec(s: Seq<char>, max: nat) -> Seq<char> {
    take_at_most(legal_only(upper_text(s)), max)
}

/// `name.rsplit_once('.')` when both parts are non-empty: `(stem, ext, true)`;
/// otherwise `(name, "", false)`.
pub open spec fn split_ext(name: Seq<char>) -> (Seq<char>, Seq<char>, bool) {
    let k = last_index_of(name, '.');
    if 0 < k && k < name.len() - 1 {
        (name.take(k), name.skip(k + 1), true)
    } else {
        (name, Seq::empty(), false)
    }
}

/// The stem tried at attempt `n`: the base itself, then the base cut so that
/// `~n` fits in eight characters.
pub open spec fn tilde_stem(base: Seq<char>, n: nat) -> Seq<char> {
    if n == 0 {
        base
    } else {
        let suffix = seq!['~'] + dec(n);
        let keep: nat = if suffix.len() <= 8 {
            (8 - suffix.len()) as nat
        } else {
            0
        };
        take_at_most(base, keep) + suffix
    }
}

/// The first attempt `n <= 99 999` whose candidate is free, or 100 000.
pub open spec fn free_attempt(base: Seq<char>, ext: Seq<char>, used: Set<Seq<char>>, n: nat) -> nat
    decreases 100_000 - n,
{
    if n > 99_999 {
        100_000
    } else if !used.contains(tilde_stem(base, n) + ext) {
        n
    } else {
        free_attempt(base, ext, used, n + 1)
    }
}

/// `s` as single bytes, cut or space-padded to `w`.
pub open spec fn pad_ascii(s: Seq<char>, w: nat) -> Seq<u8> {
    Seq::new(w, |i: int| if i < s.len() { s[i] as u8 } else { 0x20u8 })
}

/// The 11-byte 8.3 field for a stem and an extension.
pub open spec fn short_field(stem: Seq<char>, ext: Seq<char>) -> Seq<u8> {
    pad_ascii(stem, 8) + pad_ascii(ext, 3)
}

/// The stem base of a name: its stem cleaned to eight characters.
pub open spec fn stem_base(name: Seq<char>) -> Seq<char> {
    clean_spec(split_ext(name).0, 8)
}

/// The extension base of a name: nothing for a directory, else its
/// extension cleaned to three characters.
pub open spec fn ext_base(name: Seq<char>, is_dir: bool) -> Seq<char> {
    if is_dir {
        Seq::empty()
    } else {
        clean_spec(split_ext(name).1, 3)
    }
}

/// The attempt [`make_short_name`] settles on.
pub open spec fn short_attempt(name: Seq<char>, is_dir: bool, used: Set<Seq<char>>) -> nat {
    free_attempt(stem_base(name), ext_base(name, is_dir), used, 0)
}

/// The candidate key (stem and extension run together) of attempt `n`.
pub open spec fn short_key(name: Seq<char>, is_dir: bool, n: nat) -> Seq<char> {
    tilde_stem(stem_base(name), n) + ext_base(name, is_dir)
}

/// The short name [`make_short_name`] returns.
pub open spec fn short_name_spec(name: Seq<char>, name_bytes: nat, is_dir: bool, used: Set<Seq<char>>) -> Seq<u8> {
    let n = short_attempt(name, is_dir, used);
    if n <= 99_999 {
        short_field(tilde_stem(stem_base(name), n), ext_base(name, is_dir))
    } else {
        pad_ascii(seq!['L', 'E', 'O', 'N', '~'] + dec(name_bytes), 11)
    }
}

/// The candidates handed out once [`make_short_name`] has recorded its choice.
pub open spec fn used_after(name: Seq<char>, is_dir: bool, used: Set<Seq<char>>) -> Set<Seq<char>> {
    let n = short_attempt(name, is_dir, used);
    if n <= 99_999 {
        used.insert(short_key(name, is_dir, n))
    } else {
        used
    }
}

/// Whether a name needs VFAT long-name entries next to its short name.
pub open spec fn needs_lfn_spec(name: Seq<char>, short: Seq<u8>) -> bool {
    if name == seq!['.'] || name == seq!['.', '.'] {
        false
    } else if exists|i: int| 0 <= i < name.len() && ((name[i] as u32) >= 128 || ('a' <= #[trigger] name[i] && name[i] <= 'z')) {
        true
    } else {
        let (stem, ext, _) = split_ext(name);
        let ok_stem = 0 < stem.len() <= 8 && forall|i: int| 0 <= i < stem.len() ==> legal_83(#[trigger] stem[i]);
        let ok_ext = ext.len() <= 3 && forall|i: int| 0 <= i < ext.len() ==> legal_83(#[trigger] ext[i]);
        if ok_stem && ok_ext {
            short_field(stem, ext) != short
        } else {
            true
        }
    }
}

/// One step of the short-name checksum: rotate right by one, then add
/// (wrapping).
pub open spec fn checksum_step(sum: u8, b: u8) -> u8 {
    ((((sum >> 1u8) | (sum << 7u8)) as int + b as int) % 256) as u8
}

/// The VFAT checksum of a short name.
pub open spec fn lfn_checksum_spec(s: Seq<u8>) -> u8
    decreases s.len(),
{
    if s.len() == 0 {
        0
    } else {
        checksum_step(lfn_checksum_spec(s.drop_last()), s.last())
    }
}

/// The name character stored at byte `p` of a long-name entry (low byte
/// first), or -1 for the bytes that hold none.
pub open spec fn lfn_slot(p: int) -> int {
    if 1 <= p < 11 {
        (p - 1) / 2
    } else if 14 <= p < 26 {
        5 + (p - 14) / 2
    } else if 28 <= p < 32 {
        11 + (p - 28) / 2
    } else {
        -1
    }
}

/// Which byte (0 low, 1 high) of its character byte `p` of a long-name entry holds.
pub open spec fn lfn_half(p: int) -> int {
    if p < 11 {
        (p - 1) % 2
    } else {
        p % 2
    }
}

/// Byte `p` of long-name entry `idx` (of `n`) for the UTF-16 name `u`.
pub open spec fn lfn_byte(u: Seq<u16>, idx: nat, n: nat, checksum: u8, p: int) -> u8 {
    if p == 0 {
        (((idx + 1) % 256) as u8) | (if idx + 1 == n { 0x40u8 } else { 0u8 })
    } else if p == 11 {
        0x0F
    } else if p == 13 {
        checksum
    } else if lfn_slot(p) >= 0 && idx * 13 + lfn_slot(p) < u.len() {
        le16_bytes(u[idx * 13 + lfn_slot(p)])[lfn_half(p)]
    } else {
        0
    }
}

/// Long-name entry `idx` of `n`.
pub open spec fn lfn_record(u: Seq<u16>, idx: nat, n: nat, checksum: u8) -> Seq<u8> {
    Seq::new(32, |p: int| lfn_byte(u, idx, n, checksum, p))
}

/// Long-name entries `k - 1` down to `0`.
pub open spec fn lfn_records(u: Seq<u16>, k: nat, n: nat, checksum: u8) -> Seq<u8>
    decreases k,
{
    if k == 0 {
        Seq::empty()
    } else {
        lfn_record(u, (k - 1) as nat, n, checksum) + lfn_records(u, (k - 1) as nat, n, checksum)
    }
}

/// The long-name entries of `name`, the last slot first.
pub open spec fn lfn_entries_spec(name: Seq<char>, short: Seq<u8>) -> Seq<u8> {
    let u = utf16(name);
    let n = ((u.len() + 12) / 13) as nat;
    lfn_records(u, n, n, lfn_checksum_spec(short))
}

/// The records of `lfn_records(u, k, ..)` in order: 32 bytes each, record
/// `j` being long-name entry `k - 1 - j`.
proof fn lemma_lfn_records(u: Seq<u16>, k: nat, n: nat, checksum: u8)
    ensures
        lfn_records(u, k, n, checksum).len() == 32 * k,
        forall|j: int|
            0 <= j < k ==> #[trigger] lfn_records(u, k, n, checksum).subrange(32 * j, 32 * j + 32)
                == lfn_record(u, (k - 1 - j) as nat, n, checksum),
    decreases k,
{
    if k > 0 {
        let m = (k - 1) as nat;
        lemma_lfn_records(u, m, n, checksum);
        let a = lfn_record(u, m, n, checksum);
        let r = lfn_records(u, m, n, checksum);
        let all = lfn_records(u, k, n, checksum);
        assert(all == a + r);
        assert forall|j: int| 0 <= j < k implies #[trigger] all.subrange(32 * j, 32 * j + 32)
            == lfn_record(u, (k - 1 - j) as nat, n, checksum) by {
            if j == 0 {
                assert(all.subrange(0, 32) =~= a);
            } else {
                assert(r.subrange(32 * (j - 1), 32 * (j - 1) + 32) == lfn_record(
                    u,
                    (m - 1 - (j - 1)) as nat,
                    n,
                    checksum,
                ));
                assert(all.subrange(32 * j, 32 * j + 32) =~= r.subrange(
                    32 * (j - 1),
                    32 * (j - 1) + 32,
                ));
            }
        }
    }
}

/// The long-name entries of a name of `u.len()` UTF-16 units form
/// `n = ceil(u.len() / 13)` records of 32 bytes. Record `j` (from the start)
/// is long-name entry `n - 1 - j`: its order byte is `n - j`, flagged `0x40`
/// on the first record (the last slot), byte 11 is the `0x0F` attribute,
/// byte 13 the checksum of the short name, and its name bytes hold units
/// `13 * (n - 1 - j)` onwards, low byte first.
pub proof fn lemma_lfn_layout(name: Seq<char>, short: Seq<u8>)
    ensures
        ({
            let u = utf16(name);
            let n = ((u.len() + 12) / 13) as nat;
            let e = lfn_entries_spec(name, short);
            &&& e.len() == 32 * n
            &&& forall|j: int|
                0 <= j < n ==> #[trigger] e.subrange(32 * j, 32 * j + 32) == lfn_record(
                    u,
                    (n - 1 - j) as nat,
                    n,
                    lfn_checksum_spec(short),
                )
            &&& forall|j: int|
                0 <= j < n ==> #[trigger] e[32 * j] == (((n - j) % 256) as u8) | (if j == 0 {
                    0x40u8
                } else {
                    0u8
                })
            &&& forall|j: int| 0 <= j < n ==> #[trigger] e[32 * j + 11] == 0x0F
            &&& forall|j: int| 0 <= j < n ==> #[trigger] e[32 * j + 13] == lfn_checksum_spec(short)
        }),
{
    let u = utf16(name);
    let n = ((u.len() + 12) / 13) as nat;
    let cs = lfn_checksum_spec(short);
    let e = lfn_entries_spec(name, short);
    lemma_lfn_records(u, n, n, cs);
    assert forall|j: int| 0 <= j < n implies #[trigger] e[32 * j] == (((n - j) % 256) as u8) | (if j
        == 0 {
        0x40u8
    } else {
        0u8
    }) by {
        let rec = e.subrange(32 * j, 32 * j + 32);
        assert(rec == lfn_record(u, (n - 1 - j) as nat, n, cs));
        assert(e[32 * j] == rec[0]);
    }
    assert forall|j: int| 0 <= j < n implies #[trigger] e[32 * j + 11] == 0x0F by {
        let rec = e.subrange(32 * j, 32 * j + 32);
        assert(rec == lfn_record(u, (n - 1 - j) as nat, n, cs));
        assert(e[32 * j + 11] == rec[11]);
    }
    assert forall|j: int| 0 <= j < n implies #[trigger] e[32 * j + 13] == cs by {
        let rec = e.subrange(32 * j, 32 * j + 32);
        assert(rec == lfn_record(u, (n - 1 - j) as nat, n, cs));
        assert(e[32 * j + 13] == rec[13]);
    }
}

/// A `.` or `..` entry pointing at `cluster`.
pub open spec fn dot_entry_spec(cluster: u32, is_dot: bool) -> Seq<u8> {
    Seq::new(
        32,
        |p: int|
            if p == 0 || (p == 1 && !is_dot) {
                0x2Eu8
            } else if p < 11 {
                0x20u8
            } else if p == 11 {
                0x10u8
            } else if 20 <= p < 22 {
                le16_bytes((cluster / 0x10000) as u16)[p - 20]
            } else if 26 <= p < 28 {
                le16_bytes((cluster % 0x10000) as u16)[p - 26]
            } else {
                0u8
            },
    )
}

// ── Short names ─────────────────────────────────────────────────────────────

/// The candidate names handed out so far.
pub struct UsedNames {
    names: Vec<Vec<char>>,
}

impl View for UsedNames {
    type V = Set<Seq<char>>;

    closed spec fn view(&self) -> Set<Seq<char>> {
        Set::new(|s: Seq<char>| exists|i: int| 0 <= i < self.names@.len() && #[trigger] self.names@[i]@ == s)
    }
}

impl UsedNames {
    /// No name handed out yet.
    pub fn new() -> (u: UsedNames)
        ensures
            u@ == Set::<Seq<char>>::empty(),
    {
        let u = UsedNames { names: Vec::new() };
        assert(u@ =~= Set::<Seq<char>>::empty());
        u
    }

    /// Whether `s` was handed out.
    pub fn contains(&self, s: &[char]) -> (b: bool)
        ensures
            b == self@.contains(s@),
    {
        let mut i: usize = 0;
        while i < self.names.len()
            invariant
                0 <= i <= self.names@.len(),
                forall|j: int| 0 <= j < i ==> self.names@[j]@ != s@,
            decreases self.names@.len() - i,
        {
            if crate::text::chars_eq(&self.names[i], s) {
                assert(self.names@[i as int]@ == s@);
                return true;
            }
            i += 1;
        }
        false
    }

    /// Records `s`.
    pub fn insert(&mut self, s: Vec<char>)
        ensures
            final(self)@ == old(self)@.insert(s@),
    {
        self.names.push(s);
        proof {
            let n = self.names@.len() - 1;
            assert forall|x: Seq<char>| #[trigger] self@.contains(x) == old(self)@.insert(s@).contains(x) by {
                if old(self)@.contains(x) {
                    let j = choose|j: int| 0 <= j < old(self).names@.len() && #[trigger] old(self).names@[j]@ == x;
                    assert(self.names@[j]@ == x);
                }
                if x == s@ {
                    assert(self.names@[n]@ == x);
                }
            }
            assert(self@ =~= old(self)@.insert(s@));
        }
    }
}

/// Calls `str::to_uppercase`. The contract claims that the result is
/// [`upper_case`] of the text, a function of the text alone, and that an
/// all-ASCII text (the empty one included) is uppercased by the ASCII rule;
/// what the Unicode mapping produces for other characters is left unsaid.
#[verifier::external_body]
fn to_upper(s: &str) -> (r: String)
    ensures
        r@ == upper_case(s@),
        is_ascii_text(s@) ==> r@ == ascii_upper(s@),
{
    s.to_uppercase()
}

/// The legal 8.3 characters of `s`, in order.
pub fn keep_legal(s: &[char]) -> (v: Vec<char>)
    ensures
        v@ == legal_only(s@),
{
    let mut v: Vec<char> = Vec::new();
    let mut i: usize = 0;
    while i < s.len()
        invariant
            0 <= i <= s@.len(),
            v@ == legal_only(s@.take(i as int)),
        decreases s@.len() - i,
    {
        let c = s[i];
        proof {
            let t = s@.take(i + 1);
            assert(t.drop_last() =~= s@.take(i as int));
            assert(t.last() == c);
        }
        if ('A' <= c && c <= 'Z') || ('a' <= c && c <= 'z') || ('0' <= c && c <= '9') || c == '$'
            || c == '%' || c == '\'' || c == '-' || c == '_' || c == '~' || c == '!' || c == '#'
            || c == '@' {
            v.push(c);
        }
        i += 1;
    }
    assert(s@.take(s@.len() as int) =~= s@);
    v
}

/// The first `n` characters of `s` (all of it when shorter).
pub fn take_chars(s: &[char], n: usize) -> (v: Vec<char>)
    ensures
        v@ == take_at_most(s@, n as nat),
{
    if n < s.len() {
        copy_range(s, 0, n)
    } else {
        copy_range(s, 0, s.len())
    }
}

/// `s` upper-cased, reduced to legal 8.3 characters and cut to `max`.
pub fn clean(s: &[char], max: usize) -> (v: Vec<char>)
    ensures
        v@ == clean_spec(s@, max as nat),
{
    let st = chars_to_string(s);
    let up = to_upper(st.as_str());
    let cs = str_chars(up.as_str());
    let legal = keep_legal(&cs);
    take_chars(&legal, max)
}

/// Splits a name at its last `.` when both sides are non-empty.
fn split_name(name: &[char]) -> (r: (Vec<char>, Vec<char>, bool))
    ensures
        r.0@ == split_ext(name@).0,
        r.1@ == split_ext(name@).1,
        r.2 == split_ext(name@).2,
{
    match rfind_char(name, '.') {
        Some(k) => {
            proof {
                crate::text::lemma_last_index_of(name@, '.');
            }
            if 0 < k && k < name.len() && k + 1 < name.len() {
                (copy_range(name, 0, k), copy_range(name, k + 1, name.len()), true)
            } else {
                let all = copy_range(name, 0, name.len());
                assert(all@ =~= name@);
                (all, Vec::new(), false)
            }
        },
        None => {
            let all = copy_range(name, 0, name.len());
            assert(all@ =~= name@);
            (all, Vec::new(), false)
        },
    }
}

/// Writes `s` into `f[at..at + w]` as single bytes, space-padded.
fn put_padded(f: &mut [u8; 11], at: usize, s: &[char], w: usize)
    requires
        at + w <= 11,
    ensures
        final(f)@ == old(f)@.take(at as int) + pad_ascii(s@, w as nat) + old(f)@.skip(at + w),
{
    let mut i: usize = 0;
    while i < w
        invariant
            at + w <= 11,
            0 <= i <= w,
            f@.len() == 11,
            f@ == old(f)@.take(at as int) + pad_ascii(s@, w as nat).take(i as int) + old(f)@.skip(
                at + i,
            ),
        decreases w - i,
    {
        let b: u8 = if i < s.len() {
            s[i] as u8
        } else {
            0x20
        };
        f[at + i] = b;
        i += 1;
        assert(f@ =~= old(f)@.take(at as int) + pad_ascii(s@, w as nat).take(i as int) + old(
            f,
        )@.skip(at + i));
    }
    assert(pad_ascii(s@, w as nat).take(w as int) =~= pad_ascii(s@, w as nat));
}

/// Builds the 11-byte 8.3 name of `name`, avoiding the candidates in `used`:
/// the cleaned stem and extension, then `STEM~1`, `STEM~2`, … up to `~99999`,
/// and after that `LEON~<name length>`. The chosen candidate is recorded.
pub fn make_short_name(name: &str, is_dir: bool, used: &mut UsedNames) -> (f: [u8; 11])
    ensures
        f@ == short_name_spec(name@, name.len() as nat, is_dir, old(used)@),
        final(used)@ == used_after(name@, is_dir, old(used)@),
{
    let chars = str_chars(name);
    let (stem, ext, _has_ext) = split_name(&chars);
    let stem_b = clean(&stem, 8);
    let ext_b: Vec<char> = if is_dir {
        Vec::new()
    } else {
        clean(&ext, 3)
    };
    let ghost base = stem_base(name@);
    let ghost eb = ext_base(name@, is_dir);
    assert(stem_b@ == base && ext_b@ == eb);
    let mut n: u32 = 0;
    loop
        invariant
            n <= 99_999,
            stem_b@ == base,
            ext_b@ == eb,
            base == stem_base(name@),
            eb == ext_base(name@, is_dir),
            used@ == old(used)@,
            free_attempt(base, eb, used@, 0) == free_attempt(base, eb, used@, n as nat),
        decreases 100_000 - n,
    {
        let mut cand_stem: Vec<char>;
        if n == 0 {
            cand_stem = copy_range(&stem_b, 0, stem_b.len());
            assert(cand_stem@ =~= stem_b@);
        } else {
            let digits = dec_chars(n as u64);
            let mut suffix: Vec<char> = Vec::new();
            suffix.push('~');
            push_all(&mut suffix, &digits);
            assert(suffix@ =~= seq!['~'] + dec(n as nat));
            let keep: usize = if suffix.len() <= 8 {
                8 - suffix.len()
            } else {
                0
            };
            cand_stem = take_chars(&stem_b, keep);
            push_all(&mut cand_stem, &suffix);
        }
        assert(cand_stem@ == tilde_stem(base, n as nat));
        let mut cand = copy_range(&cand_stem, 0, cand_stem.len());
        push_all(&mut cand, &ext_b);
        assert(cand_stem@.subrange(0, cand_stem@.len() as int) =~= cand_stem@);
        if !used.contains(&cand) {
            used.insert(cand);
            let mut f: [u8; 11] = [0x20; 11];
            put_padded(&mut f, 0, &cand_stem, 8);
            put_padded(&mut f, 8, &ext_b, 3);
            assert(f@ =~= short_field(cand_stem@, ext_b@));
            return f;
        }
        if n == 99_999 {
            assert(free_attempt(base, eb, used@, 100_000) == 100_000);
            let mut last: Vec<char> = Vec::new();
            last.push('L');
            last.push('E');
            last.push('O');
            last.push('N');
            last.push('~');
            let d = dec_chars(name.len() as u64);
            push_all(&mut last, &d);
            assert(last@ =~= seq!['L', 'E', 'O', 'N', '~'] + dec(name.len() as nat));
            let mut f: [u8; 11] = [0x20; 11];
            put_padded(&mut f, 0, &last, 11);
            assert(f@ =~= pad_ascii(last@, 11));
            return f;
        }
        n = n + 1;
    }
}

/// Whether `s` holds only legal 8.3 characters.
fn all_legal(s: &[char]) -> (b: bool)
    ensures
        b == forall|i: int| 0 <= i < s@.len() ==> legal_83(#[trigger] s@[i]),
{
    let mut i: usize = 0;
    while i < s.len()
        invariant
            0 <= i <= s@.len(),
            forall|j: int| 0 <= j < i ==> legal_83(#[trigger] s@[j]),
        decreases s@.len() - i,
    {
        let c = s[i];
        if !(('A' <= c && c <= 'Z') || ('a' <= c && c <= 'z') || ('0' <= c && c <= '9') || c
            == '$' || c == '%' || c == '\'' || c == '-' || c == '_' || c == '~' || c == '!' || c
            == '#' || c == '@') {
            assert(!legal_83(s@[i as int]));
            return false;
        }
        i += 1;
    }
    true
}

/// Whether two byte strings are equal.
pub fn bytes_eq(a: &[u8], b: &[u8]) -> (r: bool)
    ensures
        r == (a@ == b@),
{
    if a.len() != b.len() {
        return false;
    }
    let mut i: usize = 0;
    while i < a.len()
        invariant
            a@.len() == b@.len(),
            0 <= i <= a@.len(),
            forall|j: int| 0 <= j < i ==> a@[j] == b@[j],
        decreases a@.len() - i,
    {
        if a[i] != b[i] {
            return false;
        }
        i += 1;
    }
    assert(a@ =~= b@);
    true
}

/// Whether `name` needs VFAT long-name entries next to its short name.
///
/// An 8.3 name holds only upper-case ASCII within its 8+3 limits, using the
/// legal 8.3 characters. Anything else (lower case, non-ASCII, an overlong
/// stem or extension) needs long-name entries, as does a name whose short
/// name is not its own upper-cased 8.3 form (after a `~n` suffix, say).
pub fn needs_lfn(name: &str, short: &[u8; 11]) -> (b: bool)
    ensures
        b == needs_lfn_spec(name@, short@),
{
    let chars = str_chars(name);
    if (chars.len() == 1 && chars[0] == '.') || (chars.len() == 2 && chars[0] == '.' && chars[1]
        == '.') {
        assert(chars@ =~= seq!['.'] || chars@ =~= seq!['.', '.']);
        return false;
    }
    assert(name@ != seq!['.'] && name@ != seq!['.', '.']) by {
        if name@ == seq!['.'] {
            assert(chars@[0] == '.');
        }
        if name@ == seq!['.', '.'] {
            assert(chars@[0] == '.' && chars@[1] == '.');
        }
    }
    let mut i: usize = 0;
    while i < chars.len()
        invariant
            chars@ == name@,
            0 <= i <= chars@.len(),
            forall|j: int|
                0 <= j < i ==> !((chars@[j] as u32) >= 128 || ('a' <= #[trigger] chars@[j]
                    && chars@[j] <= 'z')),
        decreases chars@.len() - i,
    {
        let c = chars[i];
        if (c as u32) >= 128 || ('a' <= c && c <= 'z') {
            return true;
        }
        i += 1;
    }
    // The name is ASCII without lower-case letters, so it is its own
    // upper-case form.
    let (stem, ext, _has_ext) = split_name(&chars);
    let ok_stem = stem.len() > 0 && stem.len() <= 8 && all_legal(&stem);
    let ok_ext = ext.len() <= 3 && all_legal(&ext);
    if ok_stem && ok_ext {
        let mut expect: [u8; 11] = [0x20; 11];
        put_padded(&mut expect, 0, &stem, 8);
        put_padded(&mut expect, 8, &ext, 3);
        assert(expect@ =~= short_field(stem@, ext@));
        return !bytes_eq(&expect, short);
    }
    true
}

/// The VFAT checksum of a short name: for each byte, rotate the sum right
/// by one bit and add the byte.
pub fn lfn_checksum(short: &[u8; 11]) -> (sum: u8)
    ensures
        sum == lfn_checksum_spec(short@),
{
    let mut sum: u8 = 0;
    let mut i: usize = 0;
    while i < 11
        invariant
            0 <= i <= 11,
            short@.len() == 11,
            sum == lfn_checksum_spec(short@.take(i as int)),
        decreases 11 - i,
    {
        proof {
            let t = short@.take(i + 1);
            assert(t.drop_last() =~= short@.take(i as int));
        }
        let r: u8 = (sum >> 1) | (sum << 7);
        sum = ((r as u16 + short[i] as u16) % 256) as u8;
        i += 1;
    }
    assert(short@.take(11) =~= short@);
    sum
}

/// Byte position of name character `c` (< 13) in a long-name entry.
fn lfn_pos(c: usize) -> (p: usize)
    requires
        c < 13,
    ensures
        lfn_slot(p as int) == c as int,
        lfn_slot(p + 1) == c as int,
        lfn_half(p as int) == 0,
        lfn_half(p + 1) == 1,
        p + 1 < 32,
{
    if c < 5 {
        1 + 2 * c
    } else if c < 11 {
        14 + 2 * (c - 5)
    } else {
        28 + 2 * (c - 11)
    }
}

/// Long-name entry `idx` of `n` for the UTF-16 name `u`.
fn lfn_record_bytes(u: &[u16], idx: usize, n: usize, checksum: u8) -> (rec: Vec<u8>)
    requires
        idx < n,
        idx * 13 < u@.len(),
    ensures
        rec@ == lfn_record(u@, idx as nat, n as nat, checksum),
{
    let mut rec = crate::bytes::zeros(32);
    let flag: u8 = if idx + 1 == n {
        0x40
    } else {
        0
    };
    rec.set(0, (((idx % 256 + 1) % 256) as u8) | flag);
    assert((idx % 256 + 1) % 256 == (idx + 1) % 256) by {
        vstd::arithmetic::div_mod::lemma_add_mod_noop(idx as int, 1, 256);
        vstd::arithmetic::div_mod::lemma_mod_twice(idx as int, 256);
    }
    rec.set(11, 0x0F);
    rec.set(13, checksum);
    let mut c: usize = 0;
    while c < 13
        invariant
            idx < n,
            idx * 13 < u@.len(),
            0 <= c <= 13,
            rec@.len() == 32,
            forall|p: int|
                0 <= p < 32 ==> #[trigger] rec@[p] == (if lfn_slot(p) < 0 || lfn_slot(p) < c {
                    lfn_byte(u@, idx as nat, n as nat, checksum, p)
                } else {
                    0u8
                }),
        decreases 13 - c,
    {
        let p = lfn_pos(c);
        if c < u.len() - idx * 13 {
            let v = u[idx * 13 + c];
            rec.set(p, (v % 256) as u8);
            rec.set(p + 1, (v / 256) as u8);
            assert(le16_bytes(v) =~= seq![(v % 256) as u8, (v / 256) as u8]);
        }
        c += 1;
    }
    assert(rec@ =~= lfn_record(u@, idx as nat, n as nat, checksum));
    rec
}

/// The VFAT long-name entries of `name` for the short name `short`, in
/// directory order: the last 13-character slot (flagged 0x40) first, slot 1
/// right before the short entry. Every entry carries the short name's
/// checksum.
pub fn lfn_entries(name: &str, short: &[u8; 11]) -> (out: Vec<u8>)
    ensures
        out@ == lfn_entries_spec(name@, short@),
        ({
            let u = utf16(name@);
            let n = ((u.len() + 12) / 13) as nat;
            &&& out@.len() == 32 * n
            &&& forall|k: int|
                0 <= k < n ==> #[trigger] out@.subrange(32 * k, 32 * k + 32) == lfn_record(
                    u,
                    (n - 1 - k) as nat,
                    n,
                    lfn_checksum_spec(short@),
                )
            &&& forall|k: int|
                0 <= k < n ==> #[trigger] out@[32 * k] == (((n - k) % 256) as u8) | (if k == 0 {
                    0x40u8
                } else {
                    0u8
                })
            &&& forall|k: int| 0 <= k < n ==> #[trigger] out@[32 * k + 11] == 0x0F
            &&& forall|k: int| 0 <= k < n ==> #[trigger] out@[32 * k + 13] == lfn_checksum_spec(short@)
        }),
{
    let chars = str_chars(name);
    let u = encode_utf16(&chars);
    let checksum = lfn_checksum(short);
    let n: usize = u.len() / 13 + if u.len() % 13 != 0 {
        1
    } else {
        0
    };
    assert(n == (u@.len() + 12) / 13);
    let mut out: Vec<u8> = Vec::new();
    let mut k: usize = n;
    while k > 0
        invariant
            n == (u@.len() + 12) / 13,
            0 <= k <= n,
            out@ + lfn_records(u@, k as nat, n as nat, checksum) == lfn_records(
                u@,
                n as nat,
                n as nat,
                checksum,
            ),
        decreases k,
    {
        assert((k - 1) * 13 < u@.len()) by (nonlinear_arith)
            requires
                1 <= k <= n,
                n == (u@.len() + 12) / 13,
        ;
        let rec = lfn_record_bytes(&u, k - 1, n, checksum);
        let ghost before = out@;
        crate::bytes::append_bytes(&mut out, &rec);
        assert(out@ + lfn_records(u@, (k - 1) as nat, n as nat, checksum) =~= before
            + lfn_records(u@, k as nat, n as nat, checksum));
        k -= 1;
    }
    assert(out@ =~= out@ + lfn_records(u@, 0, n as nat, checksum));
    proof {
        lemma_lfn_layout(name@, short@);
    }
    out
}

/// A `.` (or, with `is_dot` false, `..`) directory entry pointing at
/// `cluster`; the name is space-padded.
pub fn dot_entry(cluster: u32, is_dot: bool) -> (rec: Vec<u8>)
    ensures
        rec@ == dot_entry_spec(cluster, is_dot),
{
    let mut rec = crate::bytes::zeros(32);
    let mut i: usize = 0;
    while i < 11
        invariant
            0 <= i <= 11,
            rec@.len() == 32,
            forall|p: int| 0 <= p < 32 ==> #[trigger] rec@[p] == if p < i { 0x20u8 } else { 0u8 },
        decreases 11 - i,
    {
        rec.set(i, 0x20);
        i += 1;
    }
    rec.set(0, 0x2E);
    if !is_dot {
        rec.set(1, 0x2E);
    }
    rec.set(11, 0x10);
    let hi: u16 = (cluster / 0x10000) as u16;
    let lo: u16 = (cluster % 0x10000) as u16;
    rec.set(20, (hi % 256) as u8);
    rec.set(21, (hi / 256) as u8);
    rec.set(26, (lo % 256) as u8);
    rec.set(27, (lo / 256) as u8);
    assert(le16_bytes(hi) =~= seq![(hi % 256) as u8, (hi / 256) as u8]);
    assert(le16_bytes(lo) =~= seq![(lo % 256) as u8, (lo / 256) as u8]);
    assert(rec@ =~= dot_entry_spec(cluster, is_dot));
    rec
}

} // verus!
