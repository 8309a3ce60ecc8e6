//! Character-level text handling: trimming, splitting, searching and decimal parsing.
//!
//! Text is handled as a `Vec<char>` with half-open index ranges into it, so that
//! the pieces of a split or a trim are addressed without copying.
use vstd::prelude::*;
use vstd::std_specs::iter::IteratorSpec;

verus! {

/// The Unicode `White_Space` property, which `char::is_whitespace` and `str::trim` use.
pub open spec fn is_space(c: char) -> bool {
    let u = c as u32;
    (0x9 <= u && u <= 0xd) || u == 0x20 || u == 0x85 || u == 0xa0 || u == 0x1680
        || (0x2000 <= u && u <= 0x200a) || u == 0x2028 || u == 0x2029 || u == 0x202f
        || u == 0x205f || u == 0x3000
}

/// Drops leading white space.
pub open spec fn trim_left(s: Seq<char>) -> Seq<char>
    decreases s.len(),
{
    if s.len() > 0 && is_space(s[0]) {
        trim_left(s.drop_first())
    } else {
        s
    }
}

/// Drops trailing white space.
pub open spec fn trim_right(s: Seq<char>) -> Seq<char>
    decreases s.len(),
{
    if s.len() > 0 && is_space(s.last()) {
        trim_right(s.drop_last())
    } else {
        s
    }
}

/// `str::trim`: drops leading and trailing white space.
pub open spec fn trim(s: Seq<char>) -> Seq<char> {
    trim_right(trim_left(s))
}

/// `str::split` on a single character: the pieces between occurrences of `c`.
/// There is always one piece more than there are occurrences of `c`.
pub open spec fn split(s: Seq<char>, c: char) -> Seq<Seq<char>>
    decreases s.len(),
{
    if s.len() == 0 {
        seq![Seq::<char>::empty()]
    } else {
        let init = split(s.drop_last(), c);
        if s.last() == c {
            init.push(Seq::<char>::empty())
        } else {
            init.update(init.len() - 1, init.last().push(s.last()))
        }
    }
}

/// `p` occurs in `s` starting at index `i`.
pub open spec fn occurs_at(s: Seq<char>, p: Seq<char>, i: int) -> bool {
    0 <= i && i + p.len() <= s.len() && s.subrange(i, i + p.len()) == p
}

/// `str::contains` with a string pattern.
pub open spec fn contains(s: Seq<char>, p: Seq<char>) -> bool {
    exists|i: int| occurs_at(s, p, i)
}

/// `str::starts_with` with a string pattern.
pub open spec fn starts_with(s: Seq<char>, p: Seq<char>) -> bool {
    occurs_at(s, p, 0)
}

/// `str::ends_with` with a string pattern.
pub open spec fn ends_with(s: Seq<char>, p: Seq<char>) -> bool {
    occurs_at(s, p, s.len() - p.len())
}

/// `str::strip_suffix` followed by `unwrap_or` of the input.
pub open spec fn strip_suffix_or_keep(s: Seq<char>, p: Seq<char>) -> Seq<char> {
    if ends_with(s, p) {
        s.subrange(0, s.len() - p.len())
    } else {
        s
    }
}

pub open spec fn is_digit(c: char) -> bool {
    '0' <= c && c <= '9'
}

pub open spec fn all_digits(s: Seq<char>) -> bool {
    forall|i: int| 0 <= i < s.len() ==> is_digit(#[trigger] s[i])
}

/// The value of a string of decimal digits.
pub open spec fn digits_value(s: Seq<char>) -> nat
    decreases s.len(),
{
    if s.len() == 0 {
        0
    } else {
        digits_value(s.drop_last()) * 10 + ((s.last() as u32 - '0' as u32) as nat)
    }
}

/// The digits that `from_str` reads for an unsigned type: an optional `+`, then the rest.
pub open spec fn unsigned_digits(s: Seq<char>) -> Seq<char> {
    if s.len() > 0 && s[0] == '+' {
        s.drop_first()
    } else {
        s
    }
}

/// `str::parse` for an unsigned integer type whose largest value is `max`:
/// an optional `+` followed by at least one ASCII digit, with a value of at most `max`.
pub open spec fn parse_unsigned(s: Seq<char>, max: nat) -> Option<nat> {
    let d = unsigned_digits(s);
    if d.len() > 0 && all_digits(d) && digits_value(d) <= max {
        Some(digits_value(d))
    } else {
        None
    }
}

/// `str::parse::<u8>`.
pub open spec fn parse_u8(s: Seq<char>) -> Option<u8> {
    match parse_unsigned(s, 255) {
        Some(v) => Some(v as u8),
        None => None,
    }
}

/// `str::parse::<u16>`.
pub open spec fn parse_u16(s: Seq<char>) -> Option<u16> {
    match parse_unsigned(s, 65535) {
        Some(v) => Some(v as u16),
        None => None,
    }
}

pub proof fn lemma_trim_left_step(s: Seq<char>, lo: int, hi: int)
    requires
        0 <= lo < hi <= s.len(),
        is_space(s[lo]),
    ensures
        trim_left(s.subrange(lo, hi)) == trim_left(s.subrange(lo + 1, hi)),
{
    assert(s.subrange(lo, hi).drop_first() =~= s.subrange(lo + 1, hi));
}

pub proof fn lemma_trim_right_step(s: Seq<char>, lo: int, hi: int)
    requires
        0 <= lo < hi <= s.len(),
        is_space(s[hi - 1]),
    ensures
        trim_right(s.subrange(lo, hi)) == trim_right(s.subrange(lo, hi - 1)),
{
    assert(s.subrange(lo, hi).drop_last() =~= s.subrange(lo, hi - 1));
}

/// Every character of `s` is white space.
pub open spec fn all_space(s: Seq<char>) -> bool {
    forall|i: int| 0 <= i < s.len() ==> is_space(#[trigger] s[i])
}

/// Leading white space in front of `x` is dropped by `trim_left`.
proof fn lemma_trim_left_space_prefix(pre: Seq<char>, x: Seq<char>)
    requires
        all_space(pre),
    ensures
        trim_left(pre + x) == trim_left(x),
    decreases pre.len(),
{
    if pre.len() == 0 {
        assert(pre + x =~= x);
    } else {
        assert((pre + x)[0] == pre[0]);
        assert((pre + x).drop_first() =~= pre.drop_first() + x);
        lemma_trim_left_space_prefix(pre.drop_first(), x);
    }
}

/// Trailing white space after `x` is dropped by `trim_right`.
proof fn lemma_trim_right_space_suffix(x: Seq<char>, post: Seq<char>)
    requires
        all_space(post),
    ensures
        trim_right(x + post) == trim_right(x),
    decreases post.len(),
{
    if post.len() == 0 {
        assert(x + post =~= x);
    } else {
        assert((x + post).last() == post.last());
        assert((x + post).drop_last() =~= x + post.drop_last());
        lemma_trim_right_space_suffix(x, post.drop_last());
    }
}

/// `trim_left` of `t` followed by white space.
proof fn lemma_trim_left_then_space(t: Seq<char>, post: Seq<char>)
    requires
        all_space(post),
    ensures
        trim_left(t).len() > 0 ==> trim_left(t + post) == trim_left(t) + post,
        trim_left(t).len() == 0 ==> trim_left(t + post).len() == 0,
    decreases t.len(),
{
    if t.len() == 0 {
        assert(t + post =~= post + Seq::<char>::empty());
        lemma_trim_left_space_prefix(post, Seq::<char>::empty());
    } else if is_space(t[0]) {
        assert((t + post)[0] == t[0]);
        assert((t + post).drop_first() =~= t.drop_first() + post);
        lemma_trim_left_then_space(t.drop_first(), post);
    } else {
        assert((t + post)[0] == t[0]);
    }
}

/// White space around a text does not change its trimmed form.
pub proof fn lemma_trim_ignores_surrounding_space(pre: Seq<char>, t: Seq<char>, post: Seq<char>)
    requires
        all_space(pre),
        all_space(post),
    ensures
        trim(pre + t + post) == trim(t),
{
    assert(pre + t + post =~= pre + (t + post));
    lemma_trim_left_space_prefix(pre, t + post);
    lemma_trim_left_then_space(t, post);
    if trim_left(t).len() > 0 {
        lemma_trim_right_space_suffix(trim_left(t), post);
    } else {
        assert(trim_left(t + post) =~= Seq::<char>::empty());
        assert(trim_left(t) =~= Seq::<char>::empty());
    }
}

pub proof fn lemma_trim_left_of_right_fixed(s: Seq<char>)
    requires
        s.len() == 0 || !is_space(s.last()),
        s.len() == 0 || !is_space(s[0]),
    ensures
        trim(s) == s,
{
}

pub proof fn lemma_digits_value_step(s: Seq<char>, lo: int, i: int)
    requires
        0 <= lo <= i < s.len(),
    ensures
        digits_value(s.subrange(lo, i + 1)) == digits_value(s.subrange(lo, i)) * 10 + ((
        s[i] as u32 - '0' as u32) as nat),
{
    assert(s.subrange(lo, i + 1).drop_last() =~= s.subrange(lo, i));
}

pub proof fn lemma_digits_value_monotone(s: Seq<char>, n: int)
    requires
        0 <= n <= s.len(),
        all_digits(s),
    ensures
        digits_value(s.subrange(0, n)) <= digits_value(s),
    decreases s.len(),
{
    if n < s.len() {
        assert(s.drop_last() =~= s.subrange(0, s.len() - 1));
        assert(s.drop_last().subrange(0, n) =~= s.subrange(0, n));
        lemma_digits_value_monotone(s.drop_last(), n);
    } else {
        assert(s.subrange(0, n) =~= s);
    }
}

pub proof fn lemma_split_step(s: Seq<char>, c: char, lo: int, i: int)
    requires
        0 <= lo <= i < s.len(),
    ensures
        split(s.subrange(lo, i + 1), c) == (if s[i] == c {
            split(s.subrange(lo, i), c).push(Seq::<char>::empty())
        } else {
            let init = split(s.subrange(lo, i), c);
            init.update(init.len() - 1, init.last().push(s[i]))
        }),
{
    assert(s.subrange(lo, i + 1).drop_last() =~= s.subrange(lo, i));
}

pub proof fn lemma_split_nonempty(s: Seq<char>, c: char)
    ensures
        split(s, c).len() >= 1,
    decreases s.len(),
{
    if s.len() > 0 {
        lemma_split_nonempty(s.drop_last(), c);
    }
}

/// Whether `c` is white space (`char::is_whitespace`).
pub fn is_space_char(c: char) -> (r: bool)
    ensures
        r == is_space(c),
{
    let u = c as u32;
    (0x9 <= u && u <= 0xd) || u == 0x20 || u == 0x85 || u == 0xa0 || u == 0x1680 || (0x2000 <= u
        && u <= 0x200a) || u == 0x2028 || u == 0x2029 || u == 0x202f || u == 0x205f || u == 0x3000
}

/// The characters of a string slice.
pub fn chars_of(s: &str) -> (r: Vec<char>)
    ensures
        r@ == s@,
{
    broadcast use vstd::string::group_string_axioms;

    let mut r: Vec<char> = Vec::new();
    let mut it = s.chars();
    loop
        invariant
            it.obeys_prophetic_iter_laws(),
            r@ + it.remaining() == s@,
        ensures
            r@ == s@,
        decreases s@.len() - r@.len(),
    {
        match it.next() {
            Some(c) => {
                r.push(c);
                assert(r@ + it.remaining() =~= s@);
            },
            None => {
                assert(r@ =~= s@);
                break ;
            },
        }
    }
    r
}

/// First index at or after `i` that holds `c`, or the length of `s` when there is none.
pub open spec fn find_from(s: Seq<char>, c: char, i: int) -> int
    decreases s.len() - i,
{
    if i < 0 || i >= s.len() {
        s.len() as int
    } else if s[i] == c {
        i
    } else {
        find_from(s, c, i + 1)
    }
}

/// Index of the first `c` in `s`, or the length of `s` when `c` does not occur.
pub open spec fn find(s: Seq<char>, c: char) -> int {
    find_from(s, c, 0)
}

/// `str::split_once` on a single character.
pub open spec fn split_once(s: Seq<char>, c: char) -> Option<(Seq<char>, Seq<char>)> {
    let i = find(s, c);
    if i < s.len() {
        Some((s.subrange(0, i), s.subrange(i + 1, s.len() as int)))
    } else {
        None
    }
}

/// The contents of a list of strings.
pub open spec fn strings_view(v: Seq<String>) -> Seq<Seq<char>> {
    v.map_values(|s: String| s@)
}

/// Drops one trailing carriage return.
pub open spec fn strip_cr(s: Seq<char>) -> Seq<char> {
    if s.len() > 0 && s.last() == '\r' {
        s.drop_last()
    } else {
        s
    }
}

/// `str::lines`: the pieces between line feeds, where a line that a line feed ends
/// also loses one carriage return before it, and a last empty piece is not a line.
pub open spec fn lines(s: Seq<char>) -> Seq<Seq<char>> {
    let p = split(s, '\n');
    let n = p.len() as int;
    Seq::new(
        (if p[n - 1].len() == 0 {
            n - 1
        } else {
            n
        }) as nat,
        |k: int|
            if k < n - 1 {
                strip_cr(p[k])
            } else {
                p[k]
            },
    )
}

pub proof fn lemma_find_from_le(s: Seq<char>, c: char, i: int)
    requires
        0 <= i <= s.len(),
    ensures
        i <= find_from(s, c, i) <= s.len(),
        find_from(s, c, i) < s.len() ==> s[find_from(s, c, i)] == c,
        forall|j: int| i <= j < find_from(s, c, i) ==> s[j] != c,
    decreases s.len() - i,
{
    if i < s.len() && s[i] != c {
        lemma_find_from_le(s, c, i + 1);
    }
}

/// The lowercase form of a string, as `str::to_lowercase` gives it.
pub uninterp spec fn spec_to_lowercase(s: Seq<char>) -> Seq<char>;

/// The ASCII lowercase form of a character: `A` to `Z` become `a` to `z`, any other
/// character stays.
pub open spec fn ascii_lower_char(c: char) -> char {
    if 'A' <= c && c <= 'Z' {
        ((c as u32) + 32) as char
    } else {
        c
    }
}

/// Every character of `s` is ASCII.
pub open spec fn all_ascii(s: Seq<char>) -> bool {
    forall|i: int| 0 <= i < s.len() ==> (#[trigger] s[i] as u32) < 128
}

/// Lowercases a string.
///
/// Trusted: `str::to_lowercase`, which maps each character to its lowercase form by the
/// Unicode tables. The result is named by [`spec_to_lowercase`]. Of the tables only the
/// ASCII part is stated: there the mapping is the ASCII one, character for character
/// (Unicode lowercases `A` to `Z` to `a` to `z` and leaves other ASCII characters).
#[verifier::external_body]
pub(crate) fn lowercase(s: &str) -> (r: String)
    ensures
        r@ == spec_to_lowercase(s@),
        all_ascii(s@) ==> r@ == s@.map_values(|c: char| ascii_lower_char(c)),
{
    s.to_lowercase()
}

/// Appends a character to a string.
///
/// Trusted: `String::push`, which std documents as appending the character to the end.
#[verifier::external_body]
pub(crate) fn push_char(s: &mut String, c: char)
    ensures
        final(s)@ == old(s)@.push(c),
{
    s.push(c);
}

/// A new string holding the characters `v[lo..hi]`.
pub fn string_of(v: &Vec<char>, lo: usize, hi: usize) -> (r: String)
    requires
        lo <= hi <= v@.len(),
    ensures
        r@ == v@.subrange(lo as int, hi as int),
{
    let mut r = String::new();
    let mut i = lo;
    while i < hi
        invariant
            lo <= i <= hi <= v@.len(),
            r@ == v@.subrange(lo as int, i as int),
        decreases hi - i,
    {
        push_char(&mut r, v[i]);
        assert(v@.subrange(lo as int, i + 1) =~= v@.subrange(lo as int, i as int).push(v@[i as int]));
        i = i + 1;
    }
    r
}

/// The bounds of `trim(v[lo..hi])` inside `v`.
pub fn trim_range(v: &Vec<char>, lo: usize, hi: usize) -> (r: (usize, usize))
    requires
        lo <= hi <= v@.len(),
    ensures
        lo <= r.0 <= r.1 <= hi,
        v@.subrange(r.0 as int, r.1 as int) == trim(v@.subrange(lo as int, hi as int)),
{
    let mut a = lo;
    while a < hi && is_space_char(v[a])
        invariant
            lo <= a <= hi <= v@.len(),
            trim_left(v@.subrange(lo as int, hi as int)) == trim_left(v@.subrange(a as int, hi as int)),
        decreases hi - a,
    {
        proof {
            lemma_trim_left_step(v@, a as int, hi as int);
        }
        a = a + 1;
    }
    assert(trim_left(v@.subrange(a as int, hi as int)) == v@.subrange(a as int, hi as int)) by {
        if a < hi {
            assert(v@.subrange(a as int, hi as int)[0] == v@[a as int]);
        }
    }
    let mut b = hi;
    while b > a && is_space_char(v[b - 1])
        invariant
            lo <= a <= b <= hi <= v@.len(),
            trim_right(v@.subrange(a as int, hi as int)) == trim_right(v@.subrange(a as int, b as int)),
        decreases b - a,
    {
        proof {
            lemma_trim_right_step(v@, a as int, b as int);
        }
        b = b - 1;
    }
    assert(trim_right(v@.subrange(a as int, b as int)) == v@.subrange(a as int, b as int)) by {
        if a < b {
            assert(v@.subrange(a as int, b as int).last() == v@[b - 1]);
        }
    }
    (a, b)
}

/// Whether `v[lo..hi]` equals `w[wlo..whi]`.
pub fn ranges_eq(v: &Vec<char>, lo: usize, hi: usize, w: &Vec<char>, wlo: usize, whi: usize) -> (r:
    bool)
    requires
        lo <= hi <= v@.len(),
        wlo <= whi <= w@.len(),
    ensures
        r == (v@.subrange(lo as int, hi as int) == w@.subrange(wlo as int, whi as int)),
{
    let ghost sv = v@.subrange(lo as int, hi as int);
    let ghost sw = w@.subrange(wlo as int, whi as int);
    if hi - lo != whi - wlo {
        assert(sv.len() != sw.len());
        return false;
    }
    let n = hi - lo;
    let mut i: usize = 0;
    while i < n
        invariant
            lo <= hi <= v@.len(),
            wlo <= whi <= w@.len(),
            sv == v@.subrange(lo as int, hi as int),
            sw == w@.subrange(wlo as int, whi as int),
            n == hi - lo,
            n == whi - wlo,
            i <= n,
            forall|j: int| 0 <= j < i ==> #[trigger] sv[j] == sw[j],
        decreases n - i,
    {
        if v[lo + i] != w[wlo + i] {
            assert(sv[i as int] != sw[i as int]);
            return false;
        }
        assert(sv[i as int] == sw[i as int]);
        i = i + 1;
    }
    assert(sv =~= sw);
    true
}

/// Whether two strings are equal.
pub fn str_eq(a: &str, b: &str) -> (r: bool)
    ensures
        r == (a@ == b@),
{
    let v = chars_of(a);
    let w = chars_of(b);
    assert(v@.subrange(0, v@.len() as int) =~= v@);
    assert(w@.subrange(0, w@.len() as int) =~= w@);
    ranges_eq(&v, 0, v.len(), &w, 0, w.len())
}

/// Whether `v[lo..hi]` equals `p`.
pub fn range_eq(v: &Vec<char>, lo: usize, hi: usize, p: &Vec<char>) -> (r: bool)
    requires
        lo <= hi <= v@.len(),
    ensures
        r == (v@.subrange(lo as int, hi as int) == p@),
{
    assert(p@.subrange(0, p@.len() as int) =~= p@);
    ranges_eq(v, lo, hi, p, 0, p.len())
}

/// Whether `p` occurs in `v[lo..hi]` at offset `k`.
fn occurs_at_range(v: &Vec<char>, lo: usize, hi: usize, p: &Vec<char>, k: usize) -> (r: bool)
    requires
        lo <= hi <= v@.len(),
        k + p@.len() <= hi - lo,
    ensures
        r == occurs_at(v@.subrange(lo as int, hi as int), p@, k as int),
{
    let r = range_eq(v, lo + k, lo + k + p.len(), p);
    assert(v@.subrange(lo as int, hi as int).subrange(k as int, k + p@.len()) =~= v@.subrange(
        lo + k,
        lo + k + p@.len(),
    ));
    r
}

/// Whether `p` occurs in `v[lo..hi]`.
pub fn range_contains(v: &Vec<char>, lo: usize, hi: usize, p: &Vec<char>) -> (r: bool)
    requires
        lo <= hi <= v@.len(),
    ensures
        r == contains(v@.subrange(lo as int, hi as int), p@),
{
    let ghost s = v@.subrange(lo as int, hi as int);
    if p.len() > hi - lo {
        assert forall|i: int| !occurs_at(s, p@, i) by {}
        return false;
    }
    if p.len() == 0 {
        assert(occurs_at(s, p@, 0)) by {
            assert(s.subrange(0, 0) =~= p@);
        }
        return true;
    }
    let last = hi - lo - p.len();
    let mut k: usize = 0;
    while k <= last
        invariant
            lo <= hi <= v@.len(),
            last == hi - lo - p@.len(),
            p@.len() >= 1,
            s == v@.subrange(lo as int, hi as int),
            forall|i: int| 0 <= i < k ==> !occurs_at(s, p@, i),
        decreases last + 1 - k,
    {
        if occurs_at_range(v, lo, hi, p, k) {
            return true;
        }
        k = k + 1;
    }
    assert forall|i: int| !occurs_at(s, p@, i) by {
        if 0 <= i < k {
        }
    }
    false
}

/// Whether `v[lo..hi]` starts with `p`.
pub fn range_starts_with(v: &Vec<char>, lo: usize, hi: usize, p: &Vec<char>) -> (r: bool)
    requires
        lo <= hi <= v@.len(),
    ensures
        r == starts_with(v@.subrange(lo as int, hi as int), p@),
{
    if p.len() > hi - lo {
        return false;
    }
    occurs_at_range(v, lo, hi, p, 0)
}

/// Whether `v[lo..hi]` ends with `p`.
pub fn range_ends_with(v: &Vec<char>, lo: usize, hi: usize, p: &Vec<char>) -> (r: bool)
    requires
        lo <= hi <= v@.len(),
    ensures
        r == ends_with(v@.subrange(lo as int, hi as int), p@),
{
    if p.len() > hi - lo {
        return false;
    }
    occurs_at_range(v, lo, hi, p, hi - lo - p.len())
}

/// Index of the first `c` in `v[lo..hi]`, counted from `lo`; the length of the range
/// when `c` does not occur.
pub fn range_find(v: &Vec<char>, lo: usize, hi: usize, c: char) -> (r: usize)
    requires
        lo <= hi <= v@.len(),
    ensures
        r == find(v@.subrange(lo as int, hi as int), c),
        r <= hi - lo,
{
    let ghost s = v@.subrange(lo as int, hi as int);
    let mut i: usize = 0;
    while i < hi - lo && v[lo + i] != c
        invariant
            lo <= hi <= v@.len(),
            i <= hi - lo,
            s == v@.subrange(lo as int, hi as int),
            find(s, c) == find_from(s, c, i as int),
        decreases hi - lo - i,
    {
        assert(s[i as int] == v@[lo + i]);
        i = i + 1;
    }
    if i < hi - lo {
        assert(s[i as int] == c);
    }
    i
}

/// Whether the character `c` occurs in `v[lo..hi]`.
pub fn range_has_char(v: &Vec<char>, lo: usize, hi: usize, c: char) -> (r: bool)
    requires
        lo <= hi <= v@.len(),
    ensures
        r == v@.subrange(lo as int, hi as int).contains(c),
        r == (find(v@.subrange(lo as int, hi as int), c) < hi - lo),
{
    let i = range_find(v, lo, hi, c);
    proof {
        let s = v@.subrange(lo as int, hi as int);
        lemma_find_from_le(s, c, 0);
        if i < hi - lo {
            assert(s[i as int] == c);
        } else {
            assert forall|j: int| 0 <= j < s.len() implies s[j] != c by {}
        }
    }
    i < hi - lo
}

/// The bounds of the pieces of `v[lo..hi]` split at `c`, in order.
pub fn split_range(v: &Vec<char>, lo: usize, hi: usize, c: char) -> (r: Vec<(usize, usize)>)
    requires
        lo <= hi <= v@.len(),
    ensures
        r@.len() == split(v@.subrange(lo as int, hi as int), c).len(),
        forall|k: int|
            0 <= k < r@.len() ==> lo <= (#[trigger] r@[k]).0 <= r@[k].1 <= hi && v@.subrange(
                r@[k].0 as int,
                r@[k].1 as int,
            ) == split(v@.subrange(lo as int, hi as int), c)[k],
{
    let mut r: Vec<(usize, usize)> = Vec::new();
    let mut start = lo;
    let mut i = lo;
    assert(v@.subrange(lo as int, lo as int) =~= Seq::<char>::empty());
    while i < hi
        invariant
            lo <= start <= i <= hi <= v@.len(),
            split(v@.subrange(lo as int, i as int), c).len() == r@.len() + 1,
            split(v@.subrange(lo as int, i as int), c).last() == v@.subrange(start as int, i as int),
            forall|k: int|
                0 <= k < r@.len() ==> lo <= (#[trigger] r@[k]).0 <= r@[k].1 <= i && v@.subrange(
                    r@[k].0 as int,
                    r@[k].1 as int,
                ) == split(v@.subrange(lo as int, i as int), c)[k],
        decreases hi - i,
    {
        proof {
            lemma_split_step(v@, c, lo as int, i as int);
        }
        if v[i] == c {
            r.push((start, i));
            assert(v@.subrange(i + 1, i + 1) =~= Seq::<char>::empty());
            start = i + 1;
        } else {
            assert(v@.subrange(start as int, i + 1) =~= v@.subrange(start as int, i as int).push(
                v@[i as int],
            ));
        }
        i = i + 1;
    }
    r.push((start, hi));
    r
}

/// `str::split_once` on a character, as bounds inside `v`: the part before the first
/// `c` and the part after it.
pub fn range_split_once(v: &Vec<char>, lo: usize, hi: usize, c: char) -> (r: Option<
    ((usize, usize), (usize, usize)),
>)
    requires
        lo <= hi <= v@.len(),
    ensures
        match (r, split_once(v@.subrange(lo as int, hi as int), c)) {
            (Some((a, b)), Some((x, y))) => lo <= a.0 <= a.1 <= hi && lo <= b.0 <= b.1 <= hi
                && v@.subrange(a.0 as int, a.1 as int) == x && v@.subrange(b.0 as int, b.1 as int)
                == y,
            (None, None) => true,
            _ => false,
        },
{
    let i = range_find(v, lo, hi, c);
    if i < hi - lo {
        assert(v@.subrange(lo as int, hi as int).subrange(0, i as int) =~= v@.subrange(
            lo as int,
            lo + i,
        ));
        assert(v@.subrange(lo as int, hi as int).subrange(i + 1, hi - lo) =~= v@.subrange(
            lo + i + 1,
            hi as int,
        ));
        Some(((lo, lo + i), (lo + i + 1, hi)))
    } else {
        None
    }
}

/// `str::parse` for an unsigned type with largest value `max`, applied to `v[lo..hi]`.
/// The running value is kept at most `max` and grows by one digit at a time, so `max`
/// is bounded well below `u32::MAX / 10`; the types read here (`u8`, `u16`) lie far
/// inside that bound.
pub fn parse_unsigned_range(v: &Vec<char>, lo: usize, hi: usize, max: u32) -> (r: Option<u32>)
    requires
        lo <= hi <= v@.len(),
        max <= 100_000_000u32,
    ensures
        match parse_unsigned(v@.subrange(lo as int, hi as int), max as nat) {
            Some(n) => r == Some(n as u32),
            None => r is None,
        },
{
    let ghost s = v@.subrange(lo as int, hi as int);
    let mut d = lo;
    if lo < hi && v[lo] == '+' {
        d = lo + 1;
    }
    assert(unsigned_digits(s) =~= v@.subrange(d as int, hi as int));
    if d == hi {
        return None;
    }
    let ghost ds = v@.subrange(d as int, hi as int);
    let mut acc: u32 = 0;
    let mut i = d;
    assert(v@.subrange(d as int, d as int) =~= Seq::<char>::empty());
    while i < hi
        invariant
            lo <= d <= i <= hi <= v@.len(),
            ds == v@.subrange(d as int, hi as int),
            unsigned_digits(v@.subrange(lo as int, hi as int)) == ds,
            ds.len() > 0,
            max <= 100_000_000u32,
            all_digits(v@.subrange(d as int, i as int)),
            acc as nat == digits_value(v@.subrange(d as int, i as int)),
            acc <= max,
        decreases hi - i,
    {
        let c = v[i];
        if !('0' <= c && c <= '9') {
            assert(!is_digit(ds[i - d]));
            return None;
        }
        proof {
            lemma_digits_value_step(v@, d as int, i as int);
        }
        acc = acc * 10 + (c as u32 - '0' as u32);
        assert(all_digits(v@.subrange(d as int, i + 1))) by {
            assert forall|j: int| 0 <= j < i + 1 - d implies is_digit(
                #[trigger] v@.subrange(d as int, i + 1)[j],
            ) by {
                if j < i - d {
                    assert(v@.subrange(d as int, i + 1)[j] == v@.subrange(d as int, i as int)[j]);
                }
            }
        }
        if acc > max {
            proof {
                if all_digits(ds) {
                    assert(ds.subrange(0, i + 1 - d) =~= v@.subrange(d as int, i + 1));
                    lemma_digits_value_monotone(ds, i + 1 - d);
                }
            }
            return None;
        }
        i = i + 1;
    }
    Some(acc)
}

/// `trimmed` read as `key: value` (or with a full-width colon when there is no `:`),
/// both sides trimmed.
pub open spec fn key_value_trimmed(trimmed: Seq<char>) -> Option<(Seq<char>, Seq<char>)> {
    match split_once(trimmed, ':') {
        Some((k, v)) => Some((trim(k), trim(v))),
        None => match split_once(trimmed, '：') {
            Some((k, v)) => Some((trim(k), trim(v))),
            None => None,
        },
    }
}

/// A line read as `key: value`, after trimming it.
pub open spec fn key_value(line: Seq<char>) -> Option<(Seq<char>, Seq<char>)> {
    key_value_trimmed(trim(line))
}

/// The character of a decimal digit.
pub open spec fn digit_char(d: nat) -> char {
    ('0' as u32 + d) as char
}

/// The decimal representation of `n` (`Display` of an unsigned integer).
pub open spec fn dec(n: nat) -> Seq<char>
    decreases n,
{
    if n < 10 {
        seq![digit_char(n)]
    } else {
        dec(n / 10).push(digit_char(n % 10))
    }
}

/// The line bounds of `v`, as `str::lines` gives them.
pub fn line_ranges(v: &Vec<char>) -> (r: Vec<(usize, usize)>)
    ensures
        r@.len() == lines(v@).len(),
        forall|k: int|
            0 <= k < r@.len() ==> (#[trigger] r@[k]).0 <= r@[k].1 <= v@.len() && v@.subrange(
                r@[k].0 as int,
                r@[k].1 as int,
            ) == lines(v@)[k],
{
    assert(v@.subrange(0, v@.len() as int) =~= v@);
    let pieces = split_range(v, 0, v.len(), '\n');
    proof {
        lemma_split_nonempty(v@, '\n');
    }
    let ghost p = split(v@, '\n');
    let n = pieces.len();
    let (la, lb) = pieces[n - 1];
    let count = if la == lb {
        n - 1
    } else {
        n
    };
    let mut r: Vec<(usize, usize)> = Vec::new();
    let mut k: usize = 0;
    while k < count
        invariant
            k <= count,
            count <= n,
            n == pieces@.len(),
            n == p.len(),
            p == split(v@, '\n'),
            count == lines(v@).len(),
            forall|j: int|
                0 <= j < pieces@.len() ==> (#[trigger] pieces@[j]).0 <= pieces@[j].1 <= v@.len()
                    && v@.subrange(pieces@[j].0 as int, pieces@[j].1 as int) == p[j],
            r@.len() == k,
            forall|j: int|
                0 <= j < k ==> (#[trigger] r@[j]).0 <= r@[j].1 <= v@.len() && v@.subrange(
                    r@[j].0 as int,
                    r@[j].1 as int,
                ) == lines(v@)[j],
        decreases count - k,
    {
        let (a, b) = pieces[k];
        if k + 1 < n && a < b && v[b - 1] == '\r' {
            assert(v@.subrange(a as int, b - 1) =~= v@.subrange(a as int, b as int).drop_last());
            r.push((a, b - 1));
        } else {
            r.push((a, b));
        }
        k = k + 1;
    }
    r
}

/// The bounds of `key` and `value` when the trimmed text `v[lo..hi]` reads as `key: value`.
pub fn key_value_range(v: &Vec<char>, lo: usize, hi: usize) -> (r: Option<
    ((usize, usize), (usize, usize)),
>)
    requires
        lo <= hi <= v@.len(),
    ensures
        match (r, key_value_trimmed(v@.subrange(lo as int, hi as int))) {
            (Some((a, b)), Some((k, x))) => a.0 <= a.1 <= v@.len() && b.0 <= b.1 <= v@.len()
                && v@.subrange(a.0 as int, a.1 as int) == k && v@.subrange(b.0 as int, b.1 as int)
                == x,
            (None, None) => true,
            _ => false,
        },
{
    let parts = match range_split_once(v, lo, hi, ':') {
        Some(p) => p,
        None => match range_split_once(v, lo, hi, '：') {
            Some(p) => p,
            None => return None,
        },
    };
    let ((ka, kb), (va, vb)) = parts;
    let key = trim_range(v, ka, kb);
    let value = trim_range(v, va, vb);
    Some((key, value))
}

/// Whether the literal `lit` occurs in `v`.
pub fn contains_lit(v: &Vec<char>, lit: &str) -> (r: bool)
    ensures
        r == contains(v@, lit@),
{
    let p = chars_of(lit);
    assert(v@.subrange(0, v@.len() as int) =~= v@);
    range_contains(v, 0, v.len(), &p)
}

/// Whether `v` equals the literal `lit`.
pub fn eq_lit(v: &Vec<char>, lit: &str) -> (r: bool)
    ensures
        r == (v@ == lit@),
{
    let p = chars_of(lit);
    assert(v@.subrange(0, v@.len() as int) =~= v@);
    range_eq(v, 0, v.len(), &p)
}

/// The lowercase form of `v[lo..hi]`, as characters.
pub fn lowercase_range(v: &Vec<char>, lo: usize, hi: usize) -> (r: Vec<char>)
    requires
        lo <= hi <= v@.len(),
    ensures
        r@ == spec_to_lowercase(v@.subrange(lo as int, hi as int)),
{
    let s = string_of(v, lo, hi);
    let l = lowercase(s.as_str());
    chars_of(l.as_str())
}

fn digit(d: u64) -> (c: char)
    requires
        d < 10,
    ensures
        c == digit_char(d as nat),
{
    match d {
        0 => '0',
        1 => '1',
        2 => '2',
        3 => '3',
        4 => '4',
        5 => '5',
        6 => '6',
        7 => '7',
        8 => '8',
        _ => '9',
    }
}

/// Appends the decimal representation of `n`.
pub fn push_decimal(s: &mut String, n: u64)
    ensures
        final(s)@ == old(s)@ + dec(n as nat),
    decreases n,
{
    if n >= 10 {
        push_decimal(s, n / 10);
    }
    push_char(s, digit(n % 10));
    assert(final(s)@ =~= old(s)@ + dec(n as nat));
}

/// `prefix` followed by `rest`.
pub fn concat(prefix: &str, rest: &str) -> (r: String)
    ensures
        r@ == prefix@ + rest@,
{
    let mut s = String::from_str(prefix);
    s.append(rest);
    s
}

/// The pieces joined by `sep`.
pub open spec fn join(pieces: Seq<Seq<char>>, sep: Seq<char>) -> Seq<char>
    decreases pieces.len(),
{
    if pieces.len() == 0 {
        Seq::empty()
    } else if pieces.len() == 1 {
        pieces[0]
    } else {
        join(pieces.drop_last(), sep) + sep + pieces.last()
    }
}

/// The strings joined by `sep` (`[String]::join`).
pub fn join_strings(pieces: &[String], sep: &str) -> (r: String)
    ensures
        r@ == join(strings_view(pieces@), sep@),
{
    let ghost pv = strings_view(pieces@);
    let mut r = String::new();
    let mut i: usize = 0;
    while i < pieces.len()
        invariant
            i <= pieces@.len(),
            pv == strings_view(pieces@),
            r@ == join(pv.take(i as int), sep@),
        decreases pieces@.len() - i,
    {
        let ghost before = r@;
        assert(pv.take(i + 1).drop_last() =~= pv.take(i as int));
        assert(pv.take(i + 1).last() == pieces@[i as int]@);
        if i > 0 {
            r.append(sep);
        }
        r.append(pieces[i].as_str());
        proof {
            if i == 0 {
                assert(before =~= Seq::<char>::empty());
                assert(r@ =~= pieces@[0]@);
            } else {
                assert(r@ =~= before + sep@ + pieces@[i as int]@);
            }
        }
        i = i + 1;
    }
    assert(pv.take(i as int) =~= pv);
    r
}

/// `str::parse::<u16>`.
pub fn parse_u16_str(s: &str) -> (r: Option<u16>)
    ensures
        r == parse_u16(s@),
{
    let v = chars_of(s);
    assert(v@.subrange(0, v@.len() as int) =~= v@);
    match parse_unsigned_range(&v, 0, v.len(), 65535) {
        Some(p) => Some(p as u16),
        None => None,
    }
}

/// Appends the decimal representation of `n`.
pub fn push_usize(s: &mut String, n: usize)
    ensures
        final(s)@ == old(s)@ + dec(n as nat),
{
    push_decimal(s, n as u64);
}

/// `str::parse::<usize>` applied to `v[lo..hi]`.
pub fn parse_usize_range(v: &Vec<char>, lo: usize, hi: usize) -> (r: Option<usize>)
    requires
        lo <= hi <= v@.len(),
    ensures
        match parse_unsigned(v@.subrange(lo as int, hi as int), usize::MAX as nat) {
            Some(n) => r == Some(n as usize),
            None => r is None,
        },
{
    let ghost s = v@.subrange(lo as int, hi as int);
    let mut d = lo;
    if lo < hi && v[lo] == '+' {
        d = lo + 1;
    }
    assert(unsigned_digits(s) =~= v@.subrange(d as int, hi as int));
    if d == hi {
        return None;
    }
    let ghost ds = v@.subrange(d as int, hi as int);
    let max: u128 = usize::MAX as u128;
    let mut acc: u128 = 0;
    let mut i = d;
    assert(v@.subrange(d as int, d as int) =~= Seq::<char>::empty());
    while i < hi
        invariant
            lo <= d <= i <= hi <= v@.len(),
            ds == v@.subrange(d as int, hi as int),
            unsigned_digits(v@.subrange(lo as int, hi as int)) == ds,
            ds.len() > 0,
            max == usize::MAX,
            all_digits(v@.subrange(d as int, i as int)),
            acc as nat == digits_value(v@.subrange(d as int, i as int)),
            acc <= max,
        decreases hi - i,
    {
        let c = v[i];
        if !('0' <= c && c <= '9') {
            assert(!is_digit(ds[i - d]));
            return None;
        }
        proof {
            lemma_digits_value_step(v@, d as int, i as int);
        }
        acc = acc * 10 + (c as u32 - '0' as u32) as u128;
        assert(all_digits(v@.subrange(d as int, i + 1))) by {
            assert forall|j: int| 0 <= j < i + 1 - d implies is_digit(
                #[trigger] v@.subrange(d as int, i + 1)[j],
            ) by {
                if j < i - d {
                    assert(v@.subrange(d as int, i + 1)[j] == v@.subrange(d as int, i as int)[j]);
                }
            }
        }
        if acc > max {
            proof {
                if all_digits(ds) {
                    assert(ds.subrange(0, i + 1 - d) =~= v@.subrange(d as int, i + 1));
                    lemma_digits_value_monotone(ds, i + 1 - d);
                }
            }
            return None;
        }
        i = i + 1;
    }
    Some(acc as usize)
}

/// `str::find` with a string pattern, from index `i` on: the first index where `p`
/// occurs, when there is one.
pub open spec fn find_sub_from(s: Seq<char>, p: Seq<char>, i: int) -> Option<int>
    decreases s.len() + 1 - i,
{
    if i < 0 || i + p.len() > s.len() {
        None
    } else if occurs_at(s, p, i) {
        Some(i)
    } else {
        find_sub_from(s, p, i + 1)
    }
}

pub proof fn lemma_find_sub_from(s: Seq<char>, p: Seq<char>, i: int)
    ensures
        find_sub_from(s, p, i) matches Some(j) ==> i <= j && occurs_at(s, p, j),
    decreases s.len() + 1 - i,
{
    if !(i < 0 || i + p.len() > s.len()) && !occurs_at(s, p, i) {
        lemma_find_sub_from(s, p, i + 1);
    }
}

/// `str::find` with a string pattern, applied to `v[lo..hi]`.
pub fn range_find_sub(v: &Vec<char>, lo: usize, hi: usize, p: &Vec<char>) -> (r: Option<usize>)
    requires
        lo <= hi <= v@.len(),
    ensures
        match find_sub_from(v@.subrange(lo as int, hi as int), p@, 0) {
            Some(i) => r == Some(i as usize),
            None => r is None,
        },
{
    let ghost s = v@.subrange(lo as int, hi as int);
    if p.len() > hi - lo {
        return None;
    }
    let last = hi - lo - p.len();
    let mut k: usize = 0;
    loop
        invariant
            lo <= hi <= v@.len(),
            last == hi - lo - p@.len(),
            k <= last,
            s == v@.subrange(lo as int, hi as int),
            find_sub_from(s, p@, 0) == find_sub_from(s, p@, k as int),
        decreases last - k,
    {
        if occurs_at_range(v, lo, hi, p, k) {
            return Some(k);
        }
        if k == last {
            assert(find_sub_from(s, p@, k + 1) is None);
            return None;
        }
        k = k + 1;
    }
}

} // verus!
