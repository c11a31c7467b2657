//! Text operations on strings, by their characters.
use vstd::prelude::*;
use vstd::string::*;

verus! {

/// The characters with the Unicode property White_Space (what `char::is_whitespace` tests).
pub open spec fn is_white_space(c: char) -> bool {
    let n = c as u32;
    ||| 0x9 <= n <= 0xd
    ||| n == 0x20
    ||| n == 0x85
    ||| n == 0xa0
    ||| n == 0x1680
    ||| 0x2000 <= n <= 0x200a
    ||| n == 0x2028
    ||| n == 0x2029
    ||| n == 0x202f
    ||| n == 0x205f
    ||| n == 0x3000
}

/// The position of the first character at or after `i` that `strip` does not hold of.
pub open spec fn first_kept(s: Seq<char>, i: int, strip: spec_fn(char) -> bool) -> int
    decreases s.len() - i,
{
    if i < 0 || i >= s.len() {
        s.len() as int
    } else if strip(s[i]) {
        first_kept(s, i + 1, strip)
    } else {
        i
    }
}

/// One past the last character before `j` that `strip` does not hold of.
pub open spec fn last_kept(s: Seq<char>, j: int, strip: spec_fn(char) -> bool) -> int
    decreases j,
{
    if j <= 0 || j > s.len() {
        0
    } else if strip(s[j - 1]) {
        last_kept(s, j - 1, strip)
    } else {
        j
    }
}

/// `s` without the leading characters that `strip` holds of.
pub open spec fn trim_start_by(s: Seq<char>, strip: spec_fn(char) -> bool) -> Seq<char> {
    s.skip(first_kept(s, 0, strip))
}

/// `s` without the trailing characters that `strip` holds of.
pub open spec fn trim_end_by(s: Seq<char>, strip: spec_fn(char) -> bool) -> Seq<char> {
    s.take(last_kept(s, s.len() as int, strip))
}

/// The test for white space, as a predicate.
pub open spec fn white_space_pred() -> spec_fn(char) -> bool {
    |c: char| is_white_space(c)
}

/// The test for one character, as a predicate.
pub open spec fn char_pred(c: char) -> spec_fn(char) -> bool {
    |x: char| x == c
}

/// `str::trim`: leading and trailing white space removed.
pub open spec fn trim_ws(s: Seq<char>) -> Seq<char> {
    trim_end_by(trim_start_by(s, white_space_pred()), white_space_pred())
}

/// `str::trim_start_matches` with one character.
pub open spec fn trim_start_char(s: Seq<char>, c: char) -> Seq<char> {
    trim_start_by(s, char_pred(c))
}

/// `str::trim_end_matches` with one character.
pub open spec fn trim_end_char(s: Seq<char>, c: char) -> Seq<char> {
    trim_end_by(s, char_pred(c))
}

/// `str::trim_end_matches` with a string: the suffix `pat` is removed as often
/// as it ends the string.
pub open spec fn trim_end_str(s: Seq<char>, pat: Seq<char>) -> Seq<char>
    decreases s.len(),
{
    if 0 < pat.len() <= s.len() && s.subrange(s.len() - pat.len(), s.len() as int) == pat {
        trim_end_str(s.take(s.len() - pat.len()), pat)
    } else {
        s
    }
}

proof fn lemma_first_kept_bounds(s: Seq<char>, i: int, strip: spec_fn(char) -> bool)
    requires
        0 <= i <= s.len(),
    ensures
        i <= first_kept(s, i, strip) <= s.len(),
    decreases s.len() - i,
{
    if i < s.len() && strip(s[i]) {
        lemma_first_kept_bounds(s, i + 1, strip);
    }
}

proof fn lemma_last_kept_bounds(s: Seq<char>, j: int, strip: spec_fn(char) -> bool)
    requires
        0 <= j <= s.len(),
    ensures
        0 <= last_kept(s, j, strip) <= j,
    decreases j,
{
    if j > 0 && strip(s[j - 1]) {
        lemma_last_kept_bounds(s, j - 1, strip);
    }
}

/// The text of `s` from character `from` up to character `to`.
pub fn slice_chars(s: &str, from: usize, to: usize) -> (r: String)
    requires
        from <= to <= s@.len(),
    ensures
        r@ == s@.subrange(from as int, to as int),
{
    s.substring_char(from, to).to_owned()
}

/// `a` followed by `b`.
pub fn concat(a: &str, b: &str) -> (r: String)
    ensures
        r@ == a@ + b@,
{
    let mut r = a.to_owned();
    r.append(b);
    r
}

/// Whether `c` is white space.
pub fn char_is_white_space(c: char) -> (r: bool)
    ensures
        r == is_white_space(c),
{
    let n = c as u32;
    (0x9 <= n && n <= 0xd) || n == 0x20 || n == 0x85 || n == 0xa0 || n == 0x1680 || (0x2000 <= n
        && n <= 0x200a) || n == 0x2028 || n == 0x2029 || n == 0x202f || n == 0x205f || n == 0x3000
}

/// `s.trim()`: leading and trailing white space removed.
pub fn trim(s: &str) -> (r: String)
    ensures
        r@ == trim_ws(s@),
{
    let ghost ws = white_space_pred();
    let n = s.unicode_len();
    let mut a: usize = 0;
    while a < n && char_is_white_space(s.get_char(a))
        invariant
            a <= n,
            n == s@.len(),
            ws == white_space_pred(),
            first_kept(s@, 0, ws) == first_kept(s@, a as int, ws),
        decreases n - a,
    {
        a = a + 1;
    }
    let ghost t = s@.skip(a as int);
    assert(first_kept(s@, a as int, ws) == a);
    let mut b: usize = n;
    while b > a && char_is_white_space(s.get_char(b - 1))
        invariant
            a <= b <= n,
            n == s@.len(),
            t == s@.skip(a as int),
            ws == white_space_pred(),
            last_kept(t, t.len() as int, ws) == last_kept(t, b - a, ws),
        decreases b,
    {
        assert(t[b - a - 1] == s@[b - 1]);
        b = b - 1;
    }
    proof {
        if b > a {
            assert(t[b - a - 1] == s@[b - 1]);
        }
        assert(last_kept(t, b - a, ws) == b - a);
        assert(trim_ws(s@) == t.take(b - a));
        assert(t.take(b - a) =~= s@.subrange(a as int, b as int));
    }
    slice_chars(s, a, b)
}

/// `s.trim_start_matches(c)`: the leading copies of `c` removed.
pub fn trim_start_matches(s: &str, c: char) -> (r: String)
    ensures
        r@ == trim_start_char(s@, c),
{
    let ghost p = char_pred(c);
    let n = s.unicode_len();
    let mut a: usize = 0;
    while a < n && s.get_char(a) == c
        invariant
            a <= n,
            n == s@.len(),
            p == char_pred(c),
            first_kept(s@, 0, p) == first_kept(s@, a as int, p),
        decreases n - a,
    {
        a = a + 1;
    }
    assert(first_kept(s@, a as int, p) == a);
    assert(s@.skip(a as int) =~= s@.subrange(a as int, n as int));
    slice_chars(s, a, n)
}

/// `s.trim_end_matches(c)`: the trailing copies of `c` removed.
pub fn trim_end_matches(s: &str, c: char) -> (r: String)
    ensures
        r@ == trim_end_char(s@, c),
{
    let ghost p = char_pred(c);
    let n = s.unicode_len();
    let mut b: usize = n;
    while b > 0 && s.get_char(b - 1) == c
        invariant
            b <= n,
            n == s@.len(),
            p == char_pred(c),
            last_kept(s@, n as int, p) == last_kept(s@, b as int, p),
        decreases b,
    {
        b = b - 1;
    }
    assert(last_kept(s@, b as int, p) == b);
    assert(s@.take(b as int) =~= s@.subrange(0, b as int));
    slice_chars(s, 0, b)
}

/// Whether the characters of `s` from `start` spell `pat`.
fn matches_at(s: &str, start: usize, pat: &str) -> (r: bool)
    requires
        start + pat@.len() <= s@.len() <= usize::MAX,
    ensures
        r == (s@.subrange(start as int, start + pat@.len()) == pat@),
{
    let m = pat.unicode_len();
    let mut k: usize = 0;
    while k < m
        invariant
            k <= m,
            m == pat@.len(),
            start + m <= s@.len() <= usize::MAX,
            forall|j: int| 0 <= j < k ==> s@[start + j] == pat@[j],
        decreases m - k,
    {
        if s.get_char(start + k) != pat.get_char(k) {
            assert(s@.subrange(start as int, start + m)[k as int] != pat@[k as int]);
            return false;
        }
        k = k + 1;
    }
    assert(s@.subrange(start as int, start + m) =~= pat@);
    true
}

/// `s.trim_end_matches(pat)`: the suffix `pat` removed as often as it ends `s`.
pub fn trim_end_matches_str(s: &str, pat: &str) -> (r: String)
    ensures
        r@ == trim_end_str(s@, pat@),
{
    let n = s.unicode_len();
    let m = pat.unicode_len();
    let mut b: usize = n;
    assert(s@.take(n as int) =~= s@);
    while m > 0 && m <= b && matches_at(s, b - m, pat)
        invariant
            b <= n,
            n == s@.len(),
            m == pat@.len(),
            trim_end_str(s@, pat@) == trim_end_str(s@.take(b as int), pat@),
        decreases b,
    {
        let ghost t = s@.take(b as int);
        assert(t.subrange(t.len() - m, t.len() as int) =~= s@.subrange(b - m, b as int));
        assert(t.take(t.len() - m) =~= s@.take(b - m));
        b = b - m;
    }
    proof {
        let t = s@.take(b as int);
        if 0 < m <= b {
            assert(t.subrange(t.len() - m, t.len() as int) =~= s@.subrange(b - m, b as int));
        }
        assert(trim_end_str(t, pat@) == t);
        assert(t =~= s@.subrange(0, b as int));
    }
    slice_chars(s, 0, b)
}

} // verus!
