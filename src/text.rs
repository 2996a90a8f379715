//! Character-level helpers over `str`, each proved against its spec.

use vstd::prelude::*;
use vstd::string::*;

verus! {

/// `c` mapped to its ASCII upper-case form; other characters are kept.
pub open spec fn upper_char(c: char) -> char {
    if 'a' <= c <= 'z' {
        ((c as u32 - 32) as u8) as char
    } else {
        c
    }
}

/// `s` with each ASCII letter in upper case.
pub open spec fn upper(s: Seq<char>) -> Seq<char> {
    s.map_values(|c: char| upper_char(c))
}

/// `needle` occurs in `hay` starting at `i`.
pub open spec fn occurs_at(hay: Seq<char>, needle: Seq<char>, i: int) -> bool {
    0 <= i && i + needle.len() <= hay.len() && hay.subrange(i, i + needle.len()) == needle
}

/// `needle` occurs somewhere in `hay`.
pub open spec fn contains(hay: Seq<char>, needle: Seq<char>) -> bool {
    exists|i: int| occurs_at(hay, needle, i)
}

/// The first position at or after `i` where `s` holds `x`.
pub open spec fn first_char(s: Seq<char>, x: char, i: int) -> Option<int>
    decreases s.len() - i,
{
    if i < 0 || i >= s.len() {
        None
    } else if s[i] == x {
        Some(i)
    } else {
        first_char(s, x, i + 1)
    }
}

/// A position found by `first_char` holds `x` and lies within `s`, and no
/// earlier one from `i` on does.
pub proof fn lemma_first_char(s: Seq<char>, x: char, i: int)
    requires
        0 <= i,
    ensures
        first_char(s, x, i) matches Some(c) ==> i <= c < s.len() && s[c] == x,
        first_char(s, x, i) matches Some(c) ==> forall|j: int| i <= j < c ==> s[j] != x,
        first_char(s, x, i) is None ==> forall|j: int| i <= j < s.len() ==> s[j] != x,
    decreases s.len() - i,
{
    if 0 <= i < s.len() && s[i] != x {
        lemma_first_char(s, x, i + 1);
    }
}

/// The ASCII digit of `d`.
pub open spec fn digit_char(d: nat) -> char {
    ((48 + d) as u8) as char
}

/// The decimal numeral of `n`, without leading zeros.
pub open spec fn decimal(n: nat) -> Seq<char>
    decreases n,
{
    if n < 10 {
        seq![digit_char(n)]
    } else {
        decimal(n / 10).push(digit_char(n % 10))
    }
}

/// Relies on the `Display` of `u64`: the decimal numeral of the value.
#[verifier::external_body]
pub(crate) fn u64_decimal(n: u64) -> (r: String)
    ensures
        r@ == decimal(n as nat),
{
    n.to_string()
}

/// The first position of `x` in `s`.
pub fn find_char(s: &str, x: char) -> (r: Option<usize>)
    ensures
        r is None ==> first_char(s@, x, 0) is None,
        r matches Some(c) ==> first_char(s@, x, 0) == Some(c as int),
{
    let n = s.unicode_len();
    let mut i: usize = 0;
    while i < n
        invariant
            n == s@.len(),
            i <= n,
            first_char(s@, x, 0) == first_char(s@, x, i as int),
        decreases n - i,
    {
        if s.get_char(i) == x {
            return Some(i);
        }
        i = i + 1;
    }
    None
}

/// Whether `needle` occurs in `hay`.
pub fn contains_str(hay: &str, needle: &str) -> (r: bool)
    ensures
        r == contains(hay@, needle@),
{
    let n = hay.unicode_len();
    let m = needle.unicode_len();
    if m > n {
        assert forall|i: int| !occurs_at(hay@, needle@, i) by {}
        return false;
    }
    if m == 0 {
        assert(hay@.subrange(0, 0) =~= needle@);
        assert(occurs_at(hay@, needle@, 0));
        return true;
    }
    let mut i: usize = 0;
    while i <= n - m
        invariant
            n == hay@.len(),
            m == needle@.len(),
            1 <= m <= n,
            i <= n - m + 1,
            forall|j: int| 0 <= j < i ==> !occurs_at(hay@, needle@, j),
        decreases n - m + 1 - i,
    {
        let mut k: usize = 0;
        let mut same = true;
        while k < m
            invariant
                n == hay@.len(),
                m == needle@.len(),
                i + m <= n,
                k <= m,
                same ==> hay@.subrange(i as int, i + k) == needle@.subrange(0, k as int),
                !same ==> !occurs_at(hay@, needle@, i as int),
            decreases m - k,
        {
            if same {
                if hay.get_char(i + k) != needle.get_char(k) {
                    same = false;
                    assert(hay@.subrange(i as int, i + m)[k as int] != needle@[k as int]);
                } else {
                    assert(hay@.subrange(i as int, i + k + 1) =~= hay@.subrange(i as int, i + k).push(hay@[i + k]));
                    assert(needle@.subrange(0, k + 1) =~= needle@.subrange(0, k as int).push(needle@[k as int]));
                }
            }
            k = k + 1;
        }
        if same {
            assert(needle@.subrange(0, m as int) =~= needle@);
            assert(occurs_at(hay@, needle@, i as int));
            return true;
        }
        i = i + 1;
    }
    assert forall|j: int| !occurs_at(hay@, needle@, j) by {
        if 0 <= j && j + m <= n {
            assert(j < i);
        }
    }
    false
}

/// The pieces of `s` between occurrences of `sep`, reading from `p`; the
/// piece being read began at `start`.
pub open spec fn pieces_from(s: Seq<char>, sep: char, p: int, start: int) -> Seq<Seq<char>>
    decreases s.len() - p,
{
    if p < 0 || p >= s.len() {
        seq![s.subrange(start, s.len() as int)]
    } else if s[p] == sep {
        seq![s.subrange(start, p)] + pieces_from(s, sep, p + 1, p + 1)
    } else {
        pieces_from(s, sep, p + 1, start)
    }
}

/// The pieces of `s` between occurrences of `sep`; an empty `s` is one empty
/// piece.
pub open spec fn split(s: Seq<char>, sep: char) -> Seq<Seq<char>> {
    pieces_from(s, sep, 0, 0)
}

/// Splits `s` at every `sep`.
pub fn split_char(s: &str, sep: char) -> (r: Vec<String>)
    ensures
        r@.map_values(|t: String| t@) == split(s@, sep),
{
    let n = s.unicode_len();
    let mut out: Vec<String> = Vec::new();
    let mut p: usize = 0;
    let mut start: usize = 0;
    while p < n
        invariant
            n == s@.len(),
            start <= p <= n,
            split(s@, sep) == out@.map_values(|t: String| t@) + pieces_from(s@, sep, p as int, start as int),
        decreases n - p,
    {
        if s.get_char(p) == sep {
            let ghost before = out@.map_values(|t: String| t@);
            out.push(String::from_str(s.substring_char(start, p)));
            assert(out@.map_values(|t: String| t@) =~= before + seq![s@.subrange(start as int, p as int)]);
            proof {
                vstd::seq_lib::lemma_concat_associative(
                    before,
                    seq![s@.subrange(start as int, p as int)],
                    pieces_from(s@, sep, p + 1, p + 1),
                );
            }
            p = p + 1;
            start = p;
        } else {
            p = p + 1;
        }
    }
    let ghost before = out@.map_values(|t: String| t@);
    out.push(String::from_str(s.substring_char(start, n)));
    assert(out@.map_values(|t: String| t@) =~= before + seq![s@.subrange(start as int, n as int)]);
    out
}

/// The value of a numeral made of decimal digits.
pub open spec fn numeral_value(s: Seq<char>) -> int
    decreases s.len(),
{
    if s.len() == 0 {
        0
    } else {
        10 * numeral_value(s.drop_last()) + (s.last() as int - 48)
    }
}

/// All characters of `s` are decimal digits.
pub open spec fn all_digits(s: Seq<char>) -> bool {
    forall|i: int| 0 <= i < s.len() ==> '0' <= #[trigger] s[i] <= '9'
}

/// The digits of a numeral: without the one `+` that may lead it.
pub open spec fn unsigned_digits(s: Seq<char>) -> Seq<char> {
    if s.len() > 0 && s[0] == '+' {
        s.drop_first()
    } else {
        s
    }
}

/// The `u32` a numeral names: an optional `+`, then one or more decimal
/// digits, with a value of at most `u32::MAX`.
pub open spec fn u32_of(s: Seq<char>) -> Option<u32> {
    let d = unsigned_digits(s);
    if d.len() > 0 && all_digits(d) && numeral_value(d) <= u32::MAX {
        Some(numeral_value(d) as u32)
    } else {
        None
    }
}

/// Reads a numeral into a `u32`: an optional leading `+`, then decimal
/// digits; `None` when there are no digits, another character appears, or
/// the value is above `u32::MAX`.
pub fn parse_u32(s: &str) -> (r: Option<u32>)
    ensures
        r == u32_of(s@),
{
    let n = s.unicode_len();
    let digits = if n > 0 && s.get_char(0) == '+' {
        s.substring_char(1, n)
    } else {
        s
    };
    assert(digits@ == unsigned_digits(s@)) by {
        if n > 0 && s@[0] == '+' {
            assert(s@.drop_first() =~= s@.subrange(1, n as int));
        }
    }
    let r = parse_digits(digits);
    proof {
        if r is None && digits@.len() > 0 && all_digits(digits@) {
            assert(numeral_value(digits@) > u32::MAX);
        }
    }
    r
}

/// Reads decimal digits into a `u32`: `None` when `s` is empty, holds a
/// character other than a digit, or names a value above `u32::MAX`.
fn parse_digits(s: &str) -> (r: Option<u32>)
    ensures
        r matches Some(v) ==> s@.len() > 0 && all_digits(s@) && v == numeral_value(s@),
        r is None ==> s@.len() == 0 || !all_digits(s@) || numeral_value(s@) > u32::MAX,
{
    let n = s.unicode_len();
    if n == 0 {
        return None;
    }
    let mut v: u64 = 0;
    let mut i: usize = 0;
    while i < n
        invariant
            n == s@.len(),
            i <= n,
            all_digits(s@.subrange(0, i as int)),
            v == numeral_value(s@.subrange(0, i as int)),
            v <= u32::MAX,
        decreases n - i,
    {
        let c = s.get_char(i);
        assert(s@.subrange(0, i + 1).drop_last() =~= s@.subrange(0, i as int));
        if c < '0' || c > '9' {
            assert(!all_digits(s@)) by {
                assert(s@[i as int] == c);
            }
            return None;
        }
        let d = (c as u32 - 48) as u64;
        v = v * 10 + d;
        if v > 0xffff_ffff {
            proof {
                lemma_numeral_grows(s@, i + 1);
            }
            return None;
        }
        i = i + 1;
    }
    assert(s@.subrange(0, n as int) =~= s@);
    Some(v as u32)
}

/// A numeral's value is at least that of each of its prefixes.
proof fn lemma_numeral_grows(s: Seq<char>, k: int)
    requires
        0 <= k <= s.len(),
        all_digits(s.subrange(0, k)) || all_digits(s),
    ensures
        all_digits(s) ==> numeral_value(s) >= numeral_value(s.subrange(0, k)),
    decreases s.len() - k,
{
    if all_digits(s) && k < s.len() {
        assert(all_digits(s.subrange(0, k + 1)));
        lemma_numeral_grows(s, k + 1);
        assert(s.subrange(0, k + 1).drop_last() =~= s.subrange(0, k));
        assert(numeral_value(s.subrange(0, k)) >= 0) by {
            lemma_numeral_nonneg(s.subrange(0, k));
        }
    } else if k == s.len() {
        assert(s.subrange(0, k) =~= s);
    }
}

/// A numeral made of digits has a value of at least 0.
proof fn lemma_numeral_nonneg(s: Seq<char>)
    requires
        all_digits(s),
    ensures
        numeral_value(s) >= 0,
    decreases s.len(),
{
    if s.len() > 0 {
        assert(all_digits(s.drop_last()));
        lemma_numeral_nonneg(s.drop_last());
    }
}

/// Blank characters: space, tab, carriage return and line feed.
pub open spec fn is_ows(c: char) -> bool {
    c == ' ' || c == '\t' || c == '\r' || c == '\n'
}

/// `s` without leading whitespace.
pub open spec fn trim_start(s: Seq<char>) -> Seq<char>
    decreases s.len(),
{
    if s.len() > 0 && is_ows(s[0]) {
        trim_start(s.drop_first())
    } else {
        s
    }
}

/// `s` without trailing whitespace.
pub open spec fn trim_end(s: Seq<char>) -> Seq<char>
    decreases s.len(),
{
    if s.len() > 0 && is_ows(s.last()) {
        trim_end(s.drop_last())
    } else {
        s
    }
}

/// `s` without surrounding whitespace.
pub open spec fn trim(s: Seq<char>) -> Seq<char> {
    trim_end(trim_start(s))
}

/// Whether `c` is blank.
fn is_blank(c: char) -> (r: bool)
    ensures
        r == is_ows(c),
{
    c == ' ' || c == '\t' || c == '\r' || c == '\n'
}

/// The characters of `s` from `lo` to `hi` without surrounding whitespace.
pub fn trimmed(s: &str, lo: usize, hi: usize) -> (r: &str)
    requires
        lo <= hi <= s@.len(),
    ensures
        r@ == trim(s@.subrange(lo as int, hi as int)),
{
    let mut a = lo;
    while a < hi && is_blank(s.get_char(a))
        invariant
            lo <= a <= hi <= s@.len(),
            trim_start(s@.subrange(lo as int, hi as int)) == trim_start(s@.subrange(a as int, hi as int)),
        decreases hi - a,
    {
        assert(s@.subrange(a as int, hi as int).drop_first() =~= s@.subrange(a + 1, hi as int));
        a = a + 1;
    }
    assert(trim_start(s@.subrange(a as int, hi as int)) == s@.subrange(a as int, hi as int));
    let mut b = hi;
    while b > a && is_blank(s.get_char(b - 1))
        invariant
            a <= b <= hi <= s@.len(),
            trim_end(s@.subrange(a as int, hi as int)) == trim_end(s@.subrange(a as int, b as int)),
        decreases b - a,
    {
        assert(s@.subrange(a as int, b as int).drop_last() =~= s@.subrange(a as int, b - 1));
        b = b - 1;
    }
    s.substring_char(a, b)
}

/// Relies on str::to_ascii_uppercase: each ASCII letter 'a'..='z' becomes
/// 'A'..='Z' and every other character is kept.
#[verifier::external_body]
fn to_ascii_uppercase(s: &str) -> (r: String)
    ensures
        r@ == upper(s@),
{
    s.to_ascii_uppercase()
}

/// `s` with each ASCII letter in upper case.
pub fn ascii_upper(s: &str) -> (r: String)
    ensures
        r@ == upper(s@),
{
    to_ascii_uppercase(s)
}

/// Whether the two strings hold the same characters.
pub fn str_eq(a: &str, b: &str) -> (r: bool)
    ensures
        r == (a@ == b@),
{
    let n = a.unicode_len();
    if n != b.unicode_len() {
        return false;
    }
    let mut i: usize = 0;
    while i < n
        invariant
            n == a@.len(),
            n == b@.len(),
            i <= n,
            a@.subrange(0, i as int) == b@.subrange(0, i as int),
        decreases n - i,
    {
        if a.get_char(i) != b.get_char(i) {
            return false;
        }
        assert(a@.subrange(0, i + 1) == a@.subrange(0, i as int).push(a@[i as int]));
        assert(b@.subrange(0, i + 1) == b@.subrange(0, i as int).push(b@[i as int]));
        i = i + 1;
    }
    assert(a@ == a@.subrange(0, n as int));
    assert(b@ == b@.subrange(0, n as int));
    true
}

} // verus!
