//! Small text operations on character sequences: finding a character,
//! taking the fields between separators, trimming a character at both ends.

use vstd::prelude::*;
use vstd::string::*;

verus! {

/// `r` is an error with the message `m`.
pub open spec fn is_err_with<T>(r: Result<T, String>, m: Seq<char>) -> bool {
    r matches Err(e) && e@ == m
}

/// The first position at or after `start` that holds `c`, or the length of
/// `s` when there is none.
pub open spec fn find_from(s: Seq<char>, c: char, start: int) -> int
    decreases s.len() - start,
{
    if start >= s.len() {
        s.len() as int
    } else if s[start] == c {
        start
    } else {
        find_from(s, c, start + 1)
    }
}

/// The first position at or after `start` that does not hold `c`, or the
/// length of `s` when there is none.
pub open spec fn skip_from(s: Seq<char>, c: char, start: int) -> int
    decreases s.len() - start,
{
    if start >= s.len() {
        s.len() as int
    } else if s[start] != c {
        start
    } else {
        skip_from(s, c, start + 1)
    }
}

/// The end of `s.subrange(lo, end)` once every trailing `c` is dropped.
pub open spec fn rskip_to(s: Seq<char>, c: char, lo: int, end: int) -> int
    decreases end - lo,
{
    if end <= lo {
        lo
    } else if s[end - 1] == c {
        rskip_to(s, c, lo, end - 1)
    } else {
        end
    }
}

/// Whether `c` occurs in `s`.
pub open spec fn has_char(s: Seq<char>, c: char) -> bool {
    exists|i: int| 0 <= i < s.len() && s[i] == c
}

/// The text before the first `sep` (all of `s` when there is none).
pub open spec fn first_field(s: Seq<char>, sep: char) -> Seq<char> {
    s.subrange(0, find_from(s, sep, 0))
}

/// The text between the first and the second `sep` (to the end when there
/// is only one); `None` when `sep` does not occur.
pub open spec fn second_field(s: Seq<char>, sep: char) -> Option<Seq<char>> {
    let i = find_from(s, sep, 0);
    if i >= s.len() {
        None
    } else {
        Some(s.subrange(i + 1, find_from(s, sep, i + 1)))
    }
}

/// `s` without the leading and trailing characters equal to `c`.
pub open spec fn trim_char(s: Seq<char>, c: char) -> Seq<char> {
    let lo = skip_from(s, c, 0);
    s.subrange(lo, rskip_to(s, c, lo, s.len() as int))
}

pub proof fn lemma_find_from_bounds(s: Seq<char>, c: char, start: int)
    requires
        0 <= start,
    ensures
        start <= find_from(s, c, start) || start > s.len(),
        find_from(s, c, start) <= s.len(),
        find_from(s, c, start) < s.len() ==> s[find_from(s, c, start)] == c,
        forall|j: int| start <= j < find_from(s, c, start) ==> s[j] != c,
    decreases s.len() - start,
{
    if start < s.len() && s[start] != c {
        lemma_find_from_bounds(s, c, start + 1);
    }
}

pub proof fn lemma_skip_from_bounds(s: Seq<char>, c: char, start: int)
    requires
        0 <= start <= s.len(),
    ensures
        start <= skip_from(s, c, start) <= s.len(),
        forall|j: int| start <= j < skip_from(s, c, start) ==> s[j] == c,
    decreases s.len() - start,
{
    if start < s.len() && s[start] == c {
        lemma_skip_from_bounds(s, c, start + 1);
    }
}

pub proof fn lemma_rskip_to_bounds(s: Seq<char>, c: char, lo: int, end: int)
    requires
        0 <= lo <= end <= s.len(),
    ensures
        lo <= rskip_to(s, c, lo, end) <= end,
    decreases end - lo,
{
    if end > lo && s[end - 1] == c {
        lemma_rskip_to_bounds(s, c, lo, end - 1);
    }
}

pub proof fn lemma_has_char_find(s: Seq<char>, c: char)
    ensures
        has_char(s, c) <==> find_from(s, c, 0) < s.len(),
{
    lemma_find_from_bounds(s, c, 0);
}

/// The first position at or after `start` in `s` that holds `c`, or the
/// length of `s`.
pub fn index_from(s: &str, c: char, start: usize) -> (r: usize)
    requires
        start <= s@.len(),
    ensures
        r == find_from(s@, c, start as int),
{
    let n = s.unicode_len();
    let mut i = start;
    while i < n
        invariant
            n == s@.len(),
            start <= i <= n,
            find_from(s@, c, start as int) == find_from(s@, c, i as int),
        decreases n - i,
    {
        if s.get_char(i) == c {
            return i;
        }
        i = i + 1;
    }
    i
}

/// Whether `c` occurs in `s`.
pub fn contains_char(s: &str, c: char) -> (b: bool)
    ensures
        b == has_char(s@, c),
{
    proof {
        lemma_has_char_find(s@, c);
    }
    index_from(s, c, 0) < s.unicode_len()
}

/// The characters of `s` from position `from` up to `to`.
pub fn slice(s: &str, from: usize, to: usize) -> (r: String)
    requires
        from <= to <= s@.len(),
    ensures
        r@ == s@.subrange(from as int, to as int),
{
    String::from_str(s.substring_char(from, to))
}

/// The text before the first `sep` (all of `s` when there is none); the
/// first item of `s.split(sep)`.
pub fn first_field_of(s: &str, sep: char) -> (r: String)
    ensures
        r@ == first_field(s@, sep),
{
    proof {
        lemma_find_from_bounds(s@, sep, 0);
    }
    let i = index_from(s, sep, 0);
    slice(s, 0, i)
}

/// The second item of `s.split(sep)`, if there is one.
pub fn second_field_of(s: &str, sep: char) -> (r: Option<String>)
    ensures
        r.deep_view() == second_field(s@, sep),
{
    proof {
        lemma_find_from_bounds(s@, sep, 0);
    }
    let n = s.unicode_len();
    let i = index_from(s, sep, 0);
    if i >= n {
        None
    } else {
        proof {
            lemma_find_from_bounds(s@, sep, i + 1);
        }
        let j = index_from(s, sep, i + 1);
        Some(slice(s, i + 1, j))
    }
}

/// `s` without the leading and trailing characters equal to `c`.
pub fn trim_char_of(s: &str, c: char) -> (r: String)
    ensures
        r@ == trim_char(s@, c),
{
    let n = s.unicode_len();
    let mut lo: usize = 0;
    proof {
        lemma_skip_from_bounds(s@, c, 0);
    }
    while lo < n && s.get_char(lo) == c
        invariant
            n == s@.len(),
            0 <= lo <= n,
            skip_from(s@, c, 0) == skip_from(s@, c, lo as int),
        decreases n - lo,
    {
        lo = lo + 1;
    }
    let mut hi: usize = n;
    proof {
        lemma_rskip_to_bounds(s@, c, lo as int, n as int);
    }
    while hi > lo && s.get_char(hi - 1) == c
        invariant
            n == s@.len(),
            lo <= hi <= n,
            rskip_to(s@, c, lo as int, n as int) == rskip_to(s@, c, lo as int, hi as int),
        decreases hi - lo,
    {
        hi = hi - 1;
    }
    slice(s, lo, hi)
}

/// Whether both texts hold the same characters.
pub fn eq_str(a: &str, b: &str) -> (r: bool)
    ensures
        r == (a@ == b@),
{
    let n = a.unicode_len();
    if n != b.unicode_len() {
        return false;
    }
    let mut i: usize = 0;
    while i < n
        invariant
            n == a@.len() == b@.len(),
            i <= n,
            forall|j: int| 0 <= j < i ==> a@[j] == b@[j],
        decreases n - i,
    {
        if a.get_char(i) != b.get_char(i) {
            return false;
        }
        i = i + 1;
    }
    assert(a@ =~= b@);
    true
}

/// The last position before `end` that holds `c`, if there is one.
pub open spec fn rfind_before(s: Seq<char>, c: char, end: int) -> Option<int>
    decreases end,
{
    if end <= 0 {
        None
    } else if s[end - 1] == c {
        Some(end - 1)
    } else {
        rfind_before(s, c, end - 1)
    }
}

/// The concatenation of `a` and `b`.
pub fn concat(a: &str, b: &str) -> (r: String)
    ensures
        r@ == a@ + b@,
{
    let mut r = String::from_str(a);
    r.append(b);
    r
}

/// The concatenation of `a`, `b` and `c`.
pub fn concat3(a: &str, b: &str, c: &str) -> (r: String)
    ensures
        r@ == a@ + b@ + c@,
{
    let mut r = String::from_str(a);
    r.append(b);
    r.append(c);
    r
}

} // verus!
