//! Character-level helpers on `str` and `String`, stated over `Seq<char>`.
use vstd::prelude::*;

verus! {

/// Whether `s` begins with `prefix`.
pub open spec fn seq_starts_with(s: Seq<char>, prefix: Seq<char>) -> bool {
    prefix.len() <= s.len() && s.subrange(0, prefix.len() as int) == prefix
}

/// Whether `needle` occurs in `s` at position `i`.
pub open spec fn occurs_at(s: Seq<char>, needle: Seq<char>, i: int) -> bool {
    0 <= i && i + needle.len() <= s.len() && s.subrange(i, i + needle.len()) == needle
}

/// Whether `needle` is a contiguous part of `s`.
pub open spec fn seq_contains(s: Seq<char>, needle: Seq<char>) -> bool {
    exists|i: int| occurs_at(s, needle, i)
}

/// Character equality of two strings.
pub fn str_eq(a: &str, b: &str) -> (r: bool)
    ensures
        r == (a@ == b@),
{
    let n = a.unicode_len();
    if n != b.unicode_len() {
        return false;
    }
    let mut i: usize = 0;
    while i < n
        invariant
            n == a@.len(),
            n == b@.len(),
            i <= n,
            forall|j: int| 0 <= j < i ==> a@[j] == b@[j],
        decreases n - i,
    {
        if a.get_char(i) != b.get_char(i) {
            return false;
        }
        i = i + 1;
    }
    assert(a@ =~= b@);
    true
}

/// Whether `needle` occurs in `s` starting at character position `at`.
pub fn matches_at(s: &str, needle: &str, at: usize) -> (r: bool)
    ensures
        r == occurs_at(s@, needle@, at as int),
{
    let n = s.unicode_len();
    let m = needle.unicode_len();
    if at > n || m > n - at {
        return false;
    }
    let mut j: usize = 0;
    while j < m
        invariant
            n == s@.len(),
            m == needle@.len(),
            at + m <= n,
            j <= m,
            forall|k: int| 0 <= k < j ==> s@[at + k] == needle@[k],
        decreases m - j,
    {
        if s.get_char(at + j) != needle.get_char(j) {
            assert(s@.subrange(at as int, at + m)[j as int] != needle@[j as int]);
            return false;
        }
        j = j + 1;
    }
    assert(s@.subrange(at as int, at + m) =~= needle@);
    true
}

/// Whether `s` begins with `prefix`.
pub fn starts_with(s: &str, prefix: &str) -> (r: bool)
    ensures
        r == seq_starts_with(s@, prefix@),
{
    matches_at(s, prefix, 0)
}

/// Whether `needle` occurs in `s`.
pub fn contains(s: &str, needle: &str) -> (r: bool)
    ensures
        r == seq_contains(s@, needle@),
{
    let n = s.unicode_len();
    let mut i: usize = 0;
    while i < n
        invariant
            n == s@.len(),
            i <= n,
            forall|k: int| 0 <= k < i ==> !occurs_at(s@, needle@, k),
        decreases n - i,
    {
        if matches_at(s, needle, i) {
            return true;
        }
        i = i + 1;
    }
    matches_at(s, needle, n)
}

} // verus!

verus! {

/// The text of a list of owned strings.
pub open spec fn strings_view(v: Seq<String>) -> Seq<Seq<char>> {
    v.map_values(|s: String| s@)
}

/// An owned copy of `s`.
pub fn own(s: &str) -> (r: String)
    ensures
        r@ == s@,
{
    broadcast use vstd::string::group_string_axioms;
    s.to_string()
}

/// `a` followed by `b`, as a new string.
pub fn concat2(a: &str, b: &str) -> (r: String)
    ensures
        r@ == a@ + b@,
{
    let mut r = own(a);
    r.append(b);
    r
}

/// `a`, `b` and `c` one after the other, as a new string.
pub fn concat3(a: &str, b: &str, c: &str) -> (r: String)
    ensures
        r@ == a@ + b@ + c@,
{
    let mut r = own(a);
    r.append(b);
    r.append(c);
    r
}

/// Whether `c` has the Unicode `White_Space` property, which is what
/// `char::is_whitespace` tests.
pub open spec fn is_unicode_whitespace(c: char) -> bool {
    let u = c as u32;
    (0x9 <= u <= 0xD) || u == 0x20 || u == 0x85 || u == 0xA0 || u == 0x1680
        || (0x2000 <= u <= 0x200A) || u == 0x2028 || u == 0x2029 || u == 0x202F
        || u == 0x205F || u == 0x3000
}

/// Whether every character of `s` is whitespace (so that trimming leaves nothing).
pub open spec fn all_whitespace(s: Seq<char>) -> bool {
    forall|i: int| 0 <= i < s.len() ==> is_unicode_whitespace(#[trigger] s[i])
}

/// Executable form of [`is_unicode_whitespace`].
pub fn is_whitespace_char(c: char) -> (r: bool)
    ensures
        r == is_unicode_whitespace(c),
{
    let u = c as u32;
    (0x9 <= u && u <= 0xD) || u == 0x20 || u == 0x85 || u == 0xA0 || u == 0x1680
        || (0x2000 <= u && u <= 0x200A) || u == 0x2028 || u == 0x2029 || u == 0x202F
        || u == 0x205F || u == 0x3000
}

/// Whether `s` trims to the empty string.
pub fn is_blank(s: &str) -> (r: bool)
    ensures
        r == all_whitespace(s@),
{
    let n = s.unicode_len();
    let mut i: usize = 0;
    while i < n
        invariant
            n == s@.len(),
            i <= n,
            forall|k: int| 0 <= k < i ==> is_unicode_whitespace(#[trigger] s@[k]),
        decreases n - i,
    {
        if !is_whitespace_char(s.get_char(i)) {
            return false;
        }
        i = i + 1;
    }
    true
}

/// Position of the first `c` in `s`, if any.
#[verifier::opaque]
pub open spec fn first_index_of(s: Seq<char>, c: char) -> Option<int> {
    if exists|i: int| 0 <= i < s.len() && s[i] == c {
        Some(choose|i: int| 0 <= i < s.len() && s[i] == c && forall|j: int| 0 <= j < i ==> s[j] != c)
    } else {
        None
    }
}

/// The first `c` in `a`, then `c`, then `b` is the one after `a`, when `a`
/// holds none.
pub proof fn lemma_first_index_after(a: Seq<char>, c: char, b: Seq<char>)
    requires
        forall|i: int| 0 <= i < a.len() ==> a[i] != c,
    ensures
        first_index_of(a + seq![c] + b, c) == Some(a.len() as int),
{
    reveal(first_index_of);
    let s = a + seq![c] + b;
    let k = a.len() as int;
    assert(s[k] == c);
    assert forall|j: int| 0 <= j < k implies s[j] != c by {
        assert(s[j] == a[j]);
    }
    let w = choose|i: int| 0 <= i < s.len() && s[i] == c && forall|j: int| 0 <= j < i ==> s[j] != c;
    assert(0 <= w < s.len() && s[w] == c && forall|j: int| 0 <= j < w ==> s[j] != c);
    if w < k {
        assert(s[w] == a[w]);
    } else if w > k {
        assert(s[k] != c);
    }
}

/// Executable form of [`first_index_of`].
pub fn find_char(s: &str, c: char) -> (r: Option<usize>)
    ensures
        r matches Some(i) ==> i < s@.len() && s@[i as int] == c && first_index_of(s@, c) == Some(i as int),
        r is None ==> first_index_of(s@, c) is None,
{
    reveal(first_index_of);
    let n = s.unicode_len();
    let mut i: usize = 0;
    while i < n
        invariant
            n == s@.len(),
            i <= n,
            forall|k: int| 0 <= k < i ==> s@[k] != c,
        decreases n - i,
    {
        if s.get_char(i) == c {
            proof {
                reveal(first_index_of);
                let w = choose|k: int| 0 <= k < s@.len() && s@[k] == c && forall|j: int| 0 <= j < k ==> s@[j] != c;
                assert(0 <= i < s@.len() && s@[i as int] == c && forall|j: int| 0 <= j < i ==> s@[j] != c);
                if w < i {
                } else if w > i {
                    assert(s@[i as int] != c);
                }
            }
            return Some(i);
        }
        i = i + 1;
    }
    None
}

} // verus!

verus! {

/// Position of the first non-whitespace character of `s` (which must have one).
pub open spec fn first_non_ws(s: Seq<char>) -> int {
    choose|i: int| 0 <= i < s.len() && !is_unicode_whitespace(s[i])
        && forall|j: int| 0 <= j < i ==> is_unicode_whitespace(#[trigger] s[j])
}

/// Position of the last non-whitespace character of `s` (which must have one).
pub open spec fn last_non_ws(s: Seq<char>) -> int {
    choose|i: int| 0 <= i < s.len() && !is_unicode_whitespace(s[i])
        && forall|j: int| i < j < s.len() ==> is_unicode_whitespace(#[trigger] s[j])
}

/// `s` without its leading and trailing whitespace, as `str::trim` gives it.
#[verifier::opaque]
pub open spec fn trimmed(s: Seq<char>) -> Seq<char> {
    if all_whitespace(s) {
        Seq::empty()
    } else {
        s.subrange(first_non_ws(s), last_non_ws(s) + 1)
    }
}

/// `s` without its leading and trailing whitespace.
pub fn trim(s: &str) -> (r: &str)
    ensures
        r@ == trimmed(s@),
{
    reveal(trimmed);
    let n = s.unicode_len();
    let mut a: usize = 0;
    while a < n && is_whitespace_char(s.get_char(a))
        invariant
            n == s@.len(),
            a <= n,
            forall|j: int| 0 <= j < a ==> is_unicode_whitespace(#[trigger] s@[j]),
        decreases n - a,
    {
        a = a + 1;
    }
    if a == n {
        let e = s.substring_char(0, 0);
        assert(e@ =~= Seq::<char>::empty());
        return e;
    }
    let mut b: usize = n;
    while b > a + 1 && is_whitespace_char(s.get_char(b - 1))
        invariant
            n == s@.len(),
            a < n,
            !is_unicode_whitespace(s@[a as int]),
            a + 1 <= b <= n,
            forall|j: int| b <= j < n ==> is_unicode_whitespace(#[trigger] s@[j]),
        decreases b,
    {
        b = b - 1;
    }
    proof {
        let f = first_non_ws(s@);
        let l = last_non_ws(s@);
        assert(!all_whitespace(s@));
        assert(0 <= a < n && !is_unicode_whitespace(s@[a as int]));
        if f < a {
            assert(is_unicode_whitespace(s@[f]));
        }
        if f > a {
            assert(is_unicode_whitespace(s@[a as int]));
        }
        assert(!is_unicode_whitespace(s@[b - 1]));
        if l < b - 1 {
            assert(is_unicode_whitespace(s@[b - 1]));
        }
        if l > b - 1 {
            assert(is_unicode_whitespace(s@[l]));
        }
    }
    s.substring_char(a, b)
}

/// Position of the last `c` in `s`, if any.
#[verifier::opaque]
pub open spec fn last_index_of(s: Seq<char>, c: char) -> Option<int> {
    if exists|i: int| 0 <= i < s.len() && s[i] == c {
        Some(choose|i: int| 0 <= i < s.len() && s[i] == c && forall|j: int| i < j < s.len() ==> s[j] != c)
    } else {
        None
    }
}

/// Executable form of [`last_index_of`].
pub fn rfind_char(s: &str, c: char) -> (r: Option<usize>)
    ensures
        r matches Some(i) ==> i < s@.len() && last_index_of(s@, c) == Some(i as int),
        r is None ==> last_index_of(s@, c) is None,
{
    reveal(last_index_of);
    let n = s.unicode_len();
    let mut i: usize = n;
    while i > 0
        invariant
            n == s@.len(),
            i <= n,
            forall|k: int| i <= k < n ==> s@[k] != c,
        decreases i,
    {
        if s.get_char(i - 1) == c {
            proof {
                reveal(last_index_of);
                let w = choose|k: int| 0 <= k < s@.len() && s@[k] == c && forall|j: int| k < j < s@.len() ==> s@[j] != c;
                assert(0 <= i - 1 < s@.len() && s@[i - 1] == c && forall|j: int| i - 1 < j < s@.len() ==> s@[j] != c);
                if w < i - 1 {
                    assert(s@[i - 1] != c);
                }
            }
            return Some(i - 1);
        }
        i = i - 1;
    }
    None
}

} // verus!
