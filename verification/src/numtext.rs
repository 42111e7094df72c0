//! Decimal text of integers, both ways.
use vstd::prelude::*;

use crate::text::concat2;

verus! {

/// The character of a decimal digit.
pub open spec fn digit_char(d: nat) -> char {
    if d == 0 {
        '0'
    } else if d == 1 {
        '1'
    } else if d == 2 {
        '2'
    } else if d == 3 {
        '3'
    } else if d == 4 {
        '4'
    } else if d == 5 {
        '5'
    } else if d == 6 {
        '6'
    } else if d == 7 {
        '7'
    } else if d == 8 {
        '8'
    } else {
        '9'
    }
}

/// The value of a decimal digit character (`'0'..='9'`).
pub open spec fn digit_value(c: char) -> nat {
    ((c as u32) - ('0' as u32)) as nat
}

/// Whether `c` is an ASCII decimal digit.
pub open spec fn is_digit(c: char) -> bool {
    '0' <= c <= '9'
}

/// Decimal text of a natural number, as `Display` writes it (no leading zeros).
pub open spec fn decimal(n: nat) -> Seq<char>
    decreases n,
{
    if n < 10 {
        seq![digit_char(n)]
    } else {
        decimal(n / 10).push(digit_char(n % 10))
    }
}

/// Decimal text of an integer, with a `-` for negative values.
pub open spec fn signed_decimal(i: int) -> Seq<char> {
    if i < 0 {
        seq!['-'] + decimal((-i) as nat)
    } else {
        decimal(i as nat)
    }
}

/// The text of one digit.
fn digit_text(d: u64) -> (r: &'static str)
    requires
        d < 10,
    ensures
        r@ == seq![digit_char(d as nat)],
{
    proof {
        reveal_strlit("0");
        reveal_strlit("1");
        reveal_strlit("2");
        reveal_strlit("3");
        reveal_strlit("4");
        reveal_strlit("5");
        reveal_strlit("6");
        reveal_strlit("7");
        reveal_strlit("8");
        reveal_strlit("9");
    }
    if d == 0 {
        "0"
    } else if d == 1 {
        "1"
    } else if d == 2 {
        "2"
    } else if d == 3 {
        "3"
    } else if d == 4 {
        "4"
    } else if d == 5 {
        "5"
    } else if d == 6 {
        "6"
    } else if d == 7 {
        "7"
    } else if d == 8 {
        "8"
    } else {
        "9"
    }
}

/// Decimal text of `n`, as `n.to_string()` gives it.
pub fn decimal_string(n: u64) -> (r: String)
    ensures
        r@ == decimal(n as nat),
    decreases n,
{
    if n < 10 {
        crate::text::own(digit_text(n))
    } else {
        let high = decimal_string(n / 10);
        concat2(high.as_str(), digit_text(n % 10))
    }
}

/// Decimal text of `i`, with a `-` for negative values, as `i.to_string()` gives it.
pub fn signed_decimal_string(i: i64) -> (r: String)
    ensures
        r@ == signed_decimal(i as int),
{
    if i < 0 {
        let magnitude: u64 = (0 - (i as i128)) as u64;
        let digits = decimal_string(magnitude);
        proof {
            reveal_strlit("-");
        }
        concat2("-", digits.as_str())
    } else {
        decimal_string(i as u64)
    }
}

/// The value of a sequence of decimal digits, most significant first.
pub open spec fn digits_value(d: Seq<char>) -> nat
    decreases d.len(),
{
    if d.len() == 0 {
        0
    } else {
        digits_value(d.drop_last()) * 10 + digit_value(d.last())
    }
}

/// The digits part of a number's text: all of it, or what follows a leading `+`.
pub open spec fn unsigned_digits(s: Seq<char>) -> Seq<char> {
    if s.len() > 0 && s[0] == '+' {
        s.skip(1)
    } else {
        s
    }
}

/// Whether every character is an ASCII digit.
pub open spec fn all_digits(d: Seq<char>) -> bool {
    forall|i: int| 0 <= i < d.len() ==> is_digit(#[trigger] d[i])
}

/// What `str::parse::<usize>` gives: an optional `+`, then at least one
/// ASCII digit and nothing else, with a value that fits in `usize`.
pub open spec fn parsed_usize(s: Seq<char>) -> Option<usize> {
    let digits = unsigned_digits(s);
    if digits.len() > 0 && all_digits(digits) && digits_value(digits) <= usize::MAX {
        Some(digits_value(digits) as usize)
    } else {
        None
    }
}

/// The value of a longer run of digits is at least that of its prefix.
proof fn lemma_digits_value_grows(d: Seq<char>, i: int)
    requires
        0 <= i <= d.len(),
    ensures
        digits_value(d.take(i)) <= digits_value(d),
    decreases d.len() - i,
{
    if i < d.len() {
        lemma_digits_value_grows(d, i + 1);
        assert(d.take(i + 1).drop_last() =~= d.take(i));
    } else {
        assert(d.take(i) =~= d);
    }
}

/// Parse an unsigned decimal number as `str::parse::<usize>` does.
pub fn parse_usize(s: &str) -> (r: Option<usize>)
    ensures
        r == parsed_usize(s@),
{
    let n = s.unicode_len();
    let start: usize = if n > 0 && s.get_char(0) == '+' {
        1
    } else {
        0
    };
    let ghost digits = s@.skip(start as int);
    assert(s@.skip(0) =~= s@);
    assert(digits == unsigned_digits(s@));
    if start >= n {
        return None;
    }
    let mut acc: usize = 0;
    let mut i: usize = start;
    while i < n
        invariant
            n == s@.len(),
            start <= i <= n,
            start < n,
            start <= 1,
            (start == 1) == (s@.len() > 0 && s@[0] == '+'),
            digits == s@.skip(start as int),
            digits == unsigned_digits(s@),
            forall|k: int| 0 <= k < i - start ==> is_digit(#[trigger] digits[k]),
            acc as nat == digits_value(digits.take(i - start)),
        decreases n - i,
    {
        let c = s.get_char(i);
        if !('0' <= c && c <= '9') {
            assert(digits[i - start] == s@[i as int]);
            assert(!is_digit(digits[i - start]));
            assert(!all_digits(digits));
            return None;
        }
        let d = (c as u32 - '0' as u32) as usize;
        assert(digits.take(i + 1 - start).drop_last() =~= digits.take(i - start));
        assert(digits.take(i + 1 - start).last() == c);
        if acc > (usize::MAX - d) / 10 {
            proof {
                assert(acc * 10 + d > usize::MAX) by (nonlinear_arith)
                    requires
                        acc > (usize::MAX - d) / 10,
                        d <= 9,
                ;
                lemma_digits_value_grows(digits, i + 1 - start);
                assert(digits.take(digits.len() as int) =~= digits);
                assert(digits_value(digits) > usize::MAX);
                assert(parsed_usize(s@) is None);
            }
            return None;
        }
        assert(acc * 10 + d <= usize::MAX) by (nonlinear_arith)
            requires
                acc <= (usize::MAX - d) / 10,
                d <= 9,
        ;
        acc = acc * 10 + d;
        i = i + 1;
    }
    assert(digits.take(n - start) =~= digits);
    assert(all_digits(digits));
    Some(acc)
}

/// The decimal text of a number is not empty, is all digits, and reads back
/// as the number.
pub proof fn lemma_decimal_reads_back(n: nat)
    ensures
        decimal(n).len() > 0,
        all_digits(decimal(n)),
        digits_value(decimal(n)) == n,
    decreases n,
{
    let d = decimal(n);
    if n < 10 {
        assert(digits_value(d.drop_last()) == 0) by {
            assert(d.drop_last() =~= Seq::<char>::empty());
        }
    } else {
        lemma_decimal_reads_back(n / 10);
        assert(d.drop_last() =~= decimal(n / 10));
    }
    assert(forall|i: int| 0 <= i < d.len() ==> is_digit(#[trigger] d[i])) by {
        if n >= 10 {
            assert forall|i: int| 0 <= i < d.len() implies is_digit(#[trigger] d[i]) by {
                if i < d.len() - 1 {
                    assert(d[i] == decimal(n / 10)[i]);
                }
            }
        }
    }
}

/// The digits part of a signed number's text: what follows a leading `+` or
/// `-`, else all of it.
pub open spec fn signed_digits(s: Seq<char>) -> Seq<char> {
    if s.len() > 0 && (s[0] == '+' || s[0] == '-') {
        s.skip(1)
    } else {
        s
    }
}

/// What `str::parse::<i64>` gives: an optional sign, then at least one ASCII
/// digit and nothing else, with a value in the range of `i64`.
pub open spec fn parsed_i64(s: Seq<char>) -> Option<i64> {
    let negative = s.len() > 0 && s[0] == '-';
    let d = signed_digits(s);
    if d.len() > 0 && all_digits(d) && (if negative {
        digits_value(d) <= 0x8000_0000_0000_0000
    } else {
        digits_value(d) <= i64::MAX
    }) {
        Some(
            (if negative {
                -(digits_value(d) as int)
            } else {
                digits_value(d) as int
            }) as i64,
        )
    } else {
        None
    }
}

/// The value of the digits of `s` from `start` on, when they are all ASCII
/// digits (at least one) and the value is at most `bound`.
fn digits_up_to(s: &str, start: usize, bound: u64) -> (r: Option<u64>)
    requires
        start <= s@.len(),
    ensures
        r == (if s@.skip(start as int).len() > 0 && all_digits(s@.skip(start as int)) && digits_value(
            s@.skip(start as int),
        ) <= bound {
            Some(digits_value(s@.skip(start as int)) as u64)
        } else {
            None::<u64>
        }),
{
    let n = s.unicode_len();
    let ghost digits = s@.skip(start as int);
    if start >= n {
        return None;
    }
    let mut acc: u64 = 0;
    let mut i: usize = start;
    while i < n
        invariant
            n == s@.len(),
            start <= i <= n,
            start < n,
            digits == s@.skip(start as int),
            forall|k: int| 0 <= k < i - start ==> is_digit(#[trigger] digits[k]),
            acc as nat == digits_value(digits.take(i - start)),
            acc <= bound,
        decreases n - i,
    {
        let c = s.get_char(i);
        if !('0' <= c && c <= '9') {
            assert(digits[i - start] == s@[i as int]);
            assert(!is_digit(digits[i - start]));
            return None;
        }
        let d = (c as u32 - '0' as u32) as u64;
        assert(digits.take(i + 1 - start).drop_last() =~= digits.take(i - start));
        assert(digits.take(i + 1 - start).last() == c);
        if d > bound || acc > (bound - d) / 10 {
            proof {
                assert(acc * 10 + d > bound) by (nonlinear_arith)
                    requires
                        d > bound || acc > (bound - d) / 10,
                        d <= 9,
                ;
                lemma_digits_value_grows(digits, i + 1 - start);
                assert(digits.take(digits.len() as int) =~= digits);
            }
            return None;
        }
        assert(acc * 10 + d <= bound) by (nonlinear_arith)
            requires
                acc <= (bound - d) / 10,
                d <= bound,
                d <= 9,
        ;
        acc = acc * 10 + d;
        i = i + 1;
    }
    assert(digits.take(n - start) =~= digits);
    Some(acc)
}

/// Parse a signed decimal number as `str::parse::<i64>` does.
pub fn parse_i64(s: &str) -> (r: Option<i64>)
    ensures
        r == parsed_i64(s@),
{
    let n = s.unicode_len();
    let negative = n > 0 && s.get_char(0) == '-';
    let start: usize = if n > 0 && (s.get_char(0) == '+' || s.get_char(0) == '-') {
        1
    } else {
        0
    };
    assert(s@.skip(0) =~= s@);
    assert(s@.skip(start as int) == signed_digits(s@));
    let bound: u64 = if negative {
        0x8000_0000_0000_0000
    } else {
        0x7fff_ffff_ffff_ffff
    };
    match digits_up_to(s, start, bound) {
        Some(m) => {
            if negative {
                if m == 0x8000_0000_0000_0000 {
                    Some(i64::MIN)
                } else {
                    Some(0 - (m as i64))
                }
            } else {
                Some(m as i64)
            }
        },
        None => None,
    }
}

/// The signed decimal text of a number parses back as the number.
pub proof fn lemma_signed_decimal_reads_back(i: i64)
    ensures
        parsed_i64(signed_decimal(i as int)) == Some(i),
{
    let t = signed_decimal(i as int);
    if i < 0 {
        let m = (-(i as int)) as nat;
        lemma_decimal_reads_back(m);
        assert(t.skip(1) =~= decimal(m));
    } else {
        lemma_decimal_reads_back(i as nat);
        assert(is_digit(t[0]));
    }
}

/// ASCII lowercase of a character; other characters are unchanged.
pub open spec fn ascii_lower(c: char) -> char {
    if 'A' <= c <= 'Z' {
        ((c as u32) + 32) as char
    } else {
        c
    }
}

/// Whether `s` equals `lower` (given in ASCII lowercase) ignoring ASCII case,
/// as `str::eq_ignore_ascii_case` decides.
pub open spec fn eq_ascii_ci(s: Seq<char>, lower: Seq<char>) -> bool {
    s.len() == lower.len() && forall|i: int| 0 <= i < s.len() ==> ascii_lower(#[trigger] s[i]) == lower[i]
}

/// Whether `s` is `all` in any ASCII case.
pub fn is_all_ci(s: &str) -> (r: bool)
    ensures
        r == eq_ascii_ci(s@, seq!['a', 'l', 'l']),
{
    if s.unicode_len() != 3 {
        return false;
    }
    let a = s.get_char(0);
    let b = s.get_char(1);
    let c = s.get_char(2);
    let ok = (a == 'a' || a == 'A') && (b == 'l' || b == 'L') && (c == 'l' || c == 'L');
    proof {
        let l = seq!['a', 'l', 'l'];
        if ok {
            assert forall|i: int| 0 <= i < s@.len() implies ascii_lower(#[trigger] s@[i]) == l[i] by {
                assert(i == 0 || i == 1 || i == 2);
            }
        } else {
            if eq_ascii_ci(s@, l) {
                assert(ascii_lower(s@[0]) == 'a');
                assert(ascii_lower(s@[1]) == 'l');
                assert(ascii_lower(s@[2]) == 'l');
            }
        }
    }
    ok
}

} // verus!
