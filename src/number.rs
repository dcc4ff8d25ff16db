//! Reading a decimal `i32`, as an exit status is written on the command line.
use vstd::prelude::*;
use vstd::string::*;

verus! {

pub open spec fn is_digit(c: char) -> bool {
    '0' <= c && c <= '9'
}

pub open spec fn all_digits(s: Seq<char>) -> bool {
    forall|i: int| 0 <= i < s.len() ==> is_digit(#[trigger] s[i])
}

/// The value of a string of decimal digits.
pub open spec fn decimal(s: Seq<char>) -> int
    decreases s.len(),
{
    if s.len() == 0 {
        0
    } else {
        10 * decimal(s.drop_last()) + (s.last() as int - '0' as int)
    }
}

/// An optional `+` or `-` followed by at least one decimal digit, and nothing else.
pub open spec fn integer_of(s: Seq<char>) -> Option<int> {
    if s.len() > 0 && (s[0] == '-' || s[0] == '+') {
        let d = s.skip(1);
        if d.len() > 0 && all_digits(d) {
            Some(if s[0] == '-' { -decimal(d) } else { decimal(d) })
        } else {
            None
        }
    } else if s.len() > 0 && all_digits(s) {
        Some(decimal(s))
    } else {
        None
    }
}

/// The `i32` written by `s`, if `s` writes an integer that fits in one.
pub open spec fn i32_of(s: Seq<char>) -> Option<i32> {
    match integer_of(s) {
        Some(v) => if i32::MIN <= v && v <= i32::MAX {
            Some(v as i32)
        } else {
            None
        },
        None => None,
    }
}

proof fn lemma_decimal_nonneg(s: Seq<char>)
    requires
        all_digits(s),
    ensures
        decimal(s) >= 0,
    decreases s.len(),
{
    if s.len() > 0 {
        lemma_decimal_nonneg(s.drop_last());
    }
}

/// Any value above the largest magnitude an `i32` can have.
const CAP: u64 = 2147483649;

/// Reads `text` as a decimal `i32`: an optional sign, then digits, nothing
/// else, and a value in range.
pub fn parse_i32(text: &str) -> (r: Option<i32>)
    ensures
        r == i32_of(text@),
{
    let n = text.unicode_len();
    if n == 0 {
        return None;
    }
    let first = text.get_char(0);
    let negative = first == '-';
    let start: usize = if first == '-' || first == '+' { 1 } else { 0 };
    if start == n {
        return None;
    }
    let ghost d = text@.skip(start as int);
    let mut acc: u64 = 0;
    let mut i: usize = start;
    while i < n
        invariant
            n == text@.len(),
            start <= i <= n,
            d == text@.skip(start as int),
            start == 1 <==> (text@[0] == '-' || text@[0] == '+'),
            negative == (text@[0] == '-'),
            n > 0,
            all_digits(text@.subrange(start as int, i as int)),
            acc == if decimal(text@.subrange(start as int, i as int)) < CAP as int {
                decimal(text@.subrange(start as int, i as int))
            } else {
                CAP as int
            },
        decreases n - i,
    {
        let c = text.get_char(i);
        let ghost pre = text@.subrange(start as int, i as int);
        let ghost cur = text@.subrange(start as int, i as int + 1);
        assert(cur.drop_last() =~= pre);
        if !('0' <= c && c <= '9') {
            assert(!all_digits(d)) by {
                assert(d[i - start] == c);
            };
            if start == 0 {
                assert(d =~= text@);
            }
            return None;
        }
        proof {
            lemma_decimal_nonneg(pre);
        }
        let v: u64 = acc * 10 + (c as u64 - '0' as u64);
        acc = if v < CAP { v } else { CAP };
        assert(all_digits(cur));
        i = i + 1;
    }
    assert(text@.subrange(start as int, n as int) =~= d);
    if start == 0 {
        assert(d =~= text@);
    }
    if negative {
        if acc <= 2147483648 {
            Some((0 - acc as i64) as i32)
        } else {
            None
        }
    } else if acc <= 2147483647 {
        Some(acc as i32)
    } else {
        None
    }
}

} // verus!
