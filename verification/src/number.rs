//! Decimal integer literals, as the ordering operators of a query read them.

use vstd::prelude::*;
use crate::text::to_chars;

verus! {

/// An ASCII decimal digit.
pub open spec fn is_digit(c: char) -> bool {
    '0' <= c <= '9'
}

/// The number a decimal digit stands for.
pub open spec fn digit_value(c: char) -> int {
    c as int - '0' as int
}

/// Every character of `s` is a decimal digit.
pub open spec fn all_digits(s: Seq<char>) -> bool {
    forall|i: int| 0 <= i < s.len() ==> is_digit(#[trigger] s[i])
}

/// The natural number that the digit string `s` writes in base ten.
pub open spec fn digits_value(s: Seq<char>) -> int
    decreases s.len(),
{
    if s.len() == 0 {
        0
    } else {
        digits_value(s.drop_last()) * 10 + digit_value(s.last())
    }
}

/// The digits of a literal: what follows its optional sign.
pub open spec fn unsigned_part(s: Seq<char>) -> Seq<char> {
    if s.len() > 0 && (s[0] == '-' || s[0] == '+') {
        s.skip(1)
    } else {
        s
    }
}

/// The value of `s` read as a signed 32-bit decimal literal: an optional `+`
/// or `-`, then at least one digit and nothing else. `None` when `s` has
/// another shape or its value does not fit.
pub open spec fn parse_integer(s: Seq<char>) -> Option<int> {
    let body = unsigned_part(s);
    if body.len() == 0 || !all_digits(body) {
        None
    } else {
        let magnitude = digits_value(body);
        let value = if s[0] == '-' { -magnitude } else { magnitude };
        if i32::MIN <= value <= i32::MAX {
            Some(value)
        } else {
            None
        }
    }
}

/// A digit string is worth at least as much as any of its prefixes.
pub proof fn lemma_prefix_value_bounded(s: Seq<char>, n: int)
    requires
        all_digits(s),
        0 <= n <= s.len(),
    ensures
        0 <= digits_value(s.take(n)) <= digits_value(s),
    decreases s.len(),
{
    if s.len() == 0 {
        assert(s.take(n) =~= s);
    } else if n == s.len() {
        assert(s.take(n) =~= s);
        lemma_prefix_value_bounded(s.drop_last(), n - 1);
        assert(is_digit(s.last()));
    } else {
        lemma_prefix_value_bounded(s.drop_last(), n);
        assert(s.drop_last().take(n) =~= s.take(n));
        assert(is_digit(s.last()));
    }
}

/// Reads `text` as a signed 32-bit decimal literal.
pub fn parse_i32(text: &str) -> (r: Option<i32>)
    ensures
        match r {
            Some(v) => parse_integer(text@) == Some(v as int),
            None => parse_integer(text@) is None,
        },
{
    let chars = to_chars(text);
    let n = chars.len();
    if n == 0 {
        return None;
    }
    let negative = chars[0] == '-';
    let start: usize = if chars[0] == '-' || chars[0] == '+' { 1 } else { 0 };
    if start == n {
        return None;
    }
    let ghost body = unsigned_part(text@);
    assert(body =~= chars@.skip(start as int));
    let mut acc: i64 = 0;
    let mut i: usize = start;
    while i < n
        invariant
            start <= i <= n,
            n == chars.len(),
            body == chars@.skip(start as int),
            body == unsigned_part(text@),
            body.len() == n - start,
            all_digits(body.take(i - start)),
            acc == digits_value(body.take(i - start)),
            0 <= acc <= 2147483648,
        decreases n - i,
    {
        let c = chars[i];
        assert(c == body[i - start]);
        if !(c >= '0' && c <= '9') {
            assert(!is_digit(body[i - start]));
            return None;
        }
        let d: i64 = (c as u32 - '0' as u32) as i64;
        let next: i64 = acc * 10 + d;
        proof {
            let longer = body.take(i - start + 1);
            assert(longer.drop_last() =~= body.take(i - start));
            assert(longer.last() == c);
            assert(next == digits_value(longer));
            assert forall|k: int| 0 <= k < longer.len() implies is_digit(#[trigger] longer[k]) by {
                if k < i - start {
                    assert(longer[k] == body.take(i - start)[k]);
                }
            }
        }
        if next > 2147483648 {
            proof {
                if all_digits(body) {
                    lemma_prefix_value_bounded(body, i - start + 1);
                }
            }
            return None;
        }
        acc = next;
        i = i + 1;
    }
    assert(body.take(n - start) =~= body);
    if negative {
        Some((0 - acc) as i32)
    } else if acc > 2147483647 {
        None
    } else {
        Some(acc as i32)
    }
}

} // verus!
