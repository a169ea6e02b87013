//! Reading a whole string as a decimal `i32`, by the rule of `i32`'s
//! `FromStr`: an optional `+` or `-`, then one or more ASCII digits, and a
//! value inside the range of `i32`.
use vstd::prelude::*;
use vstd::string::*;
use crate::text::{decimal, digit_char, signed_decimal};

verus! {

/// `c` is one of the ASCII digits `0` to `9`.
pub open spec fn is_digit(c: char) -> bool {
    '0' <= c && c <= '9'
}

/// The value of the digit character `c`.
pub open spec fn digit_value(c: char) -> int {
    c as int - 48
}

/// Every character of `s` is a digit.
pub open spec fn all_digits(s: Seq<char>) -> bool {
    forall|i: int| 0 <= i < s.len() ==> is_digit(#[trigger] s[i])
}

/// The number that the digits `s` spell in base ten.
pub open spec fn digits_value(s: Seq<char>) -> nat
    decreases s.len(),
{
    if s.len() == 0 {
        0
    } else {
        (digits_value(s.drop_last()) * 10 + digit_value(s.last())) as nat
    }
}

/// Whether `s` starts with a sign character that is to be dropped.
pub open spec fn has_sign(s: Seq<char>) -> bool {
    s.len() > 0 && (s[0] == '-' || s[0] == '+')
}

/// The digits of `s`, after the sign if there is one.
pub open spec fn unsigned_part(s: Seq<char>) -> Seq<char> {
    if has_sign(s) {
        s.drop_first()
    } else {
        s
    }
}

/// The integer that `s` spells, of any size, or `None` where `s` is not an
/// optional sign followed by at least one digit.
pub open spec fn integer_value(s: Seq<char>) -> Option<int> {
    let body = unsigned_part(s);
    if body.len() == 0 || !all_digits(body) {
        None
    } else if s[0] == '-' {
        Some(-digits_value(body))
    } else {
        Some(digits_value(body) as int)
    }
}

/// What `s.parse::<i32>()` gives: the value where `s` spells an integer that
/// fits in an `i32`, otherwise nothing.
pub open spec fn i32_value(s: Seq<char>) -> Option<int> {
    match integer_value(s) {
        Some(v) => if i32::MIN <= v <= i32::MAX {
            Some(v)
        } else {
            None
        },
        None => None,
    }
}

proof fn lemma_digits_value_grows(s: Seq<char>, k: int)
    requires
        all_digits(s),
        0 <= k <= s.len(),
    ensures
        digits_value(s.take(k)) <= digits_value(s),
    decreases s.len(),
{
    if k < s.len() {
        assert(s.drop_last().take(k) =~= s.take(k));
        lemma_digits_value_grows(s.drop_last(), k);
        assert(is_digit(s[s.len() - 1]));
    } else {
        assert(s.take(k) =~= s);
    }
}

/// Decimal digits spell back the number they render.
pub proof fn lemma_decimal_digits(n: nat)
    ensures
        all_digits(decimal(n)),
        decimal(n).len() > 0,
        digits_value(decimal(n)) == n,
    decreases n,
{
    if n < 10 {
        let e = decimal(n);
        assert(e.drop_last() =~= Seq::<char>::empty());
        assert(digits_value(e.drop_last()) == 0);
        assert(digit_value(digit_char(n as int)) == n);
        assert(digits_value(e) == digits_value(e.drop_last()) * 10 + digit_value(e.last()));
    } else {
        lemma_decimal_digits(n / 10);
        assert(digit_value(digit_char((n % 10) as int)) == n % 10);
        let d = decimal((n / 10) as nat);
        assert(decimal(n) == d.push(digit_char((n % 10) as int)));
        assert(d.push(digit_char((n % 10) as int)).drop_last() =~= d);
        assert(digits_value(decimal(n)) == digits_value(d) * 10 + digit_value(digit_char((n % 10) as int)));
        assert((n / 10) * 10 + n % 10 == n);
        assert forall|i: int| 0 <= i < decimal(n).len() implies is_digit(#[trigger] decimal(n)[i]) by {
            if i < d.len() {
                assert(decimal(n)[i] == d[i]);
            }
        }
    }
}

/// Reads `s` as a decimal `i32`, as `s.parse::<i32>().ok()` does.
pub fn parse_i32(s: &str) -> (r: Option<i32>)
    ensures
        r matches Some(v) ==> i32_value(s@) == Some(v as int),
        r is None ==> i32_value(s@) is None,
{
    let n = s.unicode_len();
    if n == 0 {
        return None;
    }
    let first = s.get_char(0);
    let negative = first == '-';
    let start: usize = if first == '-' || first == '+' { 1 } else { 0 };
    let ghost body = unsigned_part(s@);
    assert(body =~= s@.skip(start as int));
    if start == n {
        assert(body.len() == 0);
        assert(integer_value(s@) is None);
        return None;
    }
    // every remaining character must be a digit
    let mut i: usize = start;
    while i < n
        invariant
            n == s@.len(),
            start <= i <= n,
            body =~= s@.skip(start as int),
            body == unsigned_part(s@),
            forall|k: int| start <= k < i ==> is_digit(#[trigger] s@[k]),
        decreases n - i,
    {
        let c = s.get_char(i);
        if !('0' <= c && c <= '9') {
            assert(body[i - start] == c);
            assert(!all_digits(body));
            return None;
        }
        i = i + 1;
    }
    assert(all_digits(body)) by {
        assert forall|k: int| 0 <= k < body.len() implies is_digit(#[trigger] body[k]) by {
            assert(body[k] == s@[k + start]);
        }
    }
    // accumulate, stopping once the magnitude is past every i32
    let limit: i64 = 2147483648;
    let mut acc: i64 = 0;
    let mut j: usize = start;
    while j < n
        invariant
            n == s@.len(),
            start <= j <= n,
            body =~= s@.skip(start as int),
            body == unsigned_part(s@),
            all_digits(body),
            acc == digits_value(body.take(j - start)),
            acc <= limit,
            limit == 2147483648,
        decreases n - j,
    {
        let c = s.get_char(j);
        proof {
            let t = body.take(j + 1 - start);
            assert(t.drop_last() =~= body.take(j - start));
            assert(body[j - start] == s@[j as int]);
            assert(t.last() == c);
            assert(is_digit(c));
        }
        let d: i64 = (c as u32 - 48) as i64;
        assert(d == digit_value(c));
        acc = acc * 10 + d;
        assert(acc == digits_value(body.take(j + 1 - start)));
        if acc > limit {
            proof {
                lemma_digits_value_grows(body, j + 1 - start);
                assert(body.len() > 0);
            }
            return None;
        }
        j = j + 1;
    }
    assert(body.take(n - start) =~= body);
    if negative {
        let v: i64 = -acc;
        Some(v as i32)
    } else if acc > 2147483647 {
        None
    } else {
        Some(acc as i32)
    }
}

/// Reading back the decimal rendering of any `i32` gives that number.
pub proof fn lemma_parse_rendered(n: i32)
    ensures
        i32_value(signed_decimal(n as int)) == Some(n as int),
{
    let s = signed_decimal(n as int);
    if n < 0 {
        let m = (-(n as int)) as nat;
        lemma_decimal_digits(m);
        assert(s.drop_first() =~= decimal(m));
        assert(is_digit(decimal(m)[0]));
    } else {
        lemma_decimal_digits(n as nat);
        assert(is_digit(s[0]));
    }
}

} // verus!
