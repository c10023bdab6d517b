//! Recognition of number literals, following the grammar of Rust's `i64`
//! and `f64` parsers.
use vstd::prelude::*;

verus! {

pub open spec fn is_digit(c: char) -> bool {
    48 <= c as u32 && c as u32 <= 57
}

pub open spec fn is_sign(c: char) -> bool {
    c == '+' || c == '-'
}

/// The value of a run of decimal digits.
pub open spec fn digits_value(d: Seq<char>) -> nat
    decreases d.len(),
{
    if d.len() == 0 {
        0
    } else {
        10 * digits_value(d.drop_last()) + (d.last() as u32 - 48) as nat
    }
}

pub open spec fn all_digits(d: Seq<char>) -> bool {
    forall|i: int| 0 <= i < d.len() ==> is_digit(#[trigger] d[i])
}

/// The integer that `t` reads as: an optional sign and at least one digit,
/// with the value in the range of `i64`.
pub open spec fn int_literal(t: Seq<char>) -> Option<i64> {
    let signed = t.len() > 0 && is_sign(t[0]);
    let body = if signed {
        t.skip(1)
    } else {
        t
    };
    let v: int = if signed && t[0] == '-' {
        -digits_value(body)
    } else {
        digits_value(body) as int
    };
    if body.len() > 0 && all_digits(body) && i64::MIN
        <= v <= i64::MAX {
        Some(v as i64)
    } else {
        None
    }
}

/// The end of the run of digits that starts at `i`.
pub open spec fn digits_end(t: Seq<char>, i: int) -> int
    decreases t.len() - i,
{
    if 0 <= i < t.len() && is_digit(t[i]) {
        digits_end(t, i + 1)
    } else {
        i
    }
}

/// One if a sign stands at `i`.
pub open spec fn sign_len(t: Seq<char>, i: int) -> int {
    if 0 <= i < t.len() && is_sign(t[i]) {
        1
    } else {
        0
    }
}

/// Whether `t` is a float with a decimal point: an optional sign, digits
/// around one `.` (at least one digit in all), and an optional exponent.
pub open spec fn is_float_literal(t: Seq<char>) -> bool {
    let a = sign_len(t, 0);
    let b = digits_end(t, a);
    let c = digits_end(t, b + 1);
    let d = c + 1 + sign_len(t, c + 1);
    let e = digits_end(t, d);
    &&& b < t.len()
    &&& t[b] == '.'
    &&& (b > a || c > b + 1)
    &&& (c == t.len() || ((t[c] == 'e' || t[c] == 'E') && e > d && e == t.len()))
}

fn is_digit_char(c: char) -> (r: bool)
    ensures
        r == is_digit(c),
{
    48 <= c as u32 && c as u32 <= 57
}

fn find_digits_end(t: &Vec<char>, i: usize) -> (r: usize)
    requires
        i <= t@.len(),
    ensures
        r == digits_end(t@, i as int),
        i <= r <= t@.len(),
{
    let mut j = i;
    while j < t.len() && is_digit_char(t[j])
        invariant
            i <= j <= t@.len(),
            digits_end(t@, j as int) == digits_end(t@, i as int),
        decreases t@.len() - j,
    {
        j = j + 1;
    }
    j
}

fn sign_at(t: &Vec<char>, i: usize) -> (r: usize)
    ensures
        r == sign_len(t@, i as int),
{
    if i < t.len() && (t[i] == '+' || t[i] == '-') {
        1
    } else {
        0
    }
}

/// Whether the token `t` is a float literal with a decimal point.
pub fn float_literal(t: &Vec<char>) -> (r: bool)
    ensures
        r == is_float_literal(t@),
{
    let a = sign_at(t, 0);
    let b = find_digits_end(t, a);
    if b >= t.len() || t[b] != '.' {
        return false;
    }
    let c = find_digits_end(t, b + 1);
    if !(b > a || c > b + 1) {
        return false;
    }
    if c == t.len() {
        return true;
    }
    if t[c] != 'e' && t[c] != 'E' {
        return false;
    }
    let d = c + 1 + sign_at(t, c + 1);
    if d > t.len() {
        return false;
    }
    let e = find_digits_end(t, d);
    e > d && e == t.len()
}

const LIMIT: u128 = 9223372036854775809;

/// The integer that the token `t` reads as, if any.
pub fn int_literal_of(t: &Vec<char>) -> (r: Option<i64>)
    ensures
        r == int_literal(t@),
{
    let signed = t.len() > 0 && (t[0] == '+' || t[0] == '-');
    let start: usize = if signed {
        1
    } else {
        0
    };
    let ghost body = if signed {
        t@.skip(1)
    } else {
        t@
    };
    if start >= t.len() {
        return None;
    }
    let mut acc: u128 = 0;
    let mut i = start;
    while i < t.len()
        invariant
            start <= i <= t@.len(),
            body == t@.skip(start as int),
            signed == (t@.len() > 0 && is_sign(t@[0])),
            start == (if signed { 1usize } else { 0usize }),
            body == (if signed { t@.skip(1) } else { t@ }),
            forall|j: int| start <= j < i ==> is_digit(t@[j]),
            acc == if digits_value(body.take(i - start)) < LIMIT {
                digits_value(body.take(i - start))
            } else {
                LIMIT as nat
            },
        decreases t@.len() - i,
    {
        if !is_digit_char(t[i]) {
            assert(body[i - start] == t@[i as int]);
            assert(!all_digits(body));
            return None;
        }
        let d = (t[i] as u32 - 48) as u128;
        proof {
            assert(body.take(i + 1 - start).drop_last() =~= body.take(i - start));
        }
        acc = acc * 10 + d;
        if acc > LIMIT {
            acc = LIMIT;
        }
        i = i + 1;
    }
    proof {
        assert(body.take(i - start) =~= body);
        assert forall|j: int| 0 <= j < body.len() implies is_digit(body[j]) by {
            assert(body[j] == t@[j + start]);
        }
    }
    if signed && t[0] == '-' {
        if acc <= 9223372036854775808 {
            Some((0 - acc as i128) as i64)
        } else {
            None
        }
    } else {
        if acc <= 9223372036854775807 {
            Some(acc as i64)
        } else {
            None
        }
    }
}

} // verus!
