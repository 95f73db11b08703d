use vstd::prelude::*;
use crate::ocr_text::{decimal_value, is_ascii_digit};
use crate::text::push_char;

verus! {

/// The ASCII digit of `d < 10`.
pub open spec fn digit_char(d: nat) -> char {
    ((('0' as u32) + d) as u8) as char
}

/// The decimal numeral of `n`, without leading zeros.
pub open spec fn decimal_digits(n: nat) -> Seq<char>
    decreases n,
{
    if n < 10 {
        seq![digit_char(n)]
    } else {
        decimal_digits(n / 10).push(digit_char(n % 10))
    }
}

/// The decimal text of `v`, with a `-` for negative values, as `to_string` writes it.
pub open spec fn decimal_text(v: int) -> Seq<char> {
    if v < 0 {
        seq!['-'] + decimal_digits((-v) as nat)
    } else {
        decimal_digits(v as nat)
    }
}

/// The decimal digits of `n`, most significant first.
pub(crate) fn digits_of(n: u32) -> (res: Vec<char>)
    ensures
        res@ == decimal_digits(n as nat),
    decreases n,
{
    if n < 10 {
        let mut v: Vec<char> = Vec::new();
        v.push(((('0' as u32) + n) as u8) as char);
        v
    } else {
        let mut v = digits_of(n / 10);
        v.push(((('0' as u32) + n % 10) as u8) as char);
        v
    }
}

/// The decimal text of `v`.
pub fn int_text(v: i32) -> (res: String)
    ensures
        res@ == decimal_text(v as int),
{
    let mut out = String::new();
    let magnitude: u32 = if v < 0 {
        push_char(&mut out, '-');
        (-(v as i64)) as u32
    } else {
        v as u32
    };
    let d = digits_of(magnitude);
    let ghost start = out@;
    let mut i: usize = 0;
    while i < d.len()
        invariant
            i <= d@.len(),
            out@ == start + d@.subrange(0, i as int),
        decreases d@.len() - i,
    {
        push_char(&mut out, d[i]);
        assert(d@.subrange(0, i + 1) == d@.subrange(0, i as int).push(d@[i as int]));
        i += 1;
    }
    assert(d@.subrange(0, d@.len() as int) == d@);
    if v < 0 {
        assert(start == seq!['-']);
    } else {
        assert(start == Seq::<char>::empty());
        assert(out@ == d@);
    }
    out
}

/// Every character is an ASCII digit.
pub open spec fn all_digits(s: Seq<char>) -> bool {
    forall|i: int| 0 <= i < s.len() ==> is_ascii_digit(#[trigger] s[i])
}

/// The integer a numeral stands for: an optional `-` (or `+` where `allow_plus`)
/// followed by at least one ASCII digit, nothing else.
pub open spec fn signed_value(s: Seq<char>, allow_plus: bool) -> Option<int> {
    let negative = s.len() > 0 && s[0] == '-';
    let signed = negative || (allow_plus && s.len() > 0 && s[0] == '+');
    let digits = if signed { s.drop_first() } else { s };
    if digits.len() > 0 && all_digits(digits) {
        Some(if negative { -decimal_value(digits) } else { decimal_value(digits) as int })
    } else {
        None
    }
}

/// The numeral's value where it fits in `i64`.
pub open spec fn spec_parse_i64(s: Seq<char>, allow_plus: bool) -> Option<i64> {
    match signed_value(s, allow_plus) {
        Some(v) => if i64::MIN <= v <= i64::MAX {
            Some(v as i64)
        } else {
            None
        },
        None => None,
    }
}

proof fn lemma_decimal_value_grows(s: Seq<char>, i: int)
    requires
        0 <= i <= s.len(),
        all_digits(s),
    ensures
        decimal_value(s.subrange(0, i)) <= decimal_value(s),
    decreases s.len() - i,
{
    if i < s.len() {
        lemma_decimal_value_grows(s, i + 1);
        assert(s.subrange(0, i + 1).drop_last() == s.subrange(0, i));
    } else {
        assert(s.subrange(0, i) == s);
    }
}

proof fn lemma_overflow_step(acc: u64, digit: u64, limit: u64)
    requires
        acc > (limit - digit) / 10,
        digit <= 9,
        digit <= limit,
    ensures
        acc * 10 + digit > limit,
{
    assert(acc * 10 + digit > limit) by (nonlinear_arith)
        requires
            acc > (limit - digit) / 10,
            digit <= 9,
            digit <= limit,
    ;
}

/// The value of the digits of `s` from index `start` on, where they are all
/// ASCII digits and their value is at most `limit`.
fn parse_digits(s: &str, start: usize, limit: u64) -> (res: Option<u64>)
    requires
        start <= s@.len(),
        limit >= 9,
    ensures
        match res {
            Some(v) => all_digits(s@.subrange(start as int, s@.len() as int)) && v == decimal_value(
                s@.subrange(start as int, s@.len() as int),
            ) && v <= limit,
            None => !all_digits(s@.subrange(start as int, s@.len() as int)) || decimal_value(
                s@.subrange(start as int, s@.len() as int),
            ) > limit,
        },
{
    let n = s.unicode_len();
    let ghost d = s@.subrange(start as int, n as int);
    let mut acc: u64 = 0;
    let mut i: usize = start;
    while i < n
        invariant
            n == s@.len(),
            start <= i <= n,
            limit >= 9,
            d == s@.subrange(start as int, n as int),
            forall|j: int| 0 <= j < i - start ==> is_ascii_digit(#[trigger] d[j]),
            acc == decimal_value(d.subrange(0, i - start)),
            acc <= limit,
        decreases n - i,
    {
        let c = s.get_char(i);
        assert(d[i - start] == c);
        if !('0' <= c && c <= '9') {
            assert(!is_ascii_digit(d[i - start]));
            return None;
        }
        let digit: u64 = (c as u32 - '0' as u32) as u64;
        assert(d.subrange(0, i - start + 1).drop_last() == d.subrange(0, i - start));
        if acc > (limit - digit) / 10 {
            proof {
                if all_digits(d) {
                    lemma_decimal_value_grows(d, i - start + 1);
                    lemma_overflow_step(acc, digit, limit);
                }
            }
            return None;
        }
        assert(acc * 10 + digit <= limit) by (nonlinear_arith)
            requires
                acc <= (limit - digit) / 10,
                digit <= 9,
        ;
        acc = acc * 10 + digit;
        i += 1;
    }
    assert(d.subrange(0, n - start) == d);
    Some(acc)
}

/// The value of an integer numeral where it fits in `i64`.
pub fn parse_i64(s: &str, allow_plus: bool) -> (res: Option<i64>)
    ensures
        res == spec_parse_i64(s@, allow_plus),
{
    let n = s.unicode_len();
    let negative = n > 0 && s.get_char(0) == '-';
    let signed = negative || (allow_plus && n > 0 && s.get_char(0) == '+');
    let start: usize = if signed {
        1
    } else {
        0
    };
    let ghost d = if signed { s@.drop_first() } else { s@ };
    assert(d == s@.subrange(start as int, n as int));
    if start == n {
        return None;
    }
    let limit: u64 = 0x8000_0000_0000_0000;
    match parse_digits(s, start, limit) {
        None => None,
        Some(acc) => {
            if negative {
                if acc == limit {
                    Some(i64::MIN)
                } else {
                    Some(-(acc as i64))
                }
            } else if acc < limit {
                Some(acc as i64)
            } else {
                None
            }
        },
    }
}

/// What `str::parse::<i32>` gives: the value of an optionally signed decimal
/// numeral, where it fits in `i32`.
pub open spec fn spec_parse_i32(s: Seq<char>) -> Option<i32> {
    match signed_value(s, true) {
        Some(v) => if i32::MIN <= v <= i32::MAX {
            Some(v as i32)
        } else {
            None
        },
        None => None,
    }
}

/// A decimal numeral as an `i32`.
pub fn parse_i32(s: &str) -> (res: Option<i32>)
    ensures
        res == spec_parse_i32(s@),
{
    match parse_i64(s, true) {
        Some(v) => if i32::MIN as i64 <= v && v <= i32::MAX as i64 {
            Some(v as i32)
        } else {
            None
        },
        None => None,
    }
}

/// The value of a numeral of ASCII digits only, where it fits in `u64`.
pub open spec fn spec_parse_u64(s: Seq<char>) -> Option<u64> {
    if s.len() > 0 && all_digits(s) && decimal_value(s) <= u64::MAX {
        Some(decimal_value(s) as u64)
    } else {
        None
    }
}

/// A numeral of ASCII digits as a `u64`.
pub fn parse_u64(s: &str) -> (res: Option<u64>)
    ensures
        res == spec_parse_u64(s@),
{
    if s.unicode_len() == 0 {
        return None;
    }
    let r = parse_digits(s, 0, u64::MAX);
    assert(s@.subrange(0, s@.len() as int) == s@);
    r
}

} // verus!
