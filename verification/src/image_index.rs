use vstd::prelude::*;

verus! {

/// `c` is a hexadecimal digit, in either case.
pub open spec fn is_hex_digit(c: char) -> bool {
    ('0' <= c && c <= '9') || ('a' <= c && c <= 'f') || ('A' <= c && c <= 'F')
}

/// The value of the hexadecimal digit `c`.
pub open spec fn hex_digit_value(c: char) -> int {
    if '0' <= c && c <= '9' {
        (c as u32) - ('0' as u32)
    } else if 'a' <= c && c <= 'f' {
        (c as u32) - ('a' as u32) + 10
    } else {
        (c as u32) - ('A' as u32) + 10
    }
}

/// The value of the hexadecimal numeral `s`.
pub open spec fn hex_value(s: Seq<char>) -> int
    decreases s.len(),
{
    if s.len() == 0 {
        0
    } else {
        hex_value(s.drop_last()) * 16 + hex_digit_value(s.last())
    }
}

/// The digits of a numeral, after an optional leading `+`.
pub open spec fn unsigned_digits(s: Seq<char>) -> Seq<char> {
    if s.len() > 0 && s[0] == '+' {
        s.drop_first()
    } else {
        s
    }
}

/// What `u64::from_str_radix(s, 16)` accepts: an optional `+` and at least one
/// hexadecimal digit, nothing else, of a value that fits in `u64`; and the value.
pub open spec fn spec_parse_hash(s: Seq<char>) -> Option<u64> {
    let d = unsigned_digits(s);
    if d.len() > 0 && (forall|i: int| 0 <= i < d.len() ==> is_hex_digit(#[trigger] d[i]))
        && hex_value(d) <= u64::MAX {
        Some(hex_value(d) as u64)
    } else {
        None
    }
}

proof fn lemma_hex_value_grows(s: Seq<char>, i: int)
    requires
        0 <= i <= s.len(),
        forall|j: int| 0 <= j < s.len() ==> is_hex_digit(#[trigger] s[j]),
    ensures
        hex_value(s.subrange(0, i)) <= hex_value(s),
        0 <= hex_value(s.subrange(0, i)),
    decreases s.len() - i,
{
    if i < s.len() {
        lemma_hex_value_grows(s, i + 1);
        assert(s.subrange(0, i + 1).drop_last() == s.subrange(0, i));
    } else {
        assert(s.subrange(0, i) == s);
    }
    lemma_hex_value_nonneg(s.subrange(0, i));
}

proof fn lemma_hex_value_nonneg(s: Seq<char>)
    requires
        forall|j: int| 0 <= j < s.len() ==> is_hex_digit(#[trigger] s[j]),
    ensures
        0 <= hex_value(s),
    decreases s.len(),
{
    if s.len() > 0 {
        lemma_hex_value_nonneg(s.drop_last());
    }
}

/// A perceptual hash as the image index stores it: hexadecimal text.
pub fn parse_hash(value: &str) -> (res: Option<u64>)
    ensures
        res == spec_parse_hash(value@),
{
    let n = value.unicode_len();
    let mut start: usize = 0;
    if n > 0 && value.get_char(0) == '+' {
        start = 1;
    }
    let ghost d = unsigned_digits(value@);
    assert(d == value@.subrange(start as int, n as int));
    if start == n {
        return None;
    }
    let mut acc: u64 = 0;
    let mut i: usize = start;
    while i < n
        invariant
            n == value@.len(),
            start <= i <= n,
            start < n,
            d == value@.subrange(start as int, n as int),
            d == unsigned_digits(value@),
            forall|j: int| 0 <= j < i - start ==> is_hex_digit(#[trigger] d[j]),
            acc == hex_value(d.subrange(0, i - start)),
        decreases n - i,
    {
        let c = value.get_char(i);
        assert(d[i - start] == c);
        let digit: u64 = if '0' <= c && c <= '9' {
            (c as u32 - '0' as u32) as u64
        } else if 'a' <= c && c <= 'f' {
            (c as u32 - 'a' as u32 + 10) as u64
        } else if 'A' <= c && c <= 'F' {
            (c as u32 - 'A' as u32 + 10) as u64
        } else {
            proof {
                assert(!is_hex_digit(d[i - start]));
            }
            return None;
        };
        assert(digit == hex_digit_value(c));
        assert(d.subrange(0, i - start + 1).drop_last() == d.subrange(0, i - start));
        if acc > (u64::MAX - digit) / 16 {
            proof {
                if forall|j: int| 0 <= j < d.len() ==> is_hex_digit(#[trigger] d[j]) {
                    lemma_hex_value_grows(d, i - start + 1);
                    assert(hex_value(d.subrange(0, i - start + 1)) == acc * 16 + digit);
                    assert(acc * 16 + digit > u64::MAX) by (nonlinear_arith)
                        requires
                            acc > (u64::MAX - digit) / 16,
                            digit <= 15,
                    ;
                }
            }
            return None;
        }
        assert(acc * 16 + digit <= u64::MAX) by (nonlinear_arith)
            requires
                acc <= (u64::MAX - digit) / 16,
                digit <= 15,
        ;
        acc = acc * 16 + digit;
        i += 1;
    }
    assert(d.subrange(0, n - start) == d);
    Some(acc)
}

} // verus!
