//! Colors of cell formats in spreadsheet files.
use vstd::prelude::*;
use crate::text::chars_of;

verus! {

/// Whether `c` is a hexadecimal digit (either case).
pub open spec fn is_hex_digit(c: char) -> bool {
    ('0' <= c && c <= '9') || ('a' <= c && c <= 'f') || ('A' <= c && c <= 'F')
}

/// The value of a hexadecimal digit.
pub open spec fn hex_digit_value(c: char) -> int {
    if '0' <= c && c <= '9' { (c as int) - 48 } else if 'a' <= c && c <= 'f' { (c as int) - 87 } else { (c as int) - 55 }
}

/// The value of a string of hexadecimal digits.
pub open spec fn hex_value(s: Seq<char>) -> int
    decreases s.len(),
{
    if s.len() == 0 { 0 } else { hex_value(s.drop_last()) * 16 + hex_digit_value(s.last()) }
}

/// Whether every character of `s` is a hexadecimal digit.
pub open spec fn all_hex(s: Seq<char>) -> bool {
    forall|i: int| 0 <= i < s.len() ==> is_hex_digit(#[trigger] s[i])
}

/// What `u32::from_str_radix(s, 16)` accepts: an optional `+`, then at least
/// one hexadecimal digit, with a value that fits in a `u32`.
pub open spec fn hex_u32(s: Seq<char>) -> Option<u32> {
    let digits = if s.len() > 0 && s[0] == '+' { s.drop_first() } else { s };
    if digits.len() == 0 || !all_hex(digits) || hex_value(digits) > u32::MAX {
        None
    } else {
        Some(hex_value(digits) as u32)
    }
}

/// The color that a CSS hex color like `"#FF0000"` names.
pub open spec fn hex_color(s: Seq<char>) -> Option<u32> {
    if s.len() > 0 && s[0] == '#' { hex_u32(s.drop_first()) } else { None }
}

proof fn lemma_hex_value_prefix(s: Seq<char>, j: int)
    requires
        0 <= j <= s.len(),
        forall|i: int| 0 <= i < s.len() ==> is_hex_digit(#[trigger] s[i]),
    ensures
        0 <= hex_value(s.take(j)) <= hex_value(s),
    decreases s.len() - j,
{
    if j < s.len() {
        lemma_hex_value_prefix(s, j + 1);
        let t = s.take(j + 1);
        assert(t.drop_last() == s.take(j));
        assert(is_hex_digit(t.last())) by {
            assert(t.last() == s[j]);
        }
    } else {
        assert(s.take(j) == s);
        lemma_hex_value_nonneg(s);
    }
}

proof fn lemma_hex_value_nonneg(s: Seq<char>)
    requires
        forall|i: int| 0 <= i < s.len() ==> is_hex_digit(#[trigger] s[i]),
    ensures
        hex_value(s) >= 0,
    decreases s.len(),
{
    if s.len() > 0 {
        let t = s.drop_last();
        assert forall|i: int| 0 <= i < t.len() implies is_hex_digit(#[trigger] t[i]) by {
            assert(t[i] == s[i]);
        }
        lemma_hex_value_nonneg(t);
        assert(is_hex_digit(s[s.len() - 1]));
    }
}

/// Parses the hexadecimal digits of `v` from `from` on, as
/// `u32::from_str_radix(_, 16)` does after its optional sign.
fn parse_hex_digits(v: &Vec<char>, from: usize) -> (r: Option<u32>)
    requires
        from <= v@.len(),
    ensures
        ({
            let digits = v@.skip(from as int);
            r == (if digits.len() == 0 || !all_hex(digits) || hex_value(digits) > u32::MAX { None::<u32> } else { Some(hex_value(digits) as u32) })
        }),
{
    let ghost digits = v@.skip(from as int);
    if from == v.len() {
        return None;
    }
    let mut value: u32 = 0;
    let mut i = from;
    while i < v.len()
        invariant
            from <= i <= v@.len(),
            digits == v@.skip(from as int),
            forall|k: int| from <= k < i ==> is_hex_digit(#[trigger] v@[k]),
            value == hex_value(v@.subrange(from as int, i as int)),
        decreases v.len() - i,
    {
        let c = v[i];
        assert(v@.subrange(from as int, i + 1).drop_last() == v@.subrange(from as int, i as int));
        assert(v@.subrange(from as int, i + 1).last() == c);
        let d: u32 = if '0' <= c && c <= '9' {
            (c as u32) - 48
        } else if 'a' <= c && c <= 'f' {
            (c as u32) - 87
        } else if 'A' <= c && c <= 'F' {
            (c as u32) - 55
        } else {
            assert(digits[i - from] == c);
            return None;
        };
        let next = match value.checked_mul(16) {
            Some(m) => m.checked_add(d),
            None => None,
        };
        match next {
            Some(n) => {
                value = n;
            },
            None => {
                proof {
                    assert forall|k: int| from <= k <= i implies is_hex_digit(#[trigger] v@[k]) by {}
                    if forall|k: int| 0 <= k < digits.len() ==> is_hex_digit(#[trigger] digits[k]) {
                        lemma_hex_value_prefix(digits, i + 1 - from);
                        assert(digits.take(i + 1 - from) == v@.subrange(from as int, i + 1));
                    }
                }
                return None;
            },
        }
        i += 1;
    }
    assert(v@.subrange(from as int, i as int) == digits);
    assert forall|k: int| 0 <= k < digits.len() implies is_hex_digit(#[trigger] digits[k]) by {
        assert(digits[k] == v@[from + k]);
    }
    Some(value)
}

/// Parses a CSS hex color string like `"#FF0000"` to its `u32` value.
pub fn parse_hex_color(s: &str) -> (r: Option<u32>)
    ensures
        r == hex_color(s@),
{
    let v = chars_of(s);
    if v.len() == 0 || v[0] != '#' {
        return None;
    }
    let ghost rest = s@.drop_first();
    assert(rest == v@.skip(1));
    assert(rest.len() > 0 ==> rest[0] == v@[1]);
    if v.len() > 1 && v[1] == '+' {
        assert(rest.drop_first() == v@.skip(2));
        parse_hex_digits(&v, 2)
    } else {
        parse_hex_digits(&v, 1)
    }
}

} // verus!
