//! Which texts std's number parsers accept: `usize` from decimal digits and
//! `f64` by the grammar its documentation gives.
use vstd::prelude::*;
use crate::text::chars_of;
use crate::xlsx_reader::{digits_value, is_digit, lemma_digits_nonneg, lemma_digits_value_prefix};

verus! {

/// Whether every character of `s` is an ASCII digit.
pub open spec fn all_digits(s: Seq<char>) -> bool {
    forall|i: int| 0 <= i < s.len() ==> is_digit(#[trigger] s[i])
}

/// `s` without a leading `+` or `-` sign.
pub open spec fn unsigned_part(s: Seq<char>) -> Seq<char> {
    if s.len() > 0 && (s[0] == '+' || s[0] == '-') { s.drop_first() } else { s }
}

/// What `str::parse::<usize>` gives for `s`: the value of an optional `+`
/// followed by one or more decimal digits, when it fits in a `usize`.
pub open spec fn usize_text(s: Seq<char>) -> Option<int> {
    let d = if s.len() > 0 && s[0] == '+' { s.drop_first() } else { s };
    if d.len() > 0 && all_digits(d) && digits_value(d) <= usize::MAX { Some(digits_value(d)) } else { None }
}

/// The value of the digits of `v` from `start` on, when there is at least one,
/// all are decimal digits, and the value is at most `limit`.
fn digits_upto(v: &Vec<char>, start: usize, limit: u64) -> (r: Option<u64>)
    requires
        start <= v@.len(),
    ensures
        ({
            let d = v@.skip(start as int);
            match r {
                Some(n) => d.len() > 0 && all_digits(d) && digits_value(d) == n && n <= limit,
                None => !(d.len() > 0 && all_digits(d) && digits_value(d) <= limit),
            }
        }),
{
    let ghost d = v@.skip(start as int);
    if start >= v.len() {
        return None;
    }
    let mut value: u64 = 0;
    let mut i = start;
    while i < v.len()
        invariant
            start <= i <= v@.len(),
            d == v@.skip(start as int),
            d.len() > 0,
            value <= limit,
            all_digits(v@.subrange(start as int, i as int)),
            value == digits_value(v@.subrange(start as int, i as int)),
        decreases v.len() - i,
    {
        let c = v[i];
        assert(v@.subrange(start as int, i + 1).drop_last() =~= v@.subrange(start as int, i as int));
        assert(v@.subrange(start as int, i + 1).last() == c);
        if !('0' <= c && c <= '9') {
            assert(d[i - start] == c);
            assert(!is_digit(d[i - start]));
            assert(!all_digits(d));
            return None;
        }
        let digit = (c as u32 - 48) as u64;
        let next = match value.checked_mul(10) {
            Some(m) => m.checked_add(digit),
            None => None,
        };
        let fits = match next {
            Some(n) => n <= limit,
            None => false,
        };
        if !fits {
            proof {
                let w = v@.subrange(start as int, i + 1);
                assert(all_digits(w));
                assert(digits_value(w) == value * 10 + digit);
                assert(digits_value(w) > limit);
                if all_digits(d) {
                    lemma_digits_value_prefix(d, i + 1 - start);
                    assert(d.take(i + 1 - start) =~= v@.subrange(start as int, i + 1));
                    lemma_digits_nonneg(v@.subrange(start as int, i as int));
                }
            }
            return None;
        }
        value = next.unwrap();
        i += 1;
    }
    assert(v@.subrange(start as int, v@.len() as int) =~= d);
    Some(value)
}

/// Parses `s` as `str::parse::<usize>` does.
pub fn parse_usize(s: &str) -> (r: Option<usize>)
    ensures
        match r {
            Some(n) => usize_text(s@) == Some(n as int),
            None => usize_text(s@) is None,
        },
{
    let v = chars_of(s);
    let start: usize = if v.len() > 0 && v[0] == '+' { 1 } else { 0 };
    assert(v@.skip(start as int) == (if s@.len() > 0 && s@[0] == '+' { s@.drop_first() } else { s@ }));
    match digits_upto(&v, start, usize::MAX as u64) {
        Some(n) => Some(n as usize),
        None => None,
    }
}

/// What `str::parse::<u32>` gives for `s`: the value of an optional `+`
/// followed by one or more decimal digits, when it fits in a `u32`.
pub open spec fn u32_text(s: Seq<char>) -> Option<int> {
    let d = if s.len() > 0 && s[0] == '+' { s.drop_first() } else { s };
    if d.len() > 0 && all_digits(d) && digits_value(d) <= u32::MAX { Some(digits_value(d)) } else { None }
}

/// Parses `s` as `str::parse::<u32>` does.
pub fn parse_u32(s: &str) -> (r: Option<u32>)
    ensures
        match r {
            Some(n) => u32_text(s@) == Some(n as int),
            None => u32_text(s@) is None,
        },
{
    parse_u32_chars(&chars_of(s))
}

/// Parses the characters `v` as `str::parse::<u32>` does.
pub fn parse_u32_chars(v: &Vec<char>) -> (r: Option<u32>)
    ensures
        match r {
            Some(n) => u32_text(v@) == Some(n as int),
            None => u32_text(v@) is None,
        },
{
    let start: usize = if v.len() > 0 && v[0] == '+' { 1 } else { 0 };
    assert(v@.skip(start as int) == (if v@.len() > 0 && v@[0] == '+' { v@.drop_first() } else { v@ }));
    match digits_upto(v, start, u32::MAX as u64) {
        Some(n) => Some(n as u32),
        None => None,
    }
}

/// What `str::parse::<i32>` gives for `s`: an optional `+` or `-` followed
/// by one or more decimal digits, when the signed value fits in an `i32`.
pub open spec fn i32_text(s: Seq<char>) -> Option<int> {
    let d = unsigned_part(s);
    let negative = s.len() > 0 && s[0] == '-';
    let value = if negative { -digits_value(d) } else { digits_value(d) };
    if d.len() > 0 && all_digits(d) && i32::MIN <= value <= i32::MAX { Some(value) } else { None }
}

/// Parses `s` as `str::parse::<i32>` does.
pub fn parse_i32(s: &str) -> (r: Option<i32>)
    ensures
        match r {
            Some(n) => i32_text(s@) == Some(n as int),
            None => i32_text(s@) is None,
        },
{
    parse_i32_chars(&chars_of(s))
}

/// Parses the characters `v` as `str::parse::<i32>` does.
pub fn parse_i32_chars(v: &Vec<char>) -> (r: Option<i32>)
    ensures
        match r {
            Some(n) => i32_text(v@) == Some(n as int),
            None => i32_text(v@) is None,
        },
{
    let negative = v.len() > 0 && v[0] == '-';
    let start: usize = if v.len() > 0 && (v[0] == '+' || v[0] == '-') { 1 } else { 0 };
    assert(v@.skip(start as int) == unsigned_part(v@));
    let limit: u64 = if negative { 2147483648 } else { 2147483647 };
    match digits_upto(v, start, limit) {
        Some(n) => {
            if negative {
                Some((0 - (n as i64)) as i32)
            } else {
                Some(n as i32)
            }
        },
        None => {
            proof {
                lemma_digits_nonneg_if(unsigned_part(v@));
            }
            None
        },
    }
}

/// The value of digits is never negative.
proof fn lemma_digits_nonneg_if(d: Seq<char>)
    ensures
        all_digits(d) ==> digits_value(d) >= 0,
{
    if all_digits(d) {
        lemma_digits_nonneg(d);
    }
}

/// Whether `t` is the word `word` (lowercase ASCII) up to ASCII case.
pub open spec fn ascii_word(t: Seq<char>, word: Seq<char>) -> bool {
    t.len() == word.len() && forall|i: int| 0 <= i < t.len() ==> (#[trigger] t[i] == word[i] || ('A' <= t[i] && t[i] <= 'Z' && (t[i] as u32) + 32 == word[i] as u32))
}

/// Whether `m` is a decimal mantissa: digits with at most one `.`, and at
/// least one digit.
pub open spec fn mantissa_syntax(m: Seq<char>) -> bool {
    ||| m.len() > 0 && all_digits(m)
    ||| exists|p: int| 0 <= p < m.len() && m[p] == '.' && all_digits(#[trigger] m.take(p)) && all_digits(m.skip(p + 1)) && m.len() > 1
}

/// Whether `x` is an exponent's digits: an optional sign, then one or more digits.
pub open spec fn exponent_syntax(x: Seq<char>) -> bool {
    unsigned_part(x).len() > 0 && all_digits(unsigned_part(x))
}

/// Whether `t` is a number: a mantissa, then optionally `e` or `E` and an exponent.
pub open spec fn number_syntax(t: Seq<char>) -> bool {
    ||| mantissa_syntax(t)
    ||| exists|k: int| 0 <= k < t.len() && (t[k] == 'e' || t[k] == 'E') && mantissa_syntax(#[trigger] t.take(k)) && exponent_syntax(t.skip(k + 1))
}

/// Whether `str::parse::<f64>` accepts `s`: by its documented grammar, an
/// optional sign, then `inf`, `infinity`, `nan` (any case) or a number.
pub open spec fn float_syntax(s: Seq<char>) -> bool {
    let t = unsigned_part(s);
    ||| ascii_word(t, "inf"@)
    ||| ascii_word(t, "infinity"@)
    ||| ascii_word(t, "nan"@)
    ||| number_syntax(t)
}

/// The characters of `v` from `lo` to `hi`.
fn sub_chars(v: &Vec<char>, lo: usize, hi: usize) -> (r: Vec<char>)
    requires
        lo <= hi <= v@.len(),
    ensures
        r@ == v@.subrange(lo as int, hi as int),
{
    let mut r: Vec<char> = Vec::new();
    let mut i = lo;
    while i < hi
        invariant
            lo <= i <= hi <= v@.len(),
            r@ == v@.subrange(lo as int, i as int),
        decreases hi - i,
    {
        r.push(v[i]);
        i += 1;
    }
    r
}

/// Whether every character of `v` is an ASCII digit.
fn digits_only(v: &Vec<char>) -> (b: bool)
    ensures
        b == all_digits(v@),
{
    let mut i: usize = 0;
    while i < v.len()
        invariant
            i <= v@.len(),
            forall|j: int| 0 <= j < i ==> is_digit(#[trigger] v@[j]),
        decreases v.len() - i,
    {
        if !('0' <= v[i] && v[i] <= '9') {
            return false;
        }
        i += 1;
    }
    true
}

/// The position of the first `a` or `b` in `v` (`v.len()` when none).
fn first_of(v: &Vec<char>, a: char, b: char) -> (k: usize)
    ensures
        k <= v@.len(),
        forall|j: int| 0 <= j < k ==> #[trigger] v@[j] != a && v@[j] != b,
        k < v@.len() ==> v@[k as int] == a || v@[k as int] == b,
{
    let mut k: usize = 0;
    while k < v.len() && v[k] != a && v[k] != b
        invariant
            k <= v@.len(),
            forall|j: int| 0 <= j < k ==> #[trigger] v@[j] != a && v@[j] != b,
        decreases v.len() - k,
    {
        k += 1;
    }
    k
}

/// Whether `m` is a decimal mantissa.
fn mantissa_ok(m: &Vec<char>) -> (b: bool)
    ensures
        b == mantissa_syntax(m@),
{
    let p = first_of(m, '.', '.');
    if p == m.len() {
        proof {
            assert forall|q: int| 0 <= q < m@.len() && m@[q] == '.' implies !all_digits(#[trigger] m@.take(q)) by {
                assert(m@[q] != '.');
            }
        }
        return m.len() > 0 && digits_only(m);
    }
    let head = sub_chars(m, 0, p);
    let tail = sub_chars(m, p + 1, m.len());
    assert(head@ =~= m@.take(p as int));
    assert(tail@ =~= m@.skip(p + 1));
    proof {
        assert(!is_digit(m@[p as int]));
        assert(!all_digits(m@));
        assert forall|q: int| 0 <= q < m@.len() && m@[q] == '.' && q != p implies !all_digits(#[trigger] m@.take(q)) by {
            if q > p {
                assert(m@.take(q)[p as int] == '.');
            }
        }
    }
    digits_only(&head) && digits_only(&tail) && m.len() > 1
}

/// Whether `x` is an exponent's digits.
fn exponent_ok(x: &Vec<char>) -> (b: bool)
    ensures
        b == exponent_syntax(x@),
{
    if x.len() > 0 && (x[0] == '+' || x[0] == '-') {
        let rest = sub_chars(x, 1, x.len());
        assert(rest@ =~= x@.drop_first());
        rest.len() > 0 && digits_only(&rest)
    } else {
        x.len() > 0 && digits_only(x)
    }
}

/// A mantissa holds no exponent marker.
proof fn lemma_mantissa_no_e(m: Seq<char>, j: int)
    requires
        mantissa_syntax(m),
        0 <= j < m.len(),
    ensures
        m[j] != 'e' && m[j] != 'E',
{
    if !(m.len() > 0 && all_digits(m)) {
        let p = choose|p: int| 0 <= p < m.len() && m[p] == '.' && all_digits(#[trigger] m.take(p)) && all_digits(m.skip(p + 1)) && m.len() > 1;
        if j < p {
            assert(m.take(p)[j] == m[j]);
        } else if j > p {
            assert(m.skip(p + 1)[j - p - 1] == m[j]);
        }
    }
}

/// Whether `t` is a number with an optional exponent.
fn number_ok(t: &Vec<char>) -> (b: bool)
    ensures
        b == number_syntax(t@),
{
    let k = first_of(t, 'e', 'E');
    if k == t.len() {
        proof {
            assert forall|q: int| 0 <= q < t@.len() && (t@[q] == 'e' || t@[q] == 'E') implies !mantissa_syntax(#[trigger] t@.take(q)) by {
                assert(t@[q] != 'e' && t@[q] != 'E');
            }
        }
        return mantissa_ok(t);
    }
    let head = sub_chars(t, 0, k);
    let tail = sub_chars(t, k + 1, t.len());
    assert(head@ =~= t@.take(k as int));
    assert(tail@ =~= t@.skip(k + 1));
    proof {
        if mantissa_syntax(t@) {
            lemma_mantissa_no_e(t@, k as int);
        }
        assert forall|q: int| 0 <= q < t@.len() && (t@[q] == 'e' || t@[q] == 'E') && q != k implies !mantissa_syntax(#[trigger] t@.take(q)) by {
            if q > k {
                assert(t@.take(q)[k as int] == t@[k as int]);
                if mantissa_syntax(t@.take(q)) {
                    lemma_mantissa_no_e(t@.take(q), k as int);
                }
            }
        }
    }
    mantissa_ok(&head) && exponent_ok(&tail)
}

/// Whether `t` is `word` up to ASCII case.
fn word_ok(t: &Vec<char>, word: &str) -> (b: bool)
    ensures
        b == ascii_word(t@, word@),
{
    let w = chars_of(word);
    if t.len() != w.len() {
        return false;
    }
    let mut i: usize = 0;
    while i < t.len()
        invariant
            t@.len() == w@.len(),
            w@ == word@,
            i <= t@.len(),
            forall|j: int| 0 <= j < i ==> (#[trigger] t@[j] == w@[j] || ('A' <= t@[j] && t@[j] <= 'Z' && (t@[j] as u32) + 32 == w@[j] as u32)),
        decreases t.len() - i,
    {
        let c = t[i];
        let d = w[i];
        if !(c == d || ('A' <= c && c <= 'Z' && (c as u32) + 32 == d as u32)) {
            return false;
        }
        i += 1;
    }
    true
}

/// Whether `str::parse::<f64>` accepts `s` (see [`float_syntax`]).
pub fn is_float_text(s: &str) -> (b: bool)
    ensures
        b == float_syntax(s@),
{
    let v = chars_of(s);
    let start: usize = if v.len() > 0 && (v[0] == '+' || v[0] == '-') { 1 } else { 0 };
    let t = sub_chars(&v, start, v.len());
    assert(t@ =~= unsigned_part(s@));
    proof {
        reveal_strlit("inf");
        reveal_strlit("infinity");
        reveal_strlit("nan");
    }
    word_ok(&t, "inf") || word_ok(&t, "infinity") || word_ok(&t, "nan") || number_ok(&t)
}

} // verus!
