//! Cell references and XML names of spreadsheet files.
use vstd::prelude::*;
use vstd::utf8::{valid_utf8, decode_utf8};
use crate::text::{chars_of, string_from_chars, decimal, digit_char, signed_padded, zero_padded, push_signed_padded, push_zero_padded};
use crate::numeric_text::{all_digits, i32_text, u32_text, unsigned_part, parse_i32_chars, parse_u32_chars};
use crate::xlsx_chart::{ascii_lower, lemma_split_nonempty, split_chars, split_spec, views_of};
use crate::calendar::{law_date_roundtrip, valid_date, date_timestamp, date_to_unix_timestamp, in_timestamp_range, timestamp_date_relation, timestamp_in_range, unix_timestamp_to_date};
use crate::pdf_export::{column_letters, letter};
use crate::xml::{attr_text, attr_text_exact, attr_text_local, last_attr_exact, last_attr_local, local_is, local_of, xml_events, xml_event_stream, XmlEvent, XmlTag};
use crate::text_map::TextMap;
use vstd::utf8::encode_utf8;

verus! {

/// Whether `c` is an ASCII digit.
pub open spec fn is_digit(c: char) -> bool {
    '0' <= c && c <= '9'
}

/// Whether `c` is an ASCII letter.
pub open spec fn is_alpha(c: char) -> bool {
    ('a' <= c && c <= 'z') || ('A' <= c && c <= 'Z')
}

/// The position of an ASCII letter in the alphabet, from 1 (either case).
pub open spec fn letter_value(c: char) -> int {
    if 'a' <= c && c <= 'z' { (c as int) - 96 } else { (c as int) - 64 }
}

/// The value of column letters in bijective base 26 (`A` = 1, `Z` = 26, `AA` = 27).
pub open spec fn col_value(s: Seq<char>) -> int
    decreases s.len(),
{
    if s.len() == 0 { 0 } else { col_value(s.drop_last()) * 26 + letter_value(s.last()) }
}

/// The value of a string of decimal digits.
pub open spec fn digits_value(s: Seq<char>) -> int
    decreases s.len(),
{
    if s.len() == 0 { 0 } else { digits_value(s.drop_last()) * 10 + ((s.last() as int) - 48) }
}

/// The index of the first ASCII digit of `s` (`s.len()` when there is none).
pub open spec fn digit_index(s: Seq<char>) -> nat
    decreases s.len(),
{
    if s.len() == 0 || is_digit(s[0]) { 0 } else { 1 + digit_index(s.drop_first()) }
}

/// The 0-based `(row, column)` that an A1-style reference names, or `None` for
/// a malformed one: letters, then a row number from 1 that fits in a `u32`.
pub open spec fn a1_ref(s: Seq<char>) -> Option<(int, int)> {
    let fd = digit_index(s) as int;
    let letters = s.take(fd);
    let digits = s.skip(fd);
    if fd >= s.len() || fd == 0 {
        None
    } else if !(forall|i: int| 0 <= i < letters.len() ==> is_alpha(#[trigger] letters[i])) {
        None
    } else if !(forall|i: int| 0 <= i < digits.len() ==> is_digit(#[trigger] digits[i]))
        || digits_value(digits) > u32::MAX || digits_value(digits) == 0 {
        None
    } else {
        Some((digits_value(digits) - 1, col_value(letters) - 1))
    }
}

/// Whether the column letters of `s` that are read before a non-letter stops
/// the reading keep the column value within a `u32`; they are read only when
/// a digit follows them.
pub open spec fn a1_letters_fit(s: Seq<char>) -> bool {
    digit_index(s) < s.len() ==> forall|j: int| 0 <= j <= digit_index(s) && j <= s.len()
        && (forall|i: int| 0 <= i < j ==> is_alpha(#[trigger] s[i]))
        ==> #[trigger] col_value(s.take(j)) <= u32::MAX
}

proof fn lemma_digit_index(s: Seq<char>)
    ensures
        digit_index(s) <= s.len(),
        forall|i: int| 0 <= i < digit_index(s) ==> !is_digit(#[trigger] s[i]),
        digit_index(s) < s.len() ==> is_digit(s[digit_index(s) as int]),
    decreases s.len(),
{
    if s.len() > 0 && !is_digit(s[0]) {
        let t = s.drop_first();
        lemma_digit_index(t);
        assert forall|i: int| 0 <= i < digit_index(s) implies !is_digit(#[trigger] s[i]) by {
            if i > 0 {
                assert(s[i] == t[i - 1]);
            }
        }
        if digit_index(s) < s.len() {
            assert(s[digit_index(s) as int] == t[digit_index(t) as int]);
        }
    }
}

pub proof fn lemma_digits_value_prefix(s: Seq<char>, j: int)
    requires
        0 <= j <= s.len(),
        forall|i: int| 0 <= i < s.len() ==> is_digit(#[trigger] s[i]),
    ensures
        0 <= digits_value(s.take(j)) <= digits_value(s),
    decreases s.len() - j,
{
    if j < s.len() {
        lemma_digits_value_prefix(s, j + 1);
        let t = s.take(j + 1);
        assert(t.drop_last() == s.take(j));
        assert(is_digit(t.last())) by {
            assert(t.last() == s[j]);
        }
    } else {
        assert(s.take(j) == s);
        lemma_digits_nonneg(s);
    }
}

pub proof fn lemma_digits_nonneg(s: Seq<char>)
    requires
        forall|i: int| 0 <= i < s.len() ==> is_digit(#[trigger] s[i]),
    ensures
        digits_value(s) >= 0,
    decreases s.len(),
{
    if s.len() > 0 {
        let t = s.drop_last();
        assert forall|i: int| 0 <= i < t.len() implies is_digit(#[trigger] t[i]) by {
            assert(t[i] == s[i]);
        }
        lemma_digits_nonneg(t);
        assert(is_digit(s[s.len() - 1]));
    }
}

/// Whether the column letters of `cell_ref` keep the column within a `u32`
/// (see [`a1_letters_fit`]), so that [`parse_a1_ref`] can read it.
pub fn a1_letters_fit_exec(cell_ref: &str) -> (b: bool)
    ensures
        b == a1_letters_fit(cell_ref@),
{
    let v = chars_of(cell_ref);
    let ghost s = v@;
    proof {
        lemma_digit_index(s);
    }
    let mut fd: usize = 0;
    while fd < v.len() && !('0' <= v[fd] && v[fd] <= '9')
        invariant
            fd <= s.len(),
            s == v@,
            fd <= digit_index(s),
            digit_index(s) <= s.len(),
            forall|k: int| 0 <= k < digit_index(s) ==> !is_digit(#[trigger] s[k]),
            digit_index(s) < s.len() ==> is_digit(s[digit_index(s) as int]),
        decreases v.len() - fd,
    {
        fd += 1;
    }
    if fd == v.len() {
        assert(digit_index(s) == s.len());
        return true;
    }
    assert(digit_index(s) < s.len());
    let mut col: u64 = 0;
    let mut i: usize = 0;
    while i < v.len()
        invariant
            digit_index(s) < s.len(),
            i <= s.len(),
            s == v@,
            s == cell_ref@,
            i <= digit_index(s),
            digit_index(s) <= s.len(),
            forall|k: int| 0 <= k < digit_index(s) ==> !is_digit(#[trigger] s[k]),
            digit_index(s) < s.len() ==> is_digit(s[digit_index(s) as int]),
            forall|k: int| 0 <= k < i ==> is_alpha(#[trigger] s[k]),
            col == col_value(s.take(i as int)),
            col <= u32::MAX,
            forall|j: int| 0 <= j <= i ==> #[trigger] col_value(s.take(j)) <= u32::MAX,
        ensures
            i <= s.len(),
            i <= digit_index(s),
            digit_index(s) < s.len(),
            forall|k: int| 0 <= k < i ==> is_alpha(#[trigger] s[k]),
            forall|j: int| 0 <= j <= i ==> #[trigger] col_value(s.take(j)) <= u32::MAX,
            i == s.len() || i == digit_index(s) || !is_alpha(s[i as int]),
        decreases v.len() - i,
    {
        let ch = v[i];
        if '0' <= ch && ch <= '9' {
            assert(i == digit_index(s));
            break;
        }
        if !(('a' <= ch && ch <= 'z') || ('A' <= ch && ch <= 'Z')) {
            assert(!is_alpha(s[i as int]));
            break;
        }
        assert(s.take(i + 1).drop_last() == s.take(i as int));
        assert(s.take(i + 1).last() == ch);
        let up: u64 = if 'a' <= ch && ch <= 'z' { (ch as u64) - 96 } else { (ch as u64) - 64 };
        col = col * 26 + up;
        if col > 4294967295 {
            assert(col_value(s.take(i + 1)) > u32::MAX);
            assert(forall|k: int| 0 <= k < i + 1 ==> is_alpha(#[trigger] s[k]));
            return false;
        }
        i += 1;
    }
    assert forall|j: int| 0 <= j <= digit_index(s) && j <= s.len()
        && (forall|k: int| 0 <= k < j ==> is_alpha(#[trigger] s[k]))
        implies #[trigger] col_value(s.take(j)) <= u32::MAX by {
        if j > i {
            assert(is_alpha(s[i as int]));
        }
    }
    true
}

/// Parses an A1-style cell reference (e.g. `"A1"`, `"AB123"`) to a 0-based
/// `(row, col)`; `None` when it is malformed.
pub fn parse_a1_ref(cell_ref: &str) -> (r: Option<(u32, u32)>)
    requires
        a1_letters_fit(cell_ref@),
    ensures
        match r {
            Some((row, col)) => a1_ref(cell_ref@) == Some((row as int, col as int)),
            None => a1_ref(cell_ref@) is None,
        },
{
    let v = chars_of(cell_ref);
    let ghost s = v@;
    proof {
        lemma_digit_index(s);
    }
    let mut fd: usize = 0;
    while fd < v.len() && !('0' <= v[fd] && v[fd] <= '9')
        invariant
            fd <= s.len(),
            s == v@,
            fd <= digit_index(s),
            digit_index(s) <= s.len(),
            forall|i: int| 0 <= i < digit_index(s) ==> !is_digit(#[trigger] s[i]),
            digit_index(s) < s.len() ==> is_digit(s[digit_index(s) as int]),
        decreases v.len() - fd,
    {
        fd += 1;
    }
    assert(fd == digit_index(s));
    if fd >= v.len() || fd == 0 {
        return None;
    }
    let ghost letters = s.take(fd as int);
    let ghost digits = s.skip(fd as int);
    let mut col: u32 = 0;
    let mut i: usize = 0;
    while i < fd
        invariant
            i <= fd,
            fd == digit_index(s),
            fd < s.len(),
            fd > 0,
            s == v@,
            s == cell_ref@,
            letters == s.take(fd as int),
            a1_letters_fit(s),
            forall|k: int| 0 <= k < i ==> is_alpha(#[trigger] s[k]),
            col == col_value(s.take(i as int)),
        decreases fd - i,
    {
        let ch = v[i];
        if !(('a' <= ch && ch <= 'z') || ('A' <= ch && ch <= 'Z')) {
            assert(letters.len() == fd && letters[i as int] == ch);
            assert(!is_alpha(letters[i as int]));
            assert(a1_ref(s) is None);
            return None;
        }
        assert(s.take(i + 1).drop_last() == s.take(i as int));
        assert(s.take(i + 1).last() == ch);
        assert(forall|k: int| 0 <= k < i + 1 ==> is_alpha(#[trigger] s[k]));
        assert(col_value(s.take(i + 1)) <= u32::MAX);
        let up: u32 = if 'a' <= ch && ch <= 'z' { (ch as u32) - 96 } else { (ch as u32) - 64 };
        col = col * 26 + up;
        i += 1;
    }
    assert(letters == s.take(i as int));
    assert forall|k: int| 0 <= k < letters.len() implies is_alpha(#[trigger] letters[k]) by {
        assert(letters[k] == s[k]);
    }
    assert(col >= 1) by {
        assert(s.take(fd as int).drop_last() == s.take(fd - 1));
        assert(is_alpha(s[fd - 1]));
        lemma_col_value_nonneg(s.take(fd - 1));
    }
    let col0 = col - 1;
    let mut row: u32 = 0;
    let mut j: usize = fd;
    while j < v.len()
        invariant
            fd <= j <= s.len(),
            fd < s.len(),
            fd > 0,
            fd == digit_index(s),
            s == v@,
            s == cell_ref@,
            digits == s.skip(fd as int),
            forall|k: int| fd <= k < j ==> is_digit(#[trigger] s[k]),
            row == digits_value(s.subrange(fd as int, j as int)),
        decreases v.len() - j,
    {
        let ch = v[j];
        assert(s.subrange(fd as int, j + 1).drop_last() == s.subrange(fd as int, j as int));
        assert(s.subrange(fd as int, j + 1).last() == ch);
        if !('0' <= ch && ch <= '9') {
            assert(digits[j - fd] == ch);
            assert(!is_digit(digits[j - fd]));
            assert(a1_ref(s) is None);
            return None;
        }
        let d: u32 = (ch as u32) - 48;
        match row.checked_mul(10) {
            None => {
                proof {
                    lemma_digits_tail_bound(s, fd as int, j as int);
                    assert(a1_ref(s) is None);
                }
                return None;
            },
            Some(m) => match m.checked_add(d) {
                None => {
                    proof {
                        lemma_digits_tail_bound(s, fd as int, j as int);
                        assert(a1_ref(s) is None);
                    }
                    return None;
                },
                Some(n) => {
                    row = n;
                },
            },
        }
        j += 1;
    }
    assert(s.subrange(fd as int, j as int) == digits);
    assert forall|k: int| 0 <= k < digits.len() implies is_digit(#[trigger] digits[k]) by {
        assert(digits[k] == s[fd + k]);
    }
    if row == 0 {
        return None;
    }
    Some((row - 1, col0))
}

proof fn lemma_col_value_nonneg(s: Seq<char>)
    requires
        forall|i: int| 0 <= i < s.len() ==> is_alpha(#[trigger] s[i]),
    ensures
        col_value(s) >= 0,
    decreases s.len(),
{
    if s.len() > 0 {
        let t = s.drop_last();
        assert forall|i: int| 0 <= i < t.len() implies is_alpha(#[trigger] t[i]) by {
            assert(t[i] == s[i]);
        }
        lemma_col_value_nonneg(t);
        assert(is_alpha(s[s.len() - 1]));
    }
}

/// When the digits read so far already give too large a number, the whole
/// number is too large, or a later character is not a digit.
proof fn lemma_digits_tail_bound(s: Seq<char>, fd: int, j: int)
    requires
        0 <= fd <= j < s.len(),
        forall|k: int| fd <= k <= j ==> is_digit(#[trigger] s[k]),
        digits_value(s.subrange(fd, j + 1)) > u32::MAX,
    ensures
        !(forall|k: int| 0 <= k < s.skip(fd).len() ==> is_digit(#[trigger] s.skip(fd)[k]))
            || digits_value(s.skip(fd)) > u32::MAX,
{
    let digits = s.skip(fd);
    if forall|k: int| 0 <= k < digits.len() ==> is_digit(#[trigger] digits[k]) {
        lemma_digits_value_prefix(digits, j + 1 - fd);
        assert(digits.take(j + 1 - fd) == s.subrange(fd, j + 1));
    }
}


proof fn lemma_column_letters(c: nat)
    ensures
        column_letters(c).len() >= 1,
        forall|i: int| 0 <= i < column_letters(c).len() ==> 'A' <= #[trigger] column_letters(c)[i] && column_letters(c)[i] <= 'Z',
        col_value(column_letters(c)) == c + 1,
    decreases c,
{
    assert(letter((c % 26) as int) as int == 65 + c % 26);
    if c < 26 {
        let l = column_letters(c);
        assert(l.drop_last() == Seq::<char>::empty());
        assert(l.last() == letter(c as int));
        assert(letter_value(l.last()) == c + 1);
        assert(col_value(l) == col_value(l.drop_last()) * 26 + letter_value(l.last()));
    } else {
        let q = (c / 26 - 1) as nat;
        lemma_column_letters(q);
        let l = column_letters(c);
        assert(l.drop_last() == column_letters(q));
        assert(l.last() == letter((c % 26) as int));
        assert(letter_value(l.last()) == c % 26 + 1);
        assert(col_value(l) == col_value(column_letters(q)) * 26 + (c % 26) + 1);
        assert((q + 1) * 26 + c % 26 == c) by (nonlinear_arith)
            requires q == c / 26 - 1, c >= 26;
        assert forall|i: int| 0 <= i < l.len() implies 'A' <= #[trigger] l[i] && l[i] <= 'Z' by {
            if i < l.len() - 1 {
                assert(l[i] == column_letters(q)[i]);
            }
        }
    }
}

proof fn lemma_decimal_digits(n: nat)
    ensures
        decimal(n).len() >= 1,
        forall|i: int| 0 <= i < decimal(n).len() ==> is_digit(#[trigger] decimal(n)[i]),
        digits_value(decimal(n)) == n,
    decreases n,
{
    let r = (n % 10) as int;
    assert(digit_char(r) as int == 48 + r) by {
        if r == 0 {} else if r == 1 {} else if r == 2 {} else if r == 3 {} else if r == 4 {}
        else if r == 5 {} else if r == 6 {} else if r == 7 {} else if r == 8 {} else {}
    }
    if n < 10 {
        let d = decimal(n);
        assert(d.drop_last() == Seq::<char>::empty());
        assert(d.last() == digit_char(n as int));
        assert(digits_value(d) == digits_value(d.drop_last()) * 10 + ((d.last() as int) - 48));
    } else {
        lemma_decimal_digits(n / 10);
        let d = decimal(n);
        assert(d.drop_last() == decimal(n / 10));
        assert forall|i: int| 0 <= i < d.len() implies is_digit(#[trigger] d[i]) by {
            if i < d.len() - 1 {
                assert(d[i] == decimal(n / 10)[i]);
            }
        }
    }
}

proof fn lemma_col_value_prefix(s: Seq<char>, j: int)
    requires
        0 <= j <= s.len(),
        forall|i: int| 0 <= i < s.len() ==> is_alpha(#[trigger] s[i]),
    ensures
        col_value(s.take(j)) <= col_value(s),
    decreases s.len() - j,
{
    if j < s.len() {
        lemma_col_value_prefix(s, j + 1);
        let t = s.take(j + 1);
        assert(t.drop_last() == s.take(j));
        assert(is_alpha(t.last())) by {
            assert(t.last() == s[j]);
        }
        assert forall|i: int| 0 <= i < s.take(j).len() implies is_alpha(#[trigger] s.take(j)[i]) by {
            assert(s.take(j)[i] == s[i]);
        }
        lemma_col_value_nonneg(s.take(j));
    } else {
        assert(s.take(j) == s);
    }
}

proof fn lemma_digit_index_concat(a: Seq<char>, b: Seq<char>)
    requires
        forall|i: int| 0 <= i < a.len() ==> !is_digit(#[trigger] a[i]),
        b.len() > 0,
        is_digit(b[0]),
    ensures
        digit_index(a + b) == a.len(),
    decreases a.len(),
{
    if a.len() == 0 {
        assert(a + b == b);
    } else {
        assert((a + b)[0] == a[0]);
        assert((a + b).drop_first() == a.drop_first() + b);
        assert forall|i: int| 0 <= i < a.drop_first().len() implies !is_digit(#[trigger] a.drop_first()[i]) by {
            assert(a.drop_first()[i] == a[i + 1]);
        }
        lemma_digit_index_concat(a.drop_first(), b);
    }
}

/// `l` with its ASCII capitals in lowercase.
pub open spec fn lower_letters(l: Seq<char>) -> Seq<char> {
    l.map_values(|c: char| ascii_lower(c))
}

/// Lowercase column letters have the value of their uppercase letters.
proof fn lemma_col_value_lower(l: Seq<char>)
    requires
        forall|i: int| 0 <= i < l.len() ==> 'A' <= #[trigger] l[i] && l[i] <= 'Z',
    ensures
        col_value(lower_letters(l)) == col_value(l),
        forall|i: int| 0 <= i < l.len() ==> 'a' <= #[trigger] lower_letters(l)[i]
            && lower_letters(l)[i] <= 'z',
    decreases l.len(),
{
    let m = lower_letters(l);
    if l.len() > 0 {
        assert(m.drop_last() =~= lower_letters(l.drop_last()));
        lemma_col_value_lower(l.drop_last());
        let c = l.last();
        assert(m.last() == ascii_lower(c));
        assert(ascii_lower(c) as int == c as int + 32);
    }
    assert forall|i: int| 0 <= i < l.len() implies 'a' <= #[trigger] m[i] && m[i] <= 'z' by {
        assert(m[i] == ascii_lower(l[i]));
        assert(ascii_lower(l[i]) as int == l[i] as int + 32);
    }
}

/// A reference written with a column's letters in lowercase and a 1-based
/// row number parses back to that 0-based row and column, as the uppercase
/// one does.
pub proof fn law_a1_ref_lowercase(row: nat, col: nat)
    requires
        row + 1 <= u32::MAX,
        col + 1 <= u32::MAX,
    ensures
        a1_letters_fit(lower_letters(column_letters(col)) + decimal(row + 1)),
        a1_ref(lower_letters(column_letters(col)) + decimal(row + 1)) == Some((row as int, col as int)),
{
    let u = column_letters(col);
    let l = lower_letters(u);
    let d = decimal(row + 1);
    let s = l + d;
    lemma_column_letters(col);
    lemma_col_value_lower(u);
    lemma_decimal_digits(row + 1);
    assert forall|i: int| 0 <= i < l.len() implies !is_digit(#[trigger] l[i]) && is_alpha(l[i]) by {
        assert('a' <= l[i] && l[i] <= 'z');
    }
    lemma_digit_index_concat(l, d);
    assert(s.take(l.len() as int) == l);
    assert(s.skip(l.len() as int) == d);
    assert forall|j: int| 0 <= j <= digit_index(s) && j <= s.len()
        && (forall|i: int| 0 <= i < j ==> is_alpha(#[trigger] s[i]))
        implies #[trigger] col_value(s.take(j)) <= u32::MAX by {
        assert(s.take(j) == l.take(j));
        lemma_col_value_prefix(l, j);
    }
}

/// A reference without a digit can always be read (and is refused): its
/// letters are never turned into a column.
pub proof fn law_digit_free_refs_are_read(s: Seq<char>)
    requires
        forall|i: int| 0 <= i < s.len() ==> !is_digit(#[trigger] s[i]),
    ensures
        a1_letters_fit(s),
        a1_ref(s) is None,
{
    lemma_digit_index(s);
}

/// A reference is refused when it has no digit, begins with a digit, has a
/// character other than a letter before its first digit or other than a
/// digit after it, or names row 0.
pub proof fn law_a1_ref_rejects(s: Seq<char>)
    ensures
        (forall|i: int| 0 <= i < s.len() ==> !is_digit(#[trigger] s[i])) ==> a1_ref(s) is None,
        s.len() > 0 && is_digit(s[0]) ==> a1_ref(s) is None,
        (exists|k: int| 0 <= k < digit_index(s) && !is_alpha(#[trigger] s[k])) ==> a1_ref(s) is None,
        (exists|k: int| digit_index(s) <= k < s.len() && !is_digit(#[trigger] s[k])) ==> a1_ref(s) is None,
        (forall|i: int| digit_index(s) <= i < s.len() ==> is_digit(#[trigger] s[i]))
            && digits_value(s.skip(digit_index(s) as int)) == 0 ==> a1_ref(s) is None,
{
    lemma_digit_index(s);
    let fd = digit_index(s) as int;
    if exists|k: int| 0 <= k < fd && !is_alpha(#[trigger] s[k]) {
        let k = choose|k: int| 0 <= k < fd && !is_alpha(#[trigger] s[k]);
        assert(s.take(fd)[k] == s[k]);
    }
    if exists|k: int| fd <= k < s.len() && !is_digit(#[trigger] s[k]) {
        let k = choose|k: int| fd <= k < s.len() && !is_digit(#[trigger] s[k]);
        assert(s.skip(fd)[k - fd] == s[k]);
    }
    if forall|i: int| fd <= i < s.len() ==> is_digit(#[trigger] s[i]) {
        assert forall|i: int| 0 <= i < s.skip(fd).len() implies is_digit(#[trigger] s.skip(fd)[i]) by {
            assert(s.skip(fd)[i] == s[i + fd]);
        }
    }
}

/// The reference written from a column's letters and a 1-based row number
/// parses back to that 0-based row and column (and can be parsed).
pub proof fn law_a1_ref_roundtrip(row: nat, col: nat)
    requires
        row + 1 <= u32::MAX,
        col + 1 <= u32::MAX,
    ensures
        a1_letters_fit(column_letters(col) + decimal(row + 1)),
        a1_ref(column_letters(col) + decimal(row + 1)) == Some((row as int, col as int)),
{
    let l = column_letters(col);
    let d = decimal(row + 1);
    let s = l + d;
    lemma_column_letters(col);
    lemma_decimal_digits(row + 1);
    assert forall|i: int| 0 <= i < l.len() implies !is_digit(#[trigger] l[i]) && is_alpha(l[i]) by {
        assert('A' <= l[i] && l[i] <= 'Z');
    }
    lemma_digit_index_concat(l, d);
    assert(s.take(l.len() as int) == l);
    assert(s.skip(l.len() as int) == d);
    assert forall|j: int| 0 <= j <= digit_index(s) && j <= s.len()
        && (forall|i: int| 0 <= i < j ==> is_alpha(#[trigger] s[i]))
        implies #[trigger] col_value(s.take(j)) <= u32::MAX by {
        assert(s.take(j) == l.take(j));
        lemma_col_value_prefix(l, j);
    }
}

/// What a scan of a worksheet's events has seen so far: whether it is inside
/// a cell `<c>` and which reference that cell has, whether it is inside the
/// cell's formula `<f>` and the formula text read so far, and the formulas
/// found, as `(cell_ref, formula)` pairs.
pub struct FormulaScan {
    pub in_cell: bool,
    pub cell_ref: Seq<char>,
    pub in_formula: bool,
    pub text: Seq<char>,
    pub found: Seq<(Seq<char>, Seq<char>)>,
}

/// The scan before any event.
pub open spec fn formula_scan_start() -> FormulaScan {
    FormulaScan { in_cell: false, cell_ref: seq![], in_formula: false, text: seq![], found: seq![] }
}

/// The scan after one more event. A start tag `c` opens a cell and takes its
/// `r` attribute as the reference; `f` inside a cell starts a formula; text
/// inside a formula is added to it; the end of `f` records the formula when
/// both the reference and the text are non-empty; the end of `c` closes the
/// cell. Names are compared without their namespace prefix.
pub open spec fn formula_step(s: FormulaScan, e: XmlEvent) -> FormulaScan {
    match e {
        XmlEvent::Start(tag) => {
            if local_of(tag.name@) == "c"@ {
                FormulaScan {
                    in_cell: true,
                    cell_ref: attr_text(last_attr_exact(tag.attrs@, encode_utf8("r"@))),
                    in_formula: s.in_formula,
                    text: s.text,
                    found: s.found,
                }
            } else if local_of(tag.name@) == "f"@ && s.in_cell {
                FormulaScan { in_cell: s.in_cell, cell_ref: s.cell_ref, in_formula: true, text: seq![], found: s.found }
            } else {
                s
            }
        },
        XmlEvent::Text(t) => match t {
            Some(t) => if s.in_formula {
                FormulaScan { in_cell: s.in_cell, cell_ref: s.cell_ref, in_formula: s.in_formula, text: s.text + t@, found: s.found }
            } else {
                s
            },
            None => s,
        },
        XmlEvent::End(name) => {
            if local_of(name@) == "f"@ && s.in_formula {
                FormulaScan {
                    in_cell: s.in_cell,
                    cell_ref: s.cell_ref,
                    in_formula: false,
                    text: s.text,
                    found: if s.cell_ref.len() > 0 && s.text.len() > 0 { s.found.push((s.cell_ref, s.text)) } else { s.found },
                }
            } else if local_of(name@) == "c"@ && s.in_cell {
                FormulaScan { in_cell: false, cell_ref: s.cell_ref, in_formula: false, text: s.text, found: s.found }
            } else {
                s
            }
        },
        _ => s,
    }
}

/// The scan after the events `events`.
pub open spec fn formula_scan(events: Seq<XmlEvent>) -> FormulaScan
    decreases events.len(),
{
    if events.len() == 0 {
        formula_scan_start()
    } else {
        formula_step(formula_scan(events.drop_last()), events.last())
    }
}

/// The `(cell_ref, formula)` pairs of a worksheet's events, in document order.
pub open spec fn sheet_formulas(events: Seq<XmlEvent>) -> Seq<(Seq<char>, Seq<char>)> {
    formula_scan(events).found
}

/// The text of pairs of strings.
pub open spec fn pair_views(v: Seq<(String, String)>) -> Seq<(Seq<char>, Seq<char>)> {
    v.map_values(|p: (String, String)| (p.0@, p.1@))
}

/// The `(cell_ref, formula)` pairs of a worksheet's events: the formula text
/// of each `<f>` inside a `<c r="...">`, without a leading `=`.
pub fn formulas_from_events(events: &Vec<XmlEvent>) -> (r: Vec<(String, String)>)
    ensures
        pair_views(r@) == sheet_formulas(events@),
{
    let mut found: Vec<(String, String)> = Vec::new();
    let mut in_cell = false;
    let mut cell_ref = String::new();
    let mut in_formula = false;
    let mut text = String::new();
    let mut i: usize = 0;
    assert(events@.take(0) =~= Seq::<XmlEvent>::empty());
    assert(pair_views(found@) =~= Seq::<(Seq<char>, Seq<char>)>::empty());
    while i < events.len()
        invariant
            i <= events@.len(),
            formula_scan(events@.take(i as int)) == (FormulaScan {
                in_cell, cell_ref: cell_ref@, in_formula, text: text@, found: pair_views(found@),
            }),
        decreases events.len() - i,
    {
        assert(events@.take(i + 1).drop_last() =~= events@.take(i as int));
        assert(events@.take(i + 1).last() == events@[i as int]);
        let ghost before = found@;
        match &events[i] {
            XmlEvent::Start(tag) => {
                if local_is(&tag.name, "c") {
                    in_cell = true;
                    cell_ref = attr_text_exact(&tag.attrs, "r");
                } else if local_is(&tag.name, "f") && in_cell {
                    in_formula = true;
                    text = String::new();
                }
            },
            XmlEvent::Text(t) => {
                if let Some(t) = t {
                    if in_formula {
                        text.append(t.as_str());
                    }
                }
            },
            XmlEvent::End(name) => {
                if local_is(name, "f") && in_formula {
                    in_formula = false;
                    if !cell_ref.as_str().is_empty() && !text.as_str().is_empty() {
                        found.push((cell_ref.clone(), text.clone()));
                        assert(pair_views(found@) =~= pair_views(before).push((cell_ref@, text@)));
                    }
                } else if local_is(name, "c") && in_cell {
                    in_cell = false;
                    in_formula = false;
                }
            },
            _ => {},
        }
        i += 1;
    }
    assert(events@.take(events@.len() as int) =~= events@);
    found
}

/// Parses a worksheet's XML and extracts its cell formulas, as
/// `(cell_ref, formula)` pairs in document order, e.g.
/// `[("D5", "C5-B5"), ("E5", "D5/B5*100")]`. The formula text does not
/// include a leading `=`. Reading stops at the first syntax error.
pub fn parse_formulas_from_sheet_xml(xml: &str) -> (r: Vec<(String, String)>)
    ensures
        pair_views(r@) == sheet_formulas(xml_event_stream(xml@)),
{
    let events = xml_events(xml);
    let r = formulas_from_events(&events);
    assert(pair_views(r@) == sheet_formulas(events@));
    r
}

/// The tag a start or empty-element event opens, if any.
pub open spec fn opened_tag(e: XmlEvent) -> Option<XmlTag> {
    match e {
        XmlEvent::Start(tag) => Some(tag),
        XmlEvent::Empty(tag) => Some(tag),
        _ => None,
    }
}

/// The binding a tag adds to a map read from a package part: `(key, value)`
/// when both are non-empty.
pub open spec fn binding(key: Seq<char>, value: Seq<char>) -> Option<(Seq<char>, Seq<char>)> {
    if key.len() > 0 && value.len() > 0 { Some((key, value)) } else { None }
}

/// The map built from the bindings that `entry` finds in the tags of `events`,
/// a later binding of a key replacing an earlier one.
pub open spec fn tag_map(events: Seq<XmlEvent>, entry: spec_fn(XmlTag) -> Option<(Seq<char>, Seq<char>)>) -> Map<Seq<char>, Seq<char>>
    decreases events.len(),
{
    if events.len() == 0 {
        Map::empty()
    } else {
        let m = tag_map(events.drop_last(), entry);
        match opened_tag(events.last()) {
            Some(tag) => match entry(tag) {
                Some(kv) => m.insert(kv.0, kv.1),
                None => m,
            },
            None => m,
        }
    }
}

/// The binding of a `<sheet name="..." r:id="..."/>` tag of `xl/workbook.xml`:
/// the sheet's name to its relationship id (names compared without prefix).
pub open spec fn sheet_binding(tag: XmlTag) -> Option<(Seq<char>, Seq<char>)> {
    if local_of(tag.name@) == "sheet"@ {
        binding(attr_text(last_attr_local(tag.attrs@, "name"@)), attr_text(last_attr_local(tag.attrs@, "id"@)))
    } else {
        None
    }
}

/// The binding of a `<Relationship Id="..." Target="..."/>` tag of
/// `xl/_rels/workbook.xml.rels`: the relationship id to its target path.
pub open spec fn relationship_binding(tag: XmlTag) -> Option<(Seq<char>, Seq<char>)> {
    if local_of(tag.name@) == "Relationship"@ {
        binding(
            attr_text(last_attr_exact(tag.attrs@, encode_utf8("Id"@))),
            attr_text(last_attr_exact(tag.attrs@, encode_utf8("Target"@))),
        )
    } else {
        None
    }
}

/// The sheet name to relationship id map of `xl/workbook.xml`'s events.
pub open spec fn sheet_rid_map(events: Seq<XmlEvent>) -> Map<Seq<char>, Seq<char>> {
    tag_map(events, |tag: XmlTag| sheet_binding(tag))
}

/// The relationship id to target map of `xl/_rels/workbook.xml.rels`'s events.
pub open spec fn rid_target_map(events: Seq<XmlEvent>) -> Map<Seq<char>, Seq<char>> {
    tag_map(events, |tag: XmlTag| relationship_binding(tag))
}

/// Builds the sheet name to relationship id map from the events of
/// `xl/workbook.xml`: each `<sheet name="..." r:id="rIdN"/>` binds its name.
pub fn sheet_rid_map_from_events(events: &Vec<XmlEvent>) -> (m: TextMap)
    ensures
        m@ == sheet_rid_map(events@),
{
    let mut m = TextMap::new();
    let mut i: usize = 0;
    assert(events@.take(0) =~= Seq::<XmlEvent>::empty());
    while i < events.len()
        invariant
            i <= events@.len(),
            m@ == sheet_rid_map(events@.take(i as int)),
        decreases events.len() - i,
    {
        assert(events@.take(i + 1).drop_last() =~= events@.take(i as int));
        assert(events@.take(i + 1).last() == events@[i as int]);
        let tag = match &events[i] {
            XmlEvent::Start(tag) => Some(tag),
            XmlEvent::Empty(tag) => Some(tag),
            _ => None,
        };
        if let Some(tag) = tag {
            if local_is(&tag.name, "sheet") {
                let name = attr_text_local(&tag.attrs, "name");
                let rid = attr_text_local(&tag.attrs, "id");
                if !name.as_str().is_empty() && !rid.as_str().is_empty() {
                    m.insert(name, rid);
                }
            }
        }
        i += 1;
    }
    assert(events@.take(events@.len() as int) =~= events@);
    m
}

/// Builds the relationship id to target map from the events of
/// `xl/_rels/workbook.xml.rels`: each `<Relationship Id="..." Target="..."/>`
/// binds its id.
pub fn rid_target_map_from_events(events: &Vec<XmlEvent>) -> (m: TextMap)
    ensures
        m@ == rid_target_map(events@),
{
    let mut m = TextMap::new();
    let mut i: usize = 0;
    assert(events@.take(0) =~= Seq::<XmlEvent>::empty());
    while i < events.len()
        invariant
            i <= events@.len(),
            m@ == rid_target_map(events@.take(i as int)),
        decreases events.len() - i,
    {
        assert(events@.take(i + 1).drop_last() =~= events@.take(i as int));
        assert(events@.take(i + 1).last() == events@[i as int]);
        let tag = match &events[i] {
            XmlEvent::Start(tag) => Some(tag),
            XmlEvent::Empty(tag) => Some(tag),
            _ => None,
        };
        if let Some(tag) = tag {
            if local_is(&tag.name, "Relationship") {
                let id = attr_text_exact(&tag.attrs, "Id");
                let target = attr_text_exact(&tag.attrs, "Target");
                if !id.as_str().is_empty() && !target.as_str().is_empty() {
                    m.insert(id, target);
                }
            }
        }
        i += 1;
    }
    assert(events@.take(events@.len() as int) =~= events@);
    m
}

/// Parses `xl/workbook.xml` into its sheet name to relationship id map,
/// from its `<sheet name="..." r:id="rIdN"/>` elements. Reading stops at the
/// first syntax error.
pub fn parse_sheet_rid_map(xml: &str) -> (m: TextMap)
    ensures
        m@ == sheet_rid_map(xml_event_stream(xml@)),
{
    let events = xml_events(xml);
    let m = sheet_rid_map_from_events(&events);
    assert(m@ == sheet_rid_map(events@));
    m
}

/// Parses `xl/_rels/workbook.xml.rels` into its relationship id to target
/// path map. Reading stops at the first syntax error.
pub fn parse_rid_target_map(xml: &str) -> (m: TextMap)
    ensures
        m@ == rid_target_map(xml_event_stream(xml@)),
{
    let events = xml_events(xml);
    let m = rid_target_map_from_events(&events);
    assert(m@ == rid_target_map(events@));
    m
}

/// A time field of an ISO timestamp's time part: the `i`-th `:`-separated
/// field read as a `u32`, or 0 where it is missing or not a number.
pub open spec fn time_field(fields: Seq<Seq<char>>, i: int) -> int {
    if 0 <= i < fields.len() {
        match u32_text(fields[i]) {
            Some(n) => n,
            None => 0,
        }
    } else {
        0
    }
}

/// The seconds since 1970-01-01T00:00:00 of an ISO date `YYYY-MM-DD`, with an
/// optional time `Thh:mm:ss`: the date must have three `-`-separated fields,
/// a year that reads as an `i32`, a month from 1 to 12 and a day from 1 to
/// 31 (each as a `u32`); missing or unreadable time fields count as 0, and
/// anything after a second `T` is ignored.
pub open spec fn iso_timestamp(iso: Seq<char>) -> Option<int> {
    let parts = split_spec(iso, 'T');
    let date = split_spec(parts[0], '-');
    if date.len() != 3 {
        None
    } else {
        match (i32_text(date[0]), u32_text(date[1]), u32_text(date[2])) {
            (Some(y), Some(mo), Some(d)) => if 1 <= mo <= 12 && 1 <= d <= 31 {
                let t = if parts.len() > 1 { split_spec(parts[1], ':') } else { seq![] };
                Some(date_timestamp(y, mo as nat, d, time_field(t, 0), time_field(t, 1), time_field(t, 2)))
            } else {
                None
            },
            _ => None,
        }
    }
}

/// The `i`-th time field (see [`time_field`]).
fn time_field_exec(fields: &Vec<Vec<char>>, i: usize) -> (n: u32)
    ensures
        n == time_field(views_of(fields@), i as int),
{
    if i < fields.len() {
        match parse_u32_chars(&fields[i]) {
            Some(n) => n,
            None => 0,
        }
    } else {
        0
    }
}

/// Converts an ISO date `YYYY-MM-DD` or date-time `YYYY-MM-DDThh:mm:ss` to
/// seconds since 1970-01-01T00:00:00 (see [`iso_timestamp`]); `None` when the
/// date is malformed. An Excel serial date is this count divided by 86400,
/// plus 25569.
pub fn iso_to_unix_timestamp(iso: &str) -> (r: Option<i64>)
    ensures
        match r {
            Some(ts) => iso_timestamp(iso@) == Some(ts as int),
            None => iso_timestamp(iso@) is None,
        },
{
    let v = chars_of(iso);
    let parts = split_chars(&v, 'T');
    proof {
        lemma_split_nonempty(v@, 'T');
    }
    assert(views_of(parts@)[0] == parts@[0]@);
    let date = split_chars(&parts[0], '-');
    if date.len() != 3 {
        return None;
    }
    assert(views_of(date@)[0] == date@[0]@ && views_of(date@)[1] == date@[1]@ && views_of(date@)[2] == date@[2]@);
    let year = match parse_i32_chars(&date[0]) {
        Some(y) => y,
        None => return None,
    };
    let month = match parse_u32_chars(&date[1]) {
        Some(m) => m,
        None => return None,
    };
    let day = match parse_u32_chars(&date[2]) {
        Some(d) => d,
        None => return None,
    };
    if !(1 <= month && month <= 12 && 1 <= day && day <= 31) {
        return None;
    }
    let (hour, minute, second) = if parts.len() > 1 {
        assert(views_of(parts@)[1] == parts@[1]@);
        let t = split_chars(&parts[1], ':');
        (time_field_exec(&t, 0), time_field_exec(&t, 1), time_field_exec(&t, 2))
    } else {
        assert(views_of(Seq::<Vec<char>>::empty()) =~= Seq::<Seq<char>>::empty());
        (0, 0, 0)
    };
    Some(date_to_unix_timestamp(year, month, day, hour, minute, second))
}

/// The text of the date and time `r`: the date `YYYY-MM-DD` at midnight,
/// else `YYYY-MM-DDThh:mm:ss`.
pub open spec fn serial_date_text(r: (i32, u32, u32, u32, u32, u32)) -> Seq<char> {
    let date = signed_padded(r.0 as int, 4) + seq!['-'] + zero_padded(r.1 as nat, 2) + seq!['-'] + zero_padded(r.2 as nat, 2);
    if r.3 == 0 && r.4 == 0 && r.5 == 0 {
        date
    } else {
        date + seq!['T'] + zero_padded(r.3 as nat, 2) + seq![':'] + zero_padded(r.4 as nat, 2) + seq![':'] + zero_padded(r.5 as nat, 2)
    }
}

/// The seconds since the epoch of an Excel serial date with whole days `days`
/// (counted from 1899-12-30) and `fraction_seconds` seconds more.
pub open spec fn serial_seconds(days: int, fraction_seconds: int) -> int {
    (days - 25569) * 86400 + fraction_seconds
}

/// Whether the instant of an Excel serial date can be computed in `i64`
/// seconds and split into a date.
pub open spec fn serial_in_range(days: int, fraction_seconds: int) -> bool {
    &&& i64::MIN <= days - 25569
    &&& i64::MIN <= (days - 25569) * 86400 <= i64::MAX
    &&& i64::MIN <= serial_seconds(days, fraction_seconds) <= i64::MAX
    &&& timestamp_in_range(serial_seconds(days, fraction_seconds))
}

/// Converts an Excel serial date, given as its whole days `days` (counted
/// from 1899-12-30) and the seconds `fraction_seconds` of its fractional part,
/// to an ISO date (`YYYY-MM-DD`) or date-time (`YYYY-MM-DDThh:mm:ss`).
/// `None` when the instant cannot be represented.
pub fn excel_serial_to_iso(days: i64, fraction_seconds: i64) -> (r: Option<String>)
    ensures
        match r {
            Some(s) => serial_in_range(days as int, fraction_seconds as int) && exists|d: (i32, u32, u32, u32, u32, u32)|
                timestamp_date_relation(serial_seconds(days as int, fraction_seconds as int), d) && s@ == #[trigger] serial_date_text(d),
            None => !serial_in_range(days as int, fraction_seconds as int),
        },
{
    let unix_days = match days.checked_sub(25569) {
        Some(d) => d,
        None => return None,
    };
    let day_seconds = match unix_days.checked_mul(86400) {
        Some(s) => s,
        None => return None,
    };
    let total = match day_seconds.checked_add(fraction_seconds) {
        Some(t) => t,
        None => return None,
    };
    if !in_timestamp_range(total) {
        return None;
    }
    let d = unix_timestamp_to_date(total);
    let (year, month, day, hour, minute, second) = d;
    let mut out: Vec<char> = Vec::new();
    push_signed_padded(&mut out, year as i64, 4);
    out.push('-');
    push_zero_padded(&mut out, month as u64, 2);
    out.push('-');
    push_zero_padded(&mut out, day as u64, 2);
    if !(hour == 0 && minute == 0 && second == 0) {
        out.push('T');
        push_zero_padded(&mut out, hour as u64, 2);
        out.push(':');
        push_zero_padded(&mut out, minute as u64, 2);
        out.push(':');
        push_zero_padded(&mut out, second as u64, 2);
    }
    let s = string_from_chars(out);
    assert(s@ == serial_date_text(d));
    Some(s)
}

/// Leading zeros do not change the value of digits.
proof fn lemma_digits_leading_zeros(k: nat, t: Seq<char>)
    ensures
        digits_value(Seq::new(k, |_i: int| '0') + t) == digits_value(t),
    decreases t.len(), k,
{
    let z = Seq::new(k, |_i: int| '0');
    if t.len() > 0 {
        lemma_digits_leading_zeros(k, t.drop_last());
        assert((z + t).drop_last() =~= z + t.drop_last());
        assert((z + t).last() == t.last());
    } else if k > 0 {
        lemma_digits_leading_zeros((k - 1) as nat, t);
        assert(z + t =~= Seq::new((k - 1) as nat, |_i: int| '0').push('0'));
        assert((z + t).drop_last() =~= Seq::new((k - 1) as nat, |_i: int| '0') + t);
    } else {
        assert(z + t =~= t);
    }
}

/// A zero-padded number is made of digits and reads back as the number.
proof fn lemma_zero_padded_digits(n: nat, w: nat)
    ensures
        zero_padded(n, w).len() >= 1,
        all_digits(zero_padded(n, w)),
        digits_value(zero_padded(n, w)) == n,
{
    lemma_decimal_digits(n);
    let ds = decimal(n);
    if ds.len() < w {
        let k = (w - ds.len()) as nat;
        lemma_digits_leading_zeros(k, ds);
        let z = Seq::new(k, |_i: int| '0');
        assert forall|i: int| 0 <= i < (z + ds).len() implies is_digit(#[trigger] (z + ds)[i]) by {
            if i >= k {
                assert((z + ds)[i] == ds[i - k]);
            }
        }
    }
}

/// Splitting at a separator splits the two sides apart.
proof fn lemma_split_concat(a: Seq<char>, b: Seq<char>, c: char)
    ensures
        split_spec(a + seq![c] + b, c) == split_spec(a, c) + split_spec(b, c),
    decreases b.len(),
{
    if b.len() == 0 {
        assert(a + seq![c] + b =~= a.push(c));
        assert(a.push(c).drop_last() =~= a);
        assert(split_spec(b, c) =~= seq![Seq::<char>::empty()]);
        assert(split_spec(a, c).push(seq![]) =~= split_spec(a, c) + seq![Seq::<char>::empty()]);
    } else {
        lemma_split_concat(a, b.drop_last(), c);
        lemma_split_nonempty(b.drop_last(), c);
        let w = a + seq![c] + b;
        assert(w.drop_last() =~= a + seq![c] + b.drop_last());
        assert(w.last() == b.last());
        let left = split_spec(a, c);
        let right = split_spec(b.drop_last(), c);
        if b.last() == c {
            assert((left + right).push(seq![]) =~= left + right.push(seq![]));
        } else {
            let init = left + right;
            assert(init.update(init.len() - 1, init.last().push(b.last()))
                =~= left + right.update(right.len() - 1, right.last().push(b.last())));
        }
    }
}

/// A text without the separator is one piece.
proof fn lemma_split_whole(a: Seq<char>, c: char)
    requires
        forall|i: int| 0 <= i < a.len() ==> a[i] != c,
    ensures
        split_spec(a, c) == seq![a],
    decreases a.len(),
{
    if a.len() > 0 {
        let t = a.drop_last();
        assert forall|i: int| 0 <= i < t.len() implies t[i] != c by {
            assert(t[i] == a[i]);
        }
        lemma_split_whole(t, c);
        assert(a.last() == a[a.len() - 1]);
        assert(t.push(a.last()) =~= a);
        let init = split_spec(t, c);
        assert(init == seq![t]);
        assert(init.update(init.len() - 1, init.last().push(a.last())) =~= seq![a]);
    } else {
        assert(a =~= Seq::<char>::empty());
    }
}

/// A zero-padded number as a date or time field: one piece at any
/// separator other than a digit, read back as its value.
proof fn lemma_field(n: nat, w: nat, c: char)
    requires
        !('0' <= c && c <= '9'),
        n <= u32::MAX,
    ensures
        split_spec(zero_padded(n, w), c) == seq![zero_padded(n, w)],
        u32_text(zero_padded(n, w)) == Some(n as int),
{
    lemma_zero_padded_digits(n, w);
    let f = zero_padded(n, w);
    assert forall|i: int| 0 <= i < f.len() implies f[i] != c by {
        assert(is_digit(f[i]));
    }
    lemma_split_whole(f, c);
    assert(is_digit(f[0]));
}

/// Reading the ISO text of a date and time on or after year 0 gives back the
/// seconds since the epoch of that date and time.
#[verifier::rlimit(40)]
#[verifier::spinoff_prover]
pub proof fn law_iso_text_reads_back(r: (i32, u32, u32, u32, u32, u32))
    requires
        r.0 >= 0,
        1 <= r.1 <= 12,
        1 <= r.2 <= 31,
    ensures
        iso_timestamp(serial_date_text(r)) == Some(date_timestamp(r.0 as int, r.1 as nat, r.2 as int, r.3 as int, r.4 as int, r.5 as int)),
{
    let y = zero_padded(r.0 as nat, 4);
    let mo = zero_padded(r.1 as nat, 2);
    let d = zero_padded(r.2 as nat, 2);
    lemma_field(r.0 as nat, 4, '-');
    lemma_field(r.1 as nat, 2, '-');
    lemma_field(r.2 as nat, 2, '-');
    lemma_field(r.0 as nat, 4, 'T');
    lemma_field(r.1 as nat, 2, 'T');
    lemma_field(r.2 as nat, 2, 'T');
    lemma_zero_padded_digits(r.0 as nat, 4);
    assert(signed_padded(r.0 as int, 4) == y);
    assert(i32_text(y) == Some(r.0 as int)) by {
        assert(is_digit(y[0]));
        assert(unsigned_part(y) == y);
    }
    let date = y + seq!['-'] + mo + seq!['-'] + d;
    assert(date == y + seq!['-'] + (mo + seq!['-'] + d));
    lemma_split_concat(y, mo + seq!['-'] + d, '-');
    lemma_split_concat(mo, d, '-');
    assert(split_spec(date, '-') =~= seq![y, mo, d]);
    assert forall|i: int| 0 <= i < date.len() implies date[i] != 'T' by {
        if i < y.len() {
            assert(date[i] == y[i]);
            assert(split_spec(y, 'T') == seq![y]);
            assert(is_digit(y[i]));
        } else if i == y.len() {
        } else if i < y.len() + 1 + mo.len() {
            assert(date[i] == mo[i - y.len() - 1]);
            lemma_zero_padded_digits(r.1 as nat, 2);
            assert(is_digit(mo[i - y.len() - 1]));
        } else if i == y.len() + 1 + mo.len() {
        } else {
            assert(date[i] == d[i - y.len() - 2 - mo.len()]);
            lemma_zero_padded_digits(r.2 as nat, 2);
            assert(is_digit(d[i - y.len() - 2 - mo.len()]));
        }
    }
    lemma_split_whole(date, 'T');
    if r.3 == 0 && r.4 == 0 && r.5 == 0 {
        assert(serial_date_text(r) == date);
        assert(split_spec(date, 'T')[0] == date);
    } else {
        let h = zero_padded(r.3 as nat, 2);
        let mi = zero_padded(r.4 as nat, 2);
        let sc = zero_padded(r.5 as nat, 2);
        lemma_field(r.3 as nat, 2, ':');
        lemma_field(r.4 as nat, 2, ':');
        lemma_field(r.5 as nat, 2, ':');
        lemma_zero_padded_digits(r.3 as nat, 2);
        lemma_zero_padded_digits(r.4 as nat, 2);
        lemma_zero_padded_digits(r.5 as nat, 2);
        let time = h + seq![':'] + mi + seq![':'] + sc;
        assert(serial_date_text(r) =~= date + seq!['T'] + time);
        assert forall|i: int| 0 <= i < time.len() implies time[i] != 'T' by {
            if i < h.len() {
                assert(time[i] == h[i]);
                assert(is_digit(h[i]));
            } else if i == h.len() {
            } else if i < h.len() + 1 + mi.len() {
                assert(time[i] == mi[i - h.len() - 1]);
                assert(is_digit(mi[i - h.len() - 1]));
            } else if i == h.len() + 1 + mi.len() {
            } else {
                assert(time[i] == sc[i - h.len() - 2 - mi.len()]);
                assert(is_digit(sc[i - h.len() - 2 - mi.len()]));
            }
        }
        lemma_split_whole(time, 'T');
        lemma_split_concat(date, time, 'T');
        assert(split_spec(serial_date_text(r), 'T') =~= seq![date, time]);
        assert(time == h + seq![':'] + (mi + seq![':'] + sc));
        lemma_split_concat(h, mi + seq![':'] + sc, ':');
        lemma_split_concat(mi, sc, ':');
        assert(split_spec(time, ':') =~= seq![h, mi, sc]);
    }
}

/// The ISO text of a date and time from year 0 on, read back and written out
/// again, is the same text: the Excel serial date of an ISO date-time turns
/// back into it.
pub proof fn law_iso_serial_roundtrip(r: (i32, u32, u32, u32, u32, u32), back: (i32, u32, u32, u32, u32, u32))
    requires
        r.0 >= 0,
        valid_date(r.0 as int, r.1 as int, r.2 as int),
        r.3 < 24,
        r.4 < 60,
        r.5 < 60,
        iso_timestamp(serial_date_text(r)) matches Some(ts) && timestamp_date_relation(ts, back),
    ensures
        serial_date_text(back) == serial_date_text(r),
{
    law_iso_text_reads_back(r);
    law_date_roundtrip(r.0, r.1, r.2, r.3, r.4, r.5, back);
}

} // verus!
