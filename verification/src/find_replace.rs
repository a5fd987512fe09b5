//! Case-insensitive replacement of text in a cell, as the find-and-replace
//! tool does it: the matches are found in the lowercase forms of the text and
//! of the pattern, and the original text is cut at their byte offsets.
use vstd::prelude::*;
use vstd::utf8::*;
use crate::xlsx_chart::{lowercase, to_lowercase};

verus! {

/// Whether the pattern `ln` occurs in the text `lh` at byte `i`, starting a
/// character there.
pub open spec fn match_at(lh: Seq<u8>, ln: Seq<u8>, i: int) -> bool {
    &&& 0 <= i
    &&& i + ln.len() <= lh.len()
    &&& lh.subrange(i, i + ln.len()) == ln
    &&& is_char_boundary(lh, i)
}

/// The first byte offset at or after `from` where `ln` occurs in `lh`.
pub open spec fn next_match(lh: Seq<u8>, ln: Seq<u8>, from: int) -> Option<int>
    decreases lh.len() + 1 - from,
{
    if from > lh.len() {
        None
    } else if match_at(lh, ln, from) {
        Some(from)
    } else {
        next_match(lh, ln, from + 1)
    }
}

/// How far the search moves on after a match: past the match, or by one
/// byte for an empty pattern (which matches at every character boundary).
pub open spec fn search_step(ln: Seq<u8>) -> int {
    if ln.len() == 0 { 1 } else { ln.len() as int }
}

/// Whether bytes `a..b` of `h` can be cut out as text.
pub open spec fn piece_ok(h: Seq<u8>, a: int, b: int) -> bool {
    0 <= a <= b <= h.len() && is_char_boundary(h, a) && is_char_boundary(h, b)
}

/// The match that [`next_match`] finds lies at or after `from` and is one.
pub proof fn lemma_next_match(lh: Seq<u8>, ln: Seq<u8>, from: int)
    ensures
        match next_match(lh, ln, from) {
            Some(i) => from <= i && match_at(lh, ln, i),
            None => true,
        },
    decreases lh.len() + 1 - from,
{
    if from > lh.len() {
    } else if match_at(lh, ln, from) {
    } else {
        lemma_next_match(lh, ln, from + 1);
    }
}

/// The bytes that replacing, in `h`, the matches of `ln` in `lh` from byte
/// `from` on gives, the text before them being kept from byte `last` on: at
/// each match `i`, the bytes `last..i` of `h`, then `rep`, and the text goes
/// on at `i + nlen`; after the last match the rest of `h`. `None` where a cut
/// falls outside `h`, between the bytes of a character or before the end of
/// the previous cut.
pub open spec fn replaced(h: Seq<u8>, lh: Seq<u8>, ln: Seq<u8>, nlen: int, rep: Seq<u8>, from: int, last: int) -> Option<Seq<u8>>
    decreases lh.len() + 1 - from,
{
    match next_match(lh, ln, from) {
        None => if piece_ok(h, last, h.len() as int) {
            Some(h.subrange(last, h.len() as int))
        } else {
            None
        },
        Some(i) => {
            proof {
                lemma_next_match(lh, ln, from);
            }
            if piece_ok(h, last, i) {
                match replaced(h, lh, ln, nlen, rep, i + search_step(ln), i + nlen) {
                    Some(rest) => Some(h.subrange(last, i) + rep + rest),
                    None => None,
                }
            } else {
                None
            }
        },
    }
}

/// Whether `pattern` occurs in `text` at byte `i`.
fn occurs_at(text: &[u8], pattern: &[u8], i: usize) -> (b: bool)
    ensures
        b == (i + pattern@.len() <= text@.len() && text@.subrange(i as int, i + pattern@.len()) == pattern@),
{
    if i > text.len() || pattern.len() > text.len() - i {
        return false;
    }
    let mut k: usize = 0;
    while k < pattern.len()
        invariant
            text@.len() == text.len(),
            i + pattern@.len() <= text@.len(),
            k <= pattern@.len(),
            forall|j: int| 0 <= j < k ==> text@[i + j] == pattern@[j],
        decreases pattern.len() - k,
    {
        if text[i + k] != pattern[k] {
            assert(text@.subrange(i as int, i + pattern@.len())[k as int] != pattern@[k as int]);
            return false;
        }
        k += 1;
    }
    assert(text@.subrange(i as int, i + pattern@.len()) =~= pattern@);
    true
}

/// The first byte offset at or after `from` where `pattern` occurs in `text`
/// at the start of a character (see [`next_match`]).
pub fn find_from(text: &str, pattern: &[u8], from: usize) -> (r: Option<usize>)
    ensures
        match r {
            Some(i) => next_match(encode_utf8(text@), pattern@, from as int) == Some(i as int),
            None => next_match(encode_utf8(text@), pattern@, from as int) is None,
        },
{
    let bytes = text.as_bytes();
    let ghost tb = encode_utf8(text@);
    if from > bytes.len() {
        return None;
    }
    let mut i: usize = from;
    loop
        invariant
            bytes@ == tb,
            tb == encode_utf8(text@),
            from <= i <= tb.len(),
            next_match(tb, pattern@, from as int) == next_match(tb, pattern@, i as int),
        decreases tb.len() - i,
    {
        if occurs_at(bytes, pattern, i) && text.is_char_boundary(i) {
            return Some(i);
        }
        if i == bytes.len() {
            assert(next_match(tb, pattern@, i + 1) is None);
            return None;
        }
        i += 1;
    }
}

/// Bytes `a..c` of the valid UTF-8 `b`, cut at character boundaries, are
/// valid UTF-8.
pub proof fn lemma_valid_piece(b: Seq<u8>, a: int, c: int)
    requires
        valid_utf8(b),
        piece_ok(b, a, c),
    ensures
        valid_utf8(b.subrange(a, c)),
{
    valid_utf8_split(b, a);
    let s = b.subrange(a, b.len() as int);
    if c == b.len() {
        assert(s.subrange(0, c - a) =~= s);
    } else {
        is_char_boundary_iff_not_is_continuation_byte(b, c);
        assert(s[c - a] == b[c]);
        is_char_boundary_iff_not_is_continuation_byte(s, c - a);
        valid_utf8_split(s, c - a);
    }
    assert(s.subrange(0, c - a) =~= b.subrange(a, c));
}

/// Appends bytes `a..b` of `src` to `out`.
fn push_bytes(out: &mut Vec<u8>, src: &[u8], a: usize, b: usize)
    requires
        a <= b <= src@.len(),
    ensures
        final(out)@ == old(out)@ + src@.subrange(a as int, b as int),
{
    let mut k: usize = a;
    while k < b
        invariant
            a <= k <= b <= src@.len(),
            out@ == old(out)@ + src@.subrange(a as int, k as int),
        decreases b - k,
    {
        out.push(src[k]);
        assert(src@.subrange(a as int, k + 1) =~= src@.subrange(a as int, k as int).push(src@[k as int]));
        k += 1;
    }
}

/// What replacing the matches in `haystack` gives (see [`replaced`]), from
/// the texts' UTF-8 bytes.
pub open spec fn replaced_text(haystack: Seq<char>, lower_haystack: Seq<char>, lower_needle: Seq<char>, needle_len: int, replacement: Seq<char>) -> Option<Seq<u8>> {
    replaced(encode_utf8(haystack), encode_utf8(lower_haystack), encode_utf8(lower_needle),
        needle_len, encode_utf8(replacement), 0, 0)
}

/// Replaces in `haystack` each match of `lower_needle` in `lower_haystack`
/// (the lowercase forms of the text and of the pattern) by `replacement`,
/// cutting `haystack` at the byte offsets of the matches and resuming
/// `needle_len` bytes after each: `None` where such a cut would fall outside
/// the text, inside a character or before the end of the previous one.
pub fn replace_matches(haystack: &str, lower_haystack: &str, lower_needle: &str, needle_len: usize, replacement: &str) -> (r: Option<String>)
    ensures
        match replaced_text(haystack@, lower_haystack@, lower_needle@, needle_len as int, replacement@) {
            Some(b) => r matches Some(s) && s@ == decode_utf8(b),
            None => r is None,
        },
{
    let hb = haystack.as_bytes();
    let lhb = lower_haystack.as_bytes();
    let pb = lower_needle.as_bytes();
    let rb = replacement.as_bytes();
    let ghost h = encode_utf8(haystack@);
    let ghost lh = encode_utf8(lower_haystack@);
    let ghost ln = encode_utf8(lower_needle@);
    let ghost rep = encode_utf8(replacement@);
    let ghost nlen = needle_len as int;
    let ghost total = replaced(h, lh, ln, nlen, rep, 0, 0);
    proof {
        encode_utf8_valid_utf8(haystack@);
        encode_utf8_valid_utf8(replacement@);
        is_char_boundary_start_end_of_seq(h);
    }
    let mut out: Vec<u8> = Vec::new();
    let mut from: usize = 0;
    let mut last: usize = 0;
    let mut searching = true;
    let ghost mut gfrom: int = 0;
    assert(out@ + h.subrange(0, 0) =~= out@) by {
        assert(out@ =~= Seq::<u8>::empty());
    }
    assert forall|rest: Seq<u8>| out@ + rest == rest by {
        assert(out@ + rest =~= rest);
    }
    while searching
        invariant
            hb@ == h, lhb@ == lh, pb@ == ln, rb@ == rep,
            h == encode_utf8(haystack@), lh == encode_utf8(lower_haystack@),
            ln == encode_utf8(lower_needle@), rep == encode_utf8(replacement@),
            nlen == needle_len as int,
            total == replaced(h, lh, ln, nlen, rep, 0, 0),
            valid_utf8(h), valid_utf8(rep), is_char_boundary(h, h.len() as int),
            valid_utf8(out@),
            searching ==> gfrom == from && from <= lh.len(),
            !searching ==> next_match(lh, ln, gfrom) is None,
            total == (match replaced(h, lh, ln, nlen, rep, gfrom, last as int) {
                Some(rest) => Some(out@ + rest),
                None => None,
            }),
        decreases (if searching { lh.len() + 1 - from } else { 0 }),
    {
        match find_from(lower_haystack, pb, from) {
            None => {
                searching = false;
            },
            Some(i) => {
                proof {
                    lemma_next_match(lh, ln, gfrom);
                }
                if !(last <= i && i <= hb.len() && haystack.is_char_boundary(last) && haystack.is_char_boundary(i)) {
                    return None;
                }
                let ghost before = out@;
                proof {
                    lemma_valid_piece(h, last as int, i as int);
                }
                push_bytes(&mut out, hb, last, i);
                push_bytes(&mut out, rb, 0, rb.len());
                assert(rep.subrange(0, rep.len() as int) =~= rep);
                let ghost piece = h.subrange(last as int, i as int) + rep;
                assert(out@ =~= before + piece);
                proof {
                    valid_utf8_concat(before, h.subrange(last as int, i as int));
                    valid_utf8_concat(before + h.subrange(last as int, i as int), rep);
                    assert(out@ =~= before + h.subrange(last as int, i as int) + rep);
                }
                let ghost next_from = i + search_step(ln);
                let ghost next_last = i + nlen;
                proof {
                    assert forall|rest: Seq<u8>| before + (h.subrange(last as int, i as int) + rep + rest) == out@ + rest by {
                        assert(before + (h.subrange(last as int, i as int) + rep + rest) =~= out@ + rest);
                    }
                }
                match i.checked_add(needle_len) {
                    None => {
                        assert(replaced(h, lh, ln, nlen, rep, next_from, next_last) is None);
                        return None;
                    },
                    Some(l) => {
                        last = l;
                    },
                }
                if i < lhb.len() {
                    from = if pb.len() == 0 { i + 1 } else { i + pb.len() };
                } else {
                    searching = false;
                }
                proof {
                    gfrom = next_from;
                }
            },
        }
    }
    if !(last <= hb.len() && haystack.is_char_boundary(last)) {
        return None;
    }
    let ghost before = out@;
    proof {
        lemma_valid_piece(h, last as int, h.len() as int);
    }
    push_bytes(&mut out, hb, last, hb.len());
    proof {
        valid_utf8_concat(before, h.subrange(last as int, h.len() as int));
    }
    assert(total == Some(out@));
    match crate::format_detect::str_from_utf8(out.as_slice()) {
        Some(s) => Some(String::from_str(s)),
        None => None,
    }
}

/// The UTF-8 bytes of replacing, case-insensitively, each occurrence of
/// `needle` in `haystack` by `replacement` (see [`replace_matches`]): the
/// matches are those of the lowercase needle in the lowercase text, found
/// left to right without overlap, and after each the text resumes as many
/// bytes later as the needle has. `None` where a cut would fall outside the
/// text, inside a character or before the end of the previous cut, which
/// only happens where lowercasing changes the length of the text.
pub open spec fn case_insensitive_replaced(haystack: Seq<char>, needle: Seq<char>, replacement: Seq<char>) -> Option<Seq<u8>> {
    replaced_text(haystack, lowercase(haystack), lowercase(needle), encode_utf8(needle).len() as int, replacement)
}

/// Replaces each case-insensitive occurrence of `needle` in `haystack` by
/// `replacement` (see [`case_insensitive_replaced`]).
pub fn case_insensitive_replace(haystack: &str, needle: &str, replacement: &str) -> (r: String)
    requires
        case_insensitive_replaced(haystack@, needle@, replacement@) is Some,
    ensures
        r@ == decode_utf8(case_insensitive_replaced(haystack@, needle@, replacement@)->0),
{
    let lower_haystack = to_lowercase(haystack);
    let lower_needle = to_lowercase(needle);
    let needle_len = needle.as_bytes().len();
    replace_matches(haystack, lower_haystack.as_str(), lower_needle.as_str(), needle_len, replacement).unwrap()
}

/// [`case_insensitive_replace`] where the replacement can be made, `None`
/// where it cannot (see [`case_insensitive_replaced`]).
pub fn try_case_insensitive_replace(haystack: &str, needle: &str, replacement: &str) -> (r: Option<String>)
    ensures
        match case_insensitive_replaced(haystack@, needle@, replacement@) {
            Some(b) => r matches Some(s) && s@ == decode_utf8(b),
            None => r is None,
        },
{
    let lower_haystack = to_lowercase(haystack);
    let lower_needle = to_lowercase(needle);
    let needle_len = needle.as_bytes().len();
    if replace_matches(haystack, lower_haystack.as_str(), lower_needle.as_str(), needle_len, replacement).is_some() {
        Some(case_insensitive_replace(haystack, needle, replacement))
    } else {
        None
    }
}

/// Where the lowercase needle does not occur in the lowercase text, the
/// replacement leaves the text as it is.
pub proof fn law_unchanged_without_match(haystack: Seq<char>, needle: Seq<char>, replacement: Seq<char>)
    requires
        next_match(encode_utf8(lowercase(haystack)), encode_utf8(lowercase(needle)), 0) is None,
    ensures
        case_insensitive_replaced(haystack, needle, replacement) == Some(encode_utf8(haystack)),
        decode_utf8(encode_utf8(haystack)) == haystack,
{
    let h = encode_utf8(haystack);
    encode_utf8_valid_utf8(haystack);
    is_char_boundary_start_end_of_seq(h);
    encode_utf8_decode_utf8(haystack);
    assert(h.subrange(0, h.len() as int) =~= h);
}

} // verus!
