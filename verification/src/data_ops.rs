//! The data operations of the spreadsheet tools on plain cell texts:
//! removing duplicate rows and finding and replacing text.
use vstd::prelude::*;
use crate::text::{chars_of, contains_chars, contains_text, push_all, replace_spec, replace_str, same_chars, string_from_chars};
use crate::xlsx_chart::{lowercase, to_lowercase};
use crate::find_replace::{case_insensitive_replaced, try_case_insensitive_replace};
use vstd::utf8::decode_utf8;

verus! {

/// The key of a row: the texts of its key columns joined with `\0`.
pub open spec fn joined_key(k: Seq<Seq<char>>) -> Seq<char>
    decreases k.len(),
{
    if k.len() == 0 {
        seq![]
    } else if k.len() == 1 {
        k[0]
    } else {
        joined_key(k.drop_last()) + seq!['\0'] + k.last()
    }
}

/// The texts of a row's key columns.
pub open spec fn key_views(k: Seq<String>) -> Seq<Seq<char>> {
    k.map_values(|s: String| s@)
}

/// The joined keys of the rows.
pub open spec fn row_keys(keys: Seq<Vec<String>>) -> Seq<Seq<char>> {
    keys.map_values(|k: Vec<String>| joined_key(key_views(k@)))
}

/// Whether row `i` is the first with its key.
pub open spec fn first_of_key(keys: Seq<Seq<char>>, i: int) -> bool {
    forall|j: int| 0 <= j < i ==> keys[j] != keys[i]
}

/// The rows among the first `n` that come first with their key, in order.
pub open spec fn kept_rows(keys: Seq<Seq<char>>, n: int) -> Seq<int>
    decreases n,
{
    if n <= 0 {
        seq![]
    } else if first_of_key(keys, n - 1) {
        kept_rows(keys, n - 1).push(n - 1)
    } else {
        kept_rows(keys, n - 1)
    }
}

/// Whether `k` is among the texts of `seen`.
pub open spec fn holds_key(seen: Seq<Vec<char>>, k: Seq<char>) -> bool {
    exists|t: int| 0 <= t < seen.len() && (#[trigger] seen[t])@ == k
}

/// Whether `k` is the key of one of the first `n` rows.
pub open spec fn key_among(keys: Seq<Seq<char>>, n: int, k: Seq<char>) -> bool {
    exists|j: int| 0 <= j < n && #[trigger] keys[j] == k
}

/// The key of a row (see [`joined_key`]).
fn join_key(k: &Vec<String>) -> (r: Vec<char>)
    ensures
        r@ == joined_key(key_views(k@)),
{
    let mut r: Vec<char> = Vec::new();
    let mut i: usize = 0;
    while i < k.len()
        invariant
            i <= k@.len(),
            r@ == joined_key(key_views(k@).take(i as int)),
        decreases k.len() - i,
    {
        let ghost before = key_views(k@).take(i as int);
        if i > 0 {
            r.push('\0');
        }
        push_all(&mut r, &chars_of(k[i].as_str()));
        i += 1;
        proof {
            let now = key_views(k@).take(i as int);
            assert(now.drop_last() =~= before);
            assert(now.last() == k@[i - 1]@);
            if i == 1 {
                assert(before.len() == 0);
            }
        }
    }
    assert(key_views(k@).take(k@.len() as int) =~= key_views(k@));
    r
}

/// Deduplicates rows by their keys (the texts of each row's key columns):
/// the indices of the rows that come first with their key, in order. Two
/// keys are the same when their texts joined with `\0` are.
pub fn dedup_rows(keys: &Vec<Vec<String>>) -> (r: Vec<usize>)
    ensures
        r@.map_values(|i: usize| i as int) == kept_rows(row_keys(keys@), keys@.len() as int),
{
    let ghost ks = row_keys(keys@);
    let mut seen: Vec<Vec<char>> = Vec::new();
    let mut r: Vec<usize> = Vec::new();
    let mut i: usize = 0;
    while i < keys.len()
        invariant
            i <= keys@.len(),
            ks == row_keys(keys@),
            ks.len() == keys@.len(),
            r@.map_values(|x: usize| x as int) == kept_rows(ks, i as int),
            forall|j: int| 0 <= j < i ==> holds_key(seen@, #[trigger] ks[j]),
            forall|t: int| 0 <= t < seen@.len() ==> key_among(ks, i as int, (#[trigger] seen@[t])@),
        decreases keys.len() - i,
    {
        let key = join_key(&keys[i]);
        assert(key@ == ks[i as int]);
        let mut found = false;
        let mut t: usize = 0;
        while t < seen.len()
            invariant
                t <= seen@.len(),
                found == exists|u: int| 0 <= u < t && (#[trigger] seen@[u])@ == key@,
            decreases seen.len() - t,
        {
            if same_chars(&seen[t], &key) {
                found = true;
            }
            t += 1;
        }
        let ghost old_r = r@;
        let ghost old_seen = seen@;
        assert(found == !first_of_key(ks, i as int)) by {
            if found {
                let u = choose|u: int| 0 <= u < seen@.len() && (#[trigger] seen@[u])@ == key@;
                assert(key_among(ks, i as int, seen@[u]@));
                let j = choose|j: int| 0 <= j < i && #[trigger] ks[j] == seen@[u]@;
                assert(ks[j] == ks[i as int]);
            } else {
                assert forall|j: int| 0 <= j < i implies ks[j] != ks[i as int] by {
                    assert(holds_key(seen@, ks[j]));
                    let u = choose|u: int| 0 <= u < seen@.len() && (#[trigger] seen@[u])@ == ks[j];
                }
            }
        }
        if !found {
            r.push(i);
            seen.push(key);
            assert(r@.map_values(|x: usize| x as int) =~= old_r.map_values(|x: usize| x as int).push(i as int));
        }
        i += 1;
        proof {
            assert forall|j: int| 0 <= j < i implies holds_key(seen@, #[trigger] ks[j]) by {
                if j < i - 1 {
                    assert(holds_key(old_seen, ks[j]));
                    let t = choose|t: int| 0 <= t < old_seen.len() && (#[trigger] old_seen[t])@ == ks[j];
                    assert(seen@[t] == old_seen[t]);
                } else if found {
                    let u = choose|u: int| 0 <= u < old_seen.len() && (#[trigger] old_seen[u])@ == key@;
                    assert(seen@[u] == old_seen[u]);
                } else {
                    assert(seen@[seen@.len() - 1]@ == ks[j]);
                }
            }
            assert forall|t: int| 0 <= t < seen@.len() implies key_among(ks, i as int, (#[trigger] seen@[t])@) by {
                if t < old_seen.len() {
                    assert(seen@[t] == old_seen[t]);
                    assert(key_among(ks, i - 1, old_seen[t]@));
                    let j = choose|j: int| 0 <= j < i - 1 && #[trigger] ks[j] == old_seen[t]@;
                    assert(0 <= j < i && ks[j] == seen@[t]@);
                } else {
                    assert(seen@[t]@ == ks[i - 1]);
                    assert(ks[i - 1] == seen@[t]@);
                }
            }
        }
    }
    r
}

/// `rep` before, between and after the characters of `s`, as `str::replace`
/// does with an empty pattern.
pub open spec fn interleaved(s: Seq<char>, rep: Seq<char>) -> Seq<char>
    decreases s.len(),
{
    if s.len() == 0 {
        rep
    } else {
        rep + seq![s[0]] + interleaved(s.drop_first(), rep)
    }
}

/// What std's `str::replace` makes of `s`: every occurrence of `pat`,
/// scanning from the left without overlaps, replaced by `rep`.
pub open spec fn std_replaced(s: Seq<char>, pat: Seq<char>, rep: Seq<char>) -> Seq<char> {
    if pat.len() == 0 { interleaved(s, rep) } else { replace_spec(s, pat, rep) }
}

/// Replaces every occurrence of `pat` in `s` by `rep` (see [`std_replaced`]).
pub fn std_replace(s: &str, pat: &str, rep: &str) -> (r: String)
    ensures
        r@ == std_replaced(s@, pat@, rep@),
{
    if !pat.is_empty() {
        return replace_str(s, pat, rep);
    }
    let sv = chars_of(s);
    let rv = chars_of(rep);
    let mut out: Vec<char> = Vec::new();
    let mut i: usize = 0;
    assert(sv@.skip(0) =~= sv@);
    while i < sv.len()
        invariant
            i <= sv@.len(),
            out@ + interleaved(sv@.skip(i as int), rv@) == interleaved(sv@, rv@),
        decreases sv.len() - i,
    {
        let ghost rest = sv@.skip(i as int);
        assert(rest[0] == sv@[i as int]);
        assert(rest.drop_first() =~= sv@.skip(i + 1));
        let ghost before = out@;
        push_all(&mut out, &rv);
        out.push(sv[i]);
        assert(before + interleaved(rest, rv@) =~= out@ + interleaved(sv@.skip(i + 1), rv@));
        i += 1;
    }
    push_all(&mut out, &rv);
    assert(sv@.skip(sv@.len() as int) =~= Seq::<char>::empty());
    string_from_chars(out)
}

/// Whether a cell's text matches the search `find`: a non-empty text that
/// contains it, compared as is or (without `case_sensitive`) in lowercase.
pub open spec fn text_matches(text: Seq<char>, find: Seq<char>, case_sensitive: bool) -> bool {
    text.len() > 0 && if case_sensitive {
        contains_text(text, find)
    } else {
        contains_text(lowercase(text), lowercase(find))
    }
}

/// Whether the cell text `text` matches `find` (see [`text_matches`]).
pub fn cell_text_matches(text: &str, find: &str, case_sensitive: bool) -> (b: bool)
    ensures
        b == text_matches(text@, find@, case_sensitive),
{
    if text.is_empty() {
        return false;
    }
    if case_sensitive {
        contains_chars(&chars_of(text), &chars_of(find))
    } else {
        let lt = to_lowercase(text);
        let lf = to_lowercase(find);
        contains_chars(&chars_of(lt.as_str()), &chars_of(lf.as_str()))
    }
}

/// The new text of a matching cell: `find` replaced by `rep` as is or
/// (without `case_sensitive`) case-insensitively; `None` where the
/// case-insensitive replacement cannot cut the text.
pub open spec fn new_cell_text(text: Seq<char>, find: Seq<char>, rep: Seq<char>, case_sensitive: bool) -> Option<Seq<char>> {
    if case_sensitive {
        Some(std_replaced(text, find, rep))
    } else {
        match case_insensitive_replaced(text, find, rep) {
            Some(b) => Some(decode_utf8(b)),
            None => None,
        }
    }
}

/// A cell as its row, column and text.
pub open spec fn cell_view(c: (u32, u32, String)) -> (u32, u32, Seq<char>) {
    (c.0, c.1, c.2@)
}

/// The cells among the first `n` whose text matches, in order.
pub open spec fn matched_cells(cells: Seq<(u32, u32, Seq<char>)>, find: Seq<char>, case_sensitive: bool, n: int) -> Seq<(u32, u32, Seq<char>)>
    decreases n,
{
    if n <= 0 {
        seq![]
    } else if text_matches(cells[n - 1].2, find, case_sensitive) {
        matched_cells(cells, find, case_sensitive, n - 1).push(cells[n - 1])
    } else {
        matched_cells(cells, find, case_sensitive, n - 1)
    }
}

/// The matching cells with their new texts; `None` where one cannot be made.
pub open spec fn replaced_cells(ms: Seq<(u32, u32, Seq<char>)>, find: Seq<char>, rep: Seq<char>, case_sensitive: bool) -> Option<Seq<(u32, u32, Seq<char>)>>
    decreases ms.len(),
{
    if ms.len() == 0 {
        Some(seq![])
    } else {
        let c = ms.last();
        match (replaced_cells(ms.drop_last(), find, rep, case_sensitive), new_cell_text(c.2, find, rep, case_sensitive)) {
            (Some(rs), Some(t)) => Some(rs.push((c.0, c.1, t))),
            _ => None,
        }
    }
}

/// The outcome of a find (and replace) over `cells`: the matching cells in
/// order, and, where a replacement is given, each with its new text (none
/// without one); `None` where a case-insensitive replacement cannot be made.
pub open spec fn find_replace_outcome(cells: Seq<(u32, u32, Seq<char>)>, find: Seq<char>, replace: Option<Seq<char>>, case_sensitive: bool) -> Option<(Seq<(u32, u32, Seq<char>)>, Seq<(u32, u32, Seq<char>)>)> {
    let ms = matched_cells(cells, find, case_sensitive, cells.len() as int);
    match replace {
        None => Some((ms, seq![])),
        Some(rep) => match replaced_cells(ms, find, rep, case_sensitive) {
            Some(rs) => Some((ms, rs)),
            None => None,
        },
    }
}

/// What a find (and replace) over cells gives: the matching cells with
/// their texts, and the replaced cells with their new texts.
pub struct FindReplaceResult {
    pub matches: Vec<(u32, u32, String)>,
    pub replaced: Vec<(u32, u32, String)>,
}

/// Whether `r` is the outcome `o`.
pub open spec fn result_is(r: FindReplaceResult, o: (Seq<(u32, u32, Seq<char>)>, Seq<(u32, u32, Seq<char>)>)) -> bool {
    r.matches@.map_values(|c: (u32, u32, String)| cell_view(c)) == o.0
        && r.replaced@.map_values(|c: (u32, u32, String)| cell_view(c)) == o.1
}

fn find_replace_core(cells: &Vec<(u32, u32, String)>, find: &str, replace: Option<&str>, case_sensitive: bool) -> (r: Option<FindReplaceResult>)
    ensures
        match find_replace_outcome(cells@.map_values(|c: (u32, u32, String)| cell_view(c)), find@,
            match replace { Some(t) => Some(t@), None => None }, case_sensitive) {
            Some(o) => r matches Some(res) && result_is(res, o),
            None => r is None,
        },
{
    let ghost cv = cells@.map_values(|c: (u32, u32, String)| cell_view(c));
    let mut matches: Vec<(u32, u32, String)> = Vec::new();
    let mut replaced: Vec<(u32, u32, String)> = Vec::new();
    let mut i: usize = 0;
    while i < cells.len()
        invariant
            i <= cells@.len(),
            cv == cells@.map_values(|c: (u32, u32, String)| cell_view(c)),
            matches@.map_values(|c: (u32, u32, String)| cell_view(c)) == matched_cells(cv, find@, case_sensitive, i as int),
            replace is None ==> replaced@.len() == 0,
            replace matches Some(t) ==> replaced_cells(matched_cells(cv, find@, case_sensitive, i as int), find@, t@, case_sensitive)
                == Some(replaced@.map_values(|c: (u32, u32, String)| cell_view(c))),
        decreases cells.len() - i,
    {
        let (row, col, text) = &cells[i];
        assert(cv[i as int] == (*row, *col, text@));
        if cell_text_matches(text.as_str(), find, case_sensitive) {
            let ghost old_m = matches@;
            let ghost old_r = replaced@;
            let copy = text.clone();
            assert(copy@ == text@);
            matches.push((*row, *col, copy));
            assert(matches@.map_values(|c: (u32, u32, String)| cell_view(c))
                =~= old_m.map_values(|c: (u32, u32, String)| cell_view(c)).push(cv[i as int]));
            match replace {
                Some(rep) => {
                    let new_text = if case_sensitive {
                        Some(std_replace(text.as_str(), find, rep))
                    } else {
                        try_case_insensitive_replace(text.as_str(), find, rep)
                    };
                    match new_text {
                        Some(t) => {
                            replaced.push((*row, *col, t));
                            assert(replaced@.map_values(|c: (u32, u32, String)| cell_view(c))
                                =~= old_r.map_values(|c: (u32, u32, String)| cell_view(c)).push((*row, *col, t@)));
                            assert(matched_cells(cv, find@, case_sensitive, i + 1).drop_last()
                                =~= matched_cells(cv, find@, case_sensitive, i as int));
                        },
                        None => {
                            assert(matched_cells(cv, find@, case_sensitive, i + 1).drop_last()
                                =~= matched_cells(cv, find@, case_sensitive, i as int));
                            proof {
                                lemma_replaced_none_stays(cv, find@, rep@, case_sensitive, i + 1);
                            }
                            return None;
                        },
                    }
                },
                None => {},
            }
        }
        i += 1;
    }
    assert(cv.len() == cells@.len());
    assert(i == cv.len());
    if replace.is_none() {
        assert(replaced@.map_values(|c: (u32, u32, String)| cell_view(c)) =~= Seq::<(u32, u32, Seq<char>)>::empty());
    }
    Some(FindReplaceResult { matches, replaced })
}

/// Once the matches up to `n` cannot all be replaced, no longer prefix can.
pub proof fn lemma_replaced_none_stays(cv: Seq<(u32, u32, Seq<char>)>, find: Seq<char>, rep: Seq<char>, case_sensitive: bool, n: int)
    requires
        0 <= n <= cv.len(),
        replaced_cells(matched_cells(cv, find, case_sensitive, n), find, rep, case_sensitive) is None,
    ensures
        replaced_cells(matched_cells(cv, find, case_sensitive, cv.len() as int), find, rep, case_sensitive) is None,
    decreases cv.len() - n,
{
    if n < cv.len() {
        if text_matches(cv[n].2, find, case_sensitive) {
            assert(matched_cells(cv, find, case_sensitive, n + 1).drop_last() =~= matched_cells(cv, find, case_sensitive, n));
        }
        lemma_replaced_none_stays(cv, find, rep, case_sensitive, n + 1);
    }
}

/// The cells as rows, columns and texts.
pub open spec fn cell_views(cells: Seq<(u32, u32, String)>) -> Seq<(u32, u32, Seq<char>)> {
    cells.map_values(|c: (u32, u32, String)| cell_view(c))
}

/// The text of an optional replacement.
pub open spec fn opt_view(t: Option<&str>) -> Option<Seq<char>> {
    match t {
        Some(t) => Some(t@),
        None => None,
    }
}

/// Finds the cells whose text contains `find` (see [`text_matches`]) and,
/// where `replace` is given, replaces it in each (see [`new_cell_text`]),
/// as the find-and-replace tool does over a sheet's non-empty cells: the
/// matches found, and the replacements made, with their new texts.
pub fn find_replace_cells(cells: &Vec<(u32, u32, String)>, find: &str, replace: Option<&str>, case_sensitive: bool) -> (r: FindReplaceResult)
    requires
        find_replace_outcome(cell_views(cells@), find@, opt_view(replace), case_sensitive) is Some,
    ensures
        result_is(r, find_replace_outcome(cell_views(cells@), find@, opt_view(replace), case_sensitive)->0),
{
    find_replace_core(cells, find, replace, case_sensitive).unwrap()
}

/// [`find_replace_cells`] where each case-insensitive replacement can be
/// made; `None` where one cannot (see [`find_replace_outcome`]).
pub fn try_find_replace_cells(cells: &Vec<(u32, u32, String)>, find: &str, replace: Option<&str>, case_sensitive: bool) -> (r: Option<FindReplaceResult>)
    ensures
        match find_replace_outcome(cell_views(cells@), find@, opt_view(replace), case_sensitive) {
            Some(o) => r matches Some(res) && result_is(res, o),
            None => r is None,
        },
{
    if find_replace_core(cells, find, replace, case_sensitive).is_some() {
        Some(find_replace_cells(cells, find, replace, case_sensitive))
    } else {
        None
    }
}

} // verus!
