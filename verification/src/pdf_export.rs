//! Helpers of the print-ready HTML export: column letters, HTML escaping and
//! the default print settings.
use vstd::prelude::*;
use crate::text::{chars_of, decimal, push_all, push_decimal, replace_all, replace_spec, string_from_chars};

verus! {

/// The capital letter of index `d` (0 = `A`, 25 = `Z`).
pub open spec fn letter(d: int) -> char {
    ((65 + d) as u8) as char
}

/// The spreadsheet column name of the 0-based column `c`: `A`..`Z`, then
/// `AA`, `AB`, ... (bijective base 26).
pub open spec fn column_letters(c: nat) -> Seq<char>
    decreases c,
{
    if c < 26 {
        seq![letter(c as int)]
    } else {
        column_letters((c / 26 - 1) as nat).push(letter((c % 26) as int))
    }
}

fn push_column_letters(out: &mut Vec<char>, c: u64)
    ensures
        final(out)@ == old(out)@ + column_letters(c as nat),
    decreases c,
{
    if c >= 26 {
        push_column_letters(out, c / 26 - 1);
    }
    let ch = (65u8 + (c % 26) as u8) as char;
    out.push(ch);
    assert(out@ == old(out)@ + column_letters(c as nat));
}

/// Converts a 0-based column index to its letters (A, B, ..., Z, AA, AB, ...).
pub fn col_to_letter(col: u32) -> (s: String)
    ensures
        s@ == column_letters(col as nat),
{
    let mut out: Vec<char> = Vec::new();
    push_column_letters(&mut out, col as u64);
    string_from_chars(out)
}

/// `s` with the characters that are markup in HTML replaced by entities:
/// `&` first, then `<`, `>`, `"` and `'`.
pub open spec fn escape_html_spec(s: Seq<char>) -> Seq<char> {
    let a = replace_spec(s, seq!['&'], seq!['&', 'a', 'm', 'p', ';']);
    let b = replace_spec(a, seq!['<'], seq!['&', 'l', 't', ';']);
    let c = replace_spec(b, seq!['>'], seq!['&', 'g', 't', ';']);
    let d = replace_spec(c, seq!['"'], seq!['&', 'q', 'u', 'o', 't', ';']);
    replace_spec(d, seq!['\''], seq!['&', '#', '3', '9', ';'])
}

/// Escapes `&`, `<`, `>`, `"` and `'` for use in HTML text and attributes.
pub fn escape_html(s: &str) -> (r: String)
    ensures
        r@ == escape_html_spec(s@),
{
    let v = chars_of(s);
    let (amp_c, lt_c, gt_c, quot_c, apos_c) = (vec!['&'], vec!['<'], vec!['>'], vec!['"'], vec!['\'']);
    let amp = vec!['&', 'a', 'm', 'p', ';'];
    let lt = vec!['&', 'l', 't', ';'];
    let gt = vec!['&', 'g', 't', ';'];
    let quot = vec!['&', 'q', 'u', 'o', 't', ';'];
    let apos = vec!['&', '#', '3', '9', ';'];
    assert(amp_c@ =~= seq!['&'] && lt_c@ =~= seq!['<'] && gt_c@ =~= seq!['>'] && quot_c@ =~= seq!['"'] && apos_c@ =~= seq!['\'']);
    assert(amp@ =~= seq!['&', 'a', 'm', 'p', ';'] && lt@ =~= seq!['&', 'l', 't', ';'] && gt@ =~= seq!['&', 'g', 't', ';']);
    assert(quot@ =~= seq!['&', 'q', 'u', 'o', 't', ';'] && apos@ =~= seq!['&', '#', '3', '9', ';']);
    let a = replace_all(&v, &amp_c, &amp);
    let b = replace_all(&a, &lt_c, &lt);
    let c = replace_all(&b, &gt_c, &gt);
    let d = replace_all(&c, &quot_c, &quot);
    let e = replace_all(&d, &apos_c, &apos);
    string_from_chars(e)
}

/// Replacing a one-character pattern removes that character, when the
/// replacement does not hold it, and keeps any other character out that
/// neither the text nor the replacement holds.
pub proof fn lemma_replace_char_absent(s: Seq<char>, p: char, rep: Seq<char>, x: char)
    requires
        !rep.contains(x),
        x == p || !s.contains(x),
    ensures
        !replace_spec(s, seq![p], rep).contains(x),
    decreases s.len(),
{
    let r = replace_spec(s, seq![p], rep);
    if s.len() >= 1 {
        let rest = if s.take(1) == seq![p] { s.skip(1) } else { s.drop_first() };
        assert(s.skip(1) == s.drop_first());
        if x != p {
            if rest.contains(x) {
                let j = choose|j: int| 0 <= j < rest.len() && rest[j] == x;
                assert(s[j + 1] == x);
            }
        }
        lemma_replace_char_absent(rest, p, rep, x);
        let tail = replace_spec(rest, seq![p], rep);
        if s.take(1) == seq![p] {
            assert(r == rep + tail);
            if r.contains(x) {
                let j = choose|j: int| 0 <= j < r.len() && r[j] == x;
                if j < rep.len() {
                    assert(rep[j] == x);
                } else {
                    assert(tail[j - rep.len()] == x);
                }
            }
        } else {
            assert(r == seq![s[0]] + tail);
            assert(s[0] != p) by {
                if s[0] == p {
                    assert(s.take(1) == seq![p]);
                }
            }
            if r.contains(x) {
                let j = choose|j: int| 0 <= j < r.len() && r[j] == x;
                if j == 0 {
                    assert(s[0] == x);
                    assert(s.contains(x));
                } else {
                    assert(tail[j - 1] == x);
                }
            }
        }
    }
}

/// Escaped text holds none of `<`, `>`, `"` and `'`, so it cannot open or
/// close a tag or an attribute value.
pub proof fn law_escaped_has_no_markup(s: Seq<char>)
    ensures
        !escape_html_spec(s).contains('<'),
        !escape_html_spec(s).contains('>'),
        !escape_html_spec(s).contains('"'),
        !escape_html_spec(s).contains('\''),
{
    let a = replace_spec(s, seq!['&'], seq!['&', 'a', 'm', 'p', ';']);
    let b = replace_spec(a, seq!['<'], seq!['&', 'l', 't', ';']);
    let c = replace_spec(b, seq!['>'], seq!['&', 'g', 't', ';']);
    let d = replace_spec(c, seq!['"'], seq!['&', 'q', 'u', 'o', 't', ';']);
    let amp = seq!['&', 'a', 'm', 'p', ';'];
    let lt = seq!['&', 'l', 't', ';'];
    let gt = seq!['&', 'g', 't', ';'];
    let quot = seq!['&', 'q', 'u', 'o', 't', ';'];
    let apos = seq!['&', '#', '3', '9', ';'];
    assert(!lt.contains('<') && !gt.contains('<') && !quot.contains('<') && !apos.contains('<')) by {
        assert(lt[0] != '<' && lt[1] != '<' && lt[2] != '<' && lt[3] != '<');
        assert(gt[0] != '<' && gt[1] != '<' && gt[2] != '<' && gt[3] != '<');
        assert(quot[0] != '<' && quot[1] != '<' && quot[2] != '<' && quot[3] != '<' && quot[4] != '<' && quot[5] != '<');
        assert(apos[0] != '<' && apos[1] != '<' && apos[2] != '<' && apos[3] != '<' && apos[4] != '<');
    }
    assert(!gt.contains('>') && !quot.contains('>') && !apos.contains('>')) by {
        assert(gt[0] != '>' && gt[1] != '>' && gt[2] != '>' && gt[3] != '>');
        assert(quot[0] != '>' && quot[1] != '>' && quot[2] != '>' && quot[3] != '>' && quot[4] != '>' && quot[5] != '>');
        assert(apos[0] != '>' && apos[1] != '>' && apos[2] != '>' && apos[3] != '>' && apos[4] != '>');
    }
    assert(!quot.contains('"') && !apos.contains('"')) by {
        assert(quot[0] != '"' && quot[1] != '"' && quot[2] != '"' && quot[3] != '"' && quot[4] != '"' && quot[5] != '"');
        assert(apos[0] != '"' && apos[1] != '"' && apos[2] != '"' && apos[3] != '"' && apos[4] != '"');
    }
    assert(!apos.contains('\'')) by {
        assert(apos[0] != '\'' && apos[1] != '\'' && apos[2] != '\'' && apos[3] != '\'' && apos[4] != '\'');
    }
    lemma_replace_char_absent(a, '<', lt, '<');
    lemma_replace_char_absent(b, '>', gt, '<');
    lemma_replace_char_absent(c, '"', quot, '<');
    lemma_replace_char_absent(d, '\'', apos, '<');
    lemma_replace_char_absent(b, '>', gt, '>');
    lemma_replace_char_absent(c, '"', quot, '>');
    lemma_replace_char_absent(d, '\'', apos, '>');
    lemma_replace_char_absent(c, '"', quot, '"');
    lemma_replace_char_absent(d, '\'', apos, '"');
    lemma_replace_char_absent(d, '\'', apos, '\'');
}

/// The default paper size of print settings.
pub fn default_paper_size() -> (s: String)
    ensures
        s@ == "letter"@,
{
    String::from_str("letter")
}

/// The default page orientation of print settings.
pub fn default_orientation() -> (s: String)
    ensures
        s@ == "portrait"@,
{
    String::from_str("portrait")
}

/// The default of the print settings that are on unless turned off (gridlines).
pub fn default_true() -> (b: bool)
    ensures
        b,
{
    true
}

/// The default margin preset of print settings.
pub fn default_margins() -> (s: String)
    ensures
        s@ == "normal"@,
{
    String::from_str("normal")
}

/// `s` with each `p` replaced by `rep`, character by character.
pub open spec fn replace_char(s: Seq<char>, p: char, rep: Seq<char>) -> Seq<char>
    decreases s.len(),
{
    if s.len() == 0 {
        seq![]
    } else {
        (if s[0] == p { rep } else { seq![s[0]] }) + replace_char(s.drop_first(), p, rep)
    }
}

/// Replacing a one-character pattern replaces it character by character.
proof fn lemma_replace_single(s: Seq<char>, p: char, rep: Seq<char>)
    ensures
        replace_spec(s, seq![p], rep) == replace_char(s, p, rep),
    decreases s.len(),
{
    if s.len() > 0 {
        assert(s.skip(1) =~= s.drop_first());
        assert((s.take(1) == seq![p]) == (s[0] == p)) by {
            if s[0] == p {
                assert(s.take(1) =~= seq![p]);
            }
            if s.take(1) == seq![p] {
                assert(s.take(1)[0] == s[0]);
            }
        }
        lemma_replace_single(s.drop_first(), p, rep);
    }
}

/// Replacing characters distributes over concatenation.
proof fn lemma_replace_char_concat(a: Seq<char>, b: Seq<char>, p: char, rep: Seq<char>)
    ensures
        replace_char(a + b, p, rep) == replace_char(a, p, rep) + replace_char(b, p, rep),
    decreases a.len(),
{
    if a.len() == 0 {
        assert(a + b =~= b);
    } else {
        assert((a + b).drop_first() =~= a.drop_first() + b);
        assert((a + b)[0] == a[0]);
        lemma_replace_char_concat(a.drop_first(), b, p, rep);
    }
}

/// The five replacements of [`escape_html_spec`], character by character.
pub open spec fn escape_chain(s: Seq<char>) -> Seq<char> {
    let a = replace_char(s, '&', seq!['&', 'a', 'm', 'p', ';']);
    let b = replace_char(a, '<', seq!['&', 'l', 't', ';']);
    let c = replace_char(b, '>', seq!['&', 'g', 't', ';']);
    let d = replace_char(c, '"', seq!['&', 'q', 'u', 'o', 't', ';']);
    replace_char(d, '\'', seq!['&', '#', '3', '9', ';'])
}

/// The entity that escapes `c`, or `c` itself.
pub open spec fn escape_char(c: char) -> Seq<char> {
    if c == '&' { seq!['&', 'a', 'm', 'p', ';'] }
    else if c == '<' { seq!['&', 'l', 't', ';'] }
    else if c == '>' { seq!['&', 'g', 't', ';'] }
    else if c == '"' { seq!['&', 'q', 'u', 'o', 't', ';'] }
    else if c == '\'' { seq!['&', '#', '3', '9', ';'] }
    else { seq![c] }
}

/// Each character escaped on its own, in order.
pub open spec fn escaped(s: Seq<char>) -> Seq<char>
    decreases s.len(),
{
    if s.len() == 0 { seq![] } else { escape_char(s[0]) + escaped(s.drop_first()) }
}

proof fn lemma_chain_concat(a: Seq<char>, b: Seq<char>)
    ensures
        escape_chain(a + b) == escape_chain(a) + escape_chain(b),
{
    let (pa, pl, pg, pq, ps) = (seq!['&', 'a', 'm', 'p', ';'], seq!['&', 'l', 't', ';'], seq!['&', 'g', 't', ';'],
        seq!['&', 'q', 'u', 'o', 't', ';'], seq!['&', '#', '3', '9', ';']);
    lemma_replace_char_concat(a, b, '&', pa);
    let (a1, b1) = (replace_char(a, '&', pa), replace_char(b, '&', pa));
    lemma_replace_char_concat(a1, b1, '<', pl);
    let (a2, b2) = (replace_char(a1, '<', pl), replace_char(b1, '<', pl));
    lemma_replace_char_concat(a2, b2, '>', pg);
    let (a3, b3) = (replace_char(a2, '>', pg), replace_char(b2, '>', pg));
    lemma_replace_char_concat(a3, b3, '"', pq);
    let (a4, b4) = (replace_char(a3, '"', pq), replace_char(b3, '"', pq));
    lemma_replace_char_concat(a4, b4, '\'', ps);
}

proof fn lemma_chain_char(c: char)
    ensures
        escape_chain(seq![c]) == escape_char(c),
{
    reveal_with_fuel(replace_char, 7);
    assert(seq![c].drop_first() =~= Seq::<char>::empty());
    let pa = seq!['&', 'a', 'm', 'p', ';'];
    let pl = seq!['&', 'l', 't', ';'];
    let pg = seq!['&', 'g', 't', ';'];
    let pq = seq!['&', 'q', 'u', 'o', 't', ';'];
    let ps = seq!['&', '#', '3', '9', ';'];
    assert(replace_char(pa, '<', pl) =~= pa);
    assert(replace_char(pa, '>', pg) =~= pa);
    assert(replace_char(pa, '"', pq) =~= pa);
    assert(replace_char(pa, '\'', ps) =~= pa);
    assert(replace_char(pl, '>', pg) =~= pl);
    assert(replace_char(pl, '"', pq) =~= pl);
    assert(replace_char(pl, '\'', ps) =~= pl);
    assert(replace_char(pg, '"', pq) =~= pg);
    assert(replace_char(pg, '\'', ps) =~= pg);
    assert(replace_char(pq, '\'', ps) =~= pq);
    assert(replace_char(seq![c], '&', pa) =~= if c == '&' { pa } else { seq![c] });
    assert(replace_char(seq![c], '<', pl) =~= if c == '<' { pl } else { seq![c] });
    assert(replace_char(seq![c], '>', pg) =~= if c == '>' { pg } else { seq![c] });
    assert(replace_char(seq![c], '"', pq) =~= if c == '"' { pq } else { seq![c] });
    assert(replace_char(seq![c], '\'', ps) =~= if c == '\'' { ps } else { seq![c] });
}

/// The five successive replacements escape each character on its own.
pub proof fn lemma_escape_is_per_char(s: Seq<char>)
    ensures
        escape_html_spec(s) == escaped(s),
    decreases s.len(),
{
    lemma_replace_single(s, '&', seq!['&', 'a', 'm', 'p', ';']);
    let a = replace_char(s, '&', seq!['&', 'a', 'm', 'p', ';']);
    lemma_replace_single(a, '<', seq!['&', 'l', 't', ';']);
    let b = replace_char(a, '<', seq!['&', 'l', 't', ';']);
    lemma_replace_single(b, '>', seq!['&', 'g', 't', ';']);
    let c = replace_char(b, '>', seq!['&', 'g', 't', ';']);
    lemma_replace_single(c, '"', seq!['&', 'q', 'u', 'o', 't', ';']);
    let d = replace_char(c, '"', seq!['&', 'q', 'u', 'o', 't', ';']);
    lemma_replace_single(d, '\'', seq!['&', '#', '3', '9', ';']);
    assert(escape_html_spec(s) == escape_chain(s));
    lemma_chain_per_char(s);
}

proof fn lemma_chain_per_char(s: Seq<char>)
    ensures
        escape_chain(s) == escaped(s),
    decreases s.len(),
{
    if s.len() == 0 {
        reveal_with_fuel(replace_char, 1);
    } else {
        assert(s =~= seq![s[0]] + s.drop_first());
        lemma_chain_concat(seq![s[0]], s.drop_first());
        lemma_chain_char(s[0]);
        lemma_chain_per_char(s.drop_first());
    }
}

/// Reads entities back: `&amp;`, `&lt;`, `&gt;`, `&quot;` and `&#39;` become
/// the characters they stand for, from the left; every other character stays.
pub open spec fn unescaped(t: Seq<char>) -> Seq<char>
    decreases t.len(),
{
    if t.len() == 0 {
        seq![]
    } else if t.len() >= 5 && t.take(5) == seq!['&', 'a', 'm', 'p', ';'] {
        seq!['&'] + unescaped(t.skip(5))
    } else if t.len() >= 4 && t.take(4) == seq!['&', 'l', 't', ';'] {
        seq!['<'] + unescaped(t.skip(4))
    } else if t.len() >= 4 && t.take(4) == seq!['&', 'g', 't', ';'] {
        seq!['>'] + unescaped(t.skip(4))
    } else if t.len() >= 6 && t.take(6) == seq!['&', 'q', 'u', 'o', 't', ';'] {
        seq!['"'] + unescaped(t.skip(6))
    } else if t.len() >= 5 && t.take(5) == seq!['&', '#', '3', '9', ';'] {
        seq!['\''] + unescaped(t.skip(5))
    } else {
        seq![t[0]] + unescaped(t.drop_first())
    }
}

proof fn lemma_unescape_char(c: char, rest: Seq<char>)
    ensures
        unescaped(escape_char(c) + rest) == seq![c] + unescaped(rest),
{
    let t = escape_char(c) + rest;
    let e = escape_char(c);
    assert(t.take(e.len() as int) =~= e);
    assert(t.skip(e.len() as int) =~= rest);
    if c != '&' && c != '<' && c != '>' && c != '"' && c != '\'' {
        assert(t[0] == c);
        assert(t.drop_first() =~= rest);
        assert(t.len() >= 5 ==> t.take(5)[0] == c);
        assert(t.len() >= 4 ==> t.take(4)[0] == c);
        assert(t.len() >= 6 ==> t.take(6)[0] == c);
    } else if c == '<' {
        assert(t.len() >= 5 ==> t.take(5)[1] == 'l');
    } else if c == '>' {
        assert(t.len() >= 5 ==> t.take(5)[1] == 'g');
        assert(t.take(4)[1] == 'g');
    } else if c == '"' {
        assert(t.take(5)[1] == 'q');
        assert(t.take(4)[1] == 'q');
    } else if c == '\'' {
        assert(t.take(5)[1] == '#');
        assert(t.take(4)[1] == '#');
    }
}

/// Reading the entities of escaped text back gives the text itself.
pub proof fn law_unescape_escaped(s: Seq<char>)
    ensures
        unescaped(escape_html_spec(s)) == s,
    decreases s.len(),
{
    lemma_escape_is_per_char(s);
    lemma_unescape_escaped_chars(s);
}

proof fn lemma_unescape_escaped_chars(s: Seq<char>)
    ensures
        unescaped(escaped(s)) == s,
    decreases s.len(),
{
    if s.len() > 0 {
        lemma_unescape_char(s[0], escaped(s.drop_first()));
        lemma_unescape_escaped_chars(s.drop_first());
        assert(s =~= seq![s[0]] + s.drop_first());
    }
}

/// One cell of the printed table: its content, already HTML, and its inline
/// CSS (empty for none).
pub struct PrintCell {
    pub content: String,
    pub style: String,
}

/// One row of the printed table: its height in pixels, if set, and its cells.
pub struct PrintRow {
    pub height: Option<u32>,
    pub cells: Vec<PrintCell>,
}

/// What the print-ready HTML of a sheet is made from: the sheet's name, the
/// print CSS, whether row and column headers are shown, whether the sheet is
/// empty, the width in pixels of each column, and the rows.
pub struct PrintPage {
    pub title: String,
    pub css: String,
    pub show_headers: bool,
    pub empty: bool,
    pub col_widths: Vec<u32>,
    pub rows: Vec<PrintRow>,
}

/// The header cells of the first `n` columns.
pub open spec fn col_headers_html(n: nat) -> Seq<char>
    decreases n,
{
    if n == 0 {
        seq![]
    } else {
        col_headers_html((n - 1) as nat) + "<th class=\"col-header\">"@ + column_letters((n - 1) as nat) + "</th>\n"@
    }
}

/// The `<col>` elements of columns of widths `w`.
pub open spec fn cols_html(w: Seq<u32>) -> Seq<char>
    decreases w.len(),
{
    if w.len() == 0 {
        seq![]
    } else {
        cols_html(w.drop_last()) + "<col style=\"width:"@ + decimal(w.last() as nat) + "px\">\n"@
    }
}

/// The HTML of one cell.
pub open spec fn cell_html(c: PrintCell) -> Seq<char> {
    (if c.style@.len() == 0 { "<td>"@ } else { "<td style=\""@ + c.style@ + "\">"@ }) + c.content@ + "</td>\n"@
}

/// The HTML of the cells `cs`.
pub open spec fn cells_html(cs: Seq<PrintCell>) -> Seq<char>
    decreases cs.len(),
{
    if cs.len() == 0 { seq![] } else { cells_html(cs.drop_last()) + cell_html(cs.last()) }
}

/// The HTML of row `r`, the `i`-th of the sheet (from 0).
pub open spec fn row_html(r: PrintRow, i: nat, headers: bool) -> Seq<char> {
    "<tr"@
    + match r.height { Some(h) => " style=\"height:"@ + decimal(h as nat) + "px\""@, None => seq![] }
    + ">\n"@
    + (if headers { "<td class=\"row-header\">"@ + decimal(i + 1) + "</td>\n"@ } else { seq![] })
    + cells_html(r.cells@)
    + "</tr>\n"@
}

/// The HTML of the rows `rs`.
pub open spec fn rows_html(rs: Seq<PrintRow>, headers: bool) -> Seq<char>
    decreases rs.len(),
{
    if rs.len() == 0 {
        seq![]
    } else {
        rows_html(rs.drop_last(), headers) + row_html(rs.last(), (rs.len() - 1) as nat, headers)
    }
}

/// The print-ready HTML of a sheet: its escaped name as title and heading,
/// the print CSS, and either a note that the sheet is empty or a table with
/// optional column headers (`A`, `B`, ...), the column widths, and each row
/// with its height, an optional row number and its cells.
pub open spec fn page_html(p: PrintPage) -> Seq<char> {
    let title = escape_html_spec(p.title@);
    let head = "<!DOCTYPE html>\n<html lang=\"en\">\n<head>\n"@ + "<meta charset=\"utf-8\">\n"@
        + "<title>"@ + title + "</title>\n"@ + "<style>\n"@ + p.css@ + "</style>\n"@
        + "</head>\n<body>\n"@ + "<h1>"@ + title + "</h1>\n"@;
    if p.empty {
        head + "<p>This sheet is empty.</p>\n"@ + "</body>\n</html>\n"@
    } else {
        head + "<table>\n"@
        + (if p.show_headers {
            "<thead><tr><th class=\"row-header\"></th>"@ + col_headers_html(p.col_widths@.len()) + "</tr></thead>\n"@
        } else { seq![] })
        + "<colgroup>\n"@
        + (if p.show_headers { "<col style=\"width:40px\">\n"@ } else { seq![] })
        + cols_html(p.col_widths@) + "</colgroup>\n"@
        + "<tbody>\n"@ + rows_html(p.rows@, p.show_headers) + "</tbody>\n"@
        + "</table>\n"@ + "</body>\n</html>\n"@
    }
}

fn push_text(out: &mut Vec<char>, s: &str)
    ensures
        final(out)@ == old(out)@ + s@,
{
    push_all(out, &chars_of(s));
}

fn push_col_headers(out: &mut Vec<char>, n: usize)
    requires
        n <= u32::MAX,
    ensures
        final(out)@ == old(out)@ + col_headers_html(n as nat),
{
    let ghost start = out@;
    let mut c: usize = 0;
    while c < n
        invariant
            c <= n <= u32::MAX,
            out@ == start + col_headers_html(c as nat),
        decreases n - c,
    {
        push_text(out, "<th class=\"col-header\">");
        push_all(out, &chars_of(col_to_letter(c as u32).as_str()));
        push_text(out, "</th>\n");
        c += 1;
        assert(out@ =~= start + col_headers_html(c as nat));
    }
}

fn push_cols(out: &mut Vec<char>, w: &Vec<u32>)
    ensures
        final(out)@ == old(out)@ + cols_html(w@),
{
    let ghost start = out@;
    let mut i: usize = 0;
    while i < w.len()
        invariant
            i <= w@.len(),
            out@ == start + cols_html(w@.take(i as int)),
        decreases w.len() - i,
    {
        push_text(out, "<col style=\"width:");
        push_decimal(out, w[i] as u64);
        push_text(out, "px\">\n");
        i += 1;
        assert(w@.take(i as int).drop_last() =~= w@.take(i - 1));
        assert(out@ =~= start + cols_html(w@.take(i as int)));
    }
    assert(w@.take(w@.len() as int) =~= w@);
}

fn push_cells(out: &mut Vec<char>, cs: &Vec<PrintCell>)
    ensures
        final(out)@ == old(out)@ + cells_html(cs@),
{
    let ghost start = out@;
    let mut i: usize = 0;
    while i < cs.len()
        invariant
            i <= cs@.len(),
            out@ == start + cells_html(cs@.take(i as int)),
        decreases cs.len() - i,
    {
        let c = &cs[i];
        if c.style.as_str().is_empty() {
            push_text(out, "<td>");
        } else {
            push_text(out, "<td style=\"");
            push_text(out, c.style.as_str());
            push_text(out, "\">");
        }
        push_text(out, c.content.as_str());
        push_text(out, "</td>\n");
        i += 1;
        assert(cs@.take(i as int).drop_last() =~= cs@.take(i - 1));
        assert(out@ =~= start + cells_html(cs@.take(i as int)));
    }
    assert(cs@.take(cs@.len() as int) =~= cs@);
}

fn push_row(out: &mut Vec<char>, r: &PrintRow, i: usize, headers: bool)
    requires
        i < u64::MAX,
    ensures
        final(out)@ == old(out)@ + row_html(*r, i as nat, headers),
{
    let ghost before = out@;
    push_text(out, "<tr");
    match r.height {
        Some(h) => {
            push_text(out, " style=\"height:");
            push_decimal(out, h as u64);
            push_text(out, "px\"");
        },
        None => {},
    }
    push_text(out, ">\n");
    if headers {
        push_text(out, "<td class=\"row-header\">");
        push_decimal(out, i as u64 + 1);
        push_text(out, "</td>\n");
    }
    push_cells(out, &r.cells);
    push_text(out, "</tr>\n");
    assert(out@ =~= before + row_html(*r, i as nat, headers));
}

fn push_rows(out: &mut Vec<char>, rs: &Vec<PrintRow>, headers: bool)
    ensures
        final(out)@ == old(out)@ + rows_html(rs@, headers),
{
    let ghost start = out@;
    let mut i: usize = 0;
    while i < rs.len()
        invariant
            i <= rs@.len(),
            out@ == start + rows_html(rs@.take(i as int), headers),
        decreases rs.len() - i,
    {
        let ghost before = out@;
        push_row(out, &rs[i], i, headers);
        i += 1;
        assert(rs@.take(i as int).drop_last() =~= rs@.take(i - 1));
        assert(out@ =~= start + rows_html(rs@.take(i as int), headers));
    }
    assert(rs@.take(rs@.len() as int) =~= rs@);
}

/// The print-ready HTML of a sheet (see [`page_html`]).
pub fn print_html(page: &PrintPage) -> (r: String)
    requires
        page.col_widths@.len() <= u32::MAX,
    ensures
        r@ == page_html(*page),
{
    let mut out: Vec<char> = Vec::new();
    let title = escape_html(page.title.as_str());
    push_text(&mut out, "<!DOCTYPE html>\n<html lang=\"en\">\n<head>\n");
    push_text(&mut out, "<meta charset=\"utf-8\">\n");
    push_text(&mut out, "<title>");
    push_text(&mut out, title.as_str());
    push_text(&mut out, "</title>\n");
    push_text(&mut out, "<style>\n");
    push_text(&mut out, page.css.as_str());
    push_text(&mut out, "</style>\n");
    push_text(&mut out, "</head>\n<body>\n");
    push_text(&mut out, "<h1>");
    push_text(&mut out, title.as_str());
    push_text(&mut out, "</h1>\n");
    let ghost head = out@;
    if page.empty {
        push_text(&mut out, "<p>This sheet is empty.</p>\n");
        push_text(&mut out, "</body>\n</html>\n");
        assert(out@ =~= page_html(*page));
        return string_from_chars(out);
    }
    push_text(&mut out, "<table>\n");
    let ghost a = out@;
    if page.show_headers {
        push_text(&mut out, "<thead><tr><th class=\"row-header\"></th>");
        push_col_headers(&mut out, page.col_widths.len());
        push_text(&mut out, "</tr></thead>\n");
    }
    let ghost b = out@;
    push_text(&mut out, "<colgroup>\n");
    if page.show_headers {
        push_text(&mut out, "<col style=\"width:40px\">\n");
    }
    push_cols(&mut out, &page.col_widths);
    push_text(&mut out, "</colgroup>\n");
    let ghost c = out@;
    push_text(&mut out, "<tbody>\n");
    push_rows(&mut out, &page.rows, page.show_headers);
    push_text(&mut out, "</tbody>\n");
    push_text(&mut out, "</table>\n");
    push_text(&mut out, "</body>\n</html>\n");
    assert(out@ =~= page_html(*page));
    string_from_chars(out)
}

/// Whether one of the five entities starts at position `i` of `t`.
pub open spec fn entity_at(t: Seq<char>, i: int) -> bool {
    ||| (i + 5 <= t.len() && t.subrange(i, i + 5) == seq!['&', 'a', 'm', 'p', ';'])
    ||| (i + 4 <= t.len() && t.subrange(i, i + 4) == seq!['&', 'l', 't', ';'])
    ||| (i + 4 <= t.len() && t.subrange(i, i + 4) == seq!['&', 'g', 't', ';'])
    ||| (i + 6 <= t.len() && t.subrange(i, i + 6) == seq!['&', 'q', 'u', 'o', 't', ';'])
    ||| (i + 5 <= t.len() && t.subrange(i, i + 5) == seq!['&', '#', '3', '9', ';'])
}

proof fn lemma_entities_of_escaped(s: Seq<char>)
    ensures
        forall|i: int| 0 <= i < escaped(s).len() && escaped(s)[i] == '&' ==> #[trigger] entity_at(escaped(s), i),
    decreases s.len(),
{
    if s.len() > 0 {
        let e = escape_char(s[0]);
        let rest = escaped(s.drop_first());
        let t = escaped(s);
        assert(t == e + rest);
        lemma_entities_of_escaped(s.drop_first());
        assert forall|i: int| 0 <= i < t.len() && t[i] == '&' implies #[trigger] entity_at(t, i) by {
            if i < e.len() {
                assert(e[i] == '&');
                assert(i == 0);
                assert(t.subrange(0, e.len() as int) =~= e);
            } else {
                let j = i - e.len();
                assert(rest[j] == '&');
                assert(entity_at(rest, j));
                assert forall|k: int| 0 <= k && j + k <= rest.len() implies #[trigger] t.subrange(i, i + k) == rest.subrange(j, j + k) by {
                    assert(t.subrange(i, i + k) =~= rest.subrange(j, j + k));
                }
                assert(t.subrange(i, i + 4) == rest.subrange(j, j + 4) || j + 4 > rest.len());
                assert(t.subrange(i, i + 5) == rest.subrange(j, j + 5) || j + 5 > rest.len());
                assert(t.subrange(i, i + 6) == rest.subrange(j, j + 6) || j + 6 > rest.len());
            }
        }
    }
}

/// Every `&` of escaped text starts one of the entities `&amp;`, `&lt;`,
/// `&gt;`, `&quot;` and `&#39;`.
pub proof fn law_escaped_ampersands_start_entities(s: Seq<char>)
    ensures
        forall|i: int| 0 <= i < escape_html_spec(s).len() && escape_html_spec(s)[i] == '&'
            ==> #[trigger] entity_at(escape_html_spec(s), i),
{
    lemma_escape_is_per_char(s);
    lemma_entities_of_escaped(s);
}

} // verus!
