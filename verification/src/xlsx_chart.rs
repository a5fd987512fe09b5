//! Paths and names inside spreadsheet packages: relationship files, relative
//! targets, and XML names with namespace prefixes.
use vstd::prelude::*;
use vstd::utf8::{valid_utf8, decode_utf8};
use crate::text::{chars_of, contains_chars, contains_text, string_from_chars, push_all, same_chars};
use crate::xml::{attr_text, attr_text_exact, bytes_match, last_attr_exact, xml_events, xml_event_stream, XmlEvent, XmlTag};
use crate::xlsx_reader::opened_tag;
use vstd::utf8::encode_utf8;

verus! {

/// The text that std's `String::from_utf8_lossy` makes of `bytes`.
pub uninterp spec fn utf8_lossy(bytes: Seq<u8>) -> Seq<char>;

/// Decodes `bytes` with std's `String::from_utf8_lossy`. The contract claims
/// what its documentation states for valid UTF-8 (the decoded characters);
/// for invalid input it only names the result.
#[verifier::external_body]
pub(crate) fn lossy_text(bytes: &[u8]) -> (s: String)
    ensures
        s@ == utf8_lossy(bytes@),
        valid_utf8(bytes@) ==> s@ == decode_utf8(bytes@),
{
    String::from_utf8_lossy(bytes).into_owned()
}

/// The part of `t` after the last `c` (all of `t` when it has no `c`).
pub open spec fn after_last(t: Seq<char>, c: char) -> Seq<char>
    decreases t.len(),
{
    if t.len() == 0 || t.last() == c { seq![] } else { after_last(t.drop_last(), c).push(t.last()) }
}

/// The part of `t` before the last `c` (`None` when it has no `c`).
pub open spec fn before_last(t: Seq<char>, c: char) -> Option<Seq<char>>
    decreases t.len(),
{
    if t.len() == 0 { None } else if t.last() == c { Some(t.drop_last()) } else { before_last(t.drop_last(), c) }
}

/// The position just after the last `c` in `v` (`None` when there is none),
/// with the parts before and after that `c`.
fn find_last(v: &Vec<char>, c: char) -> (r: Option<usize>)
    ensures
        match r {
            Some(k) => 1 <= k <= v@.len() && before_last(v@, c) == Some(v@.take(k - 1)) && after_last(v@, c) == v@.skip(k as int),
            None => before_last(v@, c) is None && after_last(v@, c) == v@,
        },
{
    let mut k: usize = v.len();
    while k > 0 && v[k - 1] != c
        invariant
            k <= v@.len(),
            forall|j: int| k <= j < v@.len() ==> v@[j] != c,
        decreases k,
    {
        k -= 1;
    }
    proof {
        lemma_last_split(v@, c, k as int);
    }
    if k == 0 { None } else { Some(k) }
}

proof fn lemma_last_split(t: Seq<char>, c: char, k: int)
    requires
        0 <= k <= t.len(),
        forall|j: int| k <= j < t.len() ==> t[j] != c,
        k > 0 ==> t[k - 1] == c,
    ensures
        k == 0 ==> before_last(t, c) is None && after_last(t, c) == t,
        k > 0 ==> before_last(t, c) == Some(t.take(k - 1)) && after_last(t, c) == t.skip(k),
    decreases t.len(),
{
    if t.len() > 0 {
        if t.len() == k {
            assert(t.last() == c);
            assert(t.drop_last() == t.take(k - 1));
            assert(t.skip(k) == Seq::<char>::empty());
        } else {
            let u = t.drop_last();
            assert(t.last() != c);
            assert forall|j: int| k <= j < u.len() implies u[j] != c by {
                assert(u[j] == t[j]);
            }
            if k > 0 {
                assert(u[k - 1] == t[k - 1]);
            }
            lemma_last_split(u, c, k);
            if k > 0 {
                assert(u.take(k - 1) == t.take(k - 1));
                assert(u.skip(k).push(t.last()) == t.skip(k));
            } else {
                assert(u.push(t.last()) == t);
            }
        }
    }
}

/// The characters of `v` from `from` on.
fn tail_from(v: &Vec<char>, from: usize) -> (t: Vec<char>)
    requires
        from <= v@.len(),
    ensures
        t@ == v@.skip(from as int),
{
    let mut out: Vec<char> = Vec::new();
    let mut i = from;
    while i < v.len()
        invariant
            from <= i <= v@.len(),
            out@ == v@.subrange(from as int, i as int),
        decreases v.len() - i,
    {
        out.push(v[i]);
        i += 1;
    }
    out
}

/// The characters of `v` before `to`.
fn head_to(v: &Vec<char>, to: usize) -> (t: Vec<char>)
    requires
        to <= v@.len(),
    ensures
        t@ == v@.take(to as int),
{
    let mut out: Vec<char> = Vec::new();
    let mut i: usize = 0;
    while i < to
        invariant
            i <= to <= v@.len(),
            out@ == v@.take(i as int),
        decreases to - i,
    {
        out.push(v[i]);
        i += 1;
    }
    out
}

/// An XML name without its namespace prefix (`c:pieChart` -> `pieChart`).
pub fn local_name(full: &[u8]) -> (s: String)
    ensures
        s@ == after_last(utf8_lossy(full@), ':'),
{
    let text = lossy_text(full);
    let v = chars_of(text.as_str());
    let t = match find_last(&v, ':') {
        Some(k) => tail_from(&v, k),
        None => v,
    };
    string_from_chars(t)
}

/// An XML name without its namespace prefix (`r:id` -> `id`).
pub fn strip_ns(full: &[u8]) -> (s: String)
    ensures
        s@ == after_last(utf8_lossy(full@), ':'),
{
    local_name(full)
}

/// The relationships file of a package entry: `dir/file` becomes
/// `dir/_rels/file.rels`, and a top-level `file` becomes `_rels/file.rels`.
pub open spec fn rels_path(entry: Seq<char>) -> Seq<char> {
    match before_last(entry, '/') {
        Some(dir) => dir + "/_rels/"@ + after_last(entry, '/') + ".rels"@,
        None => "_rels/"@ + entry + ".rels"@,
    }
}

/// Converts a package entry path like `"xl/drawings/drawing1.xml"` to its
/// relationships path `"xl/drawings/_rels/drawing1.xml.rels"`.
pub fn to_rels_path(entry_path: &str) -> (s: String)
    ensures
        s@ == rels_path(entry_path@),
{
    let v = chars_of(entry_path);
    match find_last(&v, '/') {
        Some(k) => {
            let dir = head_to(&v, k - 1);
            let file = tail_from(&v, k);
            let mut s = string_from_chars(dir);
            s.append("/_rels/");
            let f = string_from_chars(file);
            s.append(f.as_str());
            s.append(".rels");
            s
        },
        None => {
            let mut s = String::from_str("_rels/");
            s.append(entry_path);
            s.append(".rels");
            s
        },
    }
}


/// The pieces of `s` between occurrences of `c`, as `str::split` gives them
/// (an empty text gives one empty piece).
pub open spec fn split_spec(s: Seq<char>, c: char) -> Seq<Seq<char>>
    decreases s.len(),
{
    if s.len() == 0 {
        seq![seq![]]
    } else {
        let init = split_spec(s.drop_last(), c);
        if s.last() == c {
            init.push(seq![])
        } else {
            init.update(init.len() - 1, init.last().push(s.last()))
        }
    }
}

pub proof fn lemma_split_nonempty(s: Seq<char>, c: char)
    ensures
        split_spec(s, c).len() >= 1,
    decreases s.len(),
{
    if s.len() > 0 {
        lemma_split_nonempty(s.drop_last(), c);
    }
}

/// The pieces joined with `c` between them, as `join` on a slice of strings does.
pub open spec fn join_spec(parts: Seq<Seq<char>>, c: char) -> Seq<char>
    decreases parts.len(),
{
    if parts.len() == 0 {
        seq![]
    } else if parts.len() == 1 {
        parts[0]
    } else {
        join_spec(parts.drop_last(), c) + seq![c] + parts.last()
    }
}

/// One segment of a relative path applied to a stack of path components:
/// `..` goes up one level, `.` and empty segments stay, others go down.
pub open spec fn apply_segment(parts: Seq<Seq<char>>, seg: Seq<char>) -> Seq<Seq<char>> {
    if seg == seq!['.', '.'] {
        if parts.len() > 0 { parts.drop_last() } else { parts }
    } else if seg == seq!['.'] || seg.len() == 0 {
        parts
    } else {
        parts.push(seg)
    }
}

/// The segments applied in order.
pub open spec fn apply_segments(parts: Seq<Seq<char>>, segs: Seq<Seq<char>>) -> Seq<Seq<char>>
    decreases segs.len(),
{
    if segs.len() == 0 { parts } else { apply_segment(apply_segments(parts, segs.drop_last()), segs.last()) }
}

/// The path reached from the directory `base` by following `relative`.
pub open spec fn resolved_path(base: Seq<char>, relative: Seq<char>) -> Seq<char> {
    join_spec(apply_segments(split_spec(base, '/'), split_spec(relative, '/')), '/')
}

/// The texts of a sequence of character vectors.
pub open spec fn views_of(parts: Seq<Vec<char>>) -> Seq<Seq<char>> {
    Seq::new(parts.len(), |i: int| parts[i]@)
}

/// Splits `v` at each `c`.
pub fn split_chars(v: &Vec<char>, c: char) -> (parts: Vec<Vec<char>>)
    ensures
        views_of(parts@) == split_spec(v@, c),
{
    let mut parts: Vec<Vec<char>> = Vec::new();
    let mut cur: Vec<char> = Vec::new();
    let mut i: usize = 0;
    while i < v.len()
        invariant
            i <= v@.len(),
            views_of(parts@).push(cur@) == split_spec(v@.take(i as int), c),
        decreases v.len() - i,
    {
        let ghost before = views_of(parts@).push(cur@);
        assert(v@.take(i + 1).drop_last() == v@.take(i as int));
        assert(v@.take(i + 1).last() == v@[i as int]);
        if v[i] == c {
            let mut done: Vec<char> = Vec::new();
            std::mem::swap(&mut done, &mut cur);
            parts.push(done);
            assert(views_of(parts@) =~= before);
        } else {
            cur.push(v[i]);
            assert(views_of(parts@).push(cur@) =~= before.update(before.len() - 1, before.last().push(v@[i as int])));
        }
        i += 1;
    }
    assert(v@.take(v@.len() as int) == v@);
    let ghost pv = views_of(parts@);
    parts.push(cur);
    assert(views_of(parts@) =~= pv.push(cur@));
    parts
}

/// Joins the pieces with `c` between them.
fn join_chars(parts: &Vec<Vec<char>>, c: char) -> (s: Vec<char>)
    ensures
        s@ == join_spec(views_of(parts@), c),
{
    let mut out: Vec<char> = Vec::new();
    if parts.len() == 0 {
        return out;
    }
    push_all(&mut out, &parts[0]);
    let mut k: usize = 1;
    assert(views_of(parts@).take(1).len() == 1);
    assert(views_of(parts@).take(1)[0] == parts[0]@);
    while k < parts.len()
        invariant
            1 <= k <= parts@.len(),
            out@ == join_spec(views_of(parts@).take(k as int), c),
        decreases parts.len() - k,
    {
        out.push(c);
        push_all(&mut out, &parts[k]);
        assert(views_of(parts@).take(k + 1).drop_last() =~= views_of(parts@).take(k as int));
        assert(views_of(parts@).take(k + 1).last() == parts[k as int]@);
        k += 1;
    }
    assert(views_of(parts@).take(parts@.len() as int) == views_of(parts@));
    out
}


/// Resolves a relative path like `"../charts/chart1.xml"` against a base
/// directory like `"xl/drawings"`, giving `"xl/charts/chart1.xml"`.
pub fn resolve_relative_path(base_dir: &str, relative: &str) -> (s: String)
    ensures
        s@ == resolved_path(base_dir@, relative@),
{
    let bv = chars_of(base_dir);
    let rv = chars_of(relative);
    let mut parts = split_chars(&bv, '/');
    let segs = split_chars(&rv, '/');
    let dotdot = vec!['.', '.'];
    let dot = vec!['.'];
    assert(dotdot@ =~= seq!['.', '.'] && dot@ =~= seq!['.']);
    let mut i: usize = 0;
    while i < segs.len()
        invariant
            i <= segs@.len(),
            dotdot@ == seq!['.', '.'],
            dot@ == seq!['.'],
            views_of(parts@) == apply_segments(split_spec(bv@, '/'), views_of(segs@).take(i as int)),
        decreases segs.len() - i,
    {
        assert(views_of(segs@).take(i + 1).drop_last() == views_of(segs@).take(i as int));
        assert(views_of(segs@).take(i + 1).last() == segs[i as int]@);
        let ghost before = views_of(parts@);
        if same_chars(&segs[i], &dotdot) {
            parts.pop();
            assert(views_of(parts@) =~= (if before.len() > 0 { before.drop_last() } else { before }));
        } else if same_chars(&segs[i], &dot) || segs[i].len() == 0 {
        } else {
            let seg = segs[i].clone();
            assert(seg@ == segs[i as int]@);
            parts.push(seg);
            assert(views_of(parts@) =~= before.push(segs[i as int]@));
        }
        i += 1;
    }
    assert(views_of(segs@).take(segs@.len() as int) == views_of(segs@));
    string_from_chars(join_chars(&parts, '/'))
}

/// The text that std's `str::to_lowercase` makes of `s`.
pub uninterp spec fn lowercase(s: Seq<char>) -> Seq<char>;

/// The ASCII lowercase form of `c`: `A`..`Z` become `a`..`z`, every other
/// character stays.
pub open spec fn ascii_lower(c: char) -> char {
    if 'A' <= c && c <= 'Z' { ((c as u32) + 32) as char } else { c }
}

/// std's `str::to_lowercase`: the lowercase equivalent of `s` by Unicode's
/// `Lowercase` property. The contract names the result, and states the
/// documented ASCII case: text made of ASCII characters only has each
/// uppercase letter `A`..`Z` replaced by its lowercase letter.
#[verifier::external_body]
pub(crate) fn to_lowercase(s: &str) -> (t: String)
    ensures
        t@ == lowercase(s@),
        (forall|i: int| 0 <= i < s@.len() ==> (#[trigger] s@[i] as u32) < 128)
            ==> t@ == s@.map_values(|c: char| ascii_lower(c)),
{
    s.to_lowercase()
}

/// The target that a `<Relationship Type="..." Target="..."/>` tag of an OPC
/// `.rels` part contributes: its `Target`, when the lowercase `Type` contains
/// `fragment` and the target is not empty. The tag's name and the attribute
/// keys are compared byte for byte.
pub open spec fn relationship_target(tag: XmlTag, fragment: Seq<char>) -> Option<Seq<char>> {
    if tag.name@ == encode_utf8("Relationship"@) {
        let rel_type = attr_text(last_attr_exact(tag.attrs@, encode_utf8("Type"@)));
        let target = attr_text(last_attr_exact(tag.attrs@, encode_utf8("Target"@)));
        if contains_text(lowercase(rel_type), fragment) && target.len() > 0 { Some(target) } else { None }
    } else {
        None
    }
}

/// The relationship targets of a `.rels` part's events whose type contains
/// `fragment`, in document order.
pub open spec fn relationship_targets(events: Seq<XmlEvent>, fragment: Seq<char>) -> Seq<Seq<char>>
    decreases events.len(),
{
    if events.len() == 0 {
        seq![]
    } else {
        let found = relationship_targets(events.drop_last(), fragment);
        match opened_tag(events.last()) {
            Some(tag) => match relationship_target(tag, fragment) {
                Some(t) => found.push(t),
                None => found,
            },
            None => found,
        }
    }
}

/// The text of a list of strings.
pub open spec fn string_views(v: Seq<String>) -> Seq<Seq<char>> {
    v.map_values(|s: String| s@)
}

/// The targets of the relationships in a `.rels` part's events whose type
/// contains `type_fragment`.
pub fn relationship_targets_from_events(events: &Vec<XmlEvent>, type_fragment: &str) -> (r: Vec<String>)
    ensures
        string_views(r@) == relationship_targets(events@, type_fragment@),
{
    let fragment = chars_of(type_fragment);
    let mut targets: Vec<String> = Vec::new();
    let mut i: usize = 0;
    assert(events@.take(0) =~= Seq::<XmlEvent>::empty());
    assert(string_views(targets@) =~= Seq::<Seq<char>>::empty());
    while i < events.len()
        invariant
            i <= events@.len(),
            fragment@ == type_fragment@,
            string_views(targets@) == relationship_targets(events@.take(i as int), type_fragment@),
        decreases events.len() - i,
    {
        assert(events@.take(i + 1).drop_last() =~= events@.take(i as int));
        assert(events@.take(i + 1).last() == events@[i as int]);
        let tag = match &events[i] {
            XmlEvent::Start(tag) => Some(tag),
            XmlEvent::Empty(tag) => Some(tag),
            _ => None,
        };
        if let Some(tag) = tag {
            if bytes_match(&tag.name, "Relationship") {
                let rel_type = attr_text_exact(&tag.attrs, "Type");
                let target = attr_text_exact(&tag.attrs, "Target");
                let lower = to_lowercase(rel_type.as_str());
                if contains_chars(&chars_of(lower.as_str()), &fragment) && !target.as_str().is_empty() {
                    let ghost before = targets@;
                    targets.push(target);
                    assert(string_views(targets@) =~= string_views(before).push(targets@.last()@));
                }
            }
        }
        i += 1;
    }
    assert(events@.take(events@.len() as int) =~= events@);
    targets
}

/// Extracts from an OPC `.rels` XML string the targets of the relationships
/// whose type URL, lowercased, contains `type_fragment`. Reading stops at the
/// first syntax error.
pub fn extract_relationship_targets(xml: &str, type_fragment: &str) -> (r: Vec<String>)
    ensures
        string_views(r@) == relationship_targets(xml_event_stream(xml@), type_fragment@),
{
    let events = xml_events(xml);
    let r = relationship_targets_from_events(&events, type_fragment);
    assert(string_views(r@) == relationship_targets(events@, type_fragment@));
    r
}

/// Whether `s` starts with `p`.
pub open spec fn starts_with(s: Seq<char>, p: Seq<char>) -> bool {
    p.len() <= s.len() && s.take(p.len() as int) == p
}

/// Whether `s` ends with `p`.
pub open spec fn ends_with(s: Seq<char>, p: Seq<char>) -> bool {
    p.len() <= s.len() && s.skip(s.len() - p.len()) == p
}

/// Whether a package entry is the relationships part of a worksheet
/// (`xl/worksheets/_rels/*.xml.rels`), where drawings are found.
pub open spec fn is_sheet_rels(name: Seq<char>) -> bool {
    starts_with(name, "xl/worksheets/_rels/"@) && ends_with(name, ".xml.rels"@)
}

/// The worksheet relationship parts among `names`, in order.
pub open spec fn sheet_rels_of(names: Seq<Seq<char>>) -> Seq<Seq<char>>
    decreases names.len(),
{
    if names.len() == 0 {
        seq![]
    } else {
        let rest = sheet_rels_of(names.drop_last());
        if is_sheet_rels(names.last()) { rest.push(names.last()) } else { rest }
    }
}

/// `s` with every trailing repetition of `p` removed, as `str::trim_end_matches`
/// does.
pub open spec fn trim_end_all(s: Seq<char>, p: Seq<char>) -> Seq<char>
    decreases s.len(),
{
    if p.len() > 0 && ends_with(s, p) { trim_end_all(s.take(s.len() - p.len()), p) } else { s }
}

/// Whether `v` starts with `p`.
pub fn starts_with_chars(v: &Vec<char>, p: &Vec<char>) -> (b: bool)
    ensures
        b == starts_with(v@, p@),
{
    if p.len() > v.len() {
        return false;
    }
    let mut i: usize = 0;
    while i < p.len()
        invariant
            p@.len() <= v@.len(),
            i <= p@.len(),
            forall|j: int| 0 <= j < i ==> v@[j] == p@[j],
        decreases p.len() - i,
    {
        if v[i] != p[i] {
            assert(v@.take(p@.len() as int)[i as int] == v@[i as int]);
            return false;
        }
        i += 1;
    }
    assert(v@.take(p@.len() as int) =~= p@);
    true
}

/// Whether `v` ends with `p`.
fn ends_with_exec(v: &Vec<char>, p: &Vec<char>) -> (b: bool)
    ensures
        b == ends_with(v@, p@),
{
    if p.len() > v.len() {
        return false;
    }
    let off = v.len() - p.len();
    let mut i: usize = 0;
    while i < p.len()
        invariant
            off + p@.len() == v@.len(),
            i <= p@.len(),
            forall|j: int| 0 <= j < i ==> v@[off + j] == p@[j],
        decreases p.len() - i,
    {
        assert(off + i < v.len());
        if v[off + i] != p[i] {
            assert(v@.skip(off as int)[i as int] == v@[off + i]);
            return false;
        }
        i += 1;
    }
    assert(v@.skip(off as int) =~= p@);
    true
}

/// The worksheet relationship parts among the package's entry names, in
/// order: those under `xl/worksheets/_rels/` ending in `.xml.rels`.
pub fn sheet_rels_entries(names: &Vec<String>) -> (r: Vec<String>)
    ensures
        string_views(r@) == sheet_rels_of(string_views(names@)),
{
    let prefix = chars_of("xl/worksheets/_rels/");
    let suffix = chars_of(".xml.rels");
    let mut r: Vec<String> = Vec::new();
    let mut i: usize = 0;
    assert(string_views(names@).take(0) =~= Seq::<Seq<char>>::empty());
    assert(string_views(r@) =~= Seq::<Seq<char>>::empty());
    while i < names.len()
        invariant
            i <= names@.len(),
            prefix@ == "xl/worksheets/_rels/"@,
            suffix@ == ".xml.rels"@,
            string_views(r@) == sheet_rels_of(string_views(names@).take(i as int)),
        decreases names.len() - i,
    {
        let ghost all = string_views(names@);
        assert(all.take(i + 1).drop_last() =~= all.take(i as int));
        assert(all.take(i + 1).last() == names@[i as int]@);
        let n = chars_of(names[i].as_str());
        if starts_with_chars(&n, &prefix) && ends_with_exec(&n, &suffix) {
            let ghost before = string_views(r@);
            r.push(names[i].clone());
            assert(string_views(r@) =~= before.push(names@[i as int]@));
        }
        i += 1;
    }
    assert(string_views(names@).take(names@.len() as int) =~= string_views(names@));
    r
}

/// Removes every trailing repetition of `p` from `v`.
fn trim_end_exec(v: &Vec<char>, p: &Vec<char>) -> (t: Vec<char>)
    ensures
        t@ == trim_end_all(v@, p@),
    decreases v@.len(),
{
    if p.len() > 0 && ends_with_exec(v, p) {
        let shorter = head_to(v, v.len() - p.len());
        trim_end_exec(&shorter, p)
    } else {
        head_to(v, v.len())
    }
}

/// The sheet name that charts found through a worksheet relationship part
/// are given: the part's file name without its `.rels` and then `.xml`
/// endings (`xl/worksheets/_rels/sheet1.xml.rels` gives `sheet1`).
pub open spec fn chart_sheet_name(rels_path: Seq<char>) -> Seq<char> {
    trim_end_all(trim_end_all(after_last(rels_path, '/'), ".rels"@), ".xml"@)
}

/// The sheet name for charts found through a worksheet relationship part.
pub fn sheet_name_of_rels(rels_path: &str) -> (s: String)
    ensures
        s@ == chart_sheet_name(rels_path@),
{
    let v = chars_of(rels_path);
    let file = match find_last(&v, '/') {
        Some(k) => tail_from(&v, k),
        None => head_to(&v, v.len()),
    };
    assert(v@.take(v@.len() as int) =~= v@);
    let a = trim_end_exec(&file, &chars_of(".rels"));
    let b = trim_end_exec(&a, &chars_of(".xml"));
    string_from_chars(b)
}

/// The folder of a drawing part, against which its chart targets are
/// resolved: the part's path before its last `/`, or `xl/drawings`.
pub open spec fn drawing_dir(drawing_path: Seq<char>) -> Seq<char> {
    match before_last(drawing_path, '/') {
        Some(d) => d,
        None => "xl/drawings"@,
    }
}

/// The folder of a drawing part (see [`drawing_dir`]).
pub fn drawing_dir_of(drawing_path: &str) -> (s: String)
    ensures
        s@ == drawing_dir(drawing_path@),
{
    let v = chars_of(drawing_path);
    match find_last(&v, '/') {
        Some(k) => string_from_chars(head_to(&v, k - 1)),
        None => String::from_str("xl/drawings"),
    }
}

/// Where a drawing that a worksheet points to (relationship target `target`,
/// relative to `xl/worksheets`) has its relationships part, and the folder its
/// chart targets are relative to.
pub open spec fn drawing_part(target: Seq<char>) -> (Seq<char>, Seq<char>) {
    let path = resolved_path("xl/worksheets"@, target);
    (rels_path(path), drawing_dir(path))
}

/// The relationships part and folder of each drawing target of a worksheet,
/// in order (see [`drawing_part`]).
pub fn drawing_parts(targets: &Vec<String>) -> (r: Vec<(String, String)>)
    ensures
        r@.len() == targets@.len(),
        forall|i: int| 0 <= i < r@.len() ==> (#[trigger] r@[i].0@, r@[i].1@) == drawing_part(targets@[i]@),
{
    let mut r: Vec<(String, String)> = Vec::new();
    let mut i: usize = 0;
    while i < targets.len()
        invariant
            i <= targets@.len(),
            r@.len() == i,
            forall|k: int| 0 <= k < i ==> (#[trigger] r@[k].0@, r@[k].1@) == drawing_part(targets@[k]@),
        decreases targets.len() - i,
    {
        let path = resolve_relative_path("xl/worksheets", targets[i].as_str());
        let rels = to_rels_path(path.as_str());
        let dir = drawing_dir_of(path.as_str());
        proof {
            reveal_strlit("xl/worksheets");
        }
        r.push((rels, dir));
        i += 1;
    }
    r
}

/// The chart parts that a drawing in folder `dir` points to (relationship
/// targets `targets`), in order.
pub fn chart_paths(targets: &Vec<String>, dir: &str) -> (r: Vec<String>)
    ensures
        r@.len() == targets@.len(),
        forall|i: int| 0 <= i < r@.len() ==> (#[trigger] r@[i])@ == resolved_path(dir@, targets@[i]@),
{
    let mut r: Vec<String> = Vec::new();
    let mut i: usize = 0;
    while i < targets.len()
        invariant
            i <= targets@.len(),
            r@.len() == i,
            forall|k: int| 0 <= k < i ==> (#[trigger] r@[k])@ == resolved_path(dir@, targets@[k]@),
        decreases targets.len() - i,
    {
        r.push(resolve_relative_path(dir, targets[i].as_str()));
        i += 1;
    }
    r
}

} // verus!
