//! Charts of spreadsheet files: reading a DrawingML chart part
//! (`xl/charts/chart*.xml`) into its type, title, labels and series.
use vstd::prelude::*;
use vstd::utf8::encode_utf8;
use crate::numeric_text::{float_syntax, is_float_text, parse_usize, usize_text};
use crate::text::{chars_of, same_chars};
use crate::xlsx_chart::{local_name, lossy_text, utf8_lossy};
use crate::xml::{attr_text, attr_text_exact, bytes_match, last_attr_exact, local_of, xml_events, xml_event_stream, XmlAttr, XmlEvent, XmlTag};

verus! {

/// The kinds of chart a chart part can hold (3D variants count as their
/// flat kind).
#[derive(Debug, Clone, Copy, PartialEq, Eq, Structural)]
pub enum ChartType {
    Pie,
    Bar,
    Line,
    Scatter,
    Area,
    Radar,
    Bubble,
}

/// The chart kind that an element named `local` declares, if any.
pub open spec fn chart_kind(local: Seq<char>) -> Option<ChartType> {
    if local == "pieChart"@ || local == "pie3DChart"@ {
        Some(ChartType::Pie)
    } else if local == "barChart"@ || local == "bar3DChart"@ {
        Some(ChartType::Bar)
    } else if local == "lineChart"@ || local == "line3DChart"@ {
        Some(ChartType::Line)
    } else if local == "scatterChart"@ {
        Some(ChartType::Scatter)
    } else if local == "areaChart"@ || local == "area3DChart"@ {
        Some(ChartType::Area)
    } else if local == "radarChart"@ {
        Some(ChartType::Radar)
    } else if local == "bubbleChart"@ {
        Some(ChartType::Bubble)
    } else {
        None
    }
}

/// The element under a chart's plot area that declares a chart of kind `k`.
pub open spec fn flat_chart_element(k: ChartType) -> Seq<char> {
    match k {
        ChartType::Pie => "pieChart"@,
        ChartType::Bar => "barChart"@,
        ChartType::Line => "lineChart"@,
        ChartType::Scatter => "scatterChart"@,
        ChartType::Area => "areaChart"@,
        ChartType::Radar => "radarChart"@,
        ChartType::Bubble => "bubbleChart"@,
    }
}

/// The element that declares the 3D variant of a chart of kind `k`, for the
/// kinds that have one.
pub open spec fn chart_element_3d(k: ChartType) -> Option<Seq<char>> {
    match k {
        ChartType::Pie => Some("pie3DChart"@),
        ChartType::Bar => Some("bar3DChart"@),
        ChartType::Line => Some("line3DChart"@),
        ChartType::Scatter => None,
        ChartType::Area => Some("area3DChart"@),
        ChartType::Radar => None,
        ChartType::Bubble => None,
    }
}

/// A chart element declares the kind it is named for, and its 3D variant the
/// same flat kind; no other element declares that kind.
pub proof fn law_chart_elements_declare_their_kind(k: ChartType, name: Seq<char>)
    ensures
        chart_kind(flat_chart_element(k)) == Some(k),
        chart_element_3d(k) matches Some(n) ==> chart_kind(n) == Some(k),
        chart_kind(name) == Some(k) ==> name == flat_chart_element(k) || chart_element_3d(k) == Some(name),
{
    reveal_strlit("pieChart");
    reveal_strlit("pie3DChart");
    reveal_strlit("barChart");
    reveal_strlit("bar3DChart");
    reveal_strlit("lineChart");
    reveal_strlit("line3DChart");
    reveal_strlit("scatterChart");
    reveal_strlit("areaChart");
    reveal_strlit("area3DChart");
    reveal_strlit("radarChart");
    reveal_strlit("bubbleChart");
    assert("pieChart"@.len() == 8 && "pieChart"@[0] == 'p');
    assert("pie3DChart"@.len() == 10 && "pie3DChart"@[0] == 'p');
    assert("barChart"@.len() == 8 && "barChart"@[0] == 'b');
    assert("bar3DChart"@.len() == 10 && "bar3DChart"@[0] == 'b');
    assert("lineChart"@.len() == 9 && "lineChart"@[0] == 'l');
    assert("line3DChart"@.len() == 11 && "line3DChart"@[0] == 'l');
    assert("scatterChart"@.len() == 12 && "scatterChart"@[0] == 's');
    assert("areaChart"@.len() == 9 && "areaChart"@[0] == 'a');
    assert("area3DChart"@.len() == 11 && "area3DChart"@[0] == 'a');
    assert("radarChart"@.len() == 10 && "radarChart"@[0] == 'r');
    assert("bubbleChart"@.len() == 11 && "bubbleChart"@[0] == 'b');
}

/// A series as read so far: its name and its values, each the text of a
/// number (`None` for a position no value was given for, which counts as 0).
pub struct SeriesScan {
    pub name: Seq<char>,
    pub values: Seq<Option<Seq<char>>>,
}

/// Where a scan of a chart part stands: which of the elements it follows are
/// open, and the index of the point being read.
#[derive(Debug, Clone, Copy, PartialEq, Eq, Structural)]
pub struct ScanFlags {
    pub in_cat: bool,
    pub in_val: bool,
    pub in_str_cache: bool,
    pub in_num_cache: bool,
    pub in_pt: bool,
    pub pt_idx: Option<usize>,
    pub in_v: bool,
    pub in_title: bool,
    pub in_title_rich: bool,
    pub in_title_run: bool,
    pub in_title_text: bool,
    pub in_dlbls: bool,
}

/// What a scan of a chart part's events has seen so far.
pub struct ChartScan {
    /// The chart kind, from the last chart element seen.
    pub kind: Option<ChartType>,
    /// The title text.
    pub title: Option<Seq<char>>,
    /// The category labels, by point index.
    pub labels: Seq<Seq<char>>,
    /// The finished series.
    pub series: Seq<SeriesScan>,
    /// Whether some series shows data labels.
    pub show_labels: bool,
    /// How many elements are open.
    pub depth: nat,
    /// The series being read.
    pub current: Option<SeriesScan>,
    /// Which followed elements are open.
    pub flags: ScanFlags,
}

/// No followed element open.
pub open spec fn no_flags() -> ScanFlags {
    ScanFlags {
        in_cat: false, in_val: false, in_str_cache: false, in_num_cache: false, in_pt: false, pt_idx: None,
        in_v: false, in_title: false, in_title_rich: false, in_title_run: false, in_title_text: false, in_dlbls: false,
    }
}

/// The scan before any event.
pub open spec fn chart_scan_start() -> ChartScan {
    ChartScan {
        kind: None, title: None, labels: seq![], series: seq![], show_labels: false, depth: 0, current: None,
        flags: no_flags(),
    }
}

/// The elements of a chart part that the scan follows, by local name.
#[derive(Debug, Clone, Copy, PartialEq, Eq, Structural)]
pub enum ChartTag {
    /// A chart element (`pieChart`, `bar3DChart`, ...).
    Kind(ChartType),
    /// `ser`: a series.
    Ser,
    /// `cat`: a series' categories.
    Cat,
    /// `val` or `yVal`: a series' values.
    Val,
    /// `strCache` or `strRef`: text points.
    StrCache,
    /// `numCache` or `numRef`: number points.
    NumCache,
    /// `pt`: a point.
    Pt,
    /// `v`: a point's value.
    V,
    /// `title`.
    Title,
    /// `rich`: rich text of a title.
    Rich,
    /// `r`: a run of rich text.
    R,
    /// `t`: the text of a run.
    T,
    /// `dLbls`: a series' data labels.
    DLbls,
    /// Any other element.
    Other,
}

/// The element that the local name `l` names.
#[verifier::opaque]
pub open spec fn chart_tag(l: Seq<char>) -> ChartTag {
    match chart_kind(l) {
        Some(k) => ChartTag::Kind(k),
        None => if l == "ser"@ {
            ChartTag::Ser
        } else if l == "cat"@ {
            ChartTag::Cat
        } else if l == "val"@ || l == "yVal"@ {
            ChartTag::Val
        } else if l == "strCache"@ || l == "strRef"@ {
            ChartTag::StrCache
        } else if l == "numCache"@ || l == "numRef"@ {
            ChartTag::NumCache
        } else if l == "pt"@ {
            ChartTag::Pt
        } else if l == "v"@ {
            ChartTag::V
        } else if l == "title"@ {
            ChartTag::Title
        } else if l == "rich"@ {
            ChartTag::Rich
        } else if l == "r"@ {
            ChartTag::R
        } else if l == "t"@ {
            ChartTag::T
        } else if l == "dLbls"@ {
            ChartTag::DLbls
        } else {
            ChartTag::Other
        },
    }
}

/// The index of a point tag: its `idx` attribute read as `str::parse::<usize>`
/// reads it.
pub open spec fn pt_index(attrs: Seq<Option<XmlAttr>>) -> Option<usize> {
    match usize_text(attr_text(last_attr_exact(attrs, encode_utf8("idx"@)))) {
        Some(n) => Some(n as usize),
        None => None,
    }
}

/// What the start of element `t` opens: each followed element opens when
/// the element it belongs in is open (a series, the categories or values,
/// a cache, a point; a title only near the top, given the `depth` after
/// opening it).
pub open spec fn start_flags(f: ScanFlags, t: ChartTag, has_series: bool, depth: nat, idx: Option<usize>) -> ScanFlags {
    match t {
        ChartTag::Cat => if has_series { ScanFlags { in_cat: true, ..f } } else { f },
        ChartTag::Val => if has_series { ScanFlags { in_val: true, ..f } } else { f },
        ChartTag::StrCache => if f.in_cat { ScanFlags { in_str_cache: true, ..f } } else { f },
        ChartTag::NumCache => if f.in_val { ScanFlags { in_num_cache: true, ..f } } else { f },
        ChartTag::Pt => if f.in_str_cache || f.in_num_cache { ScanFlags { in_pt: true, pt_idx: idx, ..f } } else { f },
        ChartTag::V => if f.in_pt { ScanFlags { in_v: true, ..f } } else { f },
        ChartTag::Title => if depth <= 3 { ScanFlags { in_title: true, ..f } } else { f },
        ChartTag::Rich => if f.in_title { ScanFlags { in_title_rich: true, ..f } } else { f },
        ChartTag::R => if f.in_title_rich { ScanFlags { in_title_run: true, ..f } } else { f },
        ChartTag::T => if f.in_title_run { ScanFlags { in_title_text: true, ..f } } else { f },
        ChartTag::DLbls => if has_series { ScanFlags { in_dlbls: true, ..f } } else { f },
        _ => f,
    }
}

/// The scan after a start tag: the element is opened (one level deeper); a
/// chart element sets the kind, `ser` starts a series, and the others open
/// as [`start_flags`] says.
pub open spec fn chart_start(s: ChartScan, tag: XmlTag) -> ChartScan {
    let t = chart_tag(local_of(tag.name@));
    ChartScan {
        kind: match t {
            ChartTag::Kind(k) => Some(k),
            _ => s.kind,
        },
        current: if t == ChartTag::Ser { Some(SeriesScan { name: seq![], values: seq![] }) } else { s.current },
        depth: s.depth + 1,
        flags: start_flags(s.flags, t, s.current is Some, s.depth + 1, pt_index(tag.attrs@)),
        ..s
    }
}

/// Whether some readable attribute has the key `val` and the value `1` or
/// `true`.
pub open spec fn shows_value(attrs: Seq<Option<XmlAttr>>) -> bool {
    exists|i: int| 0 <= i < attrs.len() && #[trigger] true_val(attrs[i])
}

/// Whether an attribute is a readable `val` whose value is `1` or `true`.
pub open spec fn true_val(a: Option<XmlAttr>) -> bool {
    match a {
        Some(a) => a.key@ == encode_utf8("val"@) && (utf8_lossy(a.value@) == "1"@ || utf8_lossy(a.value@) == "true"@),
        None => false,
    }
}

/// `s` with `x` at position `idx`, first padded with `fill` up to it.
pub open spec fn set_at<A>(s: Seq<A>, idx: int, x: A, fill: A) -> Seq<A> {
    let padded = if idx >= s.len() { s + Seq::new((idx + 1 - s.len()) as nat, |i: int| fill) } else { s };
    padded.update(idx, x)
}

/// The scan after an empty-element tag: inside a series' data labels,
/// `showPercent`, `showVal` or `showCatName` with a true `val` turns data
/// labels on.
pub open spec fn chart_empty(s: ChartScan, tag: XmlTag) -> ChartScan {
    let l = local_of(tag.name@);
    if s.flags.in_dlbls && (l == "showPercent"@ || l == "showVal"@ || l == "showCatName"@) && shows_value(tag.attrs@) {
        ChartScan { show_labels: true, ..s }
    } else {
        s
    }
}

/// The scan after character data `t`: inside a point's `<v>`, a label of a
/// string cache or a number of a series' number cache (when the text is a
/// number) is stored at the point's index; inside the title's text, the title
/// is set. A point index of `usize::MAX` is not stored.
pub open spec fn chart_text(s: ChartScan, t: Seq<char>) -> ChartScan {
    let f = s.flags;
    if f.in_v && f.in_pt {
        if f.in_str_cache {
            match f.pt_idx {
                Some(idx) => if idx < usize::MAX { ChartScan { labels: set_at(s.labels, idx as int, t, seq![]), ..s } } else { s },
                None => s,
            }
        } else if f.in_num_cache && s.current is Some && float_syntax(t) && f.pt_idx is Some && f.pt_idx.unwrap() < usize::MAX {
            let cur = s.current.unwrap();
            ChartScan {
                current: Some(SeriesScan { values: set_at(cur.values, f.pt_idx.unwrap() as int, Some(t), None), ..cur }),
                ..s
            }
        } else {
            s
        }
    } else if f.in_title_text {
        ChartScan { title: Some(t), ..s }
    } else {
        s
    }
}

/// What the end of element `t` closes.
pub open spec fn end_flags(f: ScanFlags, t: ChartTag) -> ScanFlags {
    match t {
        ChartTag::Ser => ScanFlags { in_cat: false, in_val: false, ..f },
        ChartTag::Cat => ScanFlags { in_cat: false, in_str_cache: false, ..f },
        ChartTag::Val => ScanFlags { in_val: false, in_num_cache: false, ..f },
        ChartTag::StrCache => ScanFlags { in_str_cache: false, ..f },
        ChartTag::NumCache => ScanFlags { in_num_cache: false, ..f },
        ChartTag::Pt => ScanFlags { in_pt: false, in_v: false, pt_idx: None, ..f },
        ChartTag::V => ScanFlags { in_v: false, ..f },
        ChartTag::Title => ScanFlags { in_title: false, in_title_rich: false, in_title_run: false, in_title_text: false, ..f },
        ChartTag::Rich => ScanFlags { in_title_rich: false, ..f },
        ChartTag::R => if f.in_title_rich { ScanFlags { in_title_run: false, ..f } } else { f },
        ChartTag::T => if f.in_title_run { ScanFlags { in_title_text: false, ..f } } else { f },
        ChartTag::DLbls => ScanFlags { in_dlbls: false, ..f },
        _ => f,
    }
}

/// The scan after an end tag: the end of `ser` files the current series
/// with the finished ones, the others close as [`end_flags`] says, and the
/// element is closed (one level up).
pub open spec fn chart_end(s: ChartScan, name: Seq<u8>) -> ChartScan {
    let t = chart_tag(local_of(name));
    ChartScan {
        series: if t == ChartTag::Ser {
            match s.current {
                Some(c) => s.series.push(c),
                None => s.series,
            }
        } else {
            s.series
        },
        current: if t == ChartTag::Ser { None } else { s.current },
        flags: end_flags(s.flags, t),
        depth: if s.depth > 0 { (s.depth - 1) as nat } else { 0 },
        ..s
    }
}

/// The scan after one more event.
pub open spec fn chart_step(s: ChartScan, e: XmlEvent) -> ChartScan {
    match e {
        XmlEvent::Start(tag) => chart_start(s, tag),
        XmlEvent::Empty(tag) => chart_empty(s, tag),
        XmlEvent::End(name) => chart_end(s, name@),
        XmlEvent::Text(t) => chart_text(s, match t { Some(t) => t@, None => seq![] }),
        _ => s,
    }
}

/// The scan after the events `events`.
pub open spec fn chart_scan(events: Seq<XmlEvent>) -> ChartScan
    decreases events.len(),
{
    if events.len() == 0 {
        chart_scan_start()
    } else {
        chart_step(chart_scan(events.drop_last()), events.last())
    }
}

/// A chart as the library reports it: its kind, title, category labels,
/// series, whether it shows data labels, and the sheet it belongs to.
pub struct ChartView {
    pub kind: ChartType,
    pub title: Option<Seq<char>>,
    pub labels: Seq<Seq<char>>,
    pub series: Seq<SeriesScan>,
    pub show_labels: bool,
    pub sheet: Seq<char>,
}

/// The chart of a chart part's events on sheet `sheet`: `None` when no chart
/// element was seen; series left open at the end are not counted.
pub open spec fn chart_of(events: Seq<XmlEvent>, sheet: Seq<char>) -> Option<ChartView> {
    let s = chart_scan(events);
    match s.kind {
        Some(kind) => Some(ChartView {
            kind,
            title: s.title,
            labels: s.labels,
            series: s.series,
            show_labels: s.show_labels,
            sheet,
        }),
        None => None,
    }
}

/// One series of a chart: its name (never read from the part, so empty) and
/// its values by point index, each the text of a number; `None` stands for a
/// position no value was given for, which counts as 0.
#[derive(Debug, Clone)]
pub struct ChartSeries {
    pub name: String,
    pub values: Vec<Option<String>>,
}

/// A chart imported from a spreadsheet file.
#[derive(Debug, Clone)]
pub struct ImportedChart {
    /// The chart type.
    pub chart_type: ChartType,
    /// Chart title (from `c:title`), if present.
    pub title: Option<String>,
    /// The category labels, by point index.
    pub labels: Vec<String>,
    /// The series, in document order.
    pub series: Vec<ChartSeries>,
    /// Whether data labels are shown.
    pub show_data_labels: bool,
    /// Which sheet this chart belongs to.
    pub sheet_name: String,
}

/// The text of an optional string.
pub open spec fn opt_view(v: Option<String>) -> Option<Seq<char>> {
    match v {
        Some(t) => Some(t@),
        None => None,
    }
}

/// The text of a list of strings.
pub open spec fn texts(v: Seq<String>) -> Seq<Seq<char>> {
    v.map_values(|t: String| t@)
}

/// The text of a list of optional strings.
pub open spec fn opt_texts(v: Seq<Option<String>>) -> Seq<Option<Seq<char>>> {
    v.map_values(|t: Option<String>| opt_view(t))
}

/// The text of a series.
pub open spec fn series_view(c: ChartSeries) -> SeriesScan {
    SeriesScan { name: c.name@, values: opt_texts(c.values@) }
}

/// The text of a chart.
pub open spec fn chart_view(c: ImportedChart) -> ChartView {
    ChartView {
        kind: c.chart_type,
        title: opt_view(c.title),
        labels: texts(c.labels@),
        series: c.series@.map_values(|x: ChartSeries| series_view(x)),
        show_labels: c.show_data_labels,
        sheet: c.sheet_name@,
    }
}

/// Whether the character sequence `l` is the word `w`.
fn is_word(l: &Vec<char>, w: &str) -> (b: bool)
    ensures
        b == (l@ == w@),
{
    same_chars(l, &chars_of(w))
}

/// The chart kind that an element named `l` declares, if any.
fn kind_of(l: &Vec<char>) -> (k: Option<ChartType>)
    ensures
        k == chart_kind(l@),
{
    if is_word(l, "pieChart") || is_word(l, "pie3DChart") {
        Some(ChartType::Pie)
    } else if is_word(l, "barChart") || is_word(l, "bar3DChart") {
        Some(ChartType::Bar)
    } else if is_word(l, "lineChart") || is_word(l, "line3DChart") {
        Some(ChartType::Line)
    } else if is_word(l, "scatterChart") {
        Some(ChartType::Scatter)
    } else if is_word(l, "areaChart") || is_word(l, "area3DChart") {
        Some(ChartType::Area)
    } else if is_word(l, "radarChart") {
        Some(ChartType::Radar)
    } else if is_word(l, "bubbleChart") {
        Some(ChartType::Bubble)
    } else {
        None
    }
}

/// The element that the local name `l` names.
fn tag_of(l: &Vec<char>) -> (t: ChartTag)
    ensures
        t == chart_tag(l@),
{
    proof {
        reveal(chart_tag);
    }
    match kind_of(l) {
        Some(k) => ChartTag::Kind(k),
        None => if is_word(l, "ser") {
            ChartTag::Ser
        } else if is_word(l, "cat") {
            ChartTag::Cat
        } else if is_word(l, "val") || is_word(l, "yVal") {
            ChartTag::Val
        } else if is_word(l, "strCache") || is_word(l, "strRef") {
            ChartTag::StrCache
        } else if is_word(l, "numCache") || is_word(l, "numRef") {
            ChartTag::NumCache
        } else if is_word(l, "pt") {
            ChartTag::Pt
        } else if is_word(l, "v") {
            ChartTag::V
        } else if is_word(l, "title") {
            ChartTag::Title
        } else if is_word(l, "rich") {
            ChartTag::Rich
        } else if is_word(l, "r") {
            ChartTag::R
        } else if is_word(l, "t") {
            ChartTag::T
        } else if is_word(l, "dLbls") {
            ChartTag::DLbls
        } else {
            ChartTag::Other
        },
    }
}

/// Stores `t` at position `idx` of `v`, first padding `v` with empty strings.
fn put_label(v: &mut Vec<String>, idx: usize, t: String)
    requires
        idx < usize::MAX,
    ensures
        texts(final(v)@) == set_at(texts(old(v)@), idx as int, t@, seq![]),
{
    let ghost start = texts(v@);
    while v.len() <= idx
        invariant
            idx < usize::MAX,
            start.len() <= v@.len(),
            texts(v@).take(start.len() as int) == start,
            forall|k: int| start.len() <= k < v@.len() ==> (#[trigger] v@[k])@ == Seq::<char>::empty(),
            v@.len() == start.len() || v@.len() <= idx + 1,
        decreases idx + 1 - v.len(),
    {
        v.push(String::new());
    }
    let ghost padded = texts(v@);
    proof {
        let want = if idx >= start.len() { start + Seq::new((idx + 1 - start.len()) as nat, |i: int| Seq::<char>::empty()) } else { start };
        assert forall|k: int| 0 <= k < padded.len() implies padded[k] == want[k] by {
            if k < start.len() {
                assert(padded.take(start.len() as int)[k] == padded[k]);
            } else {
                assert(padded[k] == v@[k]@);
            }
        }
        assert(padded =~= want);
    }
    v.set(idx, t);
    assert(texts(v@) =~= padded.update(idx as int, t@));
}

/// Stores `t` at position `idx` of `v`, first padding `v` with `None`.
fn put_value(v: &mut Vec<Option<String>>, idx: usize, t: String)
    requires
        idx < usize::MAX,
    ensures
        opt_texts(final(v)@) == set_at(opt_texts(old(v)@), idx as int, Some(t@), None),
{
    let ghost start = opt_texts(v@);
    while v.len() <= idx
        invariant
            idx < usize::MAX,
            start.len() <= v@.len(),
            opt_texts(v@).take(start.len() as int) == start,
            forall|k: int| start.len() <= k < v@.len() ==> (#[trigger] v@[k]) is None,
            v@.len() == start.len() || v@.len() <= idx + 1,
        decreases idx + 1 - v.len(),
    {
        v.push(None);
    }
    let ghost padded = opt_texts(v@);
    proof {
        let want = if idx >= start.len() { start + Seq::new((idx + 1 - start.len()) as nat, |i: int| None::<Seq<char>>) } else { start };
        assert forall|k: int| 0 <= k < padded.len() implies padded[k] == want[k] by {
            if k < start.len() {
                assert(padded.take(start.len() as int)[k] == padded[k]);
            } else {
                assert(padded[k] == opt_view(v@[k]));
            }
        }
        assert(padded =~= want);
    }
    v.set(idx, Some(t));
    assert(opt_texts(v@) =~= padded.update(idx as int, Some(t@)));
}

/// Whether some readable attribute is a `val` of `1` or `true`.
fn shows_value_exec(attrs: &Vec<Option<XmlAttr>>) -> (b: bool)
    ensures
        b == shows_value(attrs@),
{
    let mut i: usize = 0;
    while i < attrs.len()
        invariant
            i <= attrs@.len(),
            forall|k: int| 0 <= k < i ==> !true_val(#[trigger] attrs@[k]),
        decreases attrs.len() - i,
    {
        if let Some(a) = &attrs[i] {
            if bytes_match(&a.key, "val") {
                let v = chars_of(lossy_text(a.value.as_slice()).as_str());
                if is_word(&v, "1") || is_word(&v, "true") {
                    assert(true_val(attrs@[i as int]));
                    return true;
                }
            }
        }
        i += 1;
    }
    false
}

/// What the start of element `t` opens (see [`start_flags`]); the point
/// index is read from `tag` only for a point.
fn start_flags_exec(f: ScanFlags, t: ChartTag, has_series: bool, depth: usize, tag: &XmlTag) -> (g: ScanFlags)
    ensures
        g == start_flags(f, t, has_series, depth as nat, pt_index(tag.attrs@)),
{
    match t {
        ChartTag::Cat => if has_series { ScanFlags { in_cat: true, ..f } } else { f },
        ChartTag::Val => if has_series { ScanFlags { in_val: true, ..f } } else { f },
        ChartTag::StrCache => if f.in_cat { ScanFlags { in_str_cache: true, ..f } } else { f },
        ChartTag::NumCache => if f.in_val { ScanFlags { in_num_cache: true, ..f } } else { f },
        ChartTag::Pt => if f.in_str_cache || f.in_num_cache {
            let text = attr_text_exact(&tag.attrs, "idx");
            let idx = parse_usize(text.as_str());
            ScanFlags { in_pt: true, pt_idx: idx, ..f }
        } else {
            f
        },
        ChartTag::V => if f.in_pt { ScanFlags { in_v: true, ..f } } else { f },
        ChartTag::Title => if depth <= 3 { ScanFlags { in_title: true, ..f } } else { f },
        ChartTag::Rich => if f.in_title { ScanFlags { in_title_rich: true, ..f } } else { f },
        ChartTag::R => if f.in_title_rich { ScanFlags { in_title_run: true, ..f } } else { f },
        ChartTag::T => if f.in_title_run { ScanFlags { in_title_text: true, ..f } } else { f },
        ChartTag::DLbls => if has_series { ScanFlags { in_dlbls: true, ..f } } else { f },
        _ => f,
    }
}

/// What the end of element `t` closes (see [`end_flags`]).
fn end_flags_exec(f: ScanFlags, t: ChartTag) -> (g: ScanFlags)
    ensures
        g == end_flags(f, t),
{
    match t {
        ChartTag::Ser => ScanFlags { in_cat: false, in_val: false, ..f },
        ChartTag::Cat => ScanFlags { in_cat: false, in_str_cache: false, ..f },
        ChartTag::Val => ScanFlags { in_val: false, in_num_cache: false, ..f },
        ChartTag::StrCache => ScanFlags { in_str_cache: false, ..f },
        ChartTag::NumCache => ScanFlags { in_num_cache: false, ..f },
        ChartTag::Pt => ScanFlags { in_pt: false, in_v: false, pt_idx: None, ..f },
        ChartTag::V => ScanFlags { in_v: false, ..f },
        ChartTag::Title => ScanFlags { in_title: false, in_title_rich: false, in_title_run: false, in_title_text: false, ..f },
        ChartTag::Rich => ScanFlags { in_title_rich: false, ..f },
        ChartTag::R => if f.in_title_rich { ScanFlags { in_title_run: false, ..f } } else { f },
        ChartTag::T => if f.in_title_run { ScanFlags { in_title_text: false, ..f } } else { f },
        ChartTag::DLbls => ScanFlags { in_dlbls: false, ..f },
        _ => f,
    }
}

/// The state of a scan of a chart part's events.
struct ChartScanner {
    kind: Option<ChartType>,
    title: Option<String>,
    labels: Vec<String>,
    series: Vec<ChartSeries>,
    show_labels: bool,
    depth: usize,
    current: Option<ChartSeries>,
    flags: ScanFlags,
}

impl ChartScanner {
    spec fn view(&self) -> ChartScan {
        ChartScan {
            kind: self.kind,
            title: opt_view(self.title),
            labels: texts(self.labels@),
            series: self.series@.map_values(|x: ChartSeries| series_view(x)),
            show_labels: self.show_labels,
            depth: self.depth as nat,
            current: match self.current { Some(c) => Some(series_view(c)), None => None },
            flags: self.flags,
        }
    }

    fn new() -> (s: Self)
        ensures
            s.view() == chart_scan_start(),
    {
        let flags = ScanFlags {
            in_cat: false, in_val: false, in_str_cache: false, in_num_cache: false, in_pt: false, pt_idx: None,
            in_v: false, in_title: false, in_title_rich: false, in_title_run: false, in_title_text: false, in_dlbls: false,
        };
        let s = ChartScanner {
            kind: None, title: None, labels: Vec::new(), series: Vec::new(), show_labels: false, depth: 0,
            current: None, flags,
        };
        assert(texts(s.labels@) =~= Seq::<Seq<char>>::empty());
        assert(s.series@.map_values(|x: ChartSeries| series_view(x)) =~= Seq::<SeriesScan>::empty());
        s
    }

    fn on_start(&mut self, tag: &XmlTag)
        requires
            old(self).depth < usize::MAX,
        ensures
            final(self).view() == chart_start(old(self).view(), *tag),
    {
        let l = chars_of(local_name(tag.name.as_slice()).as_str());
        let t = tag_of(&l);
        let has_series = self.current.is_some();
        self.depth = self.depth + 1;
        self.flags = start_flags_exec(self.flags, t, has_series, self.depth, tag);
        match t {
            ChartTag::Kind(k) => {
                self.kind = Some(k);
            },
            ChartTag::Ser => {
                let c = ChartSeries { name: String::new(), values: Vec::new() };
                assert(opt_texts(c.values@) =~= Seq::<Option<Seq<char>>>::empty());
                self.current = Some(c);
            },
            _ => {},
        }
    }

    fn on_empty(&mut self, tag: &XmlTag)
        ensures
            final(self).view() == chart_empty(old(self).view(), *tag),
    {
        if !self.flags.in_dlbls {
            return;
        }
        let l = chars_of(local_name(tag.name.as_slice()).as_str());
        if !(is_word(&l, "showPercent") || is_word(&l, "showVal") || is_word(&l, "showCatName")) {
            return;
        }
        if shows_value_exec(&tag.attrs) {
            self.show_labels = true;
        }
    }

    fn on_text(&mut self, t: &str)
        ensures
            final(self).view() == chart_text(old(self).view(), t@),
    {
        let f = self.flags;
        if f.in_v && f.in_pt {
            if f.in_str_cache {
                if let Some(idx) = f.pt_idx {
                    if idx < usize::MAX {
                        put_label(&mut self.labels, idx, t.to_owned());
                    }
                }
            } else if f.in_num_cache && self.current.is_some() && is_float_text(t) && f.pt_idx.is_some() {
                let idx = f.pt_idx.unwrap();
                if idx < usize::MAX {
                    let mut cur: Option<ChartSeries> = None;
                    std::mem::swap(&mut cur, &mut self.current);
                    let mut c = cur.unwrap();
                    put_value(&mut c.values, idx, t.to_owned());
                    self.current = Some(c);
                }
            }
        } else if f.in_title_text {
            self.title = Some(t.to_owned());
        }
    }

    /// Ends the current series: it joins the finished ones.
    fn close_series(&mut self)
        ensures
            final(self).series@.map_values(|x: ChartSeries| series_view(x)) == match old(self).view().current {
                Some(c) => old(self).view().series.push(c),
                None => old(self).view().series,
            },
            final(self).current is None,
            final(self).kind == old(self).kind,
            final(self).title == old(self).title,
            final(self).labels == old(self).labels,
            final(self).show_labels == old(self).show_labels,
            final(self).depth == old(self).depth,
            final(self).flags == old(self).flags,
    {
        let ghost before = self.series@.map_values(|x: ChartSeries| series_view(x));
        let mut cur: Option<ChartSeries> = None;
        std::mem::swap(&mut cur, &mut self.current);
        if let Some(c) = cur {
            self.series.push(c);
            assert(self.series@.map_values(|x: ChartSeries| series_view(x)) =~= before.push(series_view(self.series@.last())));
        }
    }

    fn on_end(&mut self, name: &Vec<u8>)
        ensures
            final(self).view() == chart_end(old(self).view(), name@),
    {
        let l = chars_of(local_name(name.as_slice()).as_str());
        let t = tag_of(&l);
        if t == ChartTag::Ser {
            self.close_series();
        }
        self.flags = end_flags_exec(self.flags, t);
        if self.depth > 0 {
            self.depth = self.depth - 1;
        }
    }
}

/// The chart of a chart part's events on sheet `sheet_name`; `None` when no
/// chart element (pie, bar, line, scatter, area, radar or bubble, or a 3D
/// variant) is found.
pub fn chart_from_events(events: &Vec<XmlEvent>, sheet_name: &str) -> (r: Option<ImportedChart>)
    ensures
        match r {
            Some(c) => chart_of(events@, sheet_name@) == Some(chart_view(c)),
            None => chart_of(events@, sheet_name@) is None,
        },
{
    let mut sc = ChartScanner::new();
    let mut i: usize = 0;
    assert(events@.take(0) =~= Seq::<XmlEvent>::empty());
    while i < events.len()
        invariant
            i <= events@.len(),
            sc.depth <= i,
            sc.view() == chart_scan(events@.take(i as int)),
        decreases events.len() - i,
    {
        assert(events@.take(i + 1).drop_last() =~= events@.take(i as int));
        assert(events@.take(i + 1).last() == events@[i as int]);
        let ghost before = sc.view();
        match &events[i] {
            XmlEvent::Start(tag) => sc.on_start(tag),
            XmlEvent::Empty(tag) => sc.on_empty(tag),
            XmlEvent::End(name) => sc.on_end(name),
            XmlEvent::Text(t) => {
                let text: &str = match t {
                    Some(t) => t.as_str(),
                    None => "",
                };
                proof {
                    reveal_strlit("");
                }
                assert(text@ =~= match t { Some(t) => t@, None => Seq::<char>::empty() });
                sc.on_text(text);
            },
            _ => {},
        }
        assert(sc.view() == chart_step(before, events@[i as int]));
        i += 1;
    }
    assert(events@.take(events@.len() as int) =~= events@);
    match sc.kind {
        Some(k) => Some(ImportedChart {
            chart_type: k,
            title: sc.title,
            labels: sc.labels,
            series: sc.series,
            show_data_labels: sc.show_labels,
            sheet_name: sheet_name.to_owned(),
        }),
        None => None,
    }
}

/// Parses a single chart part (`xl/charts/chart*.xml`) into an
/// [`ImportedChart`] of sheet `sheet_name`; `None` when no recognizable chart
/// element is found. Handles pie, bar, line, scatter, area, radar and bubble
/// charts, including their 3D variants. Reading stops at the first syntax
/// error.
pub fn parse_chart_xml(xml: &str, sheet_name: &str) -> (r: Option<ImportedChart>)
    ensures
        match r {
            Some(c) => chart_of(xml_event_stream(xml@), sheet_name@) == Some(chart_view(c)),
            None => chart_of(xml_event_stream(xml@), sheet_name@) is None,
        },
{
    let events = xml_events(xml);
    let r = chart_from_events(&events, sheet_name);
    assert(match r {
        Some(c) => chart_of(events@, sheet_name@) == Some(chart_view(c)),
        None => chart_of(events@, sheet_name@) is None,
    });
    r
}

} // verus!
