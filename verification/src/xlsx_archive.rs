//! Reading the parts of an `.xlsx` archive (a zip file) held in memory: the
//! charts of its worksheets and the formulas of its sheets.
use vstd::prelude::*;
use std::io::Read;
use crate::chart_xml::{chart_of, chart_view, parse_chart_xml, ChartView, ImportedChart};
use crate::error::IoError;
use crate::text_map::TextMap;
use crate::xlsx_reader::{
    a1_letters_fit, a1_letters_fit_exec, a1_ref, pair_views, parse_a1_ref, parse_formulas_from_sheet_xml,
    parse_rid_target_map, parse_sheet_rid_map, rid_target_map, sheet_formulas, sheet_rid_map,
};
use crate::xml::xml_event_stream;
use crate::xlsx_chart::{
    chart_paths, chart_sheet_name, drawing_part, drawing_parts, extract_relationship_targets,
    relationship_targets, resolved_path, sheet_name_of_rels, sheet_rels_entries, sheet_rels_of, string_views,
};

verus! {

/// Why a part of an archive could not be read: the entry could not be found
/// (or the archive opened), or its content could not be read as UTF-8 text;
/// with the zip crate's message.
pub enum ZipReadError {
    Entry(String),
    Read(String),
}

/// The text of a [`ZipReadError`].
pub enum ZipFailure {
    Entry(Seq<char>),
    Read(Seq<char>),
}

/// The text of a [`ZipReadError`].
pub open spec fn failure_view(e: ZipReadError) -> ZipFailure {
    match e {
        ZipReadError::Entry(m) => ZipFailure::Entry(m@),
        ZipReadError::Read(m) => ZipFailure::Read(m@),
    }
}

/// The names of the entries of the zip archive `archive`, in the order of its
/// central directory, as the zip crate reads them; or its error message.
pub uninterp spec fn zip_names(archive: Seq<u8>) -> Result<Seq<Seq<char>>, Seq<char>>;

/// The text of the entry `name` of the zip archive `archive`, as the zip
/// crate reads it; or why it cannot be read.
pub uninterp spec fn zip_text(archive: Seq<u8>, name: Seq<char>) -> Result<Seq<char>, ZipFailure>;

/// Opens `archive` with the zip crate's `ZipArchive::new` and lists its
/// entries' names (`by_index`, `ZipFile::name`), an entry that cannot be
/// opened left out; or the crate's error message. The contract claims that
/// the result is a function of the bytes, named [`zip_names`].
#[verifier::external_body]
fn zip_entry_names(archive: &[u8]) -> (r: Result<Vec<String>, String>)
    ensures
        match r {
            Ok(names) => zip_names(archive@) == Ok::<Seq<Seq<char>>, Seq<char>>(string_views(names@)),
            Err(e) => zip_names(archive@) == Err::<Seq<Seq<char>>, Seq<char>>(e@),
        },
{
    let mut z = zip::ZipArchive::new(std::io::Cursor::new(archive)).map_err(|e| e.to_string())?;
    Ok((0..z.len()).filter_map(|i| z.by_index(i).ok().map(|e| e.name().to_string())).collect())
}

/// Opens `archive` with the zip crate's `ZipArchive::new`, finds the entry
/// `name` (`by_name`) and reads it as text (`Read::read_to_string`); a failure
/// to open or find is an `Entry` error, a failure to read a `Read` error, each
/// with the crate's message. The contract claims that the result is a
/// function of the bytes and the name, named [`zip_text`].
#[verifier::external_body]
fn zip_entry_text(archive: &[u8], name: &str) -> (r: Result<String, ZipReadError>)
    ensures
        match r {
            Ok(t) => zip_text(archive@, name@) == Ok::<Seq<char>, ZipFailure>(t@),
            Err(e) => zip_text(archive@, name@) == Err::<Seq<char>, ZipFailure>(failure_view(e)),
        },
{
    let mut z = zip::ZipArchive::new(std::io::Cursor::new(archive)).map_err(|e| ZipReadError::Entry(e.to_string()))?;
    let mut entry = z.by_name(name).map_err(|e| ZipReadError::Entry(e.to_string()))?;
    let mut text = String::new();
    entry.read_to_string(&mut text).map_err(|e| ZipReadError::Read(e.to_string()))?;
    Ok(text)
}

/// The message of a part that could not be read.
pub open spec fn read_failure_message(name: Seq<char>, f: ZipFailure) -> Seq<char> {
    match f {
        ZipFailure::Entry(e) => "zip entry '"@ + name + "': "@ + e,
        ZipFailure::Read(e) => "reading '"@ + name + "': "@ + e,
    }
}

/// The charts of a sequence of chart parts.
pub open spec fn chart_views(s: Seq<ImportedChart>) -> Seq<ChartView> {
    s.map_values(|c: ImportedChart| chart_view(c))
}

/// The charts of sheet `sheet` in the chart parts `paths`, in order: a part
/// that cannot be read, or holds no chart, gives none.
pub open spec fn path_charts(archive: Seq<u8>, paths: Seq<Seq<char>>, sheet: Seq<char>) -> Seq<ChartView>
    decreases paths.len(),
{
    if paths.len() == 0 {
        seq![]
    } else {
        path_charts(archive, paths.drop_last(), sheet) + match zip_text(archive, paths.last()) {
            Ok(x) => match chart_of(xml_event_stream(x), sheet) {
                Some(c) => seq![c],
                None => seq![],
            },
            Err(_) => seq![],
        }
    }
}

/// The chart parts that the drawing relationships `rels_xml` of a drawing in
/// folder `dir` lead to.
pub open spec fn drawing_chart_paths(rels_xml: Seq<char>, dir: Seq<char>) -> Seq<Seq<char>> {
    relationship_targets(xml_event_stream(rels_xml), "chart"@).map_values(|t: Seq<char>| resolved_path(dir, t))
}

/// The charts of sheet `sheet` in the drawings that a worksheet's
/// relationships lead to (`targets`), in order: a drawing whose
/// relationships cannot be read gives none.
pub open spec fn drawing_charts(archive: Seq<u8>, targets: Seq<Seq<char>>, sheet: Seq<char>) -> Seq<ChartView>
    decreases targets.len(),
{
    if targets.len() == 0 {
        seq![]
    } else {
        let (rels, dir) = drawing_part(targets.last());
        drawing_charts(archive, targets.drop_last(), sheet) + match zip_text(archive, rels) {
            Ok(x) => path_charts(archive, drawing_chart_paths(x, dir), sheet),
            Err(_) => seq![],
        }
    }
}

/// The charts of the worksheets whose relationship parts are `rels`, in
/// order; or the message of the first relationship part that cannot be read.
pub open spec fn sheet_charts(archive: Seq<u8>, rels: Seq<Seq<char>>) -> Result<Seq<ChartView>, Seq<char>>
    decreases rels.len(),
{
    if rels.len() == 0 {
        Ok(seq![])
    } else {
        match sheet_charts(archive, rels.drop_last()) {
            Err(m) => Err(m),
            Ok(prev) => match zip_text(archive, rels.last()) {
                Err(f) => Err(read_failure_message(rels.last(), f)),
                Ok(x) => Ok(prev + drawing_charts(archive,
                    relationship_targets(xml_event_stream(x), "drawing"@), chart_sheet_name(rels.last()))),
            },
        }
    }
}

/// The charts of the `.xlsx` archive `archive`: through each worksheet's
/// relationships to its drawings, and through each drawing's relationships
/// to its charts; or the message of why the archive or a worksheet's
/// relationships cannot be read.
pub open spec fn archive_charts(archive: Seq<u8>) -> Result<Seq<ChartView>, Seq<char>> {
    match zip_names(archive) {
        Err(e) => Err("zip error: "@ + e),
        Ok(names) => sheet_charts(archive, sheet_rels_of(names)),
    }
}

/// Appends the charts of sheet `sheet` in the chart parts `paths` to `out`.
fn charts_from_paths(archive: &[u8], paths: &Vec<String>, sheet: &str, out: &mut Vec<ImportedChart>)
    ensures
        chart_views(final(out)@) == chart_views(old(out)@) + path_charts(archive@, string_views(paths@), sheet@),
{
    let ghost start = chart_views(out@);
    let mut i: usize = 0;
    while i < paths.len()
        invariant
            i <= paths@.len(),
            chart_views(out@) == start + path_charts(archive@, string_views(paths@).take(i as int), sheet@),
        decreases paths.len() - i,
    {
        let ghost before = chart_views(out@);
        let ghost pv = string_views(paths@).take(i + 1);
        assert(pv.drop_last() =~= string_views(paths@).take(i as int));
        assert(pv.last() == paths@[i as int]@);
        match zip_entry_text(archive, paths[i].as_str()) {
            Ok(x) => {
                match parse_chart_xml(x.as_str(), sheet) {
                    Some(c) => {
                        out.push(c);
                        assert(chart_views(out@) =~= before + seq![chart_view(c)]);
                    },
                    None => {
                        assert(before + Seq::<ChartView>::empty() =~= before);
                    },
                }
            },
            Err(_) => {
                assert(before + Seq::<ChartView>::empty() =~= before);
            },
        }
        i += 1;
    }
    assert(string_views(paths@).take(paths@.len() as int) =~= string_views(paths@));
}

/// Appends the charts of sheet `sheet` in the drawings `targets` to `out`.
fn charts_from_drawings(archive: &[u8], targets: &Vec<String>, sheet: &str, out: &mut Vec<ImportedChart>)
    ensures
        chart_views(final(out)@) == chart_views(old(out)@) + drawing_charts(archive@, string_views(targets@), sheet@),
{
    let ghost start = chart_views(out@);
    let parts = drawing_parts(targets);
    let mut i: usize = 0;
    while i < parts.len()
        invariant
            i <= parts@.len(),
            parts@.len() == targets@.len(),
            forall|k: int| 0 <= k < parts@.len() ==> (#[trigger] parts@[k].0@, parts@[k].1@) == drawing_part(targets@[k]@),
            chart_views(out@) == start + drawing_charts(archive@, string_views(targets@).take(i as int), sheet@),
        decreases parts.len() - i,
    {
        let ghost before = chart_views(out@);
        let ghost tv = string_views(targets@).take(i + 1);
        assert(tv.drop_last() =~= string_views(targets@).take(i as int));
        assert(tv.last() == targets@[i as int]@);
        let (rels, dir) = (&parts[i].0, &parts[i].1);
        assert((rels@, dir@) == drawing_part(targets@[i as int]@));
        match zip_entry_text(archive, rels.as_str()) {
            Ok(x) => {
                let found = extract_relationship_targets(x.as_str(), "chart");
                let paths = chart_paths(&found, dir.as_str());
                assert(string_views(paths@) =~= drawing_chart_paths(x@, dir@));
                charts_from_paths(archive, &paths, sheet, out);
                assert(chart_views(out@) =~= before + path_charts(archive@, drawing_chart_paths(x@, dir@), sheet@));
            },
            Err(_) => {
                assert(before + Seq::<ChartView>::empty() =~= before);
            },
        }
        i += 1;
    }
    assert(string_views(targets@).take(targets@.len() as int) =~= string_views(targets@));
}

/// The message of a part that could not be read (see [`read_failure_message`]).
fn failure_message(name: &str, e: ZipReadError) -> (m: String)
    ensures
        m@ == read_failure_message(name@, failure_view(e)),
{
    match e {
        ZipReadError::Entry(t) => {
            let mut m = String::from_str("zip entry '");
            m.append(name);
            m.append("': ");
            m.append(t.as_str());
            m
        },
        ZipReadError::Read(t) => {
            let mut m = String::from_str("reading '");
            m.append(name);
            m.append("': ");
            m.append(t.as_str());
            m
        },
    }
}

/// Reads all charts of the `.xlsx` archive `archive` (see [`archive_charts`]):
/// an archive that is no zip file, or a worksheet relationship part that
/// cannot be read, is an `XlsxRead` error; a drawing or chart part that
/// cannot be read is skipped.
pub fn xlsx_charts(archive: &[u8]) -> (r: Result<Vec<ImportedChart>, IoError>)
    ensures
        match archive_charts(archive@) {
            Ok(cs) => r matches Ok(v) && chart_views(v@) == cs,
            Err(m) => r matches Err(IoError::XlsxRead(e)) && e@ == m,
        },
{
    let names = match zip_entry_names(archive) {
        Ok(n) => n,
        Err(e) => {
            let mut m = String::from_str("zip error: ");
            m.append(e.as_str());
            return Err(IoError::XlsxRead(m));
        },
    };
    let rels = sheet_rels_entries(&names);
    let ghost rv = string_views(rels@);
    assert(rv == sheet_rels_of(string_views(names@)));
    let mut charts: Vec<ImportedChart> = Vec::new();
    let mut i: usize = 0;
    assert(chart_views(charts@) =~= Seq::<ChartView>::empty());
    while i < rels.len()
        invariant
            i <= rels@.len(),
            rv == string_views(rels@),
            zip_names(archive@) == Ok::<Seq<Seq<char>>, Seq<char>>(string_views(names@)),
            rv == sheet_rels_of(string_views(names@)),
            sheet_charts(archive@, rv.take(i as int)) == Ok::<Seq<ChartView>, Seq<char>>(chart_views(charts@)),
        decreases rels.len() - i,
    {
        let ghost tv = rv.take(i + 1);
        assert(tv.drop_last() =~= rv.take(i as int));
        assert(tv.last() == rels@[i as int]@);
        let name = rels[i].as_str();
        match zip_entry_text(archive, name) {
            Ok(x) => {
                let sheet = sheet_name_of_rels(name);
                let drawings = extract_relationship_targets(x.as_str(), "drawing");
                charts_from_drawings(archive, &drawings, sheet.as_str(), &mut charts);
            },
            Err(e) => {
                let ghost fv = failure_view(e);
                assert(zip_text(archive@, tv.last()) == Err::<Seq<char>, ZipFailure>(fv));
                let m = failure_message(name, e);
                assert(m@ == read_failure_message(tv.last(), fv));
                assert(sheet_charts(archive@, tv) == Err::<Seq<ChartView>, Seq<char>>(m@));
                proof {
                    lemma_sheet_charts_err(archive@, rv, i as int + 1, m@);
                }
                return Err(IoError::XlsxRead(m));
            },
        }
        i += 1;
    }
    assert(rv.take(rels@.len() as int) =~= rv);
    Ok(charts)
}

/// An error in the relationship parts read so far is the error of all of them.
pub proof fn lemma_sheet_charts_err(archive: Seq<u8>, rels: Seq<Seq<char>>, n: int, m: Seq<char>)
    requires
        0 <= n <= rels.len(),
        sheet_charts(archive, rels.take(n)) == Err::<Seq<ChartView>, Seq<char>>(m),
    ensures
        sheet_charts(archive, rels) == Err::<Seq<ChartView>, Seq<char>>(m),
    decreases rels.len() - n,
{
    if n < rels.len() {
        assert(rels.take(n + 1).drop_last() =~= rels.take(n));
        lemma_sheet_charts_err(archive, rels, n + 1, m);
    } else {
        assert(rels.take(n) =~= rels);
    }
}

/// The formulas (cell reference and formula text) of sheet `sheet`: through
/// the sheet's relationship id (`rids`) to its worksheet part (`targets`,
/// relative to `xl/`); none where either is missing or the part cannot be read.
pub open spec fn sheet_part_formulas(archive: Seq<u8>, rids: Map<Seq<char>, Seq<char>>, targets: Map<Seq<char>, Seq<char>>, sheet: Seq<char>) -> Seq<(Seq<char>, Seq<char>)> {
    if rids.contains_key(sheet) && targets.contains_key(rids[sheet]) {
        match zip_text(archive, "xl/"@ + targets[rids[sheet]]) {
            Ok(x) => sheet_formulas(xml_event_stream(x)),
            Err(_) => seq![],
        }
    } else {
        seq![]
    }
}

/// The formulas of `sheet` placed at the 0-based row and column their
/// reference names; a formula whose reference cannot be read is left out.
pub open spec fn placed_formulas(sheet: Seq<char>, fs: Seq<(Seq<char>, Seq<char>)>) -> Seq<(Seq<char>, int, int, Seq<char>)>
    decreases fs.len(),
{
    if fs.len() == 0 {
        seq![]
    } else {
        placed_formulas(sheet, fs.drop_last()) + match a1_ref(fs.last().0) {
            Some((r, c)) => seq![(sheet, r, c, fs.last().1)],
            None => seq![],
        }
    }
}

/// The placed formulas of the sheets `sheets`, in order.
pub open spec fn sheets_formulas(archive: Seq<u8>, rids: Map<Seq<char>, Seq<char>>, targets: Map<Seq<char>, Seq<char>>, sheets: Seq<Seq<char>>) -> Seq<(Seq<char>, int, int, Seq<char>)>
    decreases sheets.len(),
{
    if sheets.len() == 0 {
        seq![]
    } else {
        sheets_formulas(archive, rids, targets, sheets.drop_last())
            + placed_formulas(sheets.last(), sheet_part_formulas(archive, rids, targets, sheets.last()))
    }
}

/// Whether every formula reference of the sheets `sheets` keeps its column
/// within a `u32` (see [`a1_letters_fit`]).
pub open spec fn sheets_refs_fit(archive: Seq<u8>, rids: Map<Seq<char>, Seq<char>>, targets: Map<Seq<char>, Seq<char>>, sheets: Seq<Seq<char>>) -> bool {
    forall|k: int, f: int| 0 <= k < sheets.len() && 0 <= f < sheet_part_formulas(archive, rids, targets, sheets[k]).len()
        ==> a1_letters_fit(#[trigger] sheet_part_formulas(archive, rids, targets, sheets[k])[f].0)
}

/// The workbook part and its relationships, read from `archive`; or the
/// message of why the archive or one of them cannot be read.
pub open spec fn workbook_parts(archive: Seq<u8>) -> Result<(Seq<char>, Seq<char>), Seq<char>> {
    match zip_names(archive) {
        Err(e) => Err("zip error: "@ + e),
        Ok(_) => match zip_text(archive, "xl/workbook.xml"@) {
            Err(f) => Err(read_failure_message("xl/workbook.xml"@, f)),
            Ok(wb) => match zip_text(archive, "xl/_rels/workbook.xml.rels"@) {
                Err(f) => Err(read_failure_message("xl/_rels/workbook.xml.rels"@, f)),
                Ok(rels) => Ok((wb, rels)),
            },
        },
    }
}

/// The formulas of the sheets `sheets` of the `.xlsx` archive `archive`,
/// each with its sheet, 0-based row and column; or the message of why the
/// archive, its workbook part or the workbook's relationships cannot be read.
pub open spec fn archive_formulas(archive: Seq<u8>, sheets: Seq<Seq<char>>) -> Result<Seq<(Seq<char>, int, int, Seq<char>)>, Seq<char>> {
    match workbook_parts(archive) {
        Err(m) => Err(m),
        Ok((wb, rels)) => Ok(sheets_formulas(archive, sheet_rid_map(xml_event_stream(wb)),
            rid_target_map(xml_event_stream(rels)), sheets)),
    }
}

/// Whether every formula reference that [`archive_formulas`] reads keeps its
/// column within a `u32`.
pub open spec fn archive_refs_fit(archive: Seq<u8>, sheets: Seq<Seq<char>>) -> bool {
    match workbook_parts(archive) {
        Err(_) => true,
        Ok((wb, rels)) => sheets_refs_fit(archive, sheet_rid_map(xml_event_stream(wb)),
            rid_target_map(xml_event_stream(rels)), sheets),
    }
}

/// A placed formula as text and numbers.
pub open spec fn placed_view(p: (String, u32, u32, String)) -> (Seq<char>, int, int, Seq<char>) {
    (p.0@, p.1 as int, p.2 as int, p.3@)
}

/// Placed formulas as text and numbers.
pub open spec fn placed_views(v: Seq<(String, u32, u32, String)>) -> Seq<(Seq<char>, int, int, Seq<char>)> {
    v.map_values(|p: (String, u32, u32, String)| placed_view(p))
}

/// Reads a workbook part, or the error of why it cannot be read.
fn read_part(archive: &[u8], name: &str) -> (r: Result<String, IoError>)
    ensures
        match zip_text(archive@, name@) {
            Ok(t) => r matches Ok(s) && s@ == t,
            Err(f) => r matches Err(IoError::XlsxRead(m)) && m@ == read_failure_message(name@, f),
        },
{
    match zip_entry_text(archive, name) {
        Ok(t) => Ok(t),
        Err(e) => Err(IoError::XlsxRead(failure_message(name, e))),
    }
}

/// Appends the formulas `fs` of `sheet` at their cells to `out`; `false`
/// (and `out` unspecified) where a reference's column does not fit a `u32`.
fn place_formulas(sheet: &str, fs: &Vec<(String, String)>, out: &mut Vec<(String, u32, u32, String)>) -> (fit: bool)
    ensures
        fit == (forall|f: int| 0 <= f < fs@.len() ==> a1_letters_fit(#[trigger] pair_views(fs@)[f].0)),
        fit ==> placed_views(final(out)@) == placed_views(old(out)@) + placed_formulas(sheet@, pair_views(fs@)),
{
    let ghost start = placed_views(out@);
    let mut i: usize = 0;
    while i < fs.len()
        invariant
            i <= fs@.len(),
            forall|f: int| 0 <= f < i ==> a1_letters_fit(#[trigger] pair_views(fs@)[f].0),
            placed_views(out@) == start + placed_formulas(sheet@, pair_views(fs@).take(i as int)),
        decreases fs.len() - i,
    {
        let (cell_ref, formula) = (&fs[i].0, &fs[i].1);
        assert(pair_views(fs@)[i as int] == (cell_ref@, formula@));
        if !a1_letters_fit_exec(cell_ref.as_str()) {
            assert(!a1_letters_fit(pair_views(fs@)[i as int].0));
            return false;
        }
        let ghost before = placed_views(out@);
        let ghost pv = pair_views(fs@).take(i + 1);
        assert(pv.drop_last() =~= pair_views(fs@).take(i as int));
        assert(pv.last() == (cell_ref@, formula@));
        match parse_a1_ref(cell_ref.as_str()) {
            Some((row, col)) => {
                let name = String::from_str(sheet);
                let text = formula.clone();
                assert(text@ == formula@);
                out.push((name, row, col, text));
                assert(placed_views(out@) =~= before + seq![(sheet@, row as int, col as int, formula@)]);
            },
            None => {
                assert(before + Seq::<(Seq<char>, int, int, Seq<char>)>::empty() =~= before);
            },
        }
        i += 1;
    }
    assert(pair_views(fs@).take(fs@.len() as int) =~= pair_views(fs@));
    true
}

fn formulas_core(archive: &[u8], sheets: &Vec<String>) -> (r: Option<Result<Vec<(String, u32, u32, String)>, IoError>>)
    ensures
        match archive_formulas(archive@, string_views(sheets@)) {
            Err(m) => r matches Some(Err(IoError::XlsxRead(e))) && e@ == m,
            Ok(fs) => if archive_refs_fit(archive@, string_views(sheets@)) {
                r matches Some(Ok(v)) && placed_views(v@) == fs
            } else {
                r is None
            },
        },
{
    match zip_entry_names(archive) {
        Ok(_) => {},
        Err(e) => {
            let mut m = String::from_str("zip error: ");
            m.append(e.as_str());
            return Some(Err(IoError::XlsxRead(m)));
        },
    }
    let wb = match read_part(archive, "xl/workbook.xml") {
        Ok(t) => t,
        Err(e) => return Some(Err(e)),
    };
    let rels = match read_part(archive, "xl/_rels/workbook.xml.rels") {
        Ok(t) => t,
        Err(e) => return Some(Err(e)),
    };
    let rids = parse_sheet_rid_map(wb.as_str());
    let targets = parse_rid_target_map(rels.as_str());
    assert(workbook_parts(archive@) == Ok::<(Seq<char>, Seq<char>), Seq<char>>((wb@, rels@)));
    let ghost sv = string_views(sheets@);
    let ghost rm = rids@;
    let ghost tm = targets@;
    let mut out: Vec<(String, u32, u32, String)> = Vec::new();
    let mut i: usize = 0;
    assert(placed_views(out@) =~= Seq::<(Seq<char>, int, int, Seq<char>)>::empty());
    while i < sheets.len()
        invariant
            i <= sheets@.len(),
            sv == string_views(sheets@),
            rm == rids@,
            tm == targets@,
            workbook_parts(archive@) == Ok::<(Seq<char>, Seq<char>), Seq<char>>((wb@, rels@)),
            rm == sheet_rid_map(xml_event_stream(wb@)),
            tm == rid_target_map(xml_event_stream(rels@)),
            placed_views(out@) == sheets_formulas(archive@, rm, tm, sv.take(i as int)),
            sheets_refs_fit(archive@, rm, tm, sv.take(i as int)),
        decreases sheets.len() - i,
    {
        let ghost pv = sv.take(i + 1);
        assert(pv.drop_last() =~= sv.take(i as int));
        assert(pv.last() == sheets@[i as int]@);
        let sheet = sheets[i].as_str();
        let ghost part = sheet_part_formulas(archive@, rm, tm, sheet@);
        let mut fs: Vec<(String, String)> = Vec::new();
        match rids.get(sheet) {
            Some(rid) => match targets.get(rid.as_str()) {
                Some(target) => {
                    let mut path = String::from_str("xl/");
                    path.append(target.as_str());
                    match zip_entry_text(archive, path.as_str()) {
                        Ok(x) => {
                            fs = parse_formulas_from_sheet_xml(x.as_str());
                        },
                        Err(_) => {},
                    }
                },
                None => {},
            },
            None => {},
        }
        assert(pair_views(fs@) =~= part);
        let ghost before = placed_views(out@);
        if !place_formulas(sheet, &fs, &mut out) {
            proof {
                let f = choose|f: int| 0 <= f < fs@.len() && !a1_letters_fit(#[trigger] pair_views(fs@)[f].0);
                lemma_refs_not_fit(archive@, rm, tm, sv, i as int, f);
            }
            return None;
        }
        proof {
            assert forall|k: int, f: int| 0 <= k < pv.len() && 0 <= f < sheet_part_formulas(archive@, rm, tm, pv[k]).len()
                implies a1_letters_fit(#[trigger] sheet_part_formulas(archive@, rm, tm, pv[k])[f].0) by {
                if k < i {
                    assert(pv[k] == sv.take(i as int)[k]);
                }
            }
        }
        i += 1;
    }
    assert(sv.take(sheets@.len() as int) =~= sv);
    Some(Ok(out))
}

/// A formula reference that does not fit makes the whole read not fit.
proof fn lemma_refs_not_fit(archive: Seq<u8>, rm: Map<Seq<char>, Seq<char>>, tm: Map<Seq<char>, Seq<char>>, sv: Seq<Seq<char>>, i: int, f: int)
    requires
        0 <= i < sv.len(),
        0 <= f < sheet_part_formulas(archive, rm, tm, sv[i]).len(),
        !a1_letters_fit(sheet_part_formulas(archive, rm, tm, sv[i])[f].0),
    ensures
        !sheets_refs_fit(archive, rm, tm, sv),
{
    assert(!a1_letters_fit(sheet_part_formulas(archive, rm, tm, sv[i])[f].0));
}

/// Reads the formulas of the sheets `sheets` from the `.xlsx` archive
/// `archive` (see [`archive_formulas`]): through `xl/workbook.xml` and its
/// relationships to each sheet's worksheet part, and from its `<f>` elements.
/// A sheet without a part, or whose part cannot be read, has none; a formula
/// whose reference cannot be read is left out.
pub fn xlsx_formulas(archive: &[u8], sheets: &Vec<String>) -> (r: Result<Vec<(String, u32, u32, String)>, IoError>)
    requires
        archive_refs_fit(archive@, string_views(sheets@)),
    ensures
        match archive_formulas(archive@, string_views(sheets@)) {
            Ok(fs) => r matches Ok(v) && placed_views(v@) == fs,
            Err(m) => r matches Err(IoError::XlsxRead(e)) && e@ == m,
        },
{
    formulas_core(archive, sheets).unwrap()
}

/// [`xlsx_formulas`] where every formula reference's column fits a `u32`;
/// `None` where one does not (see [`archive_refs_fit`]).
pub fn try_xlsx_formulas(archive: &[u8], sheets: &Vec<String>) -> (r: Option<Result<Vec<(String, u32, u32, String)>, IoError>>)
    ensures
        match archive_formulas(archive@, string_views(sheets@)) {
            Err(m) => r matches Some(Err(IoError::XlsxRead(e))) && e@ == m,
            Ok(fs) => if archive_refs_fit(archive@, string_views(sheets@)) {
                r matches Some(Ok(v)) && placed_views(v@) == fs
            } else {
                r is None
            },
        },
{
    if formulas_core(archive, sheets).is_some() {
        Some(xlsx_formulas(archive, sheets))
    } else {
        None
    }
}

} // verus!
