use std::io::Write;

use lattice::chart_xml::ChartType;
use lattice::error::IoError;
use lattice::xlsx_archive::{try_xlsx_formulas, xlsx_charts, xlsx_formulas};

fn archive(entries: &[(&str, &str)]) -> Vec<u8> {
    let mut w = zip::ZipWriter::new(std::io::Cursor::new(Vec::new()));
    for (name, text) in entries {
        w.start_file(*name, zip::write::SimpleFileOptions::default()).unwrap();
        w.write_all(text.as_bytes()).unwrap();
    }
    w.finish().unwrap().into_inner()
}

const SHEET_RELS: &str = r#"<?xml version="1.0"?><Relationships xmlns="http://schemas.openxmlformats.org/package/2006/relationships"><Relationship Id="rId1" Type="http://schemas.openxmlformats.org/officeDocument/2006/relationships/drawing" Target="../drawings/drawing1.xml"/></Relationships>"#;
const DRAWING_RELS: &str = r#"<?xml version="1.0"?><Relationships xmlns="http://schemas.openxmlformats.org/package/2006/relationships"><Relationship Id="rId1" Type="http://schemas.openxmlformats.org/officeDocument/2006/relationships/chart" Target="../charts/chart1.xml"/></Relationships>"#;
const CHART: &str = r#"<?xml version="1.0"?><c:chartSpace xmlns:c="http://schemas.openxmlformats.org/drawingml/2006/chart"><c:chart><c:plotArea><c:lineChart><c:ser><c:val><c:numRef><c:numCache><c:pt idx="0"><c:v>5</c:v></c:pt></c:numCache></c:numRef></c:val></c:ser></c:lineChart></c:plotArea></c:chart></c:chartSpace>"#;

#[test]
fn charts_are_found_through_relationships() {
    let bytes = archive(&[
        ("xl/worksheets/sheet1.xml", "<worksheet/>"),
        ("xl/worksheets/_rels/sheet1.xml.rels", SHEET_RELS),
        ("xl/drawings/drawing1.xml", "<xdr:wsDr/>"),
        ("xl/drawings/_rels/drawing1.xml.rels", DRAWING_RELS),
        ("xl/charts/chart1.xml", CHART),
    ]);
    let charts = xlsx_charts(&bytes).unwrap();
    assert_eq!(charts.len(), 1);
    assert_eq!(charts[0].chart_type, ChartType::Line);
    assert_eq!(charts[0].sheet_name, "sheet1");
    assert_eq!(charts[0].series[0].values, vec![Some("5".to_string())]);
}

#[test]
fn missing_drawing_parts_are_skipped() {
    let bytes = archive(&[("xl/worksheets/_rels/sheet1.xml.rels", SHEET_RELS)]);
    assert!(xlsx_charts(&bytes).unwrap().is_empty());
    let bytes = archive(&[("xl/worksheets/sheet1.xml", "<worksheet/>")]);
    assert!(xlsx_charts(&bytes).unwrap().is_empty());
}

#[test]
fn not_a_zip_archive() {
    match xlsx_charts(b"not a zip file") {
        Err(IoError::XlsxRead(m)) => assert!(m.starts_with("zip error: ")),
        _ => panic!("expected a zip error"),
    }
}

const WORKBOOK: &str = r#"<workbook xmlns:r="http://schemas.openxmlformats.org/officeDocument/2006/relationships"><sheets><sheet name="Data" sheetId="1" r:id="rId1"/><sheet name="Other" sheetId="2" r:id="rId9"/></sheets></workbook>"#;
const WORKBOOK_RELS: &str = r#"<Relationships><Relationship Id="rId1" Type="worksheet" Target="worksheets/sheet1.xml"/></Relationships>"#;
const SHEET: &str = r#"<worksheet><sheetData><row r="2"><c r="B2"><f>SUM(A1:A3)</f><v>6</v></c><c r="C2"><v>1</v></c><c r="AA10"><f>B2*2</f></c></row></sheetData></worksheet>"#;

fn sheets(names: &[&str]) -> Vec<String> {
    names.iter().map(|s| s.to_string()).collect()
}

#[test]
fn formulas_are_placed_at_their_cells() {
    let bytes = archive(&[
        ("xl/workbook.xml", WORKBOOK),
        ("xl/_rels/workbook.xml.rels", WORKBOOK_RELS),
        ("xl/worksheets/sheet1.xml", SHEET),
    ]);
    let f = xlsx_formulas(&bytes, &sheets(&["Data", "Other", "Missing"])).unwrap();
    assert_eq!(f, vec![
        ("Data".to_string(), 1, 1, "SUM(A1:A3)".to_string()),
        ("Data".to_string(), 9, 26, "B2*2".to_string()),
    ]);
}

#[test]
fn formulas_need_the_workbook_parts() {
    let bytes = archive(&[("xl/workbook.xml", WORKBOOK)]);
    match xlsx_formulas(&bytes, &sheets(&["Data"])) {
        Err(IoError::XlsxRead(m)) => assert!(m.starts_with("zip entry 'xl/_rels/workbook.xml.rels': ")),
        _ => panic!("expected a missing part"),
    }
    assert!(matches!(xlsx_formulas(b"nope", &sheets(&["Data"])), Err(IoError::XlsxRead(_))));
}

#[test]
fn oversized_column_letters_are_refused() {
    let sheet = r#"<worksheet><sheetData><row r="1"><c r="ZZZZZZZZ1"><f>1</f></c></row></sheetData></worksheet>"#;
    let bytes = archive(&[
        ("xl/workbook.xml", WORKBOOK),
        ("xl/_rels/workbook.xml.rels", WORKBOOK_RELS),
        ("xl/worksheets/sheet1.xml", sheet),
    ]);
    assert!(try_xlsx_formulas(&bytes, &sheets(&["Data"])).is_none());
    assert!(try_xlsx_formulas(&bytes, &sheets(&["Other"])).unwrap().unwrap().is_empty());
}

#[test]
fn digit_free_formula_references_are_skipped() {
    let sheet = r#"<worksheet><sheetData><row r="1"><c r="AAAAAAAAAA"><f>1</f></c><c r="B1"><f>2</f></c></row></sheetData></worksheet>"#;
    let bytes = archive(&[
        ("xl/workbook.xml", WORKBOOK),
        ("xl/_rels/workbook.xml.rels", WORKBOOK_RELS),
        ("xl/worksheets/sheet1.xml", sheet),
    ]);
    let f = try_xlsx_formulas(&bytes, &sheets(&["Data"])).unwrap().unwrap();
    assert_eq!(f, vec![("Data".to_string(), 0, 1, "2".to_string())]);
}
