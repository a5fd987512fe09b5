use lattice::xlsx_chart::{extract_relationship_targets, relationship_targets_from_events};
use lattice::xlsx_reader::{
    formulas_from_events, parse_formulas_from_sheet_xml, parse_rid_target_map, parse_sheet_rid_map,
    sheet_rid_map_from_events,
};
use lattice::xml::{xml_events, XmlAttr, XmlEvent, XmlTag};

#[test]
fn test_parse_sheet_rid_map() {
    let xml = r#"<?xml version="1.0" encoding="UTF-8" standalone="yes"?>
<workbook xmlns="http://schemas.openxmlformats.org/spreadsheetml/2006/main"
          xmlns:r="http://schemas.openxmlformats.org/officeDocument/2006/relationships">
  <sheets>
    <sheet name="Dashboard" sheetId="1" r:id="rId3"/>
    <sheet name="Portfolio" sheetId="2" r:id="rId4"/>
  </sheets>
</workbook>"#;
    let map = parse_sheet_rid_map(xml);
    assert_eq!(map.get("Dashboard"), Some(&"rId3".to_string()));
    assert_eq!(map.get("Portfolio"), Some(&"rId4".to_string()));
    assert_eq!(map.len(), 2);
}

#[test]
fn test_parse_rid_target_map() {
    let xml = r#"<?xml version="1.0" encoding="UTF-8"?>
<Relationships xmlns="http://schemas.openxmlformats.org/package/2006/relationships">
  <Relationship Id="rId3" Type="http://schemas.openxmlformats.org/officeDocument/2006/relationships/worksheet" Target="worksheets/sheet1.xml"/>
  <Relationship Id="rId4" Type="http://schemas.openxmlformats.org/officeDocument/2006/relationships/worksheet" Target="worksheets/sheet2.xml"/>
</Relationships>"#;
    let map = parse_rid_target_map(xml);
    assert_eq!(map.get("rId3"), Some(&"worksheets/sheet1.xml".to_string()));
    assert_eq!(map.get("rId4"), Some(&"worksheets/sheet2.xml".to_string()));
}

#[test]
fn test_parse_formulas_from_sheet_xml() {
    let xml = r#"<?xml version="1.0" encoding="UTF-8" standalone="yes"?>
<worksheet xmlns="http://schemas.openxmlformats.org/spreadsheetml/2006/main">
  <sheetData>
    <row r="1">
      <c r="A1" t="s"><v>0</v></c>
      <c r="B1" t="n"><v>100</v></c>
    </row>
    <row r="5">
      <c r="D5" s="5" t="n"><f aca="false">C5-B5</f><v>98270</v></c>
      <c r="E5" s="6" t="n"><f aca="false">D5/B5*100</f><v>10.28</v></c>
    </row>
  </sheetData>
</worksheet>"#;
    let formulas = parse_formulas_from_sheet_xml(xml);
    assert_eq!(formulas.len(), 2);
    assert_eq!(formulas[0], ("D5".to_string(), "C5-B5".to_string()));
    assert_eq!(formulas[1], ("E5".to_string(), "D5/B5*100".to_string()));
}

#[test]
fn test_parse_formulas_no_formulas() {
    let xml = r#"<?xml version="1.0" encoding="UTF-8" standalone="yes"?>
<worksheet xmlns="http://schemas.openxmlformats.org/spreadsheetml/2006/main">
  <sheetData>
    <row r="1">
      <c r="A1" t="s"><v>0</v></c>
    </row>
  </sheetData>
</worksheet>"#;
    let formulas = parse_formulas_from_sheet_xml(xml);
    assert!(formulas.is_empty());
}

#[test]
fn test_parse_formulas_sum_function() {
    let xml = r#"<?xml version="1.0" encoding="UTF-8" standalone="yes"?>
<worksheet xmlns="http://schemas.openxmlformats.org/spreadsheetml/2006/main">
  <sheetData>
    <row r="5">
      <c r="N5" t="n"><f>SUM(B5:M5)</f><v>120000</v></c>
    </row>
  </sheetData>
</worksheet>"#;
    let formulas = parse_formulas_from_sheet_xml(xml);
    assert_eq!(formulas.len(), 1);
    assert_eq!(formulas[0], ("N5".to_string(), "SUM(B5:M5)".to_string()));
}

#[test]
fn test_extract_relationship_targets_chart() {
    let xml = r#"<?xml version="1.0" encoding="UTF-8" standalone="yes"?>
<Relationships xmlns="http://schemas.openxmlformats.org/package/2006/relationships">
  <Relationship Id="rId1"
    Type="http://schemas.openxmlformats.org/officeDocument/2006/relationships/chart"
    Target="../charts/chart1.xml"/>
  <Relationship Id="rId2"
    Type="http://schemas.openxmlformats.org/officeDocument/2006/relationships/image"
    Target="../media/image1.png"/>
</Relationships>"#;
    let targets = extract_relationship_targets(xml, "chart");
    assert_eq!(targets, vec!["../charts/chart1.xml"]);
}

#[test]
fn test_extract_relationship_targets_drawing() {
    let xml = r#"<?xml version="1.0" encoding="UTF-8" standalone="yes"?>
<Relationships xmlns="http://schemas.openxmlformats.org/package/2006/relationships">
  <Relationship Id="rId1"
    Type="http://schemas.openxmlformats.org/officeDocument/2006/relationships/drawing"
    Target="../drawings/drawing1.xml"/>
</Relationships>"#;
    let targets = extract_relationship_targets(xml, "drawing");
    assert_eq!(targets, vec!["../drawings/drawing1.xml"]);
}

#[test]
fn relationship_type_is_lowercased_and_order_kept() {
    let xml = r#"<Relationships>
  <Relationship Type="urn:CHART" Target="a.xml"/>
  <Relationship Type="urn:chart" Target=""/>
  <Relationship Type="urn:Chart"><x/></Relationship>
  <Relationship Type="urn:chartsheet" Target="b.xml"></Relationship>
</Relationships>"#;
    assert_eq!(extract_relationship_targets(xml, "chart"), vec!["a.xml", "b.xml"]);
}

#[test]
fn reading_stops_at_syntax_error() {
    let xml = r#"<Relationships><Relationship Type="chart" Target="a.xml"/></Wrong><Relationship Type="chart" Target="b.xml"/></Relationships>"#;
    assert_eq!(extract_relationship_targets(xml, "chart"), vec!["a.xml"]);
}

#[test]
fn events_are_read_with_trimmed_text() {
    let events = xml_events("<a x=\"1\">  hi &amp; bye  <b/></a>");
    assert_eq!(events.len(), 4);
    match &events[0] {
        XmlEvent::Start(tag) => {
            assert_eq!(tag.name, b"a".to_vec());
            assert_eq!(tag.attrs.len(), 1);
        }
        _ => panic!("expected a start tag"),
    }
    match &events[1] {
        XmlEvent::Text(Some(t)) => assert_eq!(t, "hi & bye"),
        _ => panic!("expected text"),
    }
    assert!(matches!(&events[2], XmlEvent::Empty(_)));
    assert!(matches!(&events[3], XmlEvent::End(n) if n == b"a"));
}

fn attr(key: &str, value: &str) -> Option<XmlAttr> {
    Some(XmlAttr { key: key.as_bytes().to_vec(), value: value.as_bytes().to_vec() })
}

fn tag(name: &str, attrs: Vec<Option<XmlAttr>>) -> XmlTag {
    XmlTag { name: name.as_bytes().to_vec(), attrs }
}

#[test]
fn formulas_from_hand_built_events() {
    let events = vec![
        XmlEvent::Start(tag("x:c", vec![attr("r", "A1"), None, attr("r", "B2")])),
        XmlEvent::Start(tag("f", vec![])),
        XmlEvent::Text(Some("1+".to_string())),
        XmlEvent::Text(None),
        XmlEvent::Text(Some("2".to_string())),
        XmlEvent::End(b"f".to_vec()),
        XmlEvent::End(b"c".to_vec()),
        // a formula outside a cell is ignored
        XmlEvent::Start(tag("f", vec![])),
        XmlEvent::Text(Some("9".to_string())),
        XmlEvent::End(b"f".to_vec()),
        // a cell without a reference records nothing
        XmlEvent::Start(tag("c", vec![])),
        XmlEvent::Start(tag("f", vec![])),
        XmlEvent::Text(Some("3".to_string())),
        XmlEvent::End(b"f".to_vec()),
        XmlEvent::End(b"c".to_vec()),
    ];
    assert_eq!(formulas_from_events(&events), vec![("B2".to_string(), "1+2".to_string())]);
}

#[test]
fn sheet_map_from_hand_built_events() {
    let events = vec![
        XmlEvent::Empty(tag("sheet", vec![attr("name", "A"), attr("r:id", "rId1")])),
        XmlEvent::Start(tag("x:sheet", vec![attr("name", "B"), attr("id", "rId2")])),
        XmlEvent::Empty(tag("sheet", vec![attr("name", "A"), attr("r:id", "rId9")])),
        XmlEvent::Empty(tag("sheet", vec![attr("name", ""), attr("r:id", "rId5")])),
        XmlEvent::Empty(tag("sheets", vec![attr("name", "C"), attr("r:id", "rId6")])),
    ];
    let map = sheet_rid_map_from_events(&events);
    assert_eq!(map.len(), 2);
    assert_eq!(map.get("A"), Some(&"rId9".to_string()));
    assert_eq!(map.get("B"), Some(&"rId2".to_string()));
    assert_eq!(map.get("C"), None);
}

#[test]
fn relationship_targets_from_hand_built_events() {
    let events = vec![
        XmlEvent::Empty(tag("Relationship", vec![attr("Type", "x/Drawing"), attr("Target", "d1.xml")])),
        XmlEvent::Empty(tag("r:Relationship", vec![attr("Type", "x/drawing"), attr("Target", "d2.xml")])),
        XmlEvent::Start(tag("Relationship", vec![attr("type", "x/drawing"), attr("Target", "d3.xml")])),
    ];
    assert_eq!(relationship_targets_from_events(&events, "drawing"), vec!["d1.xml"]);
}
