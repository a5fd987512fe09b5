use lattice::chart_xml::{chart_from_events, parse_chart_xml, ChartType, ImportedChart};
use lattice::numeric_text::{is_float_text, parse_usize};
use lattice::xml::{XmlAttr, XmlEvent, XmlTag};

/// The numbers of a series, as the chart shows them.
fn numbers(chart: &ImportedChart, series: usize) -> Vec<f64> {
    chart.series[series]
        .values
        .iter()
        .map(|v| v.as_ref().map(|t| t.parse::<f64>().unwrap()).unwrap_or(0.0))
        .collect()
}

#[test]
fn test_parse_pie_chart_with_title_and_data_labels() {
    let xml = r#"<?xml version="1.0" encoding="UTF-8" standalone="yes"?>
<c:chartSpace xmlns:c="http://schemas.openxmlformats.org/drawingml/2006/chart"
              xmlns:a="http://schemas.openxmlformats.org/drawingml/2006/main">
  <c:chart>
    <c:title><c:tx><c:rich><a:p><a:r>
      <a:t>Budget Allocation</a:t>
    </a:r></a:p></c:rich></c:tx></c:title>
    <c:plotArea>
      <c:pieChart>
        <c:ser>
          <c:idx val="0"/>
          <c:cat><c:strRef><c:strCache>
            <c:pt idx="0"><c:v>Energy</c:v></c:pt>
            <c:pt idx="1"><c:v>IT</c:v></c:pt>
            <c:pt idx="2"><c:v>HR</c:v></c:pt>
          </c:strCache></c:strRef></c:cat>
          <c:val><c:numRef><c:numCache>
            <c:pt idx="0"><c:v>150000</c:v></c:pt>
            <c:pt idx="1"><c:v>200000</c:v></c:pt>
            <c:pt idx="2"><c:v>100000</c:v></c:pt>
          </c:numCache></c:numRef></c:val>
          <c:dLbls>
            <c:showPercent val="1"/>
            <c:showCatName val="1"/>
          </c:dLbls>
        </c:ser>
      </c:pieChart>
    </c:plotArea>
  </c:chart>
</c:chartSpace>"#;
    let chart = parse_chart_xml(xml, "Sheet1").expect("should parse pie chart");
    assert_eq!(chart.chart_type, ChartType::Pie);
    assert_eq!(chart.title, Some("Budget Allocation".to_string()));
    assert_eq!(chart.labels, vec!["Energy", "IT", "HR"]);
    assert_eq!(chart.series.len(), 1);
    assert_eq!(numbers(&chart, 0), vec![150000.0, 200000.0, 100000.0]);
    assert!(chart.show_data_labels);
    assert_eq!(chart.sheet_name, "Sheet1");
}

#[test]
fn test_parse_bar_chart_no_title() {
    let xml = r#"<?xml version="1.0" encoding="UTF-8" standalone="yes"?>
<c:chartSpace xmlns:c="http://schemas.openxmlformats.org/drawingml/2006/chart">
  <c:chart><c:plotArea><c:barChart>
    <c:ser>
      <c:cat><c:strRef><c:strCache>
        <c:pt idx="0"><c:v>Q1</c:v></c:pt>
        <c:pt idx="1"><c:v>Q2</c:v></c:pt>
      </c:strCache></c:strRef></c:cat>
      <c:val><c:numRef><c:numCache>
        <c:pt idx="0"><c:v>100</c:v></c:pt>
        <c:pt idx="1"><c:v>200</c:v></c:pt>
      </c:numCache></c:numRef></c:val>
    </c:ser>
  </c:barChart></c:plotArea></c:chart>
</c:chartSpace>"#;
    let chart = parse_chart_xml(xml, "Revenue").expect("should parse bar chart");
    assert_eq!(chart.chart_type, ChartType::Bar);
    assert_eq!(chart.title, None);
    assert_eq!(chart.labels, vec!["Q1", "Q2"]);
    assert_eq!(numbers(&chart, 0), vec![100.0, 200.0]);
    assert!(!chart.show_data_labels);
}

#[test]
fn test_parse_line_chart() {
    let xml = r#"<?xml version="1.0" encoding="UTF-8" standalone="yes"?>
<c:chartSpace xmlns:c="http://schemas.openxmlformats.org/drawingml/2006/chart">
  <c:chart><c:plotArea><c:lineChart>
    <c:ser>
      <c:val><c:numRef><c:numCache>
        <c:pt idx="0"><c:v>10</c:v></c:pt>
        <c:pt idx="1"><c:v>20</c:v></c:pt>
        <c:pt idx="2"><c:v>30</c:v></c:pt>
      </c:numCache></c:numRef></c:val>
    </c:ser>
  </c:lineChart></c:plotArea></c:chart>
</c:chartSpace>"#;
    let chart = parse_chart_xml(xml, "Data").expect("should parse line chart");
    assert_eq!(chart.chart_type, ChartType::Line);
    assert_eq!(numbers(&chart, 0), vec![10.0, 20.0, 30.0]);
}

#[test]
fn test_parse_scatter_chart_yval() {
    let xml = r#"<?xml version="1.0" encoding="UTF-8" standalone="yes"?>
<c:chartSpace xmlns:c="http://schemas.openxmlformats.org/drawingml/2006/chart">
  <c:chart><c:plotArea><c:scatterChart>
    <c:ser>
      <c:yVal><c:numRef><c:numCache>
        <c:pt idx="0"><c:v>5</c:v></c:pt>
      </c:numCache></c:numRef></c:yVal>
    </c:ser>
  </c:scatterChart></c:plotArea></c:chart>
</c:chartSpace>"#;
    let chart = parse_chart_xml(xml, "XY").expect("should parse scatter chart");
    assert_eq!(chart.chart_type, ChartType::Scatter);
    assert_eq!(numbers(&chart, 0), vec![5.0]);
}

#[test]
fn test_parse_area_chart() {
    let xml = r#"<?xml version="1.0" encoding="UTF-8" standalone="yes"?>
<c:chartSpace xmlns:c="http://schemas.openxmlformats.org/drawingml/2006/chart">
  <c:chart><c:plotArea><c:areaChart>
    <c:ser>
      <c:val><c:numRef><c:numCache>
        <c:pt idx="0"><c:v>1</c:v></c:pt>
        <c:pt idx="1"><c:v>2</c:v></c:pt>
      </c:numCache></c:numRef></c:val>
    </c:ser>
  </c:areaChart></c:plotArea></c:chart>
</c:chartSpace>"#;
    let chart = parse_chart_xml(xml, "Sheet1").expect("should parse area chart");
    assert_eq!(chart.chart_type, ChartType::Area);
    assert_eq!(numbers(&chart, 0), vec![1.0, 2.0]);
}

#[test]
fn test_parse_unknown_chart_returns_none() {
    let xml = r#"<?xml version="1.0" encoding="UTF-8" standalone="yes"?>
<c:chartSpace xmlns:c="http://schemas.openxmlformats.org/drawingml/2006/chart">
  <c:chart><c:plotArea/></c:chart>
</c:chartSpace>"#;
    assert!(parse_chart_xml(xml, "Sheet1").is_none());
}

#[test]
fn test_parse_multiple_series() {
    let xml = r#"<?xml version="1.0" encoding="UTF-8" standalone="yes"?>
<c:chartSpace xmlns:c="http://schemas.openxmlformats.org/drawingml/2006/chart">
  <c:chart><c:plotArea><c:barChart>
    <c:ser>
      <c:cat><c:strRef><c:strCache>
        <c:pt idx="0"><c:v>Jan</c:v></c:pt>
        <c:pt idx="1"><c:v>Feb</c:v></c:pt>
      </c:strCache></c:strRef></c:cat>
      <c:val><c:numRef><c:numCache>
        <c:pt idx="0"><c:v>10</c:v></c:pt>
        <c:pt idx="1"><c:v>20</c:v></c:pt>
      </c:numCache></c:numRef></c:val>
    </c:ser>
    <c:ser>
      <c:val><c:numRef><c:numCache>
        <c:pt idx="0"><c:v>30</c:v></c:pt>
        <c:pt idx="1"><c:v>40</c:v></c:pt>
      </c:numCache></c:numRef></c:val>
    </c:ser>
  </c:barChart></c:plotArea></c:chart>
</c:chartSpace>"#;
    let chart = parse_chart_xml(xml, "Sheet1").expect("should parse");
    assert_eq!(chart.series.len(), 2);
    assert_eq!(numbers(&chart, 0), vec![10.0, 20.0]);
    assert_eq!(numbers(&chart, 1), vec![30.0, 40.0]);
    assert_eq!(chart.labels, vec!["Jan", "Feb"]);
}

#[test]
fn sparse_points_are_padded() {
    let xml = r#"<c:chartSpace xmlns:c="c"><c:chart><c:plotArea><c:radarChart>
    <c:ser>
      <c:cat><c:strRef><c:strCache><c:pt idx="2"><c:v>C</c:v></c:pt></c:strCache></c:strRef></c:cat>
      <c:val><c:numRef><c:numCache>
        <c:pt idx="2"><c:v>7.5</c:v></c:pt>
        <c:pt idx="0"><c:v>not a number</c:v></c:pt>
        <c:pt idx="x"><c:v>9</c:v></c:pt>
      </c:numCache></c:numRef></c:val>
    </c:ser>
    </c:radarChart></c:plotArea></c:chart></c:chartSpace>"#;
    let chart = parse_chart_xml(xml, "S").unwrap();
    assert_eq!(chart.chart_type, ChartType::Radar);
    assert_eq!(chart.labels, vec!["", "", "C"]);
    assert_eq!(chart.series[0].values, vec![None, None, Some("7.5".to_string())]);
    assert_eq!(numbers(&chart, 0), vec![0.0, 0.0, 7.5]);
    assert_eq!(chart.series[0].name, "");
}

#[test]
fn unfinished_series_is_dropped_and_deep_titles_ignored() {
    let xml = r#"<c:chartSpace xmlns:c="c" xmlns:a="a"><c:chart><c:plotArea><c:bubbleChart>
    <c:ser><c:tx><c:title><c:rich><a:r><a:t>Deep</a:t></a:r></c:rich></c:title></c:tx>
      <c:val><c:numRef><c:numCache><c:pt idx="0"><c:v>1</c:v></c:pt></c:numCache></c:numRef></c:val>
    "#;
    let chart = parse_chart_xml(xml, "S").unwrap();
    assert_eq!(chart.chart_type, ChartType::Bubble);
    assert_eq!(chart.title, None);
    assert!(chart.series.is_empty());
}

#[test]
fn data_labels_need_a_true_value() {
    let xml = r#"<c:chartSpace xmlns:c="c"><c:chart><c:plotArea><c:bar3DChart>
    <c:ser><c:dLbls><c:showVal val="0"/><c:showLegendKey val="1"/></c:dLbls></c:ser>
    </c:bar3DChart></c:plotArea></c:chart></c:chartSpace>"#;
    let chart = parse_chart_xml(xml, "S").unwrap();
    assert_eq!(chart.chart_type, ChartType::Bar);
    assert!(!chart.show_data_labels);
    let xml2 = xml.replace("showVal val=\"0\"", "showVal val=\"true\"");
    assert!(parse_chart_xml(&xml2, "S").unwrap().show_data_labels);
}

#[test]
fn chart_from_hand_built_events() {
    let tag = |name: &str, attrs: Vec<Option<XmlAttr>>| XmlTag { name: name.as_bytes().to_vec(), attrs };
    let idx = |v: &str| Some(XmlAttr { key: b"idx".to_vec(), value: v.as_bytes().to_vec() });
    let events = vec![
        XmlEvent::Start(tag("lineChart", vec![])),
        XmlEvent::Start(tag("ser", vec![])),
        XmlEvent::Start(tag("val", vec![])),
        XmlEvent::Start(tag("numCache", vec![])),
        XmlEvent::Start(tag("pt", vec![idx("1")])),
        XmlEvent::Start(tag("v", vec![])),
        XmlEvent::Text(Some("-1e3".to_string())),
        XmlEvent::End(b"v".to_vec()),
        XmlEvent::End(b"pt".to_vec()),
        XmlEvent::End(b"numCache".to_vec()),
        XmlEvent::End(b"val".to_vec()),
        XmlEvent::End(b"ser".to_vec()),
        XmlEvent::End(b"lineChart".to_vec()),
    ];
    let chart = chart_from_events(&events, "Sheet9").unwrap();
    assert_eq!(chart.chart_type, ChartType::Line);
    assert_eq!(chart.series[0].values, vec![None, Some("-1e3".to_string())]);
    assert_eq!(chart.sheet_name, "Sheet9");
    assert!(chart_from_events(&vec![XmlEvent::Other], "S").is_none());
}

#[test]
fn usize_texts() {
    assert_eq!(parse_usize("0"), Some(0));
    assert_eq!(parse_usize("+12"), Some(12));
    assert_eq!(parse_usize("18446744073709551615"), Some(usize::MAX));
    assert_eq!(parse_usize("18446744073709551616"), None);
    assert_eq!(parse_usize(""), None);
    assert_eq!(parse_usize("+"), None);
    assert_eq!(parse_usize("-1"), None);
    assert_eq!(parse_usize(" 1"), None);
    assert_eq!(parse_usize("1_0"), None);
}

#[test]
fn float_texts_match_std() {
    let cases = [
        "1", "-1", "+1.5", ".5", "5.", ".", "", "+", "e5", "1e5", "1E-5", "1e+", "1e", "inf", "-Infinity", "NaN",
        "nan1", "1.2.3", " 1", "1 ", "0x10", "1_000", "infinity", "INF", "+nan", "1.e3", ".e3", "e", "--1",
    ];
    for c in cases {
        assert_eq!(is_float_text(c), c.parse::<f64>().is_ok(), "case {:?}", c);
    }
}
