use lattice::pdf_export::{PrintCell, PrintPage, PrintRow};
use lattice::pdf_export::{col_to_letter, default_margins, default_orientation, default_paper_size, default_true, escape_html};

#[test]
fn test_escape_html() {
    assert_eq!(escape_html("<b>hi</b>"), "&lt;b&gt;hi&lt;/b&gt;");
    assert_eq!(escape_html("a&b"), "a&amp;b");
    assert_eq!(escape_html("\"quoted\""), "&quot;quoted&quot;");
}

#[test]
fn escape_html_leaves_plain_text() {
    assert_eq!(escape_html("plain text"), "plain text");
    assert_eq!(escape_html("&lt;"), "&amp;lt;");
    assert_eq!(escape_html(""), "");
}

#[test]
fn test_col_to_letter_fn() {
    assert_eq!(col_to_letter(0), "A");
    assert_eq!(col_to_letter(25), "Z");
    assert_eq!(col_to_letter(26), "AA");
    assert_eq!(col_to_letter(27), "AB");
}

#[test]
fn col_to_letter_wider() {
    assert_eq!(col_to_letter(51), "AZ");
    assert_eq!(col_to_letter(52), "BA");
    assert_eq!(col_to_letter(701), "ZZ");
    assert_eq!(col_to_letter(702), "AAA");
    assert_eq!(col_to_letter(16383), "XFD");
}

#[test]
fn print_defaults() {
    assert_eq!(default_paper_size(), "letter");
    assert_eq!(default_orientation(), "portrait");
    assert!(default_true());
    assert_eq!(default_margins(), "normal");
}

fn page(empty: bool, headers: bool) -> PrintPage {
    PrintPage {
        title: "Q1 <Sales>".to_string(),
        css: "body{}\n".to_string(),
        show_headers: headers,
        empty,
        col_widths: vec![560, 70],
        rows: vec![
            PrintRow {
                height: Some(20),
                cells: vec![
                    PrintCell { content: "a&amp;b".to_string(), style: String::new() },
                    PrintCell { content: "42".to_string(), style: "font-weight:bold".to_string() },
                ],
            },
            PrintRow { height: None, cells: vec![PrintCell { content: String::new(), style: String::new() }] },
        ],
    }
}

#[test]
fn print_html_of_an_empty_sheet() {
    let html = lattice::pdf_export::print_html(&page(true, true));
    assert_eq!(
        html,
        "<!DOCTYPE html>\n<html lang=\"en\">\n<head>\n<meta charset=\"utf-8\">\n<title>Q1 &lt;Sales&gt;</title>\n<style>\nbody{}\n</style>\n</head>\n<body>\n<h1>Q1 &lt;Sales&gt;</h1>\n<p>This sheet is empty.</p>\n</body>\n</html>\n"
    );
}

#[test]
fn print_html_table_with_headers() {
    let html = lattice::pdf_export::print_html(&page(false, true));
    let table = html.split("<h1>Q1 &lt;Sales&gt;</h1>\n").nth(1).unwrap();
    assert_eq!(
        table,
        "<table>\n<thead><tr><th class=\"row-header\"></th><th class=\"col-header\">A</th>\n<th class=\"col-header\">B</th>\n</tr></thead>\n\
<colgroup>\n<col style=\"width:40px\">\n<col style=\"width:560px\">\n<col style=\"width:70px\">\n</colgroup>\n\
<tbody>\n<tr style=\"height:20px\">\n<td class=\"row-header\">1</td>\n<td>a&amp;b</td>\n<td style=\"font-weight:bold\">42</td>\n</tr>\n\
<tr>\n<td class=\"row-header\">2</td>\n<td></td>\n</tr>\n</tbody>\n</table>\n</body>\n</html>\n"
    );
}

#[test]
fn print_html_table_without_headers() {
    let html = lattice::pdf_export::print_html(&page(false, false));
    assert!(!html.contains("row-header"));
    assert!(html.contains("<colgroup>\n<col style=\"width:560px\">\n"));
    assert!(html.contains("<tr style=\"height:20px\">\n<td>a&amp;b</td>\n"));
}

#[test]
fn escaping_reads_back() {
    let s = "a<b>&\"c\" 'd' &lt;";
    let e = escape_html(s);
    assert_eq!(e, "a&lt;b&gt;&amp;&quot;c&quot; &#39;d&#39; &amp;lt;");
    let back = e.replace("&lt;", "<").replace("&gt;", ">").replace("&quot;", "\"").replace("&#39;", "'").replace("&amp;", "&");
    assert_eq!(back, s);
}
