use lattice::xlsx_chart::{local_name, resolve_relative_path, strip_ns, to_rels_path};
use lattice::xlsx_reader::parse_a1_ref;
use lattice::xlsx_writer::parse_hex_color;

#[test]
fn test_local_name_strips_prefix() {
    assert_eq!(local_name(b"c:pieChart"), "pieChart");
    assert_eq!(local_name(b"a:t"), "t");
    assert_eq!(local_name(b"Relationship"), "Relationship");
}

#[test]
fn local_name_takes_last_colon() {
    assert_eq!(local_name(b"a:b:c"), "c");
    assert_eq!(local_name(b"x:"), "");
    assert_eq!(strip_ns(b"r:id"), "id");
    assert_eq!(strip_ns(b"sheet"), "sheet");
}

#[test]
fn test_resolve_relative_path() {
    assert_eq!(resolve_relative_path("xl/drawings", "../charts/chart1.xml"), "xl/charts/chart1.xml");
    assert_eq!(resolve_relative_path("xl/worksheets", "../drawings/drawing1.xml"), "xl/drawings/drawing1.xml");
}

#[test]
fn resolve_relative_path_dots_and_empties() {
    assert_eq!(resolve_relative_path("xl", "./charts//c.xml"), "xl/charts/c.xml");
    assert_eq!(resolve_relative_path("a/b", "../../../c"), "c");
    assert_eq!(resolve_relative_path("", "x.xml"), "/x.xml");
}

#[test]
fn test_to_rels_path() {
    assert_eq!(to_rels_path("xl/drawings/drawing1.xml"), "xl/drawings/_rels/drawing1.xml.rels");
    assert_eq!(to_rels_path("xl/worksheets/sheet1.xml"), "xl/worksheets/_rels/sheet1.xml.rels");
}

#[test]
fn test_to_rels_path_no_dir() {
    assert_eq!(to_rels_path("file.xml"), "_rels/file.xml.rels");
}

#[test]
fn test_parse_a1_ref_simple() {
    assert_eq!(parse_a1_ref("A1"), Some((0, 0)));
    assert_eq!(parse_a1_ref("B2"), Some((1, 1)));
    assert_eq!(parse_a1_ref("Z1"), Some((0, 25)));
    assert_eq!(parse_a1_ref("AA1"), Some((0, 26)));
    assert_eq!(parse_a1_ref("D5"), Some((4, 3)));
}

#[test]
fn test_parse_a1_ref_invalid() {
    assert_eq!(parse_a1_ref(""), None);
    assert_eq!(parse_a1_ref("123"), None);
    assert_eq!(parse_a1_ref("A0"), None);
}

#[test]
fn parse_a1_ref_more() {
    assert_eq!(parse_a1_ref("XFD1048576"), Some((1048575, 16383)));
    assert_eq!(parse_a1_ref("a1"), Some((0, 0)));
    assert_eq!(parse_a1_ref("A1B"), None);
    assert_eq!(parse_a1_ref("A"), None);
}

#[test]
fn test_parse_hex_color() {
    assert_eq!(parse_hex_color("#FF0000"), Some(0xFF0000));
    assert_eq!(parse_hex_color("#000000"), Some(0x000000));
    assert_eq!(parse_hex_color("#FFFFFF"), Some(0xFFFFFF));
    assert_eq!(parse_hex_color("invalid"), None);
}

#[test]
fn parse_hex_color_edges() {
    assert_eq!(parse_hex_color("#abc"), Some(0xabc));
    assert_eq!(parse_hex_color("#+1F"), Some(0x1f));
    assert_eq!(parse_hex_color("#"), None);
    assert_eq!(parse_hex_color("#+"), None);
    assert_eq!(parse_hex_color("#-1"), None);
    assert_eq!(parse_hex_color("#FFFFFFFF"), Some(0xFFFFFFFF));
    assert_eq!(parse_hex_color("#100000000"), None);
    assert_eq!(parse_hex_color("FF0000"), None);
}

#[test]
fn lowercase_column_letters_read_alike() {
    for (upper, lower) in [("A1", "a1"), ("AB12", "ab12"), ("XFD1048576", "xfd1048576")] {
        assert_eq!(parse_a1_ref(upper), parse_a1_ref(lower));
    }
    assert_eq!(parse_a1_ref("xfd1048576"), Some((1048575, 16383)));
    assert_eq!(parse_a1_ref("A0"), None);
    assert_eq!(parse_a1_ref("1A"), None);
    assert_eq!(parse_a1_ref("A-1"), None);
    assert_eq!(parse_a1_ref("A1B"), None);
    assert_eq!(parse_a1_ref("AB"), None);
}

#[test]
fn long_references_without_digits_are_refused() {
    assert_eq!(parse_a1_ref("AAAAAAAA"), None);
    assert_eq!(parse_a1_ref("ZZZZZZZZZZZZZZZZ"), None);
    assert_eq!(parse_a1_ref(""), None);
}
