use lattice::mcp::{
    handle_list_resources, line_of_message, message_from_line, parse_import_range_string, resource_route, responds,
    route_resource_request, rpc_route, urllike_decode, ResourceRoute, RpcRoute, DEFAULT_PORT,
};
use lattice::mcp_args::StyleInput;

#[test]
fn test_urllike_decode() {
    assert_eq!(urllike_decode("Sheet%201"), "Sheet 1");
}

#[test]
fn urllike_decode_order() {
    assert_eq!(urllike_decode("a%2Fb%25c"), "a/b%c");
    assert_eq!(urllike_decode("%2520"), "%20");
    assert_eq!(urllike_decode("plain"), "plain");
}

#[test]
fn test_parse_import_range_string_valid() {
    let (sheet, start, end) = parse_import_range_string("Sheet1!A1:C10").unwrap();
    assert_eq!(sheet, "Sheet1");
    assert_eq!(start, "A1");
    assert_eq!(end, "C10");
}

#[test]
fn test_parse_import_range_string_with_spaces() {
    let (sheet, start, end) = parse_import_range_string("My Sheet ! B2 : D5").unwrap();
    assert_eq!(sheet, "My Sheet");
    assert_eq!(start, "B2");
    assert_eq!(end, "D5");
}

#[test]
fn test_parse_import_range_string_no_excl() {
    let result = parse_import_range_string("A1:C10");
    assert!(result.is_err());
}

#[test]
fn test_parse_import_range_string_no_colon() {
    let result = parse_import_range_string("Sheet1!A1");
    assert!(result.is_err());
}

#[test]
fn import_range_error_messages() {
    assert_eq!(
        parse_import_range_string("A1:C10").unwrap_err(),
        "Range 'A1:C10' must contain '!' separator (e.g. 'Sheet1!A1:C10')"
    );
    assert_eq!(parse_import_range_string(" !A1:B2").unwrap_err(), "Sheet name cannot be empty in range string");
    assert_eq!(parse_import_range_string("S!A1").unwrap_err(), "Range 'A1' must contain ':' (e.g. 'A1:C10')");
    assert_eq!(parse_import_range_string("S!A1: ").unwrap_err(), "Start and end cell references cannot be empty");
    let (s, a, b) = parse_import_range_string("S!A1:B2!C3").unwrap();
    assert_eq!((s.as_str(), a.as_str(), b.as_str()), ("S", "A1", "B2!C3"));
}

#[test]
fn test_default_port() {
    assert_eq!(DEFAULT_PORT, 3141);
}

#[test]
fn style_input_default_is_empty() {
    let s = StyleInput::default();
    assert!(s.bold.is_none() && s.italic.is_none() && s.font_color.is_none() && s.bg_color.is_none());
}

#[test]
fn stdio_line_framing() {
    assert_eq!(message_from_line("", 0), None);
    assert_eq!(message_from_line("  {\"a\":1}\n", 10), Some("{\"a\":1}".to_string()));
    assert_eq!(message_from_line("\n", 1), Some(String::new()));
    assert_eq!(line_of_message("{}"), "{}\n");
}

#[test]
fn resource_routes() {
    assert!(matches!(resource_route("lattice://workbook/info"), ResourceRoute::WorkbookInfo));
    match resource_route("lattice://sheet/My%20Sheet/data") {
        ResourceRoute::SheetData(n) => assert_eq!(n, "My Sheet"),
        _ => panic!("expected sheet data"),
    }
    match resource_route("lattice://sheet/S/range/A1:B2") {
        ResourceRoute::SheetRange(n, r) => {
            assert_eq!(n, "S");
            assert_eq!(r, "A1:B2");
        }
        _ => panic!("expected a range"),
    }
    assert!(matches!(resource_route("lattice://sheet/S/summary"), ResourceRoute::SheetSummary(n) if n == "S"));
    assert!(matches!(resource_route("lattice://sheet/a%2Fb/formulas"), ResourceRoute::SheetFormulas(n) if n == "a/b"));
    match resource_route("lattice://sheet/S") {
        ResourceRoute::NotFound(m) => assert_eq!(m, "Resource not found: lattice://sheet/S"),
        _ => panic!("expected not found"),
    }
    assert!(matches!(resource_route("lattice://sheet/S/other"), ResourceRoute::NotFound(_)));
    assert!(matches!(resource_route("http://x"), ResourceRoute::NotFound(_)));
}

#[test]
fn rpc_routes() {
    assert!(matches!(rpc_route("tools/call"), RpcRoute::ToolsCall));
    assert!(matches!(rpc_route("initialized"), RpcRoute::Initialized));
    match rpc_route("") {
        RpcRoute::Error(code, m) => {
            assert_eq!(code, -32600);
            assert_eq!(m, "Invalid Request: missing method");
        }
        _ => panic!("expected an error"),
    }
    match rpc_route("foo/bar") {
        RpcRoute::Error(code, m) => {
            assert_eq!(code, -32601);
            assert_eq!(m, "Method not found: foo/bar");
        }
        _ => panic!("expected an error"),
    }
    assert!(responds(&rpc_route("ping"), true));
    assert!(!responds(&rpc_route("ping"), false));
    assert!(!responds(&rpc_route("initialized"), true));
}

#[test]
fn test_list_resources() {
    let catalog = handle_list_resources();
    assert!(!catalog.resources.is_empty());
    assert_eq!(catalog.resources[0].uri, "lattice://workbook/info");
    assert_eq!(catalog.templates.len(), 4);
    assert_eq!(catalog.templates[1].uri, "lattice://sheet/{name}/range/{range}");
    assert!(catalog.templates.iter().all(|t| t.mime_type == "application/json"));
}

#[test]
fn test_read_resource_not_found() {
    let result = route_resource_request(Some("lattice://nonexistent"));
    assert!(result.is_err());
    match result {
        Err((code, m)) => {
            assert_eq!(code, -32002);
            assert_eq!(m, "Resource not found: lattice://nonexistent");
        }
        Ok(_) => unreachable!(),
    }
}

#[test]
fn test_read_missing_uri() {
    let result = route_resource_request(None);
    assert!(result.is_err());
    assert_eq!(result.err(), Some((-32602, "Missing 'uri' parameter".to_string())));
}

#[test]
fn announced_templates_are_served() {
    assert!(matches!(route_resource_request(Some("lattice://workbook/info")), Ok(ResourceRoute::WorkbookInfo)));
    assert!(matches!(route_resource_request(Some("lattice://sheet/Q%201/summary")),
        Ok(ResourceRoute::SheetSummary(n)) if n == "Q 1"));
}
