use lattice::tools::{route_tool_call, tool_call_result, tool_catalog, tool_handler, ToolCall, ToolDef, ToolHandler, ToolRegistry};

fn tool(name: &str, description: &str) -> ToolDef {
    ToolDef {
        name: name.to_string(),
        description: description.to_string(),
        input_schema: serde_json::Value::Null,
    }
}

fn registry() -> ToolRegistry {
    let mut reg = ToolRegistry::new();
    reg.register(tool("read_cell", "Read a cell"));
    reg.register(tool("write_cell", "Write a cell"));
    reg.register(tool("custom_tool", "No handler"));
    reg.register(tool("read_cell", "A second definition"));
    reg
}

#[test]
fn registry_lists_in_order() {
    let reg = registry();
    let names: Vec<&str> = reg.list().iter().map(|t| t.name.as_str()).collect();
    assert_eq!(names, vec!["read_cell", "write_cell", "custom_tool", "read_cell"]);
    assert!(ToolRegistry::new().list().is_empty());
}

#[test]
fn registry_finds_the_first_tool_of_a_name() {
    let reg = registry();
    assert_eq!(reg.get("read_cell").unwrap().description, "Read a cell");
    assert_eq!(reg.get("write_cell").unwrap().description, "Write a cell");
    assert!(reg.get("missing").is_none());
}

#[test]
fn tool_call_needs_a_name() {
    let reg = registry();
    match route_tool_call(&reg, None) {
        Err((code, m)) => {
            assert_eq!(code, -32602);
            assert_eq!(m, "Missing tool name");
        }
        Ok(_) => panic!("a call without a name must fail"),
    }
}

#[test]
fn test_unknown_tool() {
    let reg = registry();
    match route_tool_call(&reg, Some("nonexistent_tool")) {
        Err((code, m)) => {
            assert_eq!(code, -32602);
            assert_eq!(m, "Unknown tool: nonexistent_tool");
        }
        Ok(_) => panic!("an unregistered tool must fail"),
    }
    // A tool with a handler is still unknown until it is registered.
    assert!(route_tool_call(&reg, Some("describe_data")).is_err());
}

#[test]
fn registered_tools_reach_their_handlers() {
    let reg = registry();
    assert!(matches!(route_tool_call(&reg, Some("read_cell")), Ok(ToolCall::Run(ToolHandler::ReadCell))));
    assert!(matches!(route_tool_call(&reg, Some("write_cell")), Ok(ToolCall::Run(ToolHandler::WriteCell))));
    match route_tool_call(&reg, Some("custom_tool")) {
        Ok(ToolCall::NotImplemented(m)) => assert_eq!(m, "Tool 'custom_tool' is not yet implemented"),
        _ => panic!("a registered tool without a handler is not implemented"),
    }
}

#[test]
fn handler_names() {
    assert_eq!(tool_handler("find_replace"), Some(ToolHandler::FindReplace));
    assert_eq!(tool_handler("get_workbook_info"), Some(ToolHandler::GetWorkbookInfo));
    assert_eq!(tool_handler("export_csv"), Some(ToolHandler::ExportCsv));
    assert_eq!(tool_handler("Read_Cell"), None);
    assert_eq!(tool_handler(""), None);
}

#[test]
fn tool_results_are_framed() {
    let ok = tool_call_result(Ok("{\n  \"value\": 1\n}".to_string()));
    assert_eq!(ok.text, "{\n  \"value\": 1\n}");
    assert!(!ok.is_error);
    let err = tool_call_result(Err("Sheet not found".to_string()));
    assert_eq!(err.text, "Sheet not found");
    assert!(err.is_error);
}

#[test]
fn catalog_names_are_distinct_and_dispatched() {
    let catalog = tool_catalog();
    assert_eq!(catalog.len(), 61);
    let mut names: Vec<&str> = catalog.iter().map(|t| t.name.as_str()).collect();
    assert_eq!(names[0], "read_cell");
    assert_eq!(catalog[0].description, "Read the value and formula of a single cell");
    assert!(catalog.iter().all(|t| tool_handler(&t.name).is_some()));
    names.sort();
    names.dedup();
    assert_eq!(names.len(), 61);
}

#[test]
fn catalog_fills_a_registry() {
    let mut reg = ToolRegistry::new();
    for t in tool_catalog() {
        reg.register(ToolDef { name: t.name, description: t.description, input_schema: serde_json::Value::Null });
    }
    assert_eq!(reg.list().len(), 61);
    assert!(matches!(route_tool_call(&reg, Some("describe_data")), Ok(ToolCall::Run(ToolHandler::DescribeData))));
    assert!(matches!(route_tool_call(&reg, Some("auto_fill")), Err((-32602, _))));
}
