//! The tools that the MCP server offers: the registry of their definitions,
//! and how a `tools/call` request is routed to the handler of its tool.
use vstd::prelude::*;
use crate::text::{chars_of, same_chars};

verus! {

/// serde_json's `Value`, carried through as the opaque input schema of a tool.
#[verifier::external_type_specification]
#[verifier::external_body]
pub struct ExJsonValue(serde_json::Value);

/// The handlers that a `tools/call` request can reach, one for each tool
/// that the server dispatches.
#[derive(Clone, Copy, Debug, PartialEq, Eq, Structural)]
pub enum ToolHandler {
    ReadCell,
    WriteCell,
    ReadRange,
    WriteRange,
    ListSheets,
    CreateSheet,
    RenameSheet,
    DeleteSheet,
    HideRows,
    UnhideRows,
    HideCols,
    UnhideCols,
    ProtectSheet,
    UnprotectSheet,
    SetSheetTabColor,
    ClearRange,
    FindReplace,
    SortRange,
    Deduplicate,
    Transpose,
    AutoFill,
    GeneratePivot,
    RemoveDuplicates,
    TextToColumns,
    FindInWorkbook,
    ReplaceInWorkbook,
    AddNamedRange,
    RemoveNamedRange,
    ListNamedRanges,
    ResolveNamedRange,
    AddNamedFunction,
    RemoveNamedFunction,
    ListNamedFunctions,
    DescribeData,
    Correlate,
    TrendAnalysis,
    GetCellFormat,
    SetCellFormat,
    MergeCells,
    UnmergeCells,
    EvaluateFormula,
    GetFormula,
    InsertFormula,
    BulkFormula,
    ImportRange,
    SetValidation,
    GetValidation,
    RemoveValidation,
    ValidateCell,
    CreateChart,
    ListCharts,
    DeleteChart,
    AddConditionalFormat,
    ListConditionalFormats,
    RemoveConditionalFormat,
    AddSparkline,
    RemoveSparkline,
    ListSparklines,
    SaveFilterView,
    ListFilterViews,
    ApplyFilterView,
    DeleteFilterView,
    GetWorkbookInfo,
    ExportJson,
    ExportCsv,
}

/// The handler that the tool `name` is dispatched to, if any.
pub open spec fn tool_handler_of(name: Seq<char>) -> Option<ToolHandler> {
    if name == "read_cell"@ { Some(ToolHandler::ReadCell) }
    else if name == "write_cell"@ { Some(ToolHandler::WriteCell) }
    else if name == "read_range"@ { Some(ToolHandler::ReadRange) }
    else if name == "write_range"@ { Some(ToolHandler::WriteRange) }
    else if name == "list_sheets"@ { Some(ToolHandler::ListSheets) }
    else if name == "create_sheet"@ { Some(ToolHandler::CreateSheet) }
    else if name == "rename_sheet"@ { Some(ToolHandler::RenameSheet) }
    else if name == "delete_sheet"@ { Some(ToolHandler::DeleteSheet) }
    else if name == "hide_rows"@ { Some(ToolHandler::HideRows) }
    else if name == "unhide_rows"@ { Some(ToolHandler::UnhideRows) }
    else if name == "hide_cols"@ { Some(ToolHandler::HideCols) }
    else if name == "unhide_cols"@ { Some(ToolHandler::UnhideCols) }
    else if name == "protect_sheet"@ { Some(ToolHandler::ProtectSheet) }
    else if name == "unprotect_sheet"@ { Some(ToolHandler::UnprotectSheet) }
    else if name == "set_sheet_tab_color"@ { Some(ToolHandler::SetSheetTabColor) }
    else if name == "clear_range"@ { Some(ToolHandler::ClearRange) }
    else if name == "find_replace"@ { Some(ToolHandler::FindReplace) }
    else if name == "sort_range"@ { Some(ToolHandler::SortRange) }
    else if name == "deduplicate"@ { Some(ToolHandler::Deduplicate) }
    else if name == "transpose"@ { Some(ToolHandler::Transpose) }
    else if name == "auto_fill"@ { Some(ToolHandler::AutoFill) }
    else if name == "generate_pivot"@ { Some(ToolHandler::GeneratePivot) }
    else if name == "remove_duplicates"@ { Some(ToolHandler::RemoveDuplicates) }
    else if name == "text_to_columns"@ { Some(ToolHandler::TextToColumns) }
    else if name == "find_in_workbook"@ { Some(ToolHandler::FindInWorkbook) }
    else if name == "replace_in_workbook"@ { Some(ToolHandler::ReplaceInWorkbook) }
    else if name == "add_named_range"@ { Some(ToolHandler::AddNamedRange) }
    else if name == "remove_named_range"@ { Some(ToolHandler::RemoveNamedRange) }
    else if name == "list_named_ranges"@ { Some(ToolHandler::ListNamedRanges) }
    else if name == "resolve_named_range"@ { Some(ToolHandler::ResolveNamedRange) }
    else if name == "add_named_function"@ { Some(ToolHandler::AddNamedFunction) }
    else if name == "remove_named_function"@ { Some(ToolHandler::RemoveNamedFunction) }
    else if name == "list_named_functions"@ { Some(ToolHandler::ListNamedFunctions) }
    else if name == "describe_data"@ { Some(ToolHandler::DescribeData) }
    else if name == "correlate"@ { Some(ToolHandler::Correlate) }
    else if name == "trend_analysis"@ { Some(ToolHandler::TrendAnalysis) }
    else if name == "get_cell_format"@ { Some(ToolHandler::GetCellFormat) }
    else if name == "set_cell_format"@ { Some(ToolHandler::SetCellFormat) }
    else if name == "merge_cells"@ { Some(ToolHandler::MergeCells) }
    else if name == "unmerge_cells"@ { Some(ToolHandler::UnmergeCells) }
    else if name == "evaluate_formula"@ { Some(ToolHandler::EvaluateFormula) }
    else if name == "get_formula"@ { Some(ToolHandler::GetFormula) }
    else if name == "insert_formula"@ { Some(ToolHandler::InsertFormula) }
    else if name == "bulk_formula"@ { Some(ToolHandler::BulkFormula) }
    else if name == "import_range"@ { Some(ToolHandler::ImportRange) }
    else if name == "set_validation"@ { Some(ToolHandler::SetValidation) }
    else if name == "get_validation"@ { Some(ToolHandler::GetValidation) }
    else if name == "remove_validation"@ { Some(ToolHandler::RemoveValidation) }
    else if name == "validate_cell"@ { Some(ToolHandler::ValidateCell) }
    else if name == "create_chart"@ { Some(ToolHandler::CreateChart) }
    else if name == "list_charts"@ { Some(ToolHandler::ListCharts) }
    else if name == "delete_chart"@ { Some(ToolHandler::DeleteChart) }
    else if name == "add_conditional_format"@ { Some(ToolHandler::AddConditionalFormat) }
    else if name == "list_conditional_formats"@ { Some(ToolHandler::ListConditionalFormats) }
    else if name == "remove_conditional_format"@ { Some(ToolHandler::RemoveConditionalFormat) }
    else if name == "add_sparkline"@ { Some(ToolHandler::AddSparkline) }
    else if name == "remove_sparkline"@ { Some(ToolHandler::RemoveSparkline) }
    else if name == "list_sparklines"@ { Some(ToolHandler::ListSparklines) }
    else if name == "save_filter_view"@ { Some(ToolHandler::SaveFilterView) }
    else if name == "list_filter_views"@ { Some(ToolHandler::ListFilterViews) }
    else if name == "apply_filter_view"@ { Some(ToolHandler::ApplyFilterView) }
    else if name == "delete_filter_view"@ { Some(ToolHandler::DeleteFilterView) }
    else if name == "get_workbook_info"@ { Some(ToolHandler::GetWorkbookInfo) }
    else if name == "export_json"@ { Some(ToolHandler::ExportJson) }
    else if name == "export_csv"@ { Some(ToolHandler::ExportCsv) }
    else { None }
}

/// The handler that the tool `name` is dispatched to, or `None` for a tool
/// that has none.
pub fn tool_handler(name: &str) -> (r: Option<ToolHandler>)
    ensures
        r == tool_handler_of(name@),
{
    let v = chars_of(name);
    if same_chars(&v, &chars_of("read_cell")) {
        Some(ToolHandler::ReadCell)
    } else if same_chars(&v, &chars_of("write_cell")) {
        Some(ToolHandler::WriteCell)
    } else if same_chars(&v, &chars_of("read_range")) {
        Some(ToolHandler::ReadRange)
    } else if same_chars(&v, &chars_of("write_range")) {
        Some(ToolHandler::WriteRange)
    } else if same_chars(&v, &chars_of("list_sheets")) {
        Some(ToolHandler::ListSheets)
    } else if same_chars(&v, &chars_of("create_sheet")) {
        Some(ToolHandler::CreateSheet)
    } else if same_chars(&v, &chars_of("rename_sheet")) {
        Some(ToolHandler::RenameSheet)
    } else if same_chars(&v, &chars_of("delete_sheet")) {
        Some(ToolHandler::DeleteSheet)
    } else if same_chars(&v, &chars_of("hide_rows")) {
        Some(ToolHandler::HideRows)
    } else if same_chars(&v, &chars_of("unhide_rows")) {
        Some(ToolHandler::UnhideRows)
    } else if same_chars(&v, &chars_of("hide_cols")) {
        Some(ToolHandler::HideCols)
    } else if same_chars(&v, &chars_of("unhide_cols")) {
        Some(ToolHandler::UnhideCols)
    } else if same_chars(&v, &chars_of("protect_sheet")) {
        Some(ToolHandler::ProtectSheet)
    } else if same_chars(&v, &chars_of("unprotect_sheet")) {
        Some(ToolHandler::UnprotectSheet)
    } else if same_chars(&v, &chars_of("set_sheet_tab_color")) {
        Some(ToolHandler::SetSheetTabColor)
    } else if same_chars(&v, &chars_of("clear_range")) {
        Some(ToolHandler::ClearRange)
    } else if same_chars(&v, &chars_of("find_replace")) {
        Some(ToolHandler::FindReplace)
    } else if same_chars(&v, &chars_of("sort_range")) {
        Some(ToolHandler::SortRange)
    } else if same_chars(&v, &chars_of("deduplicate")) {
        Some(ToolHandler::Deduplicate)
    } else if same_chars(&v, &chars_of("transpose")) {
        Some(ToolHandler::Transpose)
    } else if same_chars(&v, &chars_of("auto_fill")) {
        Some(ToolHandler::AutoFill)
    } else if same_chars(&v, &chars_of("generate_pivot")) {
        Some(ToolHandler::GeneratePivot)
    } else if same_chars(&v, &chars_of("remove_duplicates")) {
        Some(ToolHandler::RemoveDuplicates)
    } else if same_chars(&v, &chars_of("text_to_columns")) {
        Some(ToolHandler::TextToColumns)
    } else if same_chars(&v, &chars_of("find_in_workbook")) {
        Some(ToolHandler::FindInWorkbook)
    } else if same_chars(&v, &chars_of("replace_in_workbook")) {
        Some(ToolHandler::ReplaceInWorkbook)
    } else if same_chars(&v, &chars_of("add_named_range")) {
        Some(ToolHandler::AddNamedRange)
    } else if same_chars(&v, &chars_of("remove_named_range")) {
        Some(ToolHandler::RemoveNamedRange)
    } else if same_chars(&v, &chars_of("list_named_ranges")) {
        Some(ToolHandler::ListNamedRanges)
    } else if same_chars(&v, &chars_of("resolve_named_range")) {
        Some(ToolHandler::ResolveNamedRange)
    } else if same_chars(&v, &chars_of("add_named_function")) {
        Some(ToolHandler::AddNamedFunction)
    } else if same_chars(&v, &chars_of("remove_named_function")) {
        Some(ToolHandler::RemoveNamedFunction)
    } else if same_chars(&v, &chars_of("list_named_functions")) {
        Some(ToolHandler::ListNamedFunctions)
    } else if same_chars(&v, &chars_of("describe_data")) {
        Some(ToolHandler::DescribeData)
    } else if same_chars(&v, &chars_of("correlate")) {
        Some(ToolHandler::Correlate)
    } else if same_chars(&v, &chars_of("trend_analysis")) {
        Some(ToolHandler::TrendAnalysis)
    } else if same_chars(&v, &chars_of("get_cell_format")) {
        Some(ToolHandler::GetCellFormat)
    } else if same_chars(&v, &chars_of("set_cell_format")) {
        Some(ToolHandler::SetCellFormat)
    } else if same_chars(&v, &chars_of("merge_cells")) {
        Some(ToolHandler::MergeCells)
    } else if same_chars(&v, &chars_of("unmerge_cells")) {
        Some(ToolHandler::UnmergeCells)
    } else if same_chars(&v, &chars_of("evaluate_formula")) {
        Some(ToolHandler::EvaluateFormula)
    } else if same_chars(&v, &chars_of("get_formula")) {
        Some(ToolHandler::GetFormula)
    } else if same_chars(&v, &chars_of("insert_formula")) {
        Some(ToolHandler::InsertFormula)
    } else if same_chars(&v, &chars_of("bulk_formula")) {
        Some(ToolHandler::BulkFormula)
    } else if same_chars(&v, &chars_of("import_range")) {
        Some(ToolHandler::ImportRange)
    } else if same_chars(&v, &chars_of("set_validation")) {
        Some(ToolHandler::SetValidation)
    } else if same_chars(&v, &chars_of("get_validation")) {
        Some(ToolHandler::GetValidation)
    } else if same_chars(&v, &chars_of("remove_validation")) {
        Some(ToolHandler::RemoveValidation)
    } else if same_chars(&v, &chars_of("validate_cell")) {
        Some(ToolHandler::ValidateCell)
    } else if same_chars(&v, &chars_of("create_chart")) {
        Some(ToolHandler::CreateChart)
    } else if same_chars(&v, &chars_of("list_charts")) {
        Some(ToolHandler::ListCharts)
    } else if same_chars(&v, &chars_of("delete_chart")) {
        Some(ToolHandler::DeleteChart)
    } else if same_chars(&v, &chars_of("add_conditional_format")) {
        Some(ToolHandler::AddConditionalFormat)
    } else if same_chars(&v, &chars_of("list_conditional_formats")) {
        Some(ToolHandler::ListConditionalFormats)
    } else if same_chars(&v, &chars_of("remove_conditional_format")) {
        Some(ToolHandler::RemoveConditionalFormat)
    } else if same_chars(&v, &chars_of("add_sparkline")) {
        Some(ToolHandler::AddSparkline)
    } else if same_chars(&v, &chars_of("remove_sparkline")) {
        Some(ToolHandler::RemoveSparkline)
    } else if same_chars(&v, &chars_of("list_sparklines")) {
        Some(ToolHandler::ListSparklines)
    } else if same_chars(&v, &chars_of("save_filter_view")) {
        Some(ToolHandler::SaveFilterView)
    } else if same_chars(&v, &chars_of("list_filter_views")) {
        Some(ToolHandler::ListFilterViews)
    } else if same_chars(&v, &chars_of("apply_filter_view")) {
        Some(ToolHandler::ApplyFilterView)
    } else if same_chars(&v, &chars_of("delete_filter_view")) {
        Some(ToolHandler::DeleteFilterView)
    } else if same_chars(&v, &chars_of("get_workbook_info")) {
        Some(ToolHandler::GetWorkbookInfo)
    } else if same_chars(&v, &chars_of("export_json")) {
        Some(ToolHandler::ExportJson)
    } else if same_chars(&v, &chars_of("export_csv")) {
        Some(ToolHandler::ExportCsv)
    } else {
        None
    }
}

/// The definition of a tool: its name, what it does, and the JSON Schema of
/// its arguments.
pub struct ToolDef {
    pub name: String,
    pub description: String,
    pub input_schema: serde_json::Value,
}

/// The index of the first tool in `tools` named `name`.
pub open spec fn first_named(tools: Seq<ToolDef>, name: Seq<char>) -> Option<int>
    decreases tools.len(),
{
    if tools.len() == 0 {
        None
    } else if tools[0].name@ == name {
        Some(0)
    } else {
        match first_named(tools.drop_first(), name) {
            Some(i) => Some(i + 1),
            None => None,
        }
    }
}

/// The tool that [`first_named`] finds has the name, and none before it has.
pub proof fn lemma_first_named(tools: Seq<ToolDef>, name: Seq<char>)
    ensures
        match first_named(tools, name) {
            Some(i) => 0 <= i < tools.len() && tools[i].name@ == name
                && forall|j: int| 0 <= j < i ==> tools[j].name@ != name,
            None => forall|j: int| 0 <= j < tools.len() ==> tools[j].name@ != name,
        },
    decreases tools.len(),
{
    if tools.len() > 0 {
        lemma_first_named(tools.drop_first(), name);
        assert forall|j: int| 1 <= j < tools.len() implies tools[j] == tools.drop_first()[j - 1] by {}
    }
}

/// The tools that the server offers, in the order they were registered.
pub struct ToolRegistry {
    tools: Vec<ToolDef>,
}

impl ToolRegistry {
    /// The registered tools, in order.
    pub closed spec fn tools(&self) -> Seq<ToolDef> {
        self.tools@
    }

    /// An empty registry.
    pub fn new() -> (r: Self)
        ensures
            r.tools() == Seq::<ToolDef>::empty(),
    {
        ToolRegistry { tools: Vec::new() }
    }

    /// Registers `tool` after the tools already there.
    pub fn register(&mut self, tool: ToolDef)
        ensures
            final(self).tools() == old(self).tools().push(tool),
    {
        self.tools.push(tool);
    }

    /// All registered tools, in order.
    pub fn list(&self) -> (r: &[ToolDef])
        ensures
            r@ == self.tools(),
    {
        self.tools.as_slice()
    }

    /// The first registered tool named `name`, if any.
    pub fn get(&self, name: &str) -> (r: Option<&ToolDef>)
        ensures
            match first_named(self.tools(), name@) {
                Some(i) => r == Some(&self.tools()[i]),
                None => r is None,
            },
    {
        proof {
            lemma_first_named(self.tools@, name@);
        }
        let wanted = chars_of(name);
        let mut i: usize = 0;
        while i < self.tools.len()
            invariant
                i <= self.tools@.len(),
                wanted@ == name@,
                forall|j: int| 0 <= j < i ==> self.tools@[j].name@ != name@,
                match first_named(self.tools@, name@) {
                    Some(k) => 0 <= k < self.tools@.len() && self.tools@[k].name@ == name@
                        && forall|j: int| 0 <= j < k ==> self.tools@[j].name@ != name@,
                    None => forall|j: int| 0 <= j < self.tools@.len() ==> self.tools@[j].name@ != name@,
                },
            decreases self.tools.len() - i,
        {
            let t = &self.tools[i];
            if same_chars(&chars_of(t.name.as_str()), &wanted) {
                return Some(t);
            }
            i += 1;
        }
        None
    }
}

/// Where a `tools/call` request goes once its tool is known: to the tool's
/// handler, or, for a registered tool that no handler serves, to the message
/// that says so.
pub enum ToolCall {
    Run(ToolHandler),
    NotImplemented(String),
}

/// Routes a `tools/call` request for the tool `name` (`None` where the
/// request names none): the error `-32602` "Missing tool name" or
/// "Unknown tool: {name}" for a tool that is not registered; else the
/// handler of the tool, or "Tool '{name}' is not yet implemented".
pub fn route_tool_call(registry: &ToolRegistry, name: Option<&str>) -> (r: Result<ToolCall, (i32, String)>)
    ensures
        match name {
            None => r matches Err((code, m)) && code == -32602 && m@ == "Missing tool name"@,
            Some(n) => if first_named(registry.tools(), n@) is None {
                r matches Err((code, m)) && code == -32602 && m@ == "Unknown tool: "@ + n@
            } else {
                match tool_handler_of(n@) {
                    Some(h) => r matches Ok(ToolCall::Run(g)) && g == h,
                    None => r matches Ok(ToolCall::NotImplemented(m))
                        && m@ == "Tool '"@ + n@ + "' is not yet implemented"@,
                }
            },
        },
{
    match name {
        None => Err((-32602, String::from_str("Missing tool name"))),
        Some(n) => {
            if registry.get(n).is_none() {
                let mut m = String::from_str("Unknown tool: ");
                m.append(n);
                return Err((-32602, m));
            }
            match tool_handler(n) {
                Some(h) => Ok(ToolCall::Run(h)),
                None => {
                    let mut m = String::from_str("Tool '");
                    m.append(n);
                    m.append("' is not yet implemented");
                    Ok(ToolCall::NotImplemented(m))
                },
            }
        },
    }
}

/// The result of a `tools/call` request: one text item, flagged as an error
/// or not.
pub struct ToolCallResult {
    pub text: String,
    pub is_error: bool,
}

/// Frames what a tool handler gave: its output text (the pretty-printed
/// JSON of its result) as a success, or its error message as an error.
pub fn tool_call_result(outcome: Result<String, String>) -> (r: ToolCallResult)
    ensures
        match outcome {
            Ok(t) => r.text@ == t@ && !r.is_error,
            Err(m) => r.text@ == m@ && r.is_error,
        },
{
    match outcome {
        Ok(text) => ToolCallResult { text, is_error: false },
        Err(message) => ToolCallResult { text: message, is_error: true },
    }
}

/// Registering a tool leaves what a lookup finds for the names already
/// registered, and makes a new name find the new tool.
pub proof fn law_lookup_after_register(tools: Seq<ToolDef>, tool: ToolDef, name: Seq<char>)
    ensures
        first_named(tools.push(tool), name) == (match first_named(tools, name) {
            Some(i) => Some(i),
            None => if tool.name@ == name { Some(tools.len() as int) } else { None },
        }),
    decreases tools.len(),
{
    if tools.len() == 0 {
        assert(tools.push(tool).drop_first() =~= Seq::<ToolDef>::empty());
    } else {
        assert(tools.push(tool).drop_first() =~= tools.drop_first().push(tool));
        law_lookup_after_register(tools.drop_first(), tool, name);
    }
}

/// A tool as the server announces it: its name and what it does. Its input
/// schema is JSON and stays with the server.
pub struct ToolSpec {
    pub name: String,
    pub description: String,
}

/// The name and description of a tool.
pub open spec fn tool_spec_view(t: ToolSpec) -> (Seq<char>, Seq<char>) {
    (t.name@, t.description@)
}

/// The tools that the server offers, in the order it registers them: cell,
/// sheet, data, analysis, chart, find-and-replace, named range, named
/// function, format, formula, validation, file, conditional format,
/// sparkline and filter view tools.
pub open spec fn tool_catalog_spec() -> Seq<(Seq<char>, Seq<char>)> {
    seq![
        ("read_cell"@, "Read the value and formula of a single cell"@),
        ("write_cell"@, "Write a value to a single cell"@),
        ("read_range"@, "Read a rectangular range of cells as a 2D array"@),
        ("write_range"@, "Write a 2D array of values to a range"@),
        ("list_sheets"@, "List all sheets in the workbook with their metadata"@),
        ("create_sheet"@, "Create a new empty sheet"@),
        ("rename_sheet"@, "Rename an existing sheet"@),
        ("delete_sheet"@, "Delete a sheet from the workbook"@),
        ("hide_rows"@, "Hide a range of rows in a sheet"@),
        ("unhide_rows"@, "Unhide a range of previously hidden rows"@),
        ("hide_cols"@, "Hide a range of columns in a sheet"@),
        ("unhide_cols"@, "Unhide a range of previously hidden columns"@),
        ("protect_sheet"@, "Protect a sheet to prevent editing. Optionally set a password."@),
        ("unprotect_sheet"@, "Remove protection from a sheet. Supply the password if it was protected with one."@),
        ("set_sheet_tab_color"@, "Set or clear the tab color for a sheet"@),
        ("clear_range"@, "Clear all cells in a range (removes values, formulas, and formatting)"@),
        ("find_replace"@, "Find and optionally replace text in cells"@),
        ("sort_range"@, "Sort rows in a range by one or more columns"@),
        ("deduplicate"@, "Remove duplicate rows from a range based on specified columns"@),
        ("transpose"@, "Transpose data from a source range to a target location (rows become columns)"@),
        ("describe_data"@, "Compute descriptive statistics for a data range (mean, median, std_dev, min, max, count, nulls)"@),
        ("correlate"@, "Compute the Pearson correlation coefficient between two data ranges"@),
        ("trend_analysis"@, "Perform linear regression on x,y data ranges and return slope, intercept, and r_squared"@),
        ("create_chart"@, "Create a new chart from a data range"@),
        ("list_charts"@, "List all charts in the workbook or a specific sheet"@),
        ("delete_chart"@, "Delete a chart by its ID"@),
        ("find_in_workbook"@, "Search cells in the workbook for matching text or patterns. Returns all matches with their locations."@),
        ("replace_in_workbook"@, "Find and replace text in workbook cells. Only text cells are modified; numbers and booleans are reported as matches but not replaced."@),
        ("add_named_range"@, "Create a named range mapping a name to a cell range. Names must start with a letter or underscore."@),
        ("remove_named_range"@, "Delete a named range by name (case-insensitive)."@),
        ("list_named_ranges"@, "List all named ranges in the workbook."@),
        ("resolve_named_range"@, "Resolve a named range to its sheet and cell range."@),
        ("add_named_function"@, "Define a user-defined named function (LAMBDA alias). Once added, it can be called by name in formulas."@),
        ("remove_named_function"@, "Remove a user-defined named function by name (case-insensitive)."@),
        ("list_named_functions"@, "List all user-defined named functions in the workbook."@),
        ("get_cell_format"@, "Get the visual format of a cell (bold, italic, font_size, colors, alignment)"@),
        ("set_cell_format"@, "Set visual format properties on a cell or range. Only provided properties are changed; others are preserved."@),
        ("merge_cells"@, "Merge a rectangular range of cells. The value of the top-left cell is preserved; other cells are cleared."@),
        ("unmerge_cells"@, "Unmerge a previously merged region that contains the given cell"@),
        ("evaluate_formula"@, "Evaluate a formula string against a sheet and return the result without writing it to any cell"@),
        ("get_formula"@, "Get the formula text from a specific cell. Returns null if the cell has no formula."@),
        ("insert_formula"@, "Write a formula to a cell, evaluate it, and return the result"@),
        ("bulk_formula"@, "Apply multiple formula operations in a single call. Each operation inserts a formula into a cell and returns the evaluated result."@),
        ("import_range"@, "Import data from another .xlsx file on disk. Equivalent to Google Sheets IMPORTRANGE. Returns the extracted cell values as a 2-D array."@),
        ("set_validation"@, "Set a data validation rule on a cell. Supports list, number_range, date_range, text_length, and custom rule types."@),
        ("get_validation"@, "Get the validation rule for a cell, if any."@),
        ("remove_validation"@, "Remove the validation rule from a cell."@),
        ("validate_cell"@, "Check if a cell's current value passes its validation rule. Returns valid/invalid with details."@),
        ("get_workbook_info"@, "Get workbook metadata: sheet count, cell counts per sheet, and summary"@),
        ("export_json"@, "Export a sheet or the entire workbook as JSON"@),
        ("export_csv"@, "Export a sheet as a CSV string"@),
        ("add_conditional_format"@, "Add a conditional formatting rule to a cell range. Supports cell_value comparisons, text_contains, is_blank, is_not_blank, is_error, color_scale, data_bar, and icon_set rules."@),
        ("list_conditional_formats"@, "List all conditional formatting rules for a sheet"@),
        ("remove_conditional_format"@, "Remove a conditional formatting rule by range and rule index"@),
        ("add_sparkline"@, "Add an inline sparkline chart to a cell. Supports line, bar, and win_loss types."@),
        ("remove_sparkline"@, "Remove the sparkline from a cell"@),
        ("list_sparklines"@, "List all sparklines in a sheet"@),
        ("save_filter_view"@, "Save a named filter view with column filter criteria. Each column maps to a list of allowed values."@),
        ("list_filter_views"@, "List all saved filter views in the workbook."@),
        ("apply_filter_view"@, "Apply a saved filter view to a sheet, hiding rows that do not match."@),
        ("delete_filter_view"@, "Delete a saved filter view by name."@),
    ]
}

fn tool_spec(name: &str, description: &str) -> (t: ToolSpec)
    ensures
        tool_spec_view(t) == (name@, description@),
{
    ToolSpec { name: String::from_str(name), description: String::from_str(description) }
}

/// The tools that the server offers (see [`tool_catalog_spec`]).
pub fn tool_catalog() -> (r: Vec<ToolSpec>)
    ensures
        r@.map_values(|t: ToolSpec| tool_spec_view(t)) == tool_catalog_spec(),
{
    let mut r: Vec<ToolSpec> = Vec::new();
    r.push(tool_spec("read_cell", "Read the value and formula of a single cell"));
    r.push(tool_spec("write_cell", "Write a value to a single cell"));
    r.push(tool_spec("read_range", "Read a rectangular range of cells as a 2D array"));
    r.push(tool_spec("write_range", "Write a 2D array of values to a range"));
    r.push(tool_spec("list_sheets", "List all sheets in the workbook with their metadata"));
    r.push(tool_spec("create_sheet", "Create a new empty sheet"));
    r.push(tool_spec("rename_sheet", "Rename an existing sheet"));
    r.push(tool_spec("delete_sheet", "Delete a sheet from the workbook"));
    r.push(tool_spec("hide_rows", "Hide a range of rows in a sheet"));
    r.push(tool_spec("unhide_rows", "Unhide a range of previously hidden rows"));
    r.push(tool_spec("hide_cols", "Hide a range of columns in a sheet"));
    r.push(tool_spec("unhide_cols", "Unhide a range of previously hidden columns"));
    r.push(tool_spec("protect_sheet", "Protect a sheet to prevent editing. Optionally set a password."));
    r.push(tool_spec("unprotect_sheet", "Remove protection from a sheet. Supply the password if it was protected with one."));
    r.push(tool_spec("set_sheet_tab_color", "Set or clear the tab color for a sheet"));
    r.push(tool_spec("clear_range", "Clear all cells in a range (removes values, formulas, and formatting)"));
    r.push(tool_spec("find_replace", "Find and optionally replace text in cells"));
    r.push(tool_spec("sort_range", "Sort rows in a range by one or more columns"));
    r.push(tool_spec("deduplicate", "Remove duplicate rows from a range based on specified columns"));
    r.push(tool_spec("transpose", "Transpose data from a source range to a target location (rows become columns)"));
    r.push(tool_spec("describe_data", "Compute descriptive statistics for a data range (mean, median, std_dev, min, max, count, nulls)"));
    r.push(tool_spec("correlate", "Compute the Pearson correlation coefficient between two data ranges"));
    r.push(tool_spec("trend_analysis", "Perform linear regression on x,y data ranges and return slope, intercept, and r_squared"));
    r.push(tool_spec("create_chart", "Create a new chart from a data range"));
    r.push(tool_spec("list_charts", "List all charts in the workbook or a specific sheet"));
    r.push(tool_spec("delete_chart", "Delete a chart by its ID"));
    r.push(tool_spec("find_in_workbook", "Search cells in the workbook for matching text or patterns. Returns all matches with their locations."));
    r.push(tool_spec("replace_in_workbook", "Find and replace text in workbook cells. Only text cells are modified; numbers and booleans are reported as matches but not replaced."));
    r.push(tool_spec("add_named_range", "Create a named range mapping a name to a cell range. Names must start with a letter or underscore."));
    r.push(tool_spec("remove_named_range", "Delete a named range by name (case-insensitive)."));
    r.push(tool_spec("list_named_ranges", "List all named ranges in the workbook."));
    r.push(tool_spec("resolve_named_range", "Resolve a named range to its sheet and cell range."));
    r.push(tool_spec("add_named_function", "Define a user-defined named function (LAMBDA alias). Once added, it can be called by name in formulas."));
    r.push(tool_spec("remove_named_function", "Remove a user-defined named function by name (case-insensitive)."));
    r.push(tool_spec("list_named_functions", "List all user-defined named functions in the workbook."));
    r.push(tool_spec("get_cell_format", "Get the visual format of a cell (bold, italic, font_size, colors, alignment)"));
    r.push(tool_spec("set_cell_format", "Set visual format properties on a cell or range. Only provided properties are changed; others are preserved."));
    r.push(tool_spec("merge_cells", "Merge a rectangular range of cells. The value of the top-left cell is preserved; other cells are cleared."));
    r.push(tool_spec("unmerge_cells", "Unmerge a previously merged region that contains the given cell"));
    r.push(tool_spec("evaluate_formula", "Evaluate a formula string against a sheet and return the result without writing it to any cell"));
    r.push(tool_spec("get_formula", "Get the formula text from a specific cell. Returns null if the cell has no formula."));
    r.push(tool_spec("insert_formula", "Write a formula to a cell, evaluate it, and return the result"));
    r.push(tool_spec("bulk_formula", "Apply multiple formula operations in a single call. Each operation inserts a formula into a cell and returns the evaluated result."));
    r.push(tool_spec("import_range", "Import data from another .xlsx file on disk. Equivalent to Google Sheets IMPORTRANGE. Returns the extracted cell values as a 2-D array."));
    r.push(tool_spec("set_validation", "Set a data validation rule on a cell. Supports list, number_range, date_range, text_length, and custom rule types."));
    r.push(tool_spec("get_validation", "Get the validation rule for a cell, if any."));
    r.push(tool_spec("remove_validation", "Remove the validation rule from a cell."));
    r.push(tool_spec("validate_cell", "Check if a cell's current value passes its validation rule. Returns valid/invalid with details."));
    r.push(tool_spec("get_workbook_info", "Get workbook metadata: sheet count, cell counts per sheet, and summary"));
    r.push(tool_spec("export_json", "Export a sheet or the entire workbook as JSON"));
    r.push(tool_spec("export_csv", "Export a sheet as a CSV string"));
    r.push(tool_spec("add_conditional_format", "Add a conditional formatting rule to a cell range. Supports cell_value comparisons, text_contains, is_blank, is_not_blank, is_error, color_scale, data_bar, and icon_set rules."));
    r.push(tool_spec("list_conditional_formats", "List all conditional formatting rules for a sheet"));
    r.push(tool_spec("remove_conditional_format", "Remove a conditional formatting rule by range and rule index"));
    r.push(tool_spec("add_sparkline", "Add an inline sparkline chart to a cell. Supports line, bar, and win_loss types."));
    r.push(tool_spec("remove_sparkline", "Remove the sparkline from a cell"));
    r.push(tool_spec("list_sparklines", "List all sparklines in a sheet"));
    r.push(tool_spec("save_filter_view", "Save a named filter view with column filter criteria. Each column maps to a list of allowed values."));
    r.push(tool_spec("list_filter_views", "List all saved filter views in the workbook."));
    r.push(tool_spec("apply_filter_view", "Apply a saved filter view to a sheet, hiding rows that do not match."));
    r.push(tool_spec("delete_filter_view", "Delete a saved filter view by name."));
    assert(r@.map_values(|t: ToolSpec| tool_spec_view(t)) =~= tool_catalog_spec());
    r
}

/// Every tool that the server announces is dispatched to a handler.
#[verifier::rlimit(100)]
#[verifier::spinoff_prover]
pub proof fn law_catalog_tools_are_dispatched(i: int)
    requires
        0 <= i < tool_catalog_spec().len(),
    ensures
        tool_handler_of(tool_catalog_spec()[i].0) is Some,
{
    reveal_strlit("add_conditional_format");
    reveal_strlit("add_named_function");
    reveal_strlit("add_named_range");
    reveal_strlit("add_sparkline");
    reveal_strlit("apply_filter_view");
    reveal_strlit("auto_fill");
    reveal_strlit("bulk_formula");
    reveal_strlit("clear_range");
    reveal_strlit("correlate");
    reveal_strlit("create_chart");
    reveal_strlit("create_sheet");
    reveal_strlit("deduplicate");
    reveal_strlit("delete_chart");
    reveal_strlit("delete_filter_view");
    reveal_strlit("delete_sheet");
    reveal_strlit("describe_data");
    reveal_strlit("evaluate_formula");
    reveal_strlit("export_csv");
    reveal_strlit("export_json");
    reveal_strlit("find_in_workbook");
    reveal_strlit("find_replace");
    reveal_strlit("generate_pivot");
    reveal_strlit("get_cell_format");
    reveal_strlit("get_formula");
    reveal_strlit("get_validation");
    reveal_strlit("get_workbook_info");
    reveal_strlit("hide_cols");
    reveal_strlit("hide_rows");
    reveal_strlit("import_range");
    reveal_strlit("insert_formula");
    reveal_strlit("list_charts");
    reveal_strlit("list_conditional_formats");
    reveal_strlit("list_filter_views");
    reveal_strlit("list_named_functions");
    reveal_strlit("list_named_ranges");
    reveal_strlit("list_sheets");
    reveal_strlit("list_sparklines");
    reveal_strlit("merge_cells");
    reveal_strlit("protect_sheet");
    reveal_strlit("read_cell");
    reveal_strlit("read_range");
    reveal_strlit("remove_conditional_format");
    reveal_strlit("remove_duplicates");
    reveal_strlit("remove_named_function");
    reveal_strlit("remove_named_range");
    reveal_strlit("remove_sparkline");
    reveal_strlit("remove_validation");
    reveal_strlit("rename_sheet");
    reveal_strlit("replace_in_workbook");
    reveal_strlit("resolve_named_range");
    reveal_strlit("save_filter_view");
    reveal_strlit("set_cell_format");
    reveal_strlit("set_sheet_tab_color");
    reveal_strlit("set_validation");
    reveal_strlit("sort_range");
    reveal_strlit("text_to_columns");
    reveal_strlit("transpose");
    reveal_strlit("trend_analysis");
    reveal_strlit("unhide_cols");
    reveal_strlit("unhide_rows");
    reveal_strlit("unmerge_cells");
    reveal_strlit("unprotect_sheet");
    reveal_strlit("validate_cell");
    reveal_strlit("write_cell");
    reveal_strlit("write_range");
    assert(tool_handler_of("read_cell"@) is Some);
    assert(tool_handler_of("write_cell"@) is Some);
    assert(tool_handler_of("read_range"@) is Some);
    assert(tool_handler_of("write_range"@) is Some);
    assert(tool_handler_of("list_sheets"@) is Some);
    assert(tool_handler_of("create_sheet"@) is Some);
    assert(tool_handler_of("rename_sheet"@) is Some);
    assert(tool_handler_of("delete_sheet"@) is Some);
    assert(tool_handler_of("hide_rows"@) is Some);
    assert(tool_handler_of("unhide_rows"@) is Some);
    assert(tool_handler_of("hide_cols"@) is Some);
    assert(tool_handler_of("unhide_cols"@) is Some);
    assert(tool_handler_of("protect_sheet"@) is Some);
    assert(tool_handler_of("unprotect_sheet"@) is Some);
    assert(tool_handler_of("set_sheet_tab_color"@) is Some);
    assert(tool_handler_of("clear_range"@) is Some);
    assert(tool_handler_of("find_replace"@) is Some);
    assert(tool_handler_of("sort_range"@) is Some);
    assert(tool_handler_of("deduplicate"@) is Some);
    assert(tool_handler_of("transpose"@) is Some);
    assert(tool_handler_of("describe_data"@) is Some);
    assert(tool_handler_of("correlate"@) is Some);
    assert(tool_handler_of("trend_analysis"@) is Some);
    assert(tool_handler_of("create_chart"@) is Some);
    assert(tool_handler_of("list_charts"@) is Some);
    assert(tool_handler_of("delete_chart"@) is Some);
    assert(tool_handler_of("find_in_workbook"@) is Some);
    assert(tool_handler_of("replace_in_workbook"@) is Some);
    assert(tool_handler_of("add_named_range"@) is Some);
    assert(tool_handler_of("remove_named_range"@) is Some);
    assert(tool_handler_of("list_named_ranges"@) is Some);
    assert(tool_handler_of("resolve_named_range"@) is Some);
    assert(tool_handler_of("add_named_function"@) is Some);
    assert(tool_handler_of("remove_named_function"@) is Some);
    assert(tool_handler_of("list_named_functions"@) is Some);
    assert(tool_handler_of("get_cell_format"@) is Some);
    assert(tool_handler_of("set_cell_format"@) is Some);
    assert(tool_handler_of("merge_cells"@) is Some);
    assert(tool_handler_of("unmerge_cells"@) is Some);
    assert(tool_handler_of("evaluate_formula"@) is Some);
    assert(tool_handler_of("get_formula"@) is Some);
    assert(tool_handler_of("insert_formula"@) is Some);
    assert(tool_handler_of("bulk_formula"@) is Some);
    assert(tool_handler_of("import_range"@) is Some);
    assert(tool_handler_of("set_validation"@) is Some);
    assert(tool_handler_of("get_validation"@) is Some);
    assert(tool_handler_of("remove_validation"@) is Some);
    assert(tool_handler_of("validate_cell"@) is Some);
    assert(tool_handler_of("get_workbook_info"@) is Some);
    assert(tool_handler_of("export_json"@) is Some);
    assert(tool_handler_of("export_csv"@) is Some);
    assert(tool_handler_of("add_conditional_format"@) is Some);
    assert(tool_handler_of("list_conditional_formats"@) is Some);
    assert(tool_handler_of("remove_conditional_format"@) is Some);
    assert(tool_handler_of("add_sparkline"@) is Some);
    assert(tool_handler_of("remove_sparkline"@) is Some);
    assert(tool_handler_of("list_sparklines"@) is Some);
    assert(tool_handler_of("save_filter_view"@) is Some);
    assert(tool_handler_of("list_filter_views"@) is Some);
    assert(tool_handler_of("apply_filter_view"@) is Some);
    assert(tool_handler_of("delete_filter_view"@) is Some);
}

/// The tool name whose `tools/call` requests a handler serves: the handler
/// named after it.
pub open spec fn handler_tool_name(h: ToolHandler) -> Seq<char> {
    match h {
        ToolHandler::ReadCell => "read_cell"@,
        ToolHandler::WriteCell => "write_cell"@,
        ToolHandler::ReadRange => "read_range"@,
        ToolHandler::WriteRange => "write_range"@,
        ToolHandler::ListSheets => "list_sheets"@,
        ToolHandler::CreateSheet => "create_sheet"@,
        ToolHandler::RenameSheet => "rename_sheet"@,
        ToolHandler::DeleteSheet => "delete_sheet"@,
        ToolHandler::HideRows => "hide_rows"@,
        ToolHandler::UnhideRows => "unhide_rows"@,
        ToolHandler::HideCols => "hide_cols"@,
        ToolHandler::UnhideCols => "unhide_cols"@,
        ToolHandler::ProtectSheet => "protect_sheet"@,
        ToolHandler::UnprotectSheet => "unprotect_sheet"@,
        ToolHandler::SetSheetTabColor => "set_sheet_tab_color"@,
        ToolHandler::ClearRange => "clear_range"@,
        ToolHandler::FindReplace => "find_replace"@,
        ToolHandler::SortRange => "sort_range"@,
        ToolHandler::Deduplicate => "deduplicate"@,
        ToolHandler::Transpose => "transpose"@,
        ToolHandler::AutoFill => "auto_fill"@,
        ToolHandler::GeneratePivot => "generate_pivot"@,
        ToolHandler::RemoveDuplicates => "remove_duplicates"@,
        ToolHandler::TextToColumns => "text_to_columns"@,
        ToolHandler::FindInWorkbook => "find_in_workbook"@,
        ToolHandler::ReplaceInWorkbook => "replace_in_workbook"@,
        ToolHandler::AddNamedRange => "add_named_range"@,
        ToolHandler::RemoveNamedRange => "remove_named_range"@,
        ToolHandler::ListNamedRanges => "list_named_ranges"@,
        ToolHandler::ResolveNamedRange => "resolve_named_range"@,
        ToolHandler::AddNamedFunction => "add_named_function"@,
        ToolHandler::RemoveNamedFunction => "remove_named_function"@,
        ToolHandler::ListNamedFunctions => "list_named_functions"@,
        ToolHandler::DescribeData => "describe_data"@,
        ToolHandler::Correlate => "correlate"@,
        ToolHandler::TrendAnalysis => "trend_analysis"@,
        ToolHandler::GetCellFormat => "get_cell_format"@,
        ToolHandler::SetCellFormat => "set_cell_format"@,
        ToolHandler::MergeCells => "merge_cells"@,
        ToolHandler::UnmergeCells => "unmerge_cells"@,
        ToolHandler::EvaluateFormula => "evaluate_formula"@,
        ToolHandler::GetFormula => "get_formula"@,
        ToolHandler::InsertFormula => "insert_formula"@,
        ToolHandler::BulkFormula => "bulk_formula"@,
        ToolHandler::ImportRange => "import_range"@,
        ToolHandler::SetValidation => "set_validation"@,
        ToolHandler::GetValidation => "get_validation"@,
        ToolHandler::RemoveValidation => "remove_validation"@,
        ToolHandler::ValidateCell => "validate_cell"@,
        ToolHandler::CreateChart => "create_chart"@,
        ToolHandler::ListCharts => "list_charts"@,
        ToolHandler::DeleteChart => "delete_chart"@,
        ToolHandler::AddConditionalFormat => "add_conditional_format"@,
        ToolHandler::ListConditionalFormats => "list_conditional_formats"@,
        ToolHandler::RemoveConditionalFormat => "remove_conditional_format"@,
        ToolHandler::AddSparkline => "add_sparkline"@,
        ToolHandler::RemoveSparkline => "remove_sparkline"@,
        ToolHandler::ListSparklines => "list_sparklines"@,
        ToolHandler::SaveFilterView => "save_filter_view"@,
        ToolHandler::ListFilterViews => "list_filter_views"@,
        ToolHandler::ApplyFilterView => "apply_filter_view"@,
        ToolHandler::DeleteFilterView => "delete_filter_view"@,
        ToolHandler::GetWorkbookInfo => "get_workbook_info"@,
        ToolHandler::ExportJson => "export_json"@,
        ToolHandler::ExportCsv => "export_csv"@,
    }
}

/// Each tool is dispatched to the handler named after it, and no other name
/// reaches that handler.
#[verifier::rlimit(100)]
#[verifier::spinoff_prover]
pub proof fn law_tools_reach_their_own_handler(h: ToolHandler, name: Seq<char>)
    ensures
        tool_handler_of(handler_tool_name(h)) == Some(h),
        tool_handler_of(name) == Some(h) ==> name == handler_tool_name(h),
{
    reveal_strlit("read_cell");
    reveal_strlit("write_cell");
    reveal_strlit("read_range");
    reveal_strlit("write_range");
    reveal_strlit("list_sheets");
    reveal_strlit("create_sheet");
    reveal_strlit("rename_sheet");
    reveal_strlit("delete_sheet");
    reveal_strlit("hide_rows");
    reveal_strlit("unhide_rows");
    reveal_strlit("hide_cols");
    reveal_strlit("unhide_cols");
    reveal_strlit("protect_sheet");
    reveal_strlit("unprotect_sheet");
    reveal_strlit("set_sheet_tab_color");
    reveal_strlit("clear_range");
    reveal_strlit("find_replace");
    reveal_strlit("sort_range");
    reveal_strlit("deduplicate");
    reveal_strlit("transpose");
    reveal_strlit("auto_fill");
    reveal_strlit("generate_pivot");
    reveal_strlit("remove_duplicates");
    reveal_strlit("text_to_columns");
    reveal_strlit("find_in_workbook");
    reveal_strlit("replace_in_workbook");
    reveal_strlit("add_named_range");
    reveal_strlit("remove_named_range");
    reveal_strlit("list_named_ranges");
    reveal_strlit("resolve_named_range");
    reveal_strlit("add_named_function");
    reveal_strlit("remove_named_function");
    reveal_strlit("list_named_functions");
    reveal_strlit("describe_data");
    reveal_strlit("correlate");
    reveal_strlit("trend_analysis");
    reveal_strlit("get_cell_format");
    reveal_strlit("set_cell_format");
    reveal_strlit("merge_cells");
    reveal_strlit("unmerge_cells");
    reveal_strlit("evaluate_formula");
    reveal_strlit("get_formula");
    reveal_strlit("insert_formula");
    reveal_strlit("bulk_formula");
    reveal_strlit("import_range");
    reveal_strlit("set_validation");
    reveal_strlit("get_validation");
    reveal_strlit("remove_validation");
    reveal_strlit("validate_cell");
    reveal_strlit("create_chart");
    reveal_strlit("list_charts");
    reveal_strlit("delete_chart");
    reveal_strlit("add_conditional_format");
    reveal_strlit("list_conditional_formats");
    reveal_strlit("remove_conditional_format");
    reveal_strlit("add_sparkline");
    reveal_strlit("remove_sparkline");
    reveal_strlit("list_sparklines");
    reveal_strlit("save_filter_view");
    reveal_strlit("list_filter_views");
    reveal_strlit("apply_filter_view");
    reveal_strlit("delete_filter_view");
    reveal_strlit("get_workbook_info");
    reveal_strlit("export_json");
    reveal_strlit("export_csv");
    assert("read_cell"@.len() == 9 && "read_cell"@[0] == 'r' && "read_cell"@[2] == 'a' && "read_cell"@[7] == 'l');
    assert("write_cell"@.len() == 10 && "write_cell"@[0] == 'w' && "write_cell"@[2] == 'i' && "write_cell"@[7] == 'e');
    assert("read_range"@.len() == 10 && "read_range"@[0] == 'r' && "read_range"@[2] == 'a' && "read_range"@[7] == 'n');
    assert("write_range"@.len() == 11 && "write_range"@[0] == 'w' && "write_range"@[2] == 'i' && "write_range"@[7] == 'a');
    assert("list_sheets"@.len() == 11 && "list_sheets"@[0] == 'l' && "list_sheets"@[2] == 's' && "list_sheets"@[7] == 'e');
    assert("create_sheet"@.len() == 12 && "create_sheet"@[0] == 'c' && "create_sheet"@[2] == 'e' && "create_sheet"@[7] == 's');
    assert("rename_sheet"@.len() == 12 && "rename_sheet"@[0] == 'r' && "rename_sheet"@[2] == 'n' && "rename_sheet"@[7] == 's');
    assert("delete_sheet"@.len() == 12 && "delete_sheet"@[0] == 'd' && "delete_sheet"@[2] == 'l' && "delete_sheet"@[7] == 's');
    assert("hide_rows"@.len() == 9 && "hide_rows"@[0] == 'h' && "hide_rows"@[2] == 'd' && "hide_rows"@[7] == 'w');
    assert("unhide_rows"@.len() == 11 && "unhide_rows"@[0] == 'u' && "unhide_rows"@[2] == 'h' && "unhide_rows"@[7] == 'r');
    assert("hide_cols"@.len() == 9 && "hide_cols"@[0] == 'h' && "hide_cols"@[2] == 'd' && "hide_cols"@[7] == 'l');
    assert("unhide_cols"@.len() == 11 && "unhide_cols"@[0] == 'u' && "unhide_cols"@[2] == 'h' && "unhide_cols"@[7] == 'c');
    assert("protect_sheet"@.len() == 13 && "protect_sheet"@[0] == 'p' && "protect_sheet"@[2] == 'o' && "protect_sheet"@[7] == '_');
    assert("unprotect_sheet"@.len() == 15 && "unprotect_sheet"@[0] == 'u' && "unprotect_sheet"@[2] == 'p' && "unprotect_sheet"@[7] == 'c');
    assert("set_sheet_tab_color"@.len() == 19 && "set_sheet_tab_color"@[0] == 's' && "set_sheet_tab_color"@[2] == 't' && "set_sheet_tab_color"@[7] == 'e');
    assert("clear_range"@.len() == 11 && "clear_range"@[0] == 'c' && "clear_range"@[2] == 'e' && "clear_range"@[7] == 'a');
    assert("find_replace"@.len() == 12 && "find_replace"@[0] == 'f' && "find_replace"@[2] == 'n' && "find_replace"@[7] == 'p');
    assert("sort_range"@.len() == 10 && "sort_range"@[0] == 's' && "sort_range"@[2] == 'r' && "sort_range"@[7] == 'n');
    assert("deduplicate"@.len() == 11 && "deduplicate"@[0] == 'd' && "deduplicate"@[2] == 'd' && "deduplicate"@[7] == 'c');
    assert("transpose"@.len() == 9 && "transpose"@[0] == 't' && "transpose"@[2] == 'a' && "transpose"@[7] == 's');
    assert("auto_fill"@.len() == 9 && "auto_fill"@[0] == 'a' && "auto_fill"@[2] == 't' && "auto_fill"@[7] == 'l');
    assert("generate_pivot"@.len() == 14 && "generate_pivot"@[0] == 'g' && "generate_pivot"@[2] == 'n' && "generate_pivot"@[7] == 'e');
    assert("remove_duplicates"@.len() == 17 && "remove_duplicates"@[0] == 'r' && "remove_duplicates"@[2] == 'm' && "remove_duplicates"@[7] == 'd');
    assert("text_to_columns"@.len() == 15 && "text_to_columns"@[0] == 't' && "text_to_columns"@[2] == 'x' && "text_to_columns"@[7] == '_');
    assert("find_in_workbook"@.len() == 16 && "find_in_workbook"@[0] == 'f' && "find_in_workbook"@[2] == 'n' && "find_in_workbook"@[7] == '_');
    assert("replace_in_workbook"@.len() == 19 && "replace_in_workbook"@[0] == 'r' && "replace_in_workbook"@[2] == 'p' && "replace_in_workbook"@[7] == '_');
    assert("add_named_range"@.len() == 15 && "add_named_range"@[0] == 'a' && "add_named_range"@[2] == 'd' && "add_named_range"@[7] == 'e');
    assert("remove_named_range"@.len() == 18 && "remove_named_range"@[0] == 'r' && "remove_named_range"@[2] == 'm' && "remove_named_range"@[7] == 'n');
    assert("list_named_ranges"@.len() == 17 && "list_named_ranges"@[0] == 'l' && "list_named_ranges"@[2] == 's' && "list_named_ranges"@[7] == 'm');
    assert("resolve_named_range"@.len() == 19 && "resolve_named_range"@[0] == 'r' && "resolve_named_range"@[2] == 's' && "resolve_named_range"@[7] == '_');
    assert("add_named_function"@.len() == 18 && "add_named_function"@[0] == 'a' && "add_named_function"@[2] == 'd' && "add_named_function"@[7] == 'e');
    assert("remove_named_function"@.len() == 21 && "remove_named_function"@[0] == 'r' && "remove_named_function"@[2] == 'm' && "remove_named_function"@[7] == 'n');
    assert("list_named_functions"@.len() == 20 && "list_named_functions"@[0] == 'l' && "list_named_functions"@[2] == 's' && "list_named_functions"@[7] == 'm');
    assert("describe_data"@.len() == 13 && "describe_data"@[0] == 'd' && "describe_data"@[2] == 's' && "describe_data"@[7] == 'e');
    assert("correlate"@.len() == 9 && "correlate"@[0] == 'c' && "correlate"@[2] == 'r' && "correlate"@[7] == 't');
    assert("trend_analysis"@.len() == 14 && "trend_analysis"@[0] == 't' && "trend_analysis"@[2] == 'e' && "trend_analysis"@[7] == 'n');
    assert("get_cell_format"@.len() == 15 && "get_cell_format"@[0] == 'g' && "get_cell_format"@[2] == 't' && "get_cell_format"@[7] == 'l');
    assert("set_cell_format"@.len() == 15 && "set_cell_format"@[0] == 's' && "set_cell_format"@[2] == 't' && "set_cell_format"@[7] == 'l');
    assert("merge_cells"@.len() == 11 && "merge_cells"@[0] == 'm' && "merge_cells"@[2] == 'r' && "merge_cells"@[7] == 'e');
    assert("unmerge_cells"@.len() == 13 && "unmerge_cells"@[0] == 'u' && "unmerge_cells"@[2] == 'm' && "unmerge_cells"@[7] == '_');
    assert("evaluate_formula"@.len() == 16 && "evaluate_formula"@[0] == 'e' && "evaluate_formula"@[2] == 'a' && "evaluate_formula"@[7] == 'e');
    assert("get_formula"@.len() == 11 && "get_formula"@[0] == 'g' && "get_formula"@[2] == 't' && "get_formula"@[7] == 'm');
    assert("insert_formula"@.len() == 14 && "insert_formula"@[0] == 'i' && "insert_formula"@[2] == 's' && "insert_formula"@[7] == 'f');
    assert("bulk_formula"@.len() == 12 && "bulk_formula"@[0] == 'b' && "bulk_formula"@[2] == 'l' && "bulk_formula"@[7] == 'r');
    assert("import_range"@.len() == 12 && "import_range"@[0] == 'i' && "import_range"@[2] == 'p' && "import_range"@[7] == 'r');
    assert("set_validation"@.len() == 14 && "set_validation"@[0] == 's' && "set_validation"@[2] == 't' && "set_validation"@[7] == 'i');
    assert("get_validation"@.len() == 14 && "get_validation"@[0] == 'g' && "get_validation"@[2] == 't' && "get_validation"@[7] == 'i');
    assert("remove_validation"@.len() == 17 && "remove_validation"@[0] == 'r' && "remove_validation"@[2] == 'm' && "remove_validation"@[7] == 'v');
    assert("validate_cell"@.len() == 13 && "validate_cell"@[0] == 'v' && "validate_cell"@[2] == 'l' && "validate_cell"@[7] == 'e');
    assert("create_chart"@.len() == 12 && "create_chart"@[0] == 'c' && "create_chart"@[2] == 'e' && "create_chart"@[7] == 'c');
    assert("list_charts"@.len() == 11 && "list_charts"@[0] == 'l' && "list_charts"@[2] == 's' && "list_charts"@[7] == 'a');
    assert("delete_chart"@.len() == 12 && "delete_chart"@[0] == 'd' && "delete_chart"@[2] == 'l' && "delete_chart"@[7] == 'c');
    assert("add_conditional_format"@.len() == 22 && "add_conditional_format"@[0] == 'a' && "add_conditional_format"@[2] == 'd' && "add_conditional_format"@[7] == 'd');
    assert("list_conditional_formats"@.len() == 24 && "list_conditional_formats"@[0] == 'l' && "list_conditional_formats"@[2] == 's' && "list_conditional_formats"@[7] == 'n');
    assert("remove_conditional_format"@.len() == 25 && "remove_conditional_format"@[0] == 'r' && "remove_conditional_format"@[2] == 'm' && "remove_conditional_format"@[7] == 'c');
    assert("add_sparkline"@.len() == 13 && "add_sparkline"@[0] == 'a' && "add_sparkline"@[2] == 'd' && "add_sparkline"@[7] == 'r');
    assert("remove_sparkline"@.len() == 16 && "remove_sparkline"@[0] == 'r' && "remove_sparkline"@[2] == 'm' && "remove_sparkline"@[7] == 's');
    assert("list_sparklines"@.len() == 15 && "list_sparklines"@[0] == 'l' && "list_sparklines"@[2] == 's' && "list_sparklines"@[7] == 'a');
    assert("save_filter_view"@.len() == 16 && "save_filter_view"@[0] == 's' && "save_filter_view"@[2] == 'v' && "save_filter_view"@[7] == 'l');
    assert("list_filter_views"@.len() == 17 && "list_filter_views"@[0] == 'l' && "list_filter_views"@[2] == 's' && "list_filter_views"@[7] == 'l');
    assert("apply_filter_view"@.len() == 17 && "apply_filter_view"@[0] == 'a' && "apply_filter_view"@[2] == 'p' && "apply_filter_view"@[7] == 'i');
    assert("delete_filter_view"@.len() == 18 && "delete_filter_view"@[0] == 'd' && "delete_filter_view"@[2] == 'l' && "delete_filter_view"@[7] == 'f');
    assert("get_workbook_info"@.len() == 17 && "get_workbook_info"@[0] == 'g' && "get_workbook_info"@[2] == 't' && "get_workbook_info"@[7] == 'k');
    assert("export_json"@.len() == 11 && "export_json"@[0] == 'e' && "export_json"@[2] == 'p' && "export_json"@[7] == 'j');
    assert("export_csv"@.len() == 10 && "export_csv"@[0] == 'e' && "export_csv"@[2] == 'p' && "export_csv"@[7] == 'c');
    match h {
        ToolHandler::ReadCell => assert(tool_handler_of("read_cell"@) == Some(ToolHandler::ReadCell)),
        ToolHandler::WriteCell => assert(tool_handler_of("write_cell"@) == Some(ToolHandler::WriteCell)),
        ToolHandler::ReadRange => assert(tool_handler_of("read_range"@) == Some(ToolHandler::ReadRange)),
        ToolHandler::WriteRange => assert(tool_handler_of("write_range"@) == Some(ToolHandler::WriteRange)),
        ToolHandler::ListSheets => assert(tool_handler_of("list_sheets"@) == Some(ToolHandler::ListSheets)),
        ToolHandler::CreateSheet => assert(tool_handler_of("create_sheet"@) == Some(ToolHandler::CreateSheet)),
        ToolHandler::RenameSheet => assert(tool_handler_of("rename_sheet"@) == Some(ToolHandler::RenameSheet)),
        ToolHandler::DeleteSheet => assert(tool_handler_of("delete_sheet"@) == Some(ToolHandler::DeleteSheet)),
        ToolHandler::HideRows => assert(tool_handler_of("hide_rows"@) == Some(ToolHandler::HideRows)),
        ToolHandler::UnhideRows => assert(tool_handler_of("unhide_rows"@) == Some(ToolHandler::UnhideRows)),
        ToolHandler::HideCols => assert(tool_handler_of("hide_cols"@) == Some(ToolHandler::HideCols)),
        ToolHandler::UnhideCols => assert(tool_handler_of("unhide_cols"@) == Some(ToolHandler::UnhideCols)),
        ToolHandler::ProtectSheet => assert(tool_handler_of("protect_sheet"@) == Some(ToolHandler::ProtectSheet)),
        ToolHandler::UnprotectSheet => assert(tool_handler_of("unprotect_sheet"@) == Some(ToolHandler::UnprotectSheet)),
        ToolHandler::SetSheetTabColor => assert(tool_handler_of("set_sheet_tab_color"@) == Some(ToolHandler::SetSheetTabColor)),
        ToolHandler::ClearRange => assert(tool_handler_of("clear_range"@) == Some(ToolHandler::ClearRange)),
        ToolHandler::FindReplace => assert(tool_handler_of("find_replace"@) == Some(ToolHandler::FindReplace)),
        ToolHandler::SortRange => assert(tool_handler_of("sort_range"@) == Some(ToolHandler::SortRange)),
        ToolHandler::Deduplicate => assert(tool_handler_of("deduplicate"@) == Some(ToolHandler::Deduplicate)),
        ToolHandler::Transpose => assert(tool_handler_of("transpose"@) == Some(ToolHandler::Transpose)),
        ToolHandler::AutoFill => assert(tool_handler_of("auto_fill"@) == Some(ToolHandler::AutoFill)),
        ToolHandler::GeneratePivot => assert(tool_handler_of("generate_pivot"@) == Some(ToolHandler::GeneratePivot)),
        ToolHandler::RemoveDuplicates => assert(tool_handler_of("remove_duplicates"@) == Some(ToolHandler::RemoveDuplicates)),
        ToolHandler::TextToColumns => assert(tool_handler_of("text_to_columns"@) == Some(ToolHandler::TextToColumns)),
        ToolHandler::FindInWorkbook => assert(tool_handler_of("find_in_workbook"@) == Some(ToolHandler::FindInWorkbook)),
        ToolHandler::ReplaceInWorkbook => assert(tool_handler_of("replace_in_workbook"@) == Some(ToolHandler::ReplaceInWorkbook)),
        ToolHandler::AddNamedRange => assert(tool_handler_of("add_named_range"@) == Some(ToolHandler::AddNamedRange)),
        ToolHandler::RemoveNamedRange => assert(tool_handler_of("remove_named_range"@) == Some(ToolHandler::RemoveNamedRange)),
        ToolHandler::ListNamedRanges => assert(tool_handler_of("list_named_ranges"@) == Some(ToolHandler::ListNamedRanges)),
        ToolHandler::ResolveNamedRange => assert(tool_handler_of("resolve_named_range"@) == Some(ToolHandler::ResolveNamedRange)),
        ToolHandler::AddNamedFunction => assert(tool_handler_of("add_named_function"@) == Some(ToolHandler::AddNamedFunction)),
        ToolHandler::RemoveNamedFunction => assert(tool_handler_of("remove_named_function"@) == Some(ToolHandler::RemoveNamedFunction)),
        ToolHandler::ListNamedFunctions => assert(tool_handler_of("list_named_functions"@) == Some(ToolHandler::ListNamedFunctions)),
        ToolHandler::DescribeData => assert(tool_handler_of("describe_data"@) == Some(ToolHandler::DescribeData)),
        ToolHandler::Correlate => assert(tool_handler_of("correlate"@) == Some(ToolHandler::Correlate)),
        ToolHandler::TrendAnalysis => assert(tool_handler_of("trend_analysis"@) == Some(ToolHandler::TrendAnalysis)),
        ToolHandler::GetCellFormat => assert(tool_handler_of("get_cell_format"@) == Some(ToolHandler::GetCellFormat)),
        ToolHandler::SetCellFormat => assert(tool_handler_of("set_cell_format"@) == Some(ToolHandler::SetCellFormat)),
        ToolHandler::MergeCells => assert(tool_handler_of("merge_cells"@) == Some(ToolHandler::MergeCells)),
        ToolHandler::UnmergeCells => assert(tool_handler_of("unmerge_cells"@) == Some(ToolHandler::UnmergeCells)),
        ToolHandler::EvaluateFormula => assert(tool_handler_of("evaluate_formula"@) == Some(ToolHandler::EvaluateFormula)),
        ToolHandler::GetFormula => assert(tool_handler_of("get_formula"@) == Some(ToolHandler::GetFormula)),
        ToolHandler::InsertFormula => assert(tool_handler_of("insert_formula"@) == Some(ToolHandler::InsertFormula)),
        ToolHandler::BulkFormula => assert(tool_handler_of("bulk_formula"@) == Some(ToolHandler::BulkFormula)),
        ToolHandler::ImportRange => assert(tool_handler_of("import_range"@) == Some(ToolHandler::ImportRange)),
        ToolHandler::SetValidation => assert(tool_handler_of("set_validation"@) == Some(ToolHandler::SetValidation)),
        ToolHandler::GetValidation => assert(tool_handler_of("get_validation"@) == Some(ToolHandler::GetValidation)),
        ToolHandler::RemoveValidation => assert(tool_handler_of("remove_validation"@) == Some(ToolHandler::RemoveValidation)),
        ToolHandler::ValidateCell => assert(tool_handler_of("validate_cell"@) == Some(ToolHandler::ValidateCell)),
        ToolHandler::CreateChart => assert(tool_handler_of("create_chart"@) == Some(ToolHandler::CreateChart)),
        ToolHandler::ListCharts => assert(tool_handler_of("list_charts"@) == Some(ToolHandler::ListCharts)),
        ToolHandler::DeleteChart => assert(tool_handler_of("delete_chart"@) == Some(ToolHandler::DeleteChart)),
        ToolHandler::AddConditionalFormat => assert(tool_handler_of("add_conditional_format"@) == Some(ToolHandler::AddConditionalFormat)),
        ToolHandler::ListConditionalFormats => assert(tool_handler_of("list_conditional_formats"@) == Some(ToolHandler::ListConditionalFormats)),
        ToolHandler::RemoveConditionalFormat => assert(tool_handler_of("remove_conditional_format"@) == Some(ToolHandler::RemoveConditionalFormat)),
        ToolHandler::AddSparkline => assert(tool_handler_of("add_sparkline"@) == Some(ToolHandler::AddSparkline)),
        ToolHandler::RemoveSparkline => assert(tool_handler_of("remove_sparkline"@) == Some(ToolHandler::RemoveSparkline)),
        ToolHandler::ListSparklines => assert(tool_handler_of("list_sparklines"@) == Some(ToolHandler::ListSparklines)),
        ToolHandler::SaveFilterView => assert(tool_handler_of("save_filter_view"@) == Some(ToolHandler::SaveFilterView)),
        ToolHandler::ListFilterViews => assert(tool_handler_of("list_filter_views"@) == Some(ToolHandler::ListFilterViews)),
        ToolHandler::ApplyFilterView => assert(tool_handler_of("apply_filter_view"@) == Some(ToolHandler::ApplyFilterView)),
        ToolHandler::DeleteFilterView => assert(tool_handler_of("delete_filter_view"@) == Some(ToolHandler::DeleteFilterView)),
        ToolHandler::GetWorkbookInfo => assert(tool_handler_of("get_workbook_info"@) == Some(ToolHandler::GetWorkbookInfo)),
        ToolHandler::ExportJson => assert(tool_handler_of("export_json"@) == Some(ToolHandler::ExportJson)),
        ToolHandler::ExportCsv => assert(tool_handler_of("export_csv"@) == Some(ToolHandler::ExportCsv)),
    }
}

} // verus!
