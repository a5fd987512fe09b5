//! The arguments that the spreadsheet tools of the MCP server take, as plain values.
use vstd::prelude::*;

verus! {

/// Arguments of the `describe_data` tool.
#[derive(Debug)]
pub struct DescribeDataArgs {
    pub sheet: String,
    pub range: String,
}

/// Arguments of the `correlate` tool.
#[derive(Debug)]
pub struct CorrelateArgs {
    pub sheet: String,
    pub range_x: String,
    pub range_y: String,
}

/// Arguments of the `trend_analysis` tool.
#[derive(Debug)]
pub struct TrendAnalysisArgs {
    pub sheet: String,
    pub range_x: String,
    pub range_y: String,
}

/// Arguments of the `read_cell` tool.
#[derive(Debug)]
pub struct ReadCellArgs {
    pub sheet: String,
    pub cell_ref: String,
}

/// Arguments of the `read_range` tool.
#[derive(Debug)]
pub struct ReadRangeArgs {
    pub sheet: String,
    pub range: String,
}

/// Arguments of the `create_chart` tool.
#[derive(Debug)]
pub struct CreateChartArgs {
    pub sheet: String,
    pub chart_type: String,
    pub data_range: String,
    pub title: Option<String>,
    pub options: Option<ChartOptions>,
}

/// Optional labels of a chart created through the `create_chart` tool.
#[derive(Debug)]
pub struct ChartOptions {
    pub title: Option<String>,
    pub x_axis_label: Option<String>,
    pub y_axis_label: Option<String>,
}

/// Arguments of the `list_charts` tool.
#[derive(Debug)]
pub struct ListChartsArgs {
    pub sheet: Option<String>,
}

/// Arguments of the `delete_chart` tool.
#[derive(Debug)]
pub struct DeleteChartArgs {
    pub chart_id: String,
}

/// The style a conditional format applies to matching cells.
#[derive(Debug)]
pub struct StyleInput {
    pub bold: Option<bool>,
    pub italic: Option<bool>,
    pub font_color: Option<String>,
    pub bg_color: Option<String>,
}

/// Arguments of the `list_conditional_formats` tool.
#[derive(Debug)]
pub struct ListConditionalFormatsArgs {
    pub sheet: String,
}

/// Arguments of the `remove_conditional_format` tool.
#[derive(Debug)]
pub struct RemoveConditionalFormatArgs {
    pub sheet: String,
    pub range: String,
    pub rule_index: usize,
}

/// Arguments of the `clear_range` tool.
#[derive(Debug)]
pub struct ClearRangeArgs {
    pub sheet: String,
    pub range: String,
}

/// Arguments of the `find_replace` tool.
#[derive(Debug)]
pub struct FindReplaceArgs {
    pub find: String,
    pub replace: Option<String>,
    pub sheet: Option<String>,
    pub regex: Option<bool>,
    pub case_sensitive: Option<bool>,
}

/// Arguments of the `sort_range` tool.
#[derive(Debug)]
pub struct SortRangeArgs {
    pub sheet: String,
    pub range: String,
    pub sort_by: Vec<SortColumn>,
}

/// One sort key of the `sort_range` tool: a column letter and a direction.
#[derive(Debug)]
pub struct SortColumn {
    pub column: String,
    pub ascending: Option<bool>,
}

/// Arguments of the `deduplicate` tool.
#[derive(Debug)]
pub struct DeduplicateArgs {
    pub sheet: String,
    pub range: String,
    pub columns: Option<Vec<String>>,
}

/// Arguments of the `transpose` tool.
#[derive(Debug)]
pub struct TransposeArgs {
    pub sheet: String,
    pub source_range: String,
    pub target_cell: String,
}

/// Arguments of the `export_json` tool.
#[derive(Debug)]
pub struct ExportJsonArgs {
    pub sheet: Option<String>,
}

/// Arguments of the `export_csv` tool.
#[derive(Debug)]
pub struct ExportCsvArgs {
    pub sheet: String,
}

/// Arguments of the `get_cell_format` tool.
#[derive(Debug)]
pub struct GetCellFormatArgs {
    pub sheet: String,
    pub cell_ref: String,
}

/// Arguments of the `merge_cells` tool.
#[derive(Debug)]
pub struct MergeCellsArgs {
    pub sheet: String,
    pub range: String,
}

/// Arguments of the `unmerge_cells` tool.
#[derive(Debug)]
pub struct UnmergeCellsArgs {
    pub sheet: String,
    pub cell_ref: String,
}

/// Arguments of the `evaluate_formula` tool.
#[derive(Debug)]
pub struct EvaluateFormulaArgs {
    pub sheet: String,
    pub formula: String,
}

/// Arguments of the `get_formula` tool.
#[derive(Debug)]
pub struct GetFormulaArgs {
    pub sheet: String,
    pub cell_ref: String,
}

/// Arguments of the `insert_formula` tool.
#[derive(Debug)]
pub struct InsertFormulaArgs {
    pub sheet: String,
    pub cell_ref: String,
    pub formula: String,
}

/// Arguments of the `bulk_formula` tool.
#[derive(Debug)]
pub struct BulkFormulaArgs {
    pub sheet: String,
    pub operations: Vec<FormulaOperation>,
}

/// One formula to insert through the `bulk_formula` tool.
#[derive(Debug)]
pub struct FormulaOperation {
    pub cell_ref: String,
    pub formula: String,
}

/// Arguments of the `import_range` tool.
#[derive(Debug)]
pub struct ImportRangeArgs {
    pub file_path: String,
    pub range_string: String,
}

/// Arguments of the `create_sheet` tool.
#[derive(Debug)]
pub struct CreateSheetArgs {
    pub name: String,
}

/// Arguments of the `rename_sheet` tool.
#[derive(Debug)]
pub struct RenameSheetArgs {
    pub old_name: String,
    pub new_name: String,
}

/// Arguments of the `delete_sheet` tool.
#[derive(Debug)]
pub struct DeleteSheetArgs {
    pub name: String,
}

/// Arguments of the `hide_rows` and `unhide_rows` tools.
#[derive(Debug)]
pub struct HideRowsArgs {
    pub sheet: String,
    pub start_row: u32,
    pub count: u32,
}

/// Arguments of the `hide_cols` and `unhide_cols` tools.
#[derive(Debug)]
pub struct HideColsArgs {
    pub sheet: String,
    pub start_col: String,
    pub count: u32,
}

/// Arguments of the `protect_sheet` tool.
#[derive(Debug)]
pub struct ProtectSheetArgs {
    pub sheet: String,
    pub password: Option<String>,
}

/// Arguments of the `unprotect_sheet` tool.
#[derive(Debug)]
pub struct UnprotectSheetArgs {
    pub sheet: String,
    pub password: Option<String>,
}

/// Arguments of the `set_sheet_tab_color` tool.
#[derive(Debug)]
pub struct SetTabColorArgs {
    pub sheet: String,
    pub color: Option<String>,
}

/// Arguments of the `remove_sparkline` tool.
#[derive(Debug)]
pub struct RemoveSparklineArgs {
    pub sheet: String,
    pub cell_ref: String,
}

/// Arguments of the `list_sparklines` tool.
#[derive(Debug)]
pub struct ListSparklinesArgs {
    pub sheet: String,
}

impl Default for StyleInput {
    /// A style that sets nothing.
    fn default() -> (s: Self)
        ensures
            s.bold is None,
            s.italic is None,
            s.font_color is None,
            s.bg_color is None,
    {
        StyleInput { bold: None, italic: None, font_color: None, bg_color: None }
    }
}

} // verus!
