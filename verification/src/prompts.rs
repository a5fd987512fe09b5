//! Prompt templates offered to MCP clients: which prompts exist, which
//! arguments each takes, and the instruction text each one produces.
use vstd::prelude::*;
use crate::text::{chars_of, contains_text, same_chars};

verus! {

/// The prompt templates the server offers.
#[derive(Clone, Copy, Debug, PartialEq, Eq, Structural)]
pub enum PromptKind {
    AnalyzePortfolio,
    CleanData,
    CreateDashboard,
    ExplainFormulas,
    FinancialModel,
}

/// The name under which a prompt is requested.
pub open spec fn prompt_name(k: PromptKind) -> Seq<char> {
    match k {
        PromptKind::AnalyzePortfolio => "analyze-portfolio"@,
        PromptKind::CleanData => "clean-data"@,
        PromptKind::CreateDashboard => "create-dashboard"@,
        PromptKind::ExplainFormulas => "explain-formulas"@,
        PromptKind::FinancialModel => "financial-model"@,
    }
}

/// The prompt requested under `name`, if any.
pub open spec fn prompt_kind_of(name: Seq<char>) -> Option<PromptKind> {
    if name == "analyze-portfolio"@ { Some(PromptKind::AnalyzePortfolio) }
    else if name == "clean-data"@ { Some(PromptKind::CleanData) }
    else if name == "create-dashboard"@ { Some(PromptKind::CreateDashboard) }
    else if name == "explain-formulas"@ { Some(PromptKind::ExplainFormulas) }
    else if name == "financial-model"@ { Some(PromptKind::FinancialModel) }
    else { None }
}

/// The prompt requested under `name`, or `None` for a name that no prompt has.
pub fn prompt_kind(name: &str) -> (r: Option<PromptKind>)
    ensures
        r == prompt_kind_of(name@),
{
    let v = chars_of(name);
    if same_chars(&v, &chars_of("analyze-portfolio")) {
        Some(PromptKind::AnalyzePortfolio)
    } else if same_chars(&v, &chars_of("clean-data")) {
        Some(PromptKind::CleanData)
    } else if same_chars(&v, &chars_of("create-dashboard")) {
        Some(PromptKind::CreateDashboard)
    } else if same_chars(&v, &chars_of("explain-formulas")) {
        Some(PromptKind::ExplainFormulas)
    } else if same_chars(&v, &chars_of("financial-model")) {
        Some(PromptKind::FinancialModel)
    } else {
        None
    }
}

/// The instructions of the portfolio analysis prompt.
pub const ANALYZE_PORTFOLIO_TEXT: &'static str = "\
    Analyze the investment portfolio in this spreadsheet. Follow these steps:\n\
    \n\
    1. Use `list_sheets` to discover all sheets.\n\
    2. Use `read_range` on each sheet to understand the data structure.\n\
    3. Use `describe_data` to compute statistics on numerical columns.\n\
    4. Calculate portfolio metrics:\n   \
    - Total portfolio value\n   \
    - Individual position weights\n   \
    - Returns (if historical data exists)\n   \
    - Risk metrics (standard deviation, max drawdown)\n\
    5. Use `correlate` to find correlations between assets if applicable.\n\
    6. Use `create_sheet` to add an 'Analysis' sheet with results.\n\
    7. Use `write_range` to write the analysis results.\n\
    8. Use `create_chart` to visualize the portfolio allocation.\n\
    9. Provide a natural language summary of findings.";

/// The steps of the data cleaning prompt, after the range and the sheet.
pub const CLEAN_DATA_STEPS: &'static str = "\
    . Follow these steps:\n\
    \n\
    1. Use `get_workbook_info` to understand the data.\n\
    2. Use `read_range` to examine the data.\n\
    3. Use `describe_data` to get statistics and identify anomalies.\n\
    4. Check for and fix these issues:\n   \
    a. **Missing values**: Use `find_replace` to locate empty cells. Suggest fill strategies.\n   \
    b. **Duplicates**: Use `deduplicate` to find and remove duplicate rows.\n   \
    c. **Inconsistent formats**: Look for mixed types in columns.\n   \
    d. **Outliers**: Use statistics to flag values beyond 3 standard deviations.\n   \
    e. **Whitespace/formatting**: Use `find_replace` with regex to clean text.\n\
    5. Use `write_cell` or `write_range` to apply fixes.\n\
    6. Report a summary of issues found and actions taken.";

/// The steps of the dashboard prompt, after the sheet.
pub const CREATE_DASHBOARD_STEPS: &'static str = "\
    . Follow these steps:\n\
    \n\
    1. Use `list_sheets` and `read_range` to understand the source data.\n\
    2. Use `describe_data` to compute key metrics.\n\
    3. Use `create_sheet` to create a 'Dashboard' sheet.\n\
    4. Write key metrics using `write_cell` with clear labels:\n   \
    - Totals, averages, counts\n   \
    - Min/max values\n   \
    - Percentages and ratios\n\
    5. Use `set_cell_format` to make headers bold and apply number formats.\n\
    6. Use `insert_formula` for metrics that should auto-update.\n\
    7. Use `create_chart` to add 2-3 relevant visualizations:\n   \
    - A summary chart (bar or pie)\n   \
    - A trend chart (line) if time-series data exists\n   \
    - A comparison chart if categories exist\n\
    8. Report what was created.";

/// The steps of the formula explanation prompt, after the sheet.
pub const EXPLAIN_FORMULAS_STEPS: &'static str = "\
    . Follow these steps:\n\
    \n\
    1. Use the `lattice://sheet/{}/formulas` resource to get all formulas.\n\
    2. For each formula found:\n   \
    a. Use `get_formula` to get the exact formula text.\n   \
    b. Use `read_cell` to see the computed value.\n   \
    c. Explain in plain language what the formula does.\n   \
    d. Note any cell references and what they point to.\n\
    3. Identify patterns:\n   \
    - Groups of related formulas\n   \
    - Potential circular references\n   \
    - Formulas that could be simplified\n\
    4. Provide a summary table with: Cell, Formula, Explanation, Current Value.";

/// The steps of the financial model prompt, after the sheet.
pub const FINANCIAL_MODEL_STEPS: &'static str = "\
    . Follow these steps:\n\
    \n\
    1. Use `list_sheets` and `read_range` to understand the existing data.\n\
    2. Identify financial data: revenue, expenses, dates, categories.\n\
    3. Use `create_sheet` to create model sheets:\n   \
    a. **Revenue Model**: Use `trend_analysis` on historical data, project forward.\n   \
    b. **Expense Tracking**: Categorize and summarize expenses.\n   \
    c. **Cash Flow**: Compute net cash flow = revenue - expenses.\n\
    4. Use `insert_formula` for calculated fields.\n\
    5. Use `write_range` to populate the model.\n\
    6. Use `set_cell_format` to apply currency formatting.\n\
    7. Use `create_chart` to visualize:\n   \
    - Revenue trend and forecast\n   \
    - Expense breakdown\n   \
    - Cash flow over time\n\
    8. Use `describe_data` to summarize key financial metrics.\n\
    9. Provide a narrative summary of the financial outlook.";

/// The sheet a prompt speaks of: the one given, or the active sheet.
pub open spec fn sheet_or_default(sheet: Option<Seq<char>>) -> Seq<char> {
    match sheet {
        Some(s) => s,
        None => "the active sheet"@,
    }
}

/// The range a prompt speaks of: the one given, or the whole used range.
pub open spec fn range_or_default(range: Option<Seq<char>>) -> Seq<char> {
    match range {
        Some(r) => r,
        None => "the entire used range"@,
    }
}

/// The instruction text of prompt `k` for the sheet `sheet` and the range
/// `range` (defaults already applied); only the data cleaning prompt speaks
/// of a range.
pub open spec fn prompt_text(k: PromptKind, sheet: Seq<char>, range: Seq<char>) -> Seq<char> {
    match k {
        PromptKind::AnalyzePortfolio => ANALYZE_PORTFOLIO_TEXT@,
        PromptKind::CleanData => "Identify and fix data quality issues in "@ + range + " of "@ + sheet
            + CLEAN_DATA_STEPS@,
        PromptKind::CreateDashboard => "Create a summary dashboard from the data in "@ + sheet
            + CREATE_DASHBOARD_STEPS@,
        PromptKind::ExplainFormulas => "List and explain all formulas in "@ + sheet
            + EXPLAIN_FORMULAS_STEPS@,
        PromptKind::FinancialModel => "Build a financial model from the data in "@ + sheet
            + FINANCIAL_MODEL_STEPS@,
    }
}

/// The description that comes with the messages of prompt `k`.
pub open spec fn prompt_description(k: PromptKind) -> Seq<char> {
    match k {
        PromptKind::AnalyzePortfolio => "Analyze the investment portfolio in the current spreadsheet"@,
        PromptKind::CleanData => "Identify and fix data quality issues"@,
        PromptKind::CreateDashboard => "Create a summary dashboard from the current data"@,
        PromptKind::ExplainFormulas => "List and explain all formulas in the spreadsheet"@,
        PromptKind::FinancialModel => "Build a financial model from existing data"@,
    }
}

/// One message of a prompt: who speaks it and its text.
#[derive(Clone, Debug)]
pub struct PromptMessage {
    pub role: String,
    pub text: String,
}

/// A prompt ready for the client: its description and its messages.
#[derive(Clone, Debug)]
pub struct Prompt {
    pub description: String,
    pub messages: Vec<PromptMessage>,
}

/// Whether `p` is prompt `k` for the given sheet and range: its description,
/// and one message from the user with the prompt's text.
pub open spec fn is_prompt(p: Prompt, k: PromptKind, sheet: Seq<char>, range: Seq<char>) -> bool {
    &&& p.description@ == prompt_description(k)
    &&& p.messages@.len() == 1
    &&& p.messages@[0].role@ == "user"@
    &&& p.messages@[0].text@ == prompt_text(k, sheet, range)
}

/// The instruction text of prompt `k` (see [`prompt_text`]).
pub fn build_prompt_text(k: PromptKind, sheet: &str, range: &str) -> (t: String)
    ensures
        t@ == prompt_text(k, sheet@, range@),
{
    match k {
        PromptKind::AnalyzePortfolio => String::from_str(ANALYZE_PORTFOLIO_TEXT),
        PromptKind::CleanData => {
            let mut t = String::from_str("Identify and fix data quality issues in ");
            t.append(range);
            t.append(" of ");
            t.append(sheet);
            t.append(CLEAN_DATA_STEPS);
            t
        },
        PromptKind::CreateDashboard => {
            let mut t = String::from_str("Create a summary dashboard from the data in ");
            t.append(sheet);
            t.append(CREATE_DASHBOARD_STEPS);
            t
        },
        PromptKind::ExplainFormulas => {
            let mut t = String::from_str("List and explain all formulas in ");
            t.append(sheet);
            t.append(EXPLAIN_FORMULAS_STEPS);
            t
        },
        PromptKind::FinancialModel => {
            let mut t = String::from_str("Build a financial model from the data in ");
            t.append(sheet);
            t.append(FINANCIAL_MODEL_STEPS);
            t
        },
    }
}

/// The description of prompt `k` (see [`prompt_description`]).
pub fn build_prompt_description(k: PromptKind) -> (d: String)
    ensures
        d@ == prompt_description(k),
{
    match k {
        PromptKind::AnalyzePortfolio => String::from_str("Analyze the investment portfolio in the current spreadsheet"),
        PromptKind::CleanData => String::from_str("Identify and fix data quality issues"),
        PromptKind::CreateDashboard => String::from_str("Create a summary dashboard from the current data"),
        PromptKind::ExplainFormulas => String::from_str("List and explain all formulas in the spreadsheet"),
        PromptKind::FinancialModel => String::from_str("Build a financial model from existing data"),
    }
}

/// Serves a `prompts/get` request for the prompt `name`, with the optional
/// `sheet` and `range` arguments of the request: the prompt filled in with
/// them (or their defaults), or the error `-32602` "Unknown prompt: {name}"
/// for a name that no prompt has.
pub fn handle_get_prompt(name: &str, sheet: Option<&str>, range: Option<&str>) -> (r: Result<Prompt, (i32, String)>)
    ensures
        match prompt_kind_of(name@) {
            Some(k) => r matches Ok(p) && is_prompt(p, k,
                sheet_or_default(match sheet { Some(s) => Some(s@), None => None }),
                range_or_default(match range { Some(g) => Some(g@), None => None })),
            None => r matches Err((code, m)) && code == -32602 && m@ == "Unknown prompt: "@ + name@,
        },
{
    match prompt_kind(name) {
        Some(k) => {
            let sheet_text: &str = match sheet {
                Some(s) => s,
                None => "the active sheet",
            };
            let range_text: &str = match range {
                Some(g) => g,
                None => "the entire used range",
            };
            let text = build_prompt_text(k, sheet_text, range_text);
            let message = PromptMessage { role: String::from_str("user"), text };
            let mut messages: Vec<PromptMessage> = Vec::new();
            messages.push(message);
            Ok(Prompt { description: build_prompt_description(k), messages })
        },
        None => {
            let mut m = String::from_str("Unknown prompt: ");
            m.append(name);
            Err((-32602, m))
        },
    }
}

/// An argument that a prompt accepts: its name, what it means, and whether
/// the client must give it.
#[derive(Clone, Debug)]
pub struct PromptArgument {
    pub name: String,
    pub description: String,
    pub required: bool,
}

/// A prompt as `prompts/list` announces it.
#[derive(Clone, Debug)]
pub struct PromptInfo {
    pub name: String,
    pub description: String,
    pub arguments: Vec<PromptArgument>,
}

/// The text of an argument's announcement.
pub open spec fn argument_view(a: PromptArgument) -> (Seq<char>, Seq<char>, bool) {
    (a.name@, a.description@, a.required)
}

/// The text of a prompt's announcement.
pub open spec fn info_view(p: PromptInfo) -> (Seq<char>, Seq<char>, Seq<(Seq<char>, Seq<char>, bool)>) {
    (p.name@, p.description@, p.arguments@.map_values(|a: PromptArgument| argument_view(a)))
}

/// The optional `sheet` argument, as the prompt `k` describes it.
pub open spec fn sheet_argument(description: Seq<char>) -> (Seq<char>, Seq<char>, bool) {
    ("sheet"@, description, false)
}

/// The prompts that the server announces, in order.
pub open spec fn prompt_catalog() -> Seq<(Seq<char>, Seq<char>, Seq<(Seq<char>, Seq<char>, bool)>)> {
    seq![
        (prompt_name(PromptKind::AnalyzePortfolio),
            "Analyze the investment portfolio in the current spreadsheet. Read all sheets, compute returns, risk metrics, and create visualizations."@,
            seq![]),
        (prompt_name(PromptKind::CleanData),
            "Identify and fix data quality issues: missing values, duplicates, inconsistent formats, outliers."@,
            seq![sheet_argument("Sheet to clean (defaults to active sheet)"@),
                ("range"@, "Data range to clean (e.g. 'A1:F100'). If omitted, the entire used range is scanned."@, false)]),
        (prompt_name(PromptKind::CreateDashboard),
            "Create a summary dashboard with key metrics and charts from the current data."@,
            seq![sheet_argument("Source data sheet (defaults to active sheet)"@)]),
        (prompt_name(PromptKind::ExplainFormulas),
            "List and explain all formulas in the current spreadsheet in plain language."@,
            seq![sheet_argument("Sheet to analyze (defaults to active sheet)"@)]),
        (prompt_name(PromptKind::FinancialModel),
            "Build a financial model (revenue projections, expense tracking, cash flow) from the existing data."@,
            seq![sheet_argument("Source data sheet"@)]),
    ]
}

/// An optional argument.
fn optional_argument(name: &str, description: &str) -> (a: PromptArgument)
    ensures
        argument_view(a) == (name@, description@, false),
{
    PromptArgument { name: String::from_str(name), description: String::from_str(description), required: false }
}

/// A prompt's announcement.
fn prompt_info(name: &str, description: &str, arguments: Vec<PromptArgument>) -> (p: PromptInfo)
    ensures
        info_view(p) == (name@, description@, arguments@.map_values(|a: PromptArgument| argument_view(a))),
{
    PromptInfo { name: String::from_str(name), description: String::from_str(description), arguments }
}

/// Serves a `prompts/list` request: the prompts of [`prompt_catalog`], in order.
pub fn handle_list_prompts() -> (r: Vec<PromptInfo>)
    ensures
        r@.map_values(|p: PromptInfo| info_view(p)) == prompt_catalog(),
{
    let mut r: Vec<PromptInfo> = Vec::new();
    let none: Vec<PromptArgument> = Vec::new();
    assert(none@.map_values(|a: PromptArgument| argument_view(a)) =~= seq![]);
    r.push(prompt_info("analyze-portfolio",
        "Analyze the investment portfolio in the current spreadsheet. Read all sheets, compute returns, risk metrics, and create visualizations.",
        none));
    let mut clean: Vec<PromptArgument> = Vec::new();
    clean.push(optional_argument("sheet", "Sheet to clean (defaults to active sheet)"));
    clean.push(optional_argument("range", "Data range to clean (e.g. 'A1:F100'). If omitted, the entire used range is scanned."));
    assert(clean@.map_values(|a: PromptArgument| argument_view(a)) =~= seq![sheet_argument("Sheet to clean (defaults to active sheet)"@),
        ("range"@, "Data range to clean (e.g. 'A1:F100'). If omitted, the entire used range is scanned."@, false)]);
    r.push(prompt_info("clean-data",
        "Identify and fix data quality issues: missing values, duplicates, inconsistent formats, outliers.",
        clean));
    let mut dashboard: Vec<PromptArgument> = Vec::new();
    dashboard.push(optional_argument("sheet", "Source data sheet (defaults to active sheet)"));
    assert(dashboard@.map_values(|a: PromptArgument| argument_view(a)) =~= seq![sheet_argument("Source data sheet (defaults to active sheet)"@)]);
    r.push(prompt_info("create-dashboard",
        "Create a summary dashboard with key metrics and charts from the current data.",
        dashboard));
    let mut explain: Vec<PromptArgument> = Vec::new();
    explain.push(optional_argument("sheet", "Sheet to analyze (defaults to active sheet)"));
    assert(explain@.map_values(|a: PromptArgument| argument_view(a)) =~= seq![sheet_argument("Sheet to analyze (defaults to active sheet)"@)]);
    r.push(prompt_info("explain-formulas",
        "List and explain all formulas in the current spreadsheet in plain language.",
        explain));
    let mut model: Vec<PromptArgument> = Vec::new();
    model.push(optional_argument("sheet", "Source data sheet"));
    assert(model@.map_values(|a: PromptArgument| argument_view(a)) =~= seq![sheet_argument("Source data sheet"@)]);
    r.push(prompt_info("financial-model",
        "Build a financial model (revenue projections, expense tracking, cash flow) from the existing data.",
        model));
    assert(r@.map_values(|p: PromptInfo| info_view(p)) =~= prompt_catalog());
    r
}

/// A prompt is found again under its own name.
pub proof fn law_prompt_name_routes(k: PromptKind)
    ensures
        prompt_kind_of(prompt_name(k)) == Some(k),
{
    reveal_strlit("analyze-portfolio");
    reveal_strlit("clean-data");
    reveal_strlit("create-dashboard");
    reveal_strlit("explain-formulas");
    reveal_strlit("financial-model");
    let a = "analyze-portfolio"@;
    let c = "clean-data"@;
    let d = "create-dashboard"@;
    let e = "explain-formulas"@;
    let f = "financial-model"@;
    assert(a[0] != c[0] && a[0] != d[0] && a[0] != e[0] && a[0] != f[0]);
    assert(c[1] != d[1] && c[0] != e[0] && c[0] != f[0]);
    assert(d[0] != e[0] && d[0] != f[0] && e[0] != f[0]);
    assert(a != c && a != d && a != e && a != f && c != d && c != e && c != f);
    assert(d != e && d != f && e != f);
}

/// Every prompt that `prompts/list` announces is served by `prompts/get`
/// under the name it is announced with.
pub proof fn law_announced_prompts_are_served(i: int)
    requires
        0 <= i < prompt_catalog().len(),
    ensures
        prompt_kind_of(prompt_catalog()[i].0) is Some,
{
    law_prompt_name_routes(PromptKind::AnalyzePortfolio);
    law_prompt_name_routes(PromptKind::CleanData);
    law_prompt_name_routes(PromptKind::CreateDashboard);
    law_prompt_name_routes(PromptKind::ExplainFormulas);
    law_prompt_name_routes(PromptKind::FinancialModel);
}

/// Whether `t` contains `p` at position `i`.
proof fn lemma_contains_at(t: Seq<char>, p: Seq<char>, i: int)
    requires
        0 <= i,
        i + p.len() <= t.len(),
        t.subrange(i, i + p.len()) == p,
    ensures
        contains_text(t, p),
{
}

/// The words that open the text of prompt `k`, before what it speaks of.
pub open spec fn prompt_opening(k: PromptKind) -> Seq<char> {
    match k {
        PromptKind::AnalyzePortfolio => "Analyze the investment portfolio in this spreadsheet"@,
        PromptKind::CleanData => "Identify and fix data quality issues in "@,
        PromptKind::CreateDashboard => "Create a summary dashboard from the data in "@,
        PromptKind::ExplainFormulas => "List and explain all formulas in "@,
        PromptKind::FinancialModel => "Build a financial model from the data in "@,
    }
}

/// A prompt that speaks of a sheet names the sheet it was given, right after
/// its opening words for the prompts about one sheet (and after the range
/// for the data cleaning prompt); only the data cleaning prompt names the
/// range it was given, and no other prompt depends on the range; the
/// portfolio prompt depends on neither.
pub proof fn law_prompts_name_their_arguments(k: PromptKind, sheet: Seq<char>, range: Seq<char>, other_sheet: Seq<char>, other_range: Seq<char>)
    ensures
        k != PromptKind::AnalyzePortfolio ==> contains_text(prompt_text(k, sheet, range), sheet),
        k == PromptKind::CleanData ==> contains_text(prompt_text(k, sheet, range), range),
        k == PromptKind::CleanData ==> prompt_text(k, sheet, range).take(prompt_opening(k).len() as int + range.len())
            == prompt_opening(k) + range,
        k == PromptKind::CreateDashboard || k == PromptKind::ExplainFormulas || k == PromptKind::FinancialModel ==>
            prompt_text(k, sheet, range).take(prompt_opening(k).len() as int + sheet.len()) == prompt_opening(k) + sheet,
        k != PromptKind::CleanData ==> prompt_text(k, sheet, range) == prompt_text(k, sheet, other_range),
        k == PromptKind::AnalyzePortfolio ==> prompt_text(k, sheet, range) == prompt_text(k, other_sheet, other_range),
{
    let t = prompt_text(k, sheet, range);
    let o = prompt_opening(k);
    let ol = o.len() as int;
    match k {
        PromptKind::AnalyzePortfolio => {},
        PromptKind::CleanData => {
            let mid = " of "@;
            assert(t == o + range + mid + sheet + CLEAN_DATA_STEPS@);
            assert(t.subrange(ol, ol + range.len()) =~= range);
            lemma_contains_at(t, range, ol);
            let i = ol + range.len() + mid.len();
            assert(t.subrange(i, i + sheet.len()) =~= sheet);
            lemma_contains_at(t, sheet, i);
            assert(t.take(ol + range.len()) =~= o + range);
        },
        _ => {
            let steps = if k == PromptKind::CreateDashboard { CREATE_DASHBOARD_STEPS@ }
                else if k == PromptKind::ExplainFormulas { EXPLAIN_FORMULAS_STEPS@ }
                else { FINANCIAL_MODEL_STEPS@ };
            assert(t == o + sheet + steps);
            assert(t.subrange(ol, ol + sheet.len()) =~= sheet);
            lemma_contains_at(t, sheet, ol);
            assert(t.take(ol + sheet.len()) =~= o + sheet);
        },
    }
}

} // verus!
