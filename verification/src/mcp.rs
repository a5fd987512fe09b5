//! Pieces of the MCP server that stand on their own: the default HTTP port,
//! resource names and import ranges.
use vstd::prelude::*;
use crate::text::{chars_of, replace_all, replace_spec, same_chars, string_from_chars, trim_range, trim_spec};
use crate::xlsx_chart::{starts_with, starts_with_chars};

verus! {

/// The default port of the HTTP transport.
pub const DEFAULT_PORT: u16 = 3141;

/// A sheet name in a resource URI with `%20`, `%2F` and `%25` decoded, one
/// after the other, as successive `str::replace` calls do.
pub open spec fn urllike_decoded(s: Seq<char>) -> Seq<char> {
    let a = replace_spec(s, seq!['%', '2', '0'], seq![' ']);
    let b = replace_spec(a, seq!['%', '2', 'F'], seq!['/']);
    replace_spec(b, seq!['%', '2', '5'], seq!['%'])
}

/// Decodes `%20`, `%2F` and `%25` in a sheet name taken from a resource URI.
pub fn urllike_decode(s: &str) -> (r: String)
    ensures
        r@ == urllike_decoded(s@),
{
    let v = chars_of(s);
    let p20 = vec!['%', '2', '0'];
    let p2f = vec!['%', '2', 'F'];
    let p25 = vec!['%', '2', '5'];
    let space = vec![' '];
    let slash = vec!['/'];
    let percent = vec!['%'];
    assert(p20@ =~= seq!['%', '2', '0'] && p2f@ =~= seq!['%', '2', 'F'] && p25@ =~= seq!['%', '2', '5']);
    assert(space@ =~= seq![' '] && slash@ =~= seq!['/'] && percent@ =~= seq!['%']);
    let a = replace_all(&v, &p20, &space);
    let b = replace_all(&a, &p2f, &slash);
    let c = replace_all(&b, &p25, &percent);
    string_from_chars(c)
}

/// The position of the first `c` in `s`, if any.
pub open spec fn first_index(s: Seq<char>, c: char) -> Option<int>
    decreases s.len(),
{
    if s.len() == 0 {
        None
    } else if s[0] == c {
        Some(0)
    } else {
        match first_index(s.drop_first(), c) {
            Some(i) => Some(i + 1),
            None => None,
        }
    }
}

proof fn lemma_first_index(s: Seq<char>, c: char, k: int)
    requires
        0 <= k <= s.len(),
        forall|j: int| 0 <= j < k ==> s[j] != c,
        k < s.len() ==> s[k] == c,
    ensures
        k < s.len() ==> first_index(s, c) == Some(k),
        k == s.len() ==> first_index(s, c) is None,
    decreases k,
{
    if s.len() > 0 && k > 0 {
        let t = s.drop_first();
        assert forall|j: int| 0 <= j < k - 1 implies t[j] != c by {
            assert(t[j] == s[j + 1]);
        }
        if k < s.len() {
            assert(t[k - 1] == s[k]);
        }
        lemma_first_index(t, c, k - 1);
    }
}

/// Position of the first `c` in `v` from `from` on (`v.len()` when none).
fn find_from(v: &Vec<char>, from: usize, c: char) -> (k: usize)
    requires
        from <= v@.len(),
    ensures
        from <= k <= v@.len(),
        forall|j: int| from <= j < k ==> v@[j] != c,
        k < v@.len() ==> v@[k as int] == c,
{
    let mut k = from;
    while k < v.len() && v[k] != c
        invariant
            from <= k <= v@.len(),
            forall|j: int| from <= j < k ==> v@[j] != c,
        decreases v.len() - k,
    {
        k += 1;
    }
    k
}

/// How a range like `"Sheet1!A1:C10"` splits into a sheet name and the start
/// and end cell references, each trimmed of white space; or the error text.
pub open spec fn import_range_parts(s: Seq<char>) -> Result<(Seq<char>, Seq<char>, Seq<char>), Seq<char>> {
    match first_index(s, '!') {
        None => Err("Range '"@ + s + "' must contain '!' separator (e.g. 'Sheet1!A1:C10')"@),
        Some(e) => {
            let sheet = trim_spec(s.take(e));
            let cells = s.skip(e + 1);
            if sheet.len() == 0 {
                Err("Sheet name cannot be empty in range string"@)
            } else {
                match first_index(cells, ':') {
                    None => Err("Range '"@ + cells + "' must contain ':' (e.g. 'A1:C10')"@),
                    Some(c) => {
                        let start = trim_spec(cells.take(c));
                        let end = trim_spec(cells.skip(c + 1));
                        if start.len() == 0 || end.len() == 0 {
                            Err("Start and end cell references cannot be empty"@)
                        } else {
                            Ok((sheet, start, end))
                        }
                    },
                }
            }
        },
    }
}

/// Parses a range string like `"Sheet1!A1:C10"` into `(sheet_name, start_ref, end_ref)`.
pub fn parse_import_range_string(s: &str) -> (r: Result<(String, String, String), String>)
    ensures
        match r {
            Ok((a, b, c)) => import_range_parts(s@) == Ok::<(Seq<char>, Seq<char>, Seq<char>), Seq<char>>((a@, b@, c@)),
            Err(m) => import_range_parts(s@) == Err::<(Seq<char>, Seq<char>, Seq<char>), Seq<char>>(m@),
        },
{
    let v = chars_of(s);
    let excl = find_from(&v, 0, '!');
    proof {
        lemma_first_index(v@, '!', excl as int);
    }
    if excl == v.len() {
        let mut m = String::from_str("Range '");
        m.append(s);
        m.append("' must contain '!' separator (e.g. 'Sheet1!A1:C10')");
        return Err(m);
    }
    let sheet = trim_range(&v, 0, excl);
    assert(v@.subrange(0, excl as int) == v@.take(excl as int));
    if sheet.len() == 0 {
        return Err(String::from_str("Sheet name cannot be empty in range string"));
    }
    let ghost cells = v@.skip(excl + 1);
    let colon = find_from(&v, excl + 1, ':');
    proof {
        assert forall|j: int| 0 <= j < colon - (excl + 1) implies cells[j] != ':' by {
            assert(cells[j] == v@[excl + 1 + j]);
        }
        if colon < v@.len() {
            assert(cells[colon - (excl + 1)] == v@[colon as int]);
        }
        lemma_first_index(cells, ':', colon - (excl + 1));
    }
    if colon == v.len() {
        let rest = trim_range(&v, excl + 1, excl + 1);
        let mut m = String::from_str("Range '");
        let mut tail: Vec<char> = Vec::new();
        let mut j = excl + 1;
        while j < v.len()
            invariant
                excl + 1 <= j <= v@.len(),
                tail@ == v@.subrange(excl + 1, j as int),
            decreases v.len() - j,
        {
            tail.push(v[j]);
            j += 1;
        }
        assert(tail@ == cells);
        let t = string_from_chars(tail);
        m.append(t.as_str());
        m.append("' must contain ':' (e.g. 'A1:C10')");
        return Err(m);
    }
    let start = trim_range(&v, excl + 1, colon);
    let end = trim_range(&v, colon + 1, v.len());
    assert(v@.subrange(excl + 1, colon as int) == cells.take(colon - (excl + 1)));
    assert(v@.subrange(colon + 1, v@.len() as int) == cells.skip(colon - (excl + 1) + 1));
    if start.len() == 0 || end.len() == 0 {
        return Err(String::from_str("Start and end cell references cannot be empty"));
    }
    Ok((string_from_chars(sheet), string_from_chars(start), string_from_chars(end)))
}

/// The message a line read from the stdio transport carries: `None` at the
/// end of input (nothing read), else the line trimmed of white space (empty
/// for a blank line, which the server skips).
pub open spec fn line_message(line: Seq<char>, bytes_read: nat) -> Option<Seq<char>> {
    if bytes_read == 0 { None } else { Some(trim_spec(line)) }
}

/// The message carried by a line read from the stdio transport (see
/// [`line_message`]).
pub fn message_from_line(line: &str, bytes_read: usize) -> (m: Option<String>)
    ensures
        match m {
            Some(t) => line_message(line@, bytes_read as nat) == Some(t@),
            None => line_message(line@, bytes_read as nat) is None,
        },
{
    if bytes_read == 0 {
        return None;
    }
    let v = chars_of(line);
    assert(v@.subrange(0, v@.len() as int) =~= v@);
    Some(string_from_chars(trim_range(&v, 0, v.len())))
}

/// The line the stdio transport writes for a message: the message and a
/// newline.
pub fn line_of_message(message: &str) -> (line: String)
    ensures
        line@ == message@.push('\n'),
{
    let mut line = message.to_owned();
    proof {
        reveal_strlit("\n");
    }
    line.append("\n");
    line
}

/// Where a resource URI leads: the workbook's information, one of the views
/// of a sheet (its name decoded), or nowhere.
pub enum ResourceRoute {
    /// `lattice://workbook/info`.
    WorkbookInfo,
    /// `lattice://sheet/{name}/data`.
    SheetData(String),
    /// `lattice://sheet/{name}/summary`.
    SheetSummary(String),
    /// `lattice://sheet/{name}/formulas`.
    SheetFormulas(String),
    /// `lattice://sheet/{name}/range/{range}`: the sheet name and the range.
    SheetRange(String, String),
    /// Any other URI, with the error message.
    NotFound(String),
}

/// The text of a route.
pub enum RouteView {
    WorkbookInfo,
    SheetData(Seq<char>),
    SheetSummary(Seq<char>),
    SheetFormulas(Seq<char>),
    SheetRange(Seq<char>, Seq<char>),
    NotFound(Seq<char>),
}

/// The text of a route.
pub open spec fn route_view(r: ResourceRoute) -> RouteView {
    match r {
        ResourceRoute::WorkbookInfo => RouteView::WorkbookInfo,
        ResourceRoute::SheetData(n) => RouteView::SheetData(n@),
        ResourceRoute::SheetSummary(n) => RouteView::SheetSummary(n@),
        ResourceRoute::SheetFormulas(n) => RouteView::SheetFormulas(n@),
        ResourceRoute::SheetRange(n, g) => RouteView::SheetRange(n@, g@),
        ResourceRoute::NotFound(m) => RouteView::NotFound(m@),
    }
}

/// Where the resource URI `uri` leads. A sheet URI is `lattice://sheet/`,
/// the sheet's name (with `%20`, `%2F` and `%25` encoded), `/`, and the view:
/// `data`, `summary`, `formulas` or `range/` and a range.
pub open spec fn resource_route_of(uri: Seq<char>) -> RouteView {
    let missing = RouteView::NotFound("Resource not found: "@ + uri);
    if uri == "lattice://workbook/info"@ {
        RouteView::WorkbookInfo
    } else if starts_with(uri, "lattice://sheet/"@) {
        let rest = uri.skip(16);
        match first_index(rest, '/') {
            Some(k) => {
                let name = urllike_decoded(rest.take(k));
                let suffix = rest.skip(k + 1);
                if suffix == "data"@ {
                    RouteView::SheetData(name)
                } else if suffix == "summary"@ {
                    RouteView::SheetSummary(name)
                } else if suffix == "formulas"@ {
                    RouteView::SheetFormulas(name)
                } else if starts_with(suffix, "range/"@) {
                    RouteView::SheetRange(name, suffix.skip(6))
                } else {
                    missing
                }
            },
            None => missing,
        }
    } else {
        missing
    }
}

/// The characters of `v` from `from` to `to`.
fn chars_between(v: &Vec<char>, from: usize, to: usize) -> (t: Vec<char>)
    requires
        from <= to <= v@.len(),
    ensures
        t@ == v@.subrange(from as int, to as int),
{
    let mut t: Vec<char> = Vec::new();
    let mut i = from;
    while i < to
        invariant
            from <= i <= to <= v@.len(),
            t@ == v@.subrange(from as int, i as int),
        decreases to - i,
    {
        t.push(v[i]);
        i += 1;
    }
    t
}

/// Where the resource URI `uri` leads (see [`resource_route_of`]).
pub fn resource_route(uri: &str) -> (r: ResourceRoute)
    ensures
        route_view(r) == resource_route_of(uri@),
{
    proof {
        reveal_strlit("lattice://workbook/info");
        reveal_strlit("lattice://sheet/");
        reveal_strlit("range/");
    }
    let v = chars_of(uri);
    let mut missing = String::from_str("Resource not found: ");
    missing.append(uri);
    if same_chars(&v, &chars_of("lattice://workbook/info")) {
        return ResourceRoute::WorkbookInfo;
    }
    let prefix = chars_of("lattice://sheet/");
    if !starts_with_chars(&v, &prefix) {
        return ResourceRoute::NotFound(missing);
    }
    let ghost rest = uri@.skip(16);
    let slash = find_from(&v, 16, '/');
    proof {
        assert forall|j: int| 0 <= j < slash - 16 implies rest[j] != '/' by {
            assert(rest[j] == v@[j + 16]);
        }
        if slash < v@.len() {
            assert(rest[slash - 16] == v@[slash as int]);
        }
        lemma_first_index(rest, '/', slash - 16);
    }
    if slash == v.len() {
        return ResourceRoute::NotFound(missing);
    }
    let name_chars = chars_between(&v, 16, slash);
    assert(name_chars@ == rest.take(slash - 16));
    let name = urllike_decode(string_from_chars(name_chars).as_str());
    let suffix = chars_between(&v, slash + 1, v.len());
    assert(suffix@ == rest.skip(slash - 16 + 1));
    if same_chars(&suffix, &chars_of("data")) {
        ResourceRoute::SheetData(name)
    } else if same_chars(&suffix, &chars_of("summary")) {
        ResourceRoute::SheetSummary(name)
    } else if same_chars(&suffix, &chars_of("formulas")) {
        ResourceRoute::SheetFormulas(name)
    } else if starts_with_chars(&suffix, &chars_of("range/")) {
        let range = chars_between(&suffix, 6, suffix.len());
        ResourceRoute::SheetRange(name, string_from_chars(range))
    } else {
        ResourceRoute::NotFound(missing)
    }
}

/// What a JSON-RPC request asks the server to do, by its method.
pub enum RpcRoute {
    Initialize,
    /// The client's `initialized` notification, which is never answered.
    Initialized,
    Ping,
    ToolsList,
    ToolsCall,
    ResourcesList,
    ResourcesRead,
    PromptsList,
    PromptsGet,
    /// A request that cannot be served: the JSON-RPC error code and message.
    Error(i32, String),
}

/// The text of an RPC route.
pub enum RpcRouteView {
    Initialize,
    Initialized,
    Ping,
    ToolsList,
    ToolsCall,
    ResourcesList,
    ResourcesRead,
    PromptsList,
    PromptsGet,
    Error(int, Seq<char>),
}

/// The text of an RPC route.
pub open spec fn rpc_route_view(r: RpcRoute) -> RpcRouteView {
    match r {
        RpcRoute::Initialize => RpcRouteView::Initialize,
        RpcRoute::Initialized => RpcRouteView::Initialized,
        RpcRoute::Ping => RpcRouteView::Ping,
        RpcRoute::ToolsList => RpcRouteView::ToolsList,
        RpcRoute::ToolsCall => RpcRouteView::ToolsCall,
        RpcRoute::ResourcesList => RpcRouteView::ResourcesList,
        RpcRoute::ResourcesRead => RpcRouteView::ResourcesRead,
        RpcRoute::PromptsList => RpcRouteView::PromptsList,
        RpcRoute::PromptsGet => RpcRouteView::PromptsGet,
        RpcRoute::Error(code, m) => RpcRouteView::Error(code as int, m@),
    }
}

/// The route of the method `method`: the methods of the protocol, an error
/// `-32600` for a missing method and `-32601` for an unknown one.
pub open spec fn rpc_route_of(method: Seq<char>) -> RpcRouteView {
    if method == "initialize"@ { RpcRouteView::Initialize }
    else if method == "initialized"@ { RpcRouteView::Initialized }
    else if method == "ping"@ { RpcRouteView::Ping }
    else if method == "tools/list"@ { RpcRouteView::ToolsList }
    else if method == "tools/call"@ { RpcRouteView::ToolsCall }
    else if method == "resources/list"@ { RpcRouteView::ResourcesList }
    else if method == "resources/read"@ { RpcRouteView::ResourcesRead }
    else if method == "prompts/list"@ { RpcRouteView::PromptsList }
    else if method == "prompts/get"@ { RpcRouteView::PromptsGet }
    else if method.len() == 0 { RpcRouteView::Error(-32600, "Invalid Request: missing method"@) }
    else { RpcRouteView::Error(-32601, "Method not found: "@ + method) }
}

/// The route of a JSON-RPC request's method (see [`rpc_route_of`]).
pub fn rpc_route(method: &str) -> (r: RpcRoute)
    ensures
        rpc_route_view(r) == rpc_route_of(method@),
{
    let v = chars_of(method);
    if same_chars(&v, &chars_of("initialize")) {
        RpcRoute::Initialize
    } else if same_chars(&v, &chars_of("initialized")) {
        RpcRoute::Initialized
    } else if same_chars(&v, &chars_of("ping")) {
        RpcRoute::Ping
    } else if same_chars(&v, &chars_of("tools/list")) {
        RpcRoute::ToolsList
    } else if same_chars(&v, &chars_of("tools/call")) {
        RpcRoute::ToolsCall
    } else if same_chars(&v, &chars_of("resources/list")) {
        RpcRoute::ResourcesList
    } else if same_chars(&v, &chars_of("resources/read")) {
        RpcRoute::ResourcesRead
    } else if same_chars(&v, &chars_of("prompts/list")) {
        RpcRoute::PromptsList
    } else if same_chars(&v, &chars_of("prompts/get")) {
        RpcRoute::PromptsGet
    } else if v.len() == 0 {
        RpcRoute::Error(-32600, String::from_str("Invalid Request: missing method"))
    } else {
        let mut m = String::from_str("Method not found: ");
        m.append(method);
        RpcRoute::Error(-32601, m)
    }
}

/// Routes a `resources/read` request for the URI `uri` (`None` where the
/// request gives none): the error `-32602` "Missing 'uri' parameter", the
/// error `-32002` with the message of [`resource_route_of`] for a URI that
/// leads nowhere, or the resource the URI leads to.
pub fn route_resource_request(uri: Option<&str>) -> (r: Result<ResourceRoute, (i32, String)>)
    ensures
        match uri {
            None => r matches Err((code, m)) && code == -32602 && m@ == "Missing 'uri' parameter"@,
            Some(u) => match resource_route_of(u@) {
                RouteView::NotFound(m) => r matches Err((code, e)) && code == -32002 && e@ == m,
                v => r matches Ok(route) && route_view(route) == v,
            },
        },
{
    match uri {
        None => Err((-32602, String::from_str("Missing 'uri' parameter"))),
        Some(u) => match resource_route(u) {
            ResourceRoute::NotFound(m) => Err((-32002, m)),
            route => Ok(route),
        },
    }
}

/// A resource, or a template of resources, as `resources/list` announces it.
#[derive(Clone, Debug)]
pub struct ResourceInfo {
    /// The URI, or the URI template with `{name}` and `{range}` in it.
    pub uri: String,
    pub name: String,
    pub description: String,
    pub mime_type: String,
}

/// The text of a resource's announcement.
pub open spec fn resource_info_view(r: ResourceInfo) -> (Seq<char>, Seq<char>, Seq<char>, Seq<char>) {
    (r.uri@, r.name@, r.description@, r.mime_type@)
}

/// What `resources/list` announces: the fixed resources, and the templates
/// of the resources of each sheet.
pub struct ResourceCatalog {
    pub resources: Vec<ResourceInfo>,
    pub templates: Vec<ResourceInfo>,
}

/// The fixed resources that the server announces.
pub open spec fn fixed_resources() -> Seq<(Seq<char>, Seq<char>, Seq<char>, Seq<char>)> {
    seq![("lattice://workbook/info"@, "Workbook Info"@,
        "Workbook metadata (sheets, cell counts, active sheet)"@, "application/json"@)]
}

/// The resource templates that the server announces, one for each view of a
/// sheet that [`resource_route_of`] serves.
pub open spec fn resource_templates() -> Seq<(Seq<char>, Seq<char>, Seq<char>, Seq<char>)> {
    seq![
        ("lattice://sheet/{name}/data"@, "Sheet Data"@,
            "Full sheet data as JSON (rows of column-keyed objects)"@, "application/json"@),
        ("lattice://sheet/{name}/range/{range}"@, "Sheet Range"@,
            "Specific range data as a 2D JSON array"@, "application/json"@),
        ("lattice://sheet/{name}/summary"@, "Sheet Summary"@,
            "Auto-generated data summary (row/col counts, data types breakdown)"@, "application/json"@),
        ("lattice://sheet/{name}/formulas"@, "Sheet Formulas"@,
            "List all cells with formulas in the sheet"@, "application/json"@),
    ]
}

/// A resource's announcement, served as JSON.
fn json_resource(uri: &str, name: &str, description: &str) -> (r: ResourceInfo)
    ensures
        resource_info_view(r) == (uri@, name@, description@, "application/json"@),
{
    ResourceInfo {
        uri: String::from_str(uri),
        name: String::from_str(name),
        description: String::from_str(description),
        mime_type: String::from_str("application/json"),
    }
}

/// Serves a `resources/list` request: [`fixed_resources`] and
/// [`resource_templates`], in order.
pub fn handle_list_resources() -> (c: ResourceCatalog)
    ensures
        c.resources@.map_values(|r: ResourceInfo| resource_info_view(r)) == fixed_resources(),
        c.templates@.map_values(|r: ResourceInfo| resource_info_view(r)) == resource_templates(),
{
    let mut resources: Vec<ResourceInfo> = Vec::new();
    resources.push(json_resource("lattice://workbook/info", "Workbook Info",
        "Workbook metadata (sheets, cell counts, active sheet)"));
    let mut templates: Vec<ResourceInfo> = Vec::new();
    templates.push(json_resource("lattice://sheet/{name}/data", "Sheet Data",
        "Full sheet data as JSON (rows of column-keyed objects)"));
    templates.push(json_resource("lattice://sheet/{name}/range/{range}", "Sheet Range",
        "Specific range data as a 2D JSON array"));
    templates.push(json_resource("lattice://sheet/{name}/summary", "Sheet Summary",
        "Auto-generated data summary (row/col counts, data types breakdown)"));
    templates.push(json_resource("lattice://sheet/{name}/formulas", "Sheet Formulas",
        "List all cells with formulas in the sheet"));
    assert(resources@.map_values(|r: ResourceInfo| resource_info_view(r)) =~= fixed_resources());
    assert(templates@.map_values(|r: ResourceInfo| resource_info_view(r)) =~= resource_templates());
    ResourceCatalog { resources, templates }
}

/// The URI of the view `view` of the sheet whose encoded name is `name`.
pub open spec fn sheet_uri(name: Seq<char>, view: Seq<char>) -> Seq<char> {
    "lattice://sheet/"@ + name + "/"@ + view
}

/// The sheet URIs that the templates of `resources/list` describe are read
/// back as the views they name, for an encoded sheet name without `/`.
pub proof fn law_sheet_uris_route(name: Seq<char>, range: Seq<char>)
    requires
        forall|j: int| 0 <= j < name.len() ==> name[j] != '/',
    ensures
        resource_route_of(sheet_uri(name, "data"@)) == RouteView::SheetData(urllike_decoded(name)),
        resource_route_of(sheet_uri(name, "summary"@)) == RouteView::SheetSummary(urllike_decoded(name)),
        resource_route_of(sheet_uri(name, "formulas"@)) == RouteView::SheetFormulas(urllike_decoded(name)),
        resource_route_of(sheet_uri(name, "range/"@ + range)) == RouteView::SheetRange(urllike_decoded(name), range),
{
    reveal_strlit("lattice://workbook/info");
    reveal_strlit("lattice://sheet/");
    reveal_strlit("/");
    reveal_strlit("range/");
    reveal_strlit("data");
    reveal_strlit("summary");
    reveal_strlit("formulas");
    let p = "lattice://sheet/"@;
    assert(p.len() == 16);
    let views = seq!["data"@, "summary"@, "formulas"@, "range/"@ + range];
    assert forall|i: int| 0 <= i < 4 implies {
        let uri = sheet_uri(name, #[trigger] views[i]);
        &&& uri != "lattice://workbook/info"@
        &&& starts_with(uri, p)
        &&& uri.skip(16) == name + "/"@ + views[i]
        &&& first_index(uri.skip(16), '/') == Some(name.len() as int)
        &&& uri.skip(16).take(name.len() as int) == name
        &&& uri.skip(16).skip(name.len() as int + 1) == views[i]
    } by {
        let uri = sheet_uri(name, views[i]);
        let rest = name + "/"@ + views[i];
        assert(uri =~= p + rest);
        assert(uri.take(16) =~= p);
        assert(uri.skip(16) =~= rest);
        assert(uri[10] != "lattice://workbook/info"@[10]);
        assert forall|j: int| 0 <= j < name.len() implies rest[j] != '/' by {
            assert(rest[j] == name[j]);
        }
        assert(rest[name.len() as int] == '/');
        lemma_first_index(rest, '/', name.len() as int);
        assert(rest.take(name.len() as int) =~= name);
        assert(rest.skip(name.len() as int + 1) =~= views[i]);
    }
    assert(views[0] == "data"@);
    assert(views[1] == "summary"@);
    assert(views[2] == "formulas"@);
    assert(views[3] == "range/"@ + range);
    assert("data"@ != "summary"@ && "data"@ != "formulas"@ && "summary"@ != "formulas"@);
    assert("summary"@.take(6)[0] != "range/"@[0]);
    assert("formulas"@.take(6)[0] != "range/"@[0]);
    assert(!starts_with("data"@, "range/"@) && !starts_with("summary"@, "range/"@)
        && !starts_with("formulas"@, "range/"@));
    let rv = "range/"@ + range;
    assert(rv.take(6) =~= "range/"@);
    assert(rv.skip(6) =~= range);
    assert(rv != "data"@ && rv != "summary"@ && rv != "formulas"@) by {
        assert(rv[0] == 'r');
    }
}

/// The protocol method that asks for the route `r` (none for an error).
pub open spec fn route_method(r: RpcRouteView) -> Option<Seq<char>> {
    match r {
        RpcRouteView::Initialize => Some("initialize"@),
        RpcRouteView::Initialized => Some("initialized"@),
        RpcRouteView::Ping => Some("ping"@),
        RpcRouteView::ToolsList => Some("tools/list"@),
        RpcRouteView::ToolsCall => Some("tools/call"@),
        RpcRouteView::ResourcesList => Some("resources/list"@),
        RpcRouteView::ResourcesRead => Some("resources/read"@),
        RpcRouteView::PromptsList => Some("prompts/list"@),
        RpcRouteView::PromptsGet => Some("prompts/get"@),
        RpcRouteView::Error(_, _) => None,
    }
}

/// Each protocol method is routed to the route of its own name, so no two
/// methods share a route.
pub proof fn law_methods_route_to_their_own_route(r: RpcRouteView, method: Seq<char>)
    ensures
        route_method(r) matches Some(m) ==> rpc_route_of(m) == r,
        route_method(r) is Some && rpc_route_of(method) == r ==> route_method(r) == Some(method),
{
    reveal_strlit("initialize");
    reveal_strlit("initialized");
    reveal_strlit("ping");
    reveal_strlit("tools/list");
    reveal_strlit("tools/call");
    reveal_strlit("resources/list");
    reveal_strlit("resources/read");
    reveal_strlit("prompts/list");
    reveal_strlit("prompts/get");
    assert("initialize"@.len() == 10 && "initialize"@[8] == 'z');
    assert("initialized"@.len() == 11 && "initialized"@[8] == 'z' && "initialized"@[10] == 'd');
    assert("ping"@.len() == 4);
    assert("tools/list"@.len() == 10 && "tools/list"@[8] == 's');
    assert("tools/call"@.len() == 10 && "tools/call"@[8] == 'l');
    assert("resources/list"@.len() == 14 && "resources/list"@[8] == 's' && "resources/list"@[10] == 'l');
    assert("resources/read"@.len() == 14 && "resources/read"@[8] == 's' && "resources/read"@[10] == 'r');
    assert("prompts/list"@.len() == 12 && "prompts/list"@[8] == 'l' && "prompts/list"@[10] == 's');
    assert("prompts/get"@.len() == 11 && "prompts/get"@[8] == 'g' && "prompts/get"@[10] == 't');
}

/// Whether a request gets a response: never the `initialized`
/// notification, otherwise exactly when the request has an id.
pub fn responds(route: &RpcRoute, has_id: bool) -> (b: bool)
    ensures
        b == (has_id && !(route is Initialized)),
{
    match route {
        RpcRoute::Initialized => false,
        _ => has_id,
    }
}

} // verus!
