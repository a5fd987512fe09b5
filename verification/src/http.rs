//! The HTTP transport's decisions: which handler a request goes to, and the
//! status and headers of each reply (the JSON bodies are written by the
//! transport itself).
use vstd::prelude::*;
use crate::text::{chars_of, same_chars};

verus! {

/// The handler an HTTP request goes to.
#[derive(Debug, Clone, Copy, PartialEq, Eq, Structural)]
pub enum HttpRoute {
    /// `POST /mcp`: a JSON-RPC request.
    Mcp,
    /// `GET /mcp/sse`: the server-sent events stream.
    Events,
    /// `GET /health`.
    Health,
    /// `OPTIONS` on any path: a CORS preflight.
    Preflight,
    /// Anything else.
    NotFound,
}

/// The handler for a request with method `method` on path `path`.
pub open spec fn http_route_of(method: Seq<char>, path: Seq<char>) -> HttpRoute {
    if method == "POST"@ && path == "/mcp"@ {
        HttpRoute::Mcp
    } else if method == "GET"@ && path == "/mcp/sse"@ {
        HttpRoute::Events
    } else if method == "GET"@ && path == "/health"@ {
        HttpRoute::Health
    } else if method == "OPTIONS"@ {
        HttpRoute::Preflight
    } else {
        HttpRoute::NotFound
    }
}

/// The handler for a request with method `method` on path `path`.
pub fn http_route(method: &str, path: &str) -> (r: HttpRoute)
    ensures
        r == http_route_of(method@, path@),
{
    let m = chars_of(method);
    let p = chars_of(path);
    if same_chars(&m, &chars_of("POST")) && same_chars(&p, &chars_of("/mcp")) {
        HttpRoute::Mcp
    } else if same_chars(&m, &chars_of("GET")) && same_chars(&p, &chars_of("/mcp/sse")) {
        HttpRoute::Events
    } else if same_chars(&m, &chars_of("GET")) && same_chars(&p, &chars_of("/health")) {
        HttpRoute::Health
    } else if same_chars(&m, &chars_of("OPTIONS")) {
        HttpRoute::Preflight
    } else {
        HttpRoute::NotFound
    }
}

/// The status line and headers of a reply.
pub struct ReplyHead {
    /// The HTTP status code.
    pub status: u16,
    /// The headers, in order, as `(name, value)`.
    pub headers: Vec<(String, String)>,
}

/// The text of a reply's headers.
pub open spec fn header_views(h: Seq<(String, String)>) -> Seq<(Seq<char>, Seq<char>)> {
    h.map_values(|p: (String, String)| (p.0@, p.1@))
}

/// A header.
fn header(name: &str, value: &str) -> (h: (String, String))
    ensures
        h.0@ == name@,
        h.1@ == value@,
{
    (name.to_owned(), value.to_owned())
}

/// The head of a reply with a JSON body: `Content-Type: application/json`
/// and `Access-Control-Allow-Origin: *`.
pub fn json_reply_head(status: u16) -> (r: ReplyHead)
    ensures
        r.status == status,
        header_views(r.headers@) == seq![("Content-Type"@, "application/json"@), ("Access-Control-Allow-Origin"@, "*"@)],
{
    let headers = vec![header("Content-Type", "application/json"), header("Access-Control-Allow-Origin", "*")];
    let r = ReplyHead { status, headers };
    assert(header_views(r.headers@) =~= seq![("Content-Type"@, "application/json"@), ("Access-Control-Allow-Origin"@, "*"@)]);
    r
}

/// The head of the health check reply: 200 with a JSON body.
pub fn handle_health() -> (r: ReplyHead)
    ensures
        r.status == 200,
        header_views(r.headers@) == seq![("Content-Type"@, "application/json"@), ("Access-Control-Allow-Origin"@, "*"@)],
{
    json_reply_head(200)
}

/// The head of the reply to an unknown route: 404 with a JSON body.
pub fn not_found() -> (r: ReplyHead)
    ensures
        r.status == 404,
        header_views(r.headers@) == seq![("Content-Type"@, "application/json"@), ("Access-Control-Allow-Origin"@, "*"@)],
{
    json_reply_head(404)
}

/// The reply to a CORS preflight: 204 with no body, allowing any origin, the
/// methods GET, POST and OPTIONS, the `Content-Type` header, and caching for
/// a day.
pub fn cors_preflight() -> (r: ReplyHead)
    ensures
        r.status == 204,
        header_views(r.headers@) == seq![
            ("Access-Control-Allow-Origin"@, "*"@),
            ("Access-Control-Allow-Methods"@, "GET, POST, OPTIONS"@),
            ("Access-Control-Allow-Headers"@, "Content-Type"@),
            ("Access-Control-Max-Age"@, "86400"@),
        ],
{
    let headers = vec![
        header("Access-Control-Allow-Origin", "*"),
        header("Access-Control-Allow-Methods", "GET, POST, OPTIONS"),
        header("Access-Control-Allow-Headers", "Content-Type"),
        header("Access-Control-Max-Age", "86400"),
    ];
    let r = ReplyHead { status: 204, headers };
    assert(header_views(r.headers@) =~= seq![
        ("Access-Control-Allow-Origin"@, "*"@),
        ("Access-Control-Allow-Methods"@, "GET, POST, OPTIONS"@),
        ("Access-Control-Allow-Headers"@, "Content-Type"@),
        ("Access-Control-Max-Age"@, "86400"@),
    ]);
    r
}

/// The head of the reply to `POST /mcp`: 200 with the JSON-RPC response as
/// body, or 204 with no body for a notification (no response).
pub fn mcp_reply_head(has_response: bool) -> (r: ReplyHead)
    ensures
        has_response ==> r.status == 200 && header_views(r.headers@) == seq![("Content-Type"@, "application/json"@), ("Access-Control-Allow-Origin"@, "*"@)],
        !has_response ==> r.status == 204 && header_views(r.headers@) == seq![("Access-Control-Allow-Origin"@, "*"@)],
{
    if has_response {
        json_reply_head(200)
    } else {
        let headers = vec![header("Access-Control-Allow-Origin", "*")];
        let r = ReplyHead { status: 204, headers };
        assert(header_views(r.headers@) =~= seq![("Access-Control-Allow-Origin"@, "*"@)]);
        r
    }
}

/// The head of the events reply: 200 with an event stream that is not cached
/// and keeps the connection alive.
pub fn events_reply_head() -> (r: ReplyHead)
    ensures
        r.status == 200,
        header_views(r.headers@) == seq![
            ("Content-Type"@, "text/event-stream"@),
            ("Cache-Control"@, "no-cache"@),
            ("Connection"@, "keep-alive"@),
            ("Access-Control-Allow-Origin"@, "*"@),
        ],
{
    let headers = vec![
        header("Content-Type", "text/event-stream"),
        header("Cache-Control", "no-cache"),
        header("Connection", "keep-alive"),
        header("Access-Control-Allow-Origin", "*"),
    ];
    let r = ReplyHead { status: 200, headers };
    assert(header_views(r.headers@) =~= seq![
        ("Content-Type"@, "text/event-stream"@),
        ("Cache-Control"@, "no-cache"@),
        ("Connection"@, "keep-alive"@),
        ("Access-Control-Allow-Origin"@, "*"@),
    ]);
    r
}

/// The event announcing a notification `msg`.
pub open spec fn notification_event(msg: Seq<char>) -> Seq<char> {
    "event: notification\n"@ + "data: "@ + msg + "\n\n"@
}

/// The events of the notifications `msgs`, in order.
pub open spec fn notification_events(msgs: Seq<Seq<char>>) -> Seq<char>
    decreases msgs.len(),
{
    if msgs.len() == 0 { seq![] } else { notification_events(msgs.drop_last()) + notification_event(msgs.last()) }
}

/// The body of the events reply: a `connected` event, then one
/// `notification` event for each pending message.
pub open spec fn events_body(msgs: Seq<Seq<char>>) -> Seq<char> {
    "event: connected\n"@ + "data: {\"status\":\"connected\"}\n\n"@ + notification_events(msgs)
}

/// The body of the events reply for the pending messages `pending`.
pub fn sse_events(pending: &Vec<String>) -> (body: String)
    ensures
        body@ == events_body(pending@.map_values(|m: String| m@)),
{
    let ghost msgs = pending@.map_values(|m: String| m@);
    let mut body = String::from_str("event: connected\n");
    body.append("data: {\"status\":\"connected\"}\n\n");
    let ghost head = body@;
    let mut i: usize = 0;
    assert(msgs.take(0) =~= Seq::<Seq<char>>::empty());
    while i < pending.len()
        invariant
            i <= pending@.len(),
            msgs == pending@.map_values(|m: String| m@),
            body@ == head + notification_events(msgs.take(i as int)),
        decreases pending.len() - i,
    {
        assert(msgs.take(i + 1).drop_last() =~= msgs.take(i as int));
        assert(msgs.take(i + 1).last() == pending@[i as int]@);
        body.append("event: notification\n");
        body.append("data: ");
        body.append(pending[i].as_str());
        body.append("\n\n");
        i += 1;
    }
    assert(msgs.take(pending@.len() as int) =~= msgs);
    body
}

} // verus!
