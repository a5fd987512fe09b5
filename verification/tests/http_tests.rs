use lattice::http::{
    cors_preflight, events_reply_head, handle_health, http_route, mcp_reply_head, not_found, sse_events, HttpRoute,
};

fn header<'a>(headers: &'a [(String, String)], name: &str) -> Option<&'a str> {
    headers.iter().find(|(n, _)| n == name).map(|(_, v)| v.as_str())
}

#[test]
fn test_health_response() {
    let resp = handle_health();
    assert_eq!(resp.status, 200);
}

#[test]
fn test_not_found_response() {
    let resp = not_found();
    assert_eq!(resp.status, 404);
}

#[test]
fn test_cors_preflight_response() {
    let resp = cors_preflight();
    assert_eq!(resp.status, 204);
    assert_eq!(header(&resp.headers, "Access-Control-Allow-Origin").unwrap(), "*");
}

#[test]
fn routes() {
    assert_eq!(http_route("POST", "/mcp"), HttpRoute::Mcp);
    assert_eq!(http_route("GET", "/mcp"), HttpRoute::NotFound);
    assert_eq!(http_route("GET", "/mcp/sse"), HttpRoute::Events);
    assert_eq!(http_route("GET", "/health"), HttpRoute::Health);
    assert_eq!(http_route("OPTIONS", "/anything"), HttpRoute::Preflight);
    assert_eq!(http_route("DELETE", "/mcp"), HttpRoute::NotFound);
}

#[test]
fn reply_heads() {
    let ok = mcp_reply_head(true);
    assert_eq!(ok.status, 200);
    assert_eq!(header(&ok.headers, "Content-Type"), Some("application/json"));
    let none = mcp_reply_head(false);
    assert_eq!(none.status, 204);
    assert_eq!(none.headers.len(), 1);
    let ev = events_reply_head();
    assert_eq!(header(&ev.headers, "Content-Type"), Some("text/event-stream"));
    assert_eq!(header(&cors_preflight().headers, "Access-Control-Max-Age"), Some("86400"));
}

#[test]
fn event_stream_body() {
    assert_eq!(sse_events(&vec![]), "event: connected\ndata: {\"status\":\"connected\"}\n\n");
    assert_eq!(
        sse_events(&vec!["a".to_string(), "b".to_string()]),
        "event: connected\ndata: {\"status\":\"connected\"}\n\nevent: notification\ndata: a\n\nevent: notification\ndata: b\n\n"
    );
}
