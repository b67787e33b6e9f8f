use kei::mcp::{call_tool, route_request, Bundle, RequestRoute};

#[test]
fn requests_route_by_id_and_method() {
    assert_eq!(route_request(false, Some("ping")), RequestRoute::Notification);
    assert_eq!(route_request(true, None), RequestRoute::MissingMethod);
    assert_eq!(route_request(true, Some("initialize")), RequestRoute::Initialize);
    assert_eq!(route_request(true, Some("ping")), RequestRoute::Ping);
    assert_eq!(route_request(true, Some("tools/list")), RequestRoute::ToolsList);
    assert_eq!(route_request(true, Some("tools/call")), RequestRoute::ToolsCall);
    assert_eq!(route_request(true, Some("tools/other")), RequestRoute::UnknownMethod);
}

#[test]
fn tool_calls_report_missing_and_unknown() {
    let b = Bundle { spec: vec![], examples: vec![] };
    let o = call_tool(&b, "kei_check", None, None, None);
    assert!(o.is_error);
    assert_eq!(o.text, "Missing required argument 'source'.");
    let o = call_tool(&b, "kei_nope", None, None, None);
    assert!(o.is_error);
    assert_eq!(o.text, "Unknown tool 'kei_nope'.");
    let o = call_tool(&b, "kei_fmt", None, Some("func one() -> Int {\n  return 1\n}\n"), None);
    assert!(!o.is_error);
    assert_eq!(o.text, "func one() -> Int {\n  return 1\n}\n");
}
