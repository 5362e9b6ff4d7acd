use rust_server::dispatch::{AcceptEvent, HandlerAction, LoopControl, LoopState, ShutdownSignal};
use rust_server::queue::ConnQueue;
use rust_server::response::res_formatter;
use rust_server::router::{candidate_paths, page_response, root_alias};
use rust_server::types::{ContentType, MethodType, Request, Response};

fn parse(s: &str) -> Result<Request, String> {
    Request::parse_from_bytes(s.as_bytes())
}

#[test]
fn parses_full_request() {
    let r = parse("GET /foo HTTP/1.1\r\nHost: x\r\nContent-Type: text/plain\r\n\r\nbody").unwrap();
    assert_eq!(r.method, MethodType::GET);
    assert_eq!(r.path, "/foo");
    assert_eq!(r.http_v, "HTTP/1.1");
    assert_eq!(r.host, "x");
    assert_eq!(r.content_type, ContentType::TextPlain);
    assert_eq!(r.body, b"body".to_vec());
    assert_eq!(
        r.headers,
        vec![
            ("host".to_string(), "x".to_string()),
            ("content-type".to_string(), "text/plain".to_string())
        ]
    );
}

#[test]
fn rejects_unsupported_version() {
    assert_eq!(parse("GET / HTTP/0.9\r\n\r\n").err(), Some("Invalid http type ".to_string()));
}

#[test]
fn rejects_empty_buffer() {
    assert_eq!(parse("").err(), Some("Empty request".to_string()));
}

#[test]
fn rejects_short_request_line() {
    assert_eq!(parse("GET /\r\n\r\n").err(), Some("Invalid request line".to_string()));
}

#[test]
fn accepts_other_versions_and_methods() {
    let r = parse("POST /a HTTP/1.0").unwrap();
    assert_eq!(r.method, MethodType::POST);
    assert_eq!(r.http_v, "HTTP/1.0");
    let r = parse("DELETE /a HTTP/2.0\n").unwrap();
    assert_eq!(r.method, MethodType::DELETE);
    let r = parse("PUT /a HTTP/1.1").unwrap();
    assert_eq!(r.method, MethodType::PUT);
    let r = parse("get /a HTTP/1.1").unwrap();
    assert_eq!(r.method, MethodType::UNKNOWN);
}

#[test]
fn request_line_splits_on_any_whitespace() {
    let r = parse("  GET\t/x   HTTP/1.1  extra\r\n").unwrap();
    assert_eq!(r.method, MethodType::GET);
    assert_eq!(r.path, "/x");
    assert_eq!(r.http_v, "HTTP/1.1");
}

#[test]
fn header_keys_are_lowercased_and_trimmed() {
    let r = parse("GET / HTTP/1.1\r\n  HOST :  example.org  \r\nX-Äpfel: 1\r\n\r\n").unwrap();
    assert_eq!(r.host, "example.org");
    assert_eq!(
        r.headers,
        vec![
            ("host".to_string(), "example.org".to_string()),
            ("x-äpfel".to_string(), "1".to_string())
        ]
    );
}

#[test]
fn header_without_colon_is_skipped_and_duplicates_kept() {
    let r = parse("GET / HTTP/1.1\r\nnocolon\r\nA: 1\r\nA: 2\r\nHost: a:b\r\n").unwrap();
    assert_eq!(
        r.headers,
        vec![
            ("a".to_string(), "1".to_string()),
            ("a".to_string(), "2".to_string()),
            ("host".to_string(), "a:b".to_string())
        ]
    );
    assert_eq!(r.host, "a:b");
}

#[test]
fn content_type_first_match_wins() {
    let r = parse("GET / HTTP/1.1\r\nContent-Type: text/html; application/json\r\n").unwrap();
    assert_eq!(r.content_type, ContentType::ApplicationJson);
    let r = parse("GET / HTTP/1.1\r\nContent-Type: text/html; charset=utf-8\r\n").unwrap();
    assert_eq!(r.content_type, ContentType::TextHtml);
    let r = parse("GET / HTTP/1.1\r\nContent-Type: image/png\r\n").unwrap();
    assert_eq!(r.content_type, ContentType::Unknown);
}

#[test]
fn body_is_rejoined_with_newlines() {
    let r = parse("GET / HTTP/1.1\r\nHost: h\r\n\r\nline one\r\nline two\nthree").unwrap();
    assert_eq!(r.body, b"line one\nline two\nthree".to_vec());
}

#[test]
fn no_blank_line_means_no_body() {
    let r = parse("GET / HTTP/1.1\r\nHost: h\r\n").unwrap();
    assert!(r.body.is_empty());
    let r = parse("GET / HTTP/1.1\r\n\r\n").unwrap();
    assert!(r.body.is_empty());
}

#[test]
fn invalid_bytes_are_replaced() {
    let r = Request::parse_from_bytes(b"GET /\xff HTTP/1.1\r\n").unwrap();
    assert_eq!(r.path, "/\u{FFFD}");
}

#[test]
fn new_request_is_empty() {
    let r = Request::new();
    assert_eq!(r.method, MethodType::UNKNOWN);
    assert_eq!(r.content_type, ContentType::Unknown);
    assert!(r.path.is_empty() && r.host.is_empty() && r.http_v.is_empty());
    assert!(r.body.is_empty() && r.headers.is_empty());
}

#[test]
fn add_header_records_host() {
    let mut r = Request::new();
    r.add_header("host".to_string(), "h".to_string());
    r.add_header("content-type".to_string(), "application/json".to_string());
    assert_eq!(r.host, "h");
    assert_eq!(r.content_type, ContentType::ApplicationJson);
    assert_eq!(r.headers.len(), 2);
}

#[test]
fn formats_simple_response() {
    let out = res_formatter(Response::new(200, ContentType::TextHtml, "hi".to_string()));
    assert!(out.starts_with("HTTP/1.1 200 OK\r\n"));
    assert!(out.contains("Content-Length: 2"));
    assert_eq!(
        out,
        "HTTP/1.1 200 OK\r\nContent-Type: text/html\r\nContent-Length: 2\r\nConnection: close\r\n\r\nhi"
    );
}

#[test]
fn formatter_counts_bytes_and_always_says_ok() {
    let out = res_formatter(Response::new(404, ContentType::ApplicationJson, "é".to_string()));
    assert_eq!(
        out,
        "HTTP/1.1 404 OK\r\nContent-Type: application/json\r\nContent-Length: 2\r\nConnection: close\r\n\r\né"
    );
    let out = res_formatter(Response::new(0, ContentType::Unknown, String::new()));
    assert!(out.starts_with("HTTP/1.1 0 OK\r\nContent-Type: unknown\r\nContent-Length: 0\r\n"));
}

#[test]
fn root_aliases_use_root_index() {
    for p in ["/", "/index.html", "/www/index.html", "/www"] {
        assert!(root_alias(p));
        assert_eq!(candidate_paths(p), vec!["./www/index.html".to_string()]);
    }
}

#[test]
fn other_paths_fall_back_to_not_found() {
    assert!(!root_alias("/missing"));
    assert_eq!(
        candidate_paths("/missing"),
        vec![
            "./www/missing/index.html".to_string(),
            "./www/missing".to_string(),
            "./www/not-found/index.html".to_string()
        ]
    );
}

#[test]
fn pages_are_served_with_200() {
    let r = page_response("<h1>not found</h1>".to_string());
    assert_eq!(r.code, 200);
    assert_eq!(r.header, ContentType::TextHtml);
    assert_eq!(r.content, "<h1>not found</h1>");
}

#[test]
fn queue_is_last_in_first_out() {
    let mut q = ConnQueue::new();
    for i in 1..=3u32 {
        q.push(i);
    }
    assert_eq!(q.len(), 3);
    assert_eq!(q.pop(), Some(3));
    assert_eq!(q.pop(), Some(2));
    assert_eq!(q.pop(), Some(1));
    assert!(q.is_empty());
    assert_eq!(q.pop(), None);
}

#[test]
fn handler_takes_newest_then_idles() {
    let mut q = ConnQueue::new();
    let st = LoopState::new();
    st.accept_step(&mut q, AcceptEvent::Accepted(7u8));
    st.accept_step(&mut q, AcceptEvent::TimedOut);
    st.accept_step(&mut q, AcceptEvent::Failed);
    st.accept_step(&mut q, AcceptEvent::Accepted(8u8));
    assert!(matches!(st.handler_step(&mut q), HandlerAction::Dispatch(8)));
    assert!(matches!(st.handler_step(&mut q), HandlerAction::Dispatch(7)));
    assert!(matches!(st.handler_step(&mut q), HandlerAction::Idle));
}

#[test]
fn loops_stop_after_signal() {
    let mut signal = ShutdownSignal::new();
    let mut st = LoopState::new();
    assert!(!signal.is_set());
    assert_eq!(st.check(&signal), LoopControl::Continue);
    signal.trigger();
    assert!(signal.is_set());
    assert_eq!(st.check(&signal), LoopControl::Stop);
    let mut q = ConnQueue::new();
    q.push(1u8);
    st.accept_step(&mut q, AcceptEvent::Accepted(2u8));
    assert_eq!(q.len(), 1);
    assert!(matches!(st.handler_step(&mut q), HandlerAction::Finish));
    assert_eq!(q.len(), 1);
    assert_eq!(st.check(&ShutdownSignal::new()), LoopControl::Stop);
}
