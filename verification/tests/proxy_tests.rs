use quantum_vpn::page_proxy::{page_reply, PageBody, PageFetch, PageReply, ProxyResponse};
use quantum_vpn::proxy::{
    forwards_header, header_name_passes, header_value_is_text, parse_method, plan_proxy_request,
    proxy_failure_response, proxy_success_response, reply_headers, HttpMethod, HttpProxyRequest,
};

fn request(method: &str, url: &str, headers: Vec<(&str, &str)>) -> HttpProxyRequest {
    HttpProxyRequest {
        message_type: "http_proxy_request".to_string(),
        id: "req-1".to_string(),
        method: method.to_string(),
        url: url.to_string(),
        headers: headers
            .into_iter()
            .map(|(k, v)| (k.to_string(), v.to_string()))
            .collect(),
        body: Some(b"data".to_vec()),
    }
}

#[test]
fn methods_are_matched_exactly() {
    assert_eq!(parse_method("GET"), Some(HttpMethod::Get));
    assert_eq!(parse_method("POST"), Some(HttpMethod::Post));
    assert_eq!(parse_method("PUT"), Some(HttpMethod::Put));
    assert_eq!(parse_method("DELETE"), Some(HttpMethod::Delete));
    assert_eq!(parse_method("HEAD"), Some(HttpMethod::Head));
    assert_eq!(parse_method("PATCH"), Some(HttpMethod::Patch));
    assert_eq!(parse_method("get"), None);
    assert_eq!(parse_method("OPTIONS"), None);
}

#[test]
fn host_and_connection_headers_are_dropped_whatever_their_case() {
    assert!(!forwards_header("Host"));
    assert!(!forwards_header("HOST"));
    assert!(!forwards_header("host-override"));
    assert!(!forwards_header("Connection"));
    assert!(!forwards_header("CONNECTION-x"));
    assert!(forwards_header("Accept"));
    assert!(forwards_header("X-Host"));
    assert!(!header_name_passes("host"));
    assert!(header_name_passes("Host"));
}

#[test]
fn invalid_url_is_answered_with_400() {
    let r = plan_proxy_request(request("GET", "not a url", vec![])).unwrap_err();
    assert_eq!(r.message_type, "http_proxy_response");
    assert_eq!(r.id, "req-1");
    assert_eq!(r.status_code, 400);
    assert!(r.headers.is_empty());
    assert_eq!(r.body, b"Invalid URL".to_vec());
}

#[test]
fn unknown_method_is_answered_with_405() {
    let r = plan_proxy_request(request("TRACE", "http://example.com/", vec![])).unwrap_err();
    assert_eq!(r.status_code, 405);
    assert_eq!(r.body, b"Method not allowed".to_vec());
}

#[test]
fn invalid_url_wins_over_unknown_method() {
    let r = plan_proxy_request(request("TRACE", "::", vec![])).unwrap_err();
    assert_eq!(r.status_code, 400);
}

#[test]
fn accepted_request_keeps_passing_headers_and_adds_user_agent() {
    let plan = plan_proxy_request(request(
        "POST",
        "https://example.com/a?b=c",
        vec![("Accept", "*/*"), ("Host", "evil"), ("Connection", "close"), ("X-Id", "7")],
    ))
    .unwrap();
    assert_eq!(plan.method, HttpMethod::Post);
    assert_eq!(plan.url, "https://example.com/a?b=c");
    assert_eq!(plan.body, Some(b"data".to_vec()));
    let expected: Vec<(String, String)> = vec![
        ("Accept".to_string(), "*/*".to_string()),
        ("X-Id".to_string(), "7".to_string()),
        ("User-Agent".to_string(), "QuantumVPN/1.0".to_string()),
    ];
    assert_eq!(plan.headers, expected);
}

#[test]
fn responses_carry_id_status_and_body() {
    let raw = vec![("a".to_string(), b"b".to_vec())];
    let ok = proxy_success_response("i".to_string(), 201, &raw, Some(b"body".to_vec()));
    assert_eq!(ok.message_type, "http_proxy_response");
    assert_eq!(ok.id, "i");
    assert_eq!(ok.status_code, 201);
    assert_eq!(ok.headers, vec![("a".to_string(), "b".to_string())]);
    assert_eq!(ok.body, b"body".to_vec());
    let unread = proxy_success_response("i".to_string(), 200, &raw, None);
    assert!(unread.body.is_empty());
    let failed = proxy_failure_response("i".to_string(), "timed out");
    assert_eq!(failed.status_code, 502);
    assert_eq!(failed.body, b"Proxy error: timed out".to_vec());
    assert!(failed.headers.is_empty());
}

#[test]
fn header_text_is_visible_ascii_or_tab() {
    assert!(header_value_is_text(b"text/html; charset=utf-8"));
    assert!(header_value_is_text(b"a\tb"));
    assert!(header_value_is_text(b""));
    assert!(!header_value_is_text(b"caf\xc3\xa9"));
    assert!(!header_value_is_text(b"a\x7fb"));
    assert!(!header_value_is_text(b"a\nb"));
}

#[test]
fn reply_headers_keep_readable_values_last_one_winning() {
    let raw = vec![
        ("set-cookie".to_string(), b"one".to_vec()),
        ("x-bin".to_string(), vec![0xff, 0x41]),
        ("content-type".to_string(), b"text/plain".to_vec()),
        ("set-cookie".to_string(), b"two".to_vec()),
        ("set-cookie".to_string(), vec![0x80]),
    ];
    let headers = reply_headers(&raw);
    assert_eq!(
        headers,
        vec![
            ("set-cookie".to_string(), "two".to_string()),
            ("content-type".to_string(), "text/plain".to_string()),
        ]
    );
}

#[test]
fn page_replies() {
    assert_eq!(
        page_reply(PageFetch::Fetched { status: 404, html: "<p>x</p>".to_string() }),
        PageReply {
            http_status: 200,
            body: PageBody::Page(ProxyResponse { html: "<p>x</p>".to_string(), status: 404 }),
        }
    );
    assert_eq!(
        page_reply(PageFetch::BodyUnreadable),
        PageReply {
            http_status: 500,
            body: PageBody::Error("Failed to read response body".to_string()),
        }
    );
    assert_eq!(
        page_reply(PageFetch::Unreachable),
        PageReply { http_status: 400, body: PageBody::Error("Failed to fetch the URL".to_string()) }
    );
}
