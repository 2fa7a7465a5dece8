use getman::executor::execute;
use getman::headers::Header;
use getman::method::Method;
use getman::report::{Outcome, Response, ResponseHeader};
use getman::request::{RequestForm, RequestSpec};
use getman::status::StatusCode;

fn form(method: &str, url: &str, headers: &str, body: &str) -> RequestForm {
    RequestForm {
        url: url.to_string(),
        method: method.to_string(),
        headers: headers.to_string(),
        body: body.to_string(),
    }
}

fn answer(code: u16, body: &str) -> Outcome {
    Outcome::Answered(Response {
        status: StatusCode::new(code).unwrap(),
        headers: vec![ResponseHeader { name: "content-type".to_string(), value: b"application/json".to_vec() }],
        body: body.to_string(),
    })
}

#[test]
fn invalid_method_makes_no_call() {
    for method in ["", "get", "HEAD", "TRACE", "GET\n"] {
        let mut calls = 0;
        let text = execute(&form(method, "http://example.org", "A: 1", "body"), |_request| {
            calls += 1;
            Outcome::Failed("called".to_string())
        });
        assert_eq!(text, "Invalid HTTP method");
        assert_eq!(calls, 0);
    }
}

#[test]
fn valid_method_makes_one_call() {
    for m in Method::all() {
        let mut calls = 0;
        let mut seen = None;
        let text = execute(&form(m.name(), "http://example.org", "", ""), |request| {
            calls += 1;
            seen = Some(request.method);
            Outcome::Failed("down".to_string())
        });
        assert_eq!(calls, 1);
        assert_eq!(seen, Some(m));
        assert_eq!(text, "Error: down");
    }
}

#[test]
fn transport_gets_the_request_of_the_form() {
    let mut seen: Option<RequestSpec> = None;
    execute(&form("GET", "http://example.org/a", "A: 1\nskip\nA: 2\nB: 3", "data"), |request| {
        seen = Some(request);
        Outcome::Failed(String::new())
    });
    assert_eq!(
        seen,
        Some(RequestSpec {
            method: Method::Get,
            url: "http://example.org/a".to_string(),
            headers: vec![
                Header { name: "A".to_string(), value: "2".to_string() },
                Header { name: "B".to_string(), value: "3".to_string() },
            ],
            body: Some("data".to_string()),
        })
    );
}

#[test]
fn transport_failure_is_reported() {
    let text = execute(&form("GET", "http://127.0.0.1:1", "", ""), |_request| {
        Outcome::Failed("connection refused".to_string())
    });
    assert_eq!(text, "Error: connection refused");
}

#[test]
fn response_is_reported() {
    let text = execute(&form("POST", "http://example.org", "", "{}"), |_request| answer(200, "{\"a\":1}"));
    assert_eq!(text, "Status: 200 OK\n\nHeaders:\ncontent-type: application/json\n\nBody:\n{\n  \"a\": 1\n}");
}

#[test]
fn response_with_plain_body_is_reported() {
    let text = execute(&form("PUT", "http://example.org", "", ""), |_request| answer(503, "hello"));
    assert_eq!(
        text,
        "Status: 503 Service Unavailable\n\nHeaders:\ncontent-type: application/json\n\nBody:\nhello"
    );
}
