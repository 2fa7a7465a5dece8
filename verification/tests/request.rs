use getman::headers::Header;
use getman::method::{parse_method, Method};
use getman::request::{build_request, RequestError, RequestForm, RequestSpec};

fn form(method: &str, url: &str, headers: &str, body: &str) -> RequestForm {
    RequestForm {
        url: url.to_string(),
        method: method.to_string(),
        headers: headers.to_string(),
        body: body.to_string(),
    }
}

#[test]
fn method_names_are_parsed() {
    assert_eq!(parse_method("GET"), Some(Method::Get));
    assert_eq!(parse_method("POST"), Some(Method::Post));
    assert_eq!(parse_method("PUT"), Some(Method::Put));
    assert_eq!(parse_method("DELETE"), Some(Method::Delete));
    assert_eq!(parse_method("PATCH"), Some(Method::Patch));
}

#[test]
fn other_texts_name_no_method() {
    for text in ["", "get", "Get", "GET ", " GET", "HEAD", "OPTIONS", "GETPOST", "P"] {
        assert_eq!(parse_method(text), None, "{:?}", text);
    }
}

#[test]
fn method_name_round_trip() {
    for m in Method::all() {
        assert_eq!(parse_method(m.name()), Some(m));
    }
}

#[test]
fn methods_in_the_order_offered() {
    let names: Vec<&str> = Method::all().iter().map(|m| m.name()).collect();
    assert_eq!(names, vec!["GET", "POST", "PUT", "DELETE", "PATCH"]);
}

#[test]
fn request_holds_what_was_typed() {
    let request = build_request(Method::Post, "http://localhost:8080/x?y=1", "A: 1\nB: 2", "{\"k\":true}");
    assert_eq!(
        request,
        RequestSpec {
            method: Method::Post,
            url: "http://localhost:8080/x?y=1".to_string(),
            headers: vec![
                Header { name: "A".to_string(), value: "1".to_string() },
                Header { name: "B".to_string(), value: "2".to_string() },
            ],
            body: Some("{\"k\":true}".to_string()),
        }
    );
}

#[test]
fn get_with_body_attaches_the_body() {
    let request = build_request(Method::Get, "http://example.org", "", "payload");
    assert_eq!(request.method, Method::Get);
    assert_eq!(request.body, Some("payload".to_string()));
}

#[test]
fn body_is_attached_for_every_method() {
    for m in Method::all() {
        let request = build_request(m, "http://example.org", "", " x ");
        assert_eq!(request.method, m);
        assert_eq!(request.body, Some(" x ".to_string()));
    }
}

#[test]
fn empty_body_is_not_attached() {
    for m in Method::all() {
        assert_eq!(build_request(m, "http://example.org", "A: 1", "").body, None);
    }
}

#[test]
fn url_is_kept_as_typed() {
    assert_eq!(build_request(Method::Get, "  not a url ", "", "").url, "  not a url ");
    assert_eq!(build_request(Method::Get, "", "", "").url, "");
}

#[test]
fn form_with_known_method_asks_for_a_request() {
    let request = form("DELETE", "http://example.org/1", "X: y\nbad line", "").request();
    assert_eq!(
        request,
        Ok(RequestSpec {
            method: Method::Delete,
            url: "http://example.org/1".to_string(),
            headers: vec![Header { name: "X".to_string(), value: "y".to_string() }],
            body: None,
        })
    );
}

#[test]
fn form_with_unknown_method_asks_for_none() {
    assert_eq!(form("FETCH", "http://example.org", "A: 1", "x").request(), Err(RequestError::InvalidMethod));
    assert_eq!(form("", "http://example.org", "", "").request(), Err(RequestError::InvalidMethod));
    assert_eq!(form("post", "http://example.org", "", "").request(), Err(RequestError::InvalidMethod));
}

#[test]
fn invalid_method_message() {
    assert_eq!(RequestError::InvalidMethod.message(), "Invalid HTTP method");
}

#[test]
fn form_as_first_shown() {
    let first = RequestForm::default();
    assert_eq!(first, form("GET", "https://httpbin.org/get", "", ""));
    assert_eq!(
        first.request(),
        Ok(RequestSpec {
            method: Method::Get,
            url: "https://httpbin.org/get".to_string(),
            headers: Vec::new(),
            body: None,
        })
    );
}
