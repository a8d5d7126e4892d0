use hello::{Method, Request, RequestError, parse_request};

fn req(method: Method, path: &str) -> Request {
    Request { method, path: path.to_string() }
}

#[test]
fn parse_get_foo() {
    let r = parse_request(String::from("GET /foo HTTP/1.1"));
    assert_eq!(r, Ok(Some(req(Method::GET, "/foo"))));
}

#[test]
fn parse_post_x() {
    let r = parse_request(String::from("POST /x HTTP/1.1"));
    assert_eq!(r, Ok(Some(req(Method::POST, "/x"))));
}

#[test]
fn parse_put() {
    let r = parse_request(String::from("PUT /up HTTP/1.1\r\nHost: a\r\n\r\n"));
    assert_eq!(r, Ok(Some(req(Method::PUT, "/up"))));
}

#[test]
fn parse_empty_is_absent() {
    assert_eq!(parse_request(String::new()), Ok(None));
}

#[test]
fn parse_only_first_line_counts() {
    let r = parse_request(String::from("GET /a?b=c%20d HTTP/1.1\r\nPOST /other HTTP/1.1\r\n"));
    assert_eq!(r, Ok(Some(req(Method::GET, "/a?b=c%20d"))));
}

#[test]
fn parse_extra_whitespace() {
    let r = parse_request(String::from("  \tGET \t /sp   HTTP/1.1"));
    assert_eq!(r, Ok(Some(req(Method::GET, "/sp"))));
}

#[test]
fn parse_method_is_case_sensitive() {
    let r = parse_request(String::from("get /foo HTTP/1.1"));
    assert_eq!(r, Err(RequestError::UnrecognizedMethod));
    let r = parse_request(String::from("DELETE /foo HTTP/1.1"));
    assert_eq!(r, Err(RequestError::UnrecognizedMethod));
}

#[test]
fn parse_missing_tokens() {
    assert_eq!(parse_request(String::from("GET")), Err(RequestError::Malformed));
    assert_eq!(parse_request(String::from("\r\nGET / HTTP/1.1")), Err(RequestError::Malformed));
    assert_eq!(parse_request(String::from("   ")), Err(RequestError::Malformed));
    assert_eq!(parse_request(String::from("GET\n/foo")), Err(RequestError::Malformed));
}

#[test]
fn method_names() {
    assert_eq!(Method::GET.name(), "GET");
    assert_eq!(Method::PUT.name(), "PUT");
    assert_eq!(Method::POST.name(), "POST");
}
