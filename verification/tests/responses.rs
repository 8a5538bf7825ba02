use atrium::apps::App;
use atrium::configuration::HostType;
use atrium::middlewares::inject_security_headers;
use atrium::response::{Header, Response};
use atrium::users::cookie_to_body;

fn response(status: u16, headers: &[(&str, &str)], body: &str) -> Response {
    Response {
        status,
        headers: headers.iter().map(|(n, v)| Header::new(n, v.to_string())).collect(),
        body: body.to_string(),
    }
}

#[test]
fn new_response_is_bare() {
    assert_eq!(Response::new(204), response(204, &[], ""));
}

#[test]
fn append_adds_behind_and_insert_replaces() {
    let mut r = Response::new(200);
    r.append("set-cookie", "a=1".to_string());
    r.append("x-other", "o".to_string());
    r.append("set-cookie", "b=2".to_string());
    assert_eq!(r, response(200, &[("set-cookie", "a=1"), ("x-other", "o"), ("set-cookie", "b=2")], ""));
    assert_eq!(r.header("set-cookie"), Some("a=1"));
    assert_eq!(r.header("x-other"), Some("o"));
    assert_eq!(r.header("Set-Cookie"), None);
    assert_eq!(r.header("missing"), None);
    r.insert("set-cookie", "c=3".to_string());
    assert_eq!(r, response(200, &[("x-other", "o"), ("set-cookie", "c=3")], ""));
    r.insert("new", "n".to_string());
    assert_eq!(r, response(200, &[("x-other", "o"), ("set-cookie", "c=3"), ("new", "n")], ""));
    assert_eq!(Header::new("a", "b".to_string()).clone(), Header::new("a", "b".to_string()));
}

#[test]
fn cookie_of_an_ok_response_becomes_its_body() {
    let r = response(
        200,
        &[("content-length", "2"), ("set-cookie", "A=\u{e9}; Path=/"), ("set-cookie", "B=2")],
        "{}",
    );
    assert_eq!(
        cookie_to_body(r),
        Ok(response(
            200,
            &[("set-cookie", "A=\u{e9}; Path=/"), ("set-cookie", "B=2"), ("content-length", "12")],
            "A=\u{e9}; Path=/",
        ))
    );
}

#[test]
fn ok_response_without_cookie_is_an_internal_error() {
    assert_eq!(cookie_to_body(response(200, &[("content-length", "2")], "{}")), Err(500));
}

#[test]
fn other_response_loses_its_body() {
    let r = response(401, &[("set-cookie", "A=1"), ("content-length", "4")], "nope");
    assert_eq!(
        cookie_to_body(r),
        Ok(response(401, &[("set-cookie", "A=1"), ("content-length", "4")], ""))
    );
    assert_eq!(cookie_to_body(response(201, &[], "x")), Ok(response(201, &[], "")));
}

#[test]
fn service_that_asks_for_it_gets_hardened_responses() {
    let app = HostType::StaticApp(App { inject_security_headers: true, ..Default::default() });
    let r = response(200, &[("x-frame-options", "ALLOWALL"), ("etag", "1")], "body");
    assert_eq!(
        inject_security_headers(Some(&app), r),
        response(
            200,
            &[
                ("etag", "1"),
                ("content-security-policy", "default-src 'self'; frame-ancestors 'self'"),
                ("x-content-type-options", "nosniff"),
                ("x-frame-options", "SAMEORIGIN"),
                ("referrer-policy", "same-origin"),
            ],
            "body",
        )
    );
}

#[test]
fn other_responses_are_left_as_they_are() {
    let plain = HostType::StaticApp(App::default());
    let r = response(200, &[("x-frame-options", "ALLOWALL")], "body");
    assert_eq!(inject_security_headers(Some(&plain), r), response(200, &[("x-frame-options", "ALLOWALL")], "body"));
    let r = response(404, &[], "");
    assert_eq!(inject_security_headers(None, r), response(404, &[], ""));
}

#[test]
fn upstream_errors_are_gateway_errors() {
    assert_eq!(atrium::server::UpstreamError::UpstreamUnreachable.status(), 502);
    assert_eq!(atrium::server::UpstreamError::UpstreamTimeout.status(), 504);
}
