use ceno::{assemble_req, AppRouter, Res, Req, RouteRule};

fn matched() -> ceno::Matched {
    let t = AppRouter::try_new(&vec![RouteRule::new("POST", "/echo/{id}", "echo")]).unwrap();
    t.match_it("POST", "/echo/42").unwrap()
}

fn hv(k: &str, v: &str) -> (String, String) {
    (k.to_string(), v.to_string())
}

#[test]
fn assembled_request_keeps_headers_and_body_bytes() {
    let body = "{\"msg\":\"héllo, wörld\\n\"}".as_bytes().to_vec();
    let headers = vec![hv("x-special", "a=b; c=\"d\", e/f?g&h"), hv("x-utf", "ünï")];
    let req = assemble_req(&matched(), "POST", "/echo/42?x=1", vec![hv("x", "1")], headers.clone(), Some(body.clone()));
    assert_eq!(req.method, "POST");
    assert_eq!(req.url, "/echo/42?x=1");
    assert_eq!(req.query, vec![hv("x", "1")]);
    assert_eq!(req.params, vec![hv("id", "42")]);
    assert_eq!(req.headers, headers);
    assert_eq!(req.body.as_ref().unwrap().as_bytes(), body.as_slice());
    let res = Res::new(200, req.headers.clone(), req.body.clone());
    assert_eq!(res.headers, headers);
    assert_eq!(res.body_or_empty().as_bytes(), body.as_slice());
}

#[test]
fn non_utf8_body_is_dropped() {
    let req = assemble_req(&matched(), "POST", "/echo/42", vec![], vec![], Some(vec![0xff, 0xfe, 0x41]));
    assert!(req.body.is_none());
}

#[test]
fn missing_body_stays_missing() {
    let req = assemble_req(&matched(), "POST", "/echo/42", vec![], vec![], None);
    assert!(req.body.is_none());
    let empty = assemble_req(&matched(), "POST", "/echo/42", vec![], vec![], Some(vec![]));
    assert_eq!(empty.body.as_deref(), Some(""));
}

#[test]
fn response_without_body_sends_empty_body() {
    let res = Res::new(204, vec![], None);
    assert_eq!(res.status, 204);
    assert_eq!(res.body_or_empty(), "");
}

#[test]
fn new_request_is_bare() {
    let req = Req::new("GET", "https://example.com");
    assert_eq!(req.method, "GET");
    assert_eq!(req.url, "https://example.com");
    assert!(req.query.is_empty() && req.params.is_empty() && req.headers.is_empty());
    assert!(req.body.is_none());
}
