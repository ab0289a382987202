use ceno::{AppError, AppRouter, RouteRule, Segment};

fn table(rules: &[(&str, &str, &str)]) -> AppRouter {
    let rules: Vec<RouteRule> = rules.iter().map(|(m, p, h)| RouteRule::new(m, p, h)).collect();
    AppRouter::try_new(&rules).unwrap()
}

fn pairs(v: &[(String, String)]) -> Vec<(&str, &str)> {
    v.iter().map(|(k, v)| (k.as_str(), v.as_str())).collect()
}

#[test]
fn greet_route_matches_and_distinguishes_failures() {
    let t = table(&[("GET", "/hello/{name}", "greet")]);
    let m = t.match_it("GET", "/hello/alice").unwrap();
    assert_eq!(m.handler, "greet");
    assert_eq!(pairs(&m.params), vec![("name", "alice")]);
    assert_eq!(t.match_it("POST", "/hello/alice").err(), Some(AppError::MethodNotAllowed));
    assert_eq!(t.match_it("GET", "/goodbye/alice").err(), Some(AppError::NotFound));
}

#[test]
fn match_is_repeatable() {
    let t = table(&[("GET", "/a/{x}/b/{y}", "h")]);
    let m1 = t.match_it("GET", "/a/1/b/2").unwrap();
    let m2 = t.match_it("GET", "/a/1/b/2").unwrap();
    assert_eq!(m1.handler, m2.handler);
    assert_eq!(pairs(&m1.params), pairs(&m2.params));
    assert_eq!(pairs(&m1.params), vec![("x", "1"), ("y", "2")]);
    assert_eq!(t.match_it("PUT", "/a/1/b/2").err(), t.match_it("PUT", "/a/1/b/2").err());
}

#[test]
fn tables_built_from_same_rules_agree() {
    let rules = [("GET", "/users/{id}", "user"), ("POST", "/users", "create")];
    let t1 = table(&rules);
    let t2 = table(&rules);
    for (m, p) in [("GET", "/users/7"), ("POST", "/users"), ("GET", "/users"), ("GET", "/x")] {
        let a = t1.match_it(m, p);
        let b = t2.match_it(m, p);
        match (a, b) {
            (Ok(a), Ok(b)) => {
                assert_eq!(a.handler, b.handler);
                assert_eq!(pairs(&a.params), pairs(&b.params));
            }
            (Err(a), Err(b)) => assert_eq!(a, b),
            _ => panic!("tables disagree"),
        }
    }
}

#[test]
fn segment_count_must_agree() {
    let t = table(&[("GET", "/api/hello", "hello")]);
    assert_eq!(t.match_it("GET", "/api/hello").unwrap().handler, "hello");
    assert_eq!(t.match_it("GET", "/api").err(), Some(AppError::NotFound));
    assert_eq!(t.match_it("GET", "/api/hello/x").err(), Some(AppError::NotFound));
    assert_eq!(t.match_it("GET", "/api/hello/").err(), Some(AppError::NotFound));
    assert_eq!(t.match_it("GET", "api/hello").err(), Some(AppError::NotFound));
    assert_eq!(t.match_it("GET", "").err(), Some(AppError::NotFound));
}

#[test]
fn parameter_needs_a_non_empty_segment() {
    let t = table(&[("GET", "/hello/{name}", "greet")]);
    assert_eq!(t.match_it("GET", "/hello/").err(), Some(AppError::NotFound));
}

#[test]
fn first_rule_in_order_wins() {
    let t = table(&[("GET", "/users/{id}", "by_id"), ("GET", "/users/me", "me")]);
    assert_eq!(t.match_it("GET", "/users/me").unwrap().handler, "by_id");
    let t = table(&[("GET", "/users/me", "me"), ("GET", "/users/{id}", "by_id")]);
    assert_eq!(t.match_it("GET", "/users/me").unwrap().handler, "me");
    assert_eq!(t.match_it("GET", "/users/3").unwrap().handler, "by_id");
}

#[test]
fn method_found_on_a_later_route() {
    let t = table(&[("GET", "/items", "list"), ("POST", "/items", "add")]);
    assert_eq!(t.match_it("POST", "/items").unwrap().handler, "add");
    assert_eq!(t.match_it("DELETE", "/items").err(), Some(AppError::MethodNotAllowed));
}

#[test]
fn root_path_route() {
    let t = table(&[("GET", "/", "index")]);
    assert_eq!(t.match_it("GET", "/").unwrap().handler, "index");
    assert!(t.match_it("GET", "/x").is_err());
}

#[test]
fn empty_table_finds_nothing() {
    let t = table(&[]);
    assert_eq!(t.match_it("GET", "/").err(), Some(AppError::NotFound));
}

#[test]
fn malformed_templates_are_config_errors() {
    for bad in ["", "hello", "/a/{", "/a/{}", "/a/x}", "/a/{b{c}", "/{a}{b}"] {
        let rules = vec![RouteRule::new("GET", bad, "h")];
        assert_eq!(AppRouter::try_new(&rules).err(), Some(AppError::ConfigError), "{bad}");
    }
}

#[test]
fn duplicate_method_and_template_is_a_config_error() {
    let rules = vec![RouteRule::new("GET", "/a/{x}", "one"), RouteRule::new("GET", "/a/{x}", "two")];
    assert_eq!(AppRouter::try_new(&rules).err(), Some(AppError::ConfigError));
    let rules = vec![RouteRule::new("GET", "/a/{x}", "one"), RouteRule::new("POST", "/a/{x}", "two")];
    assert!(AppRouter::try_new(&rules).is_ok());
}

#[test]
fn parse_template_segments() {
    let segs = ceno::router::parse_path_template("/users/{id}/posts").unwrap();
    assert_eq!(segs.len(), 3);
    assert!(matches!(&segs[0], Segment::Literal(s) if s == "users"));
    assert!(matches!(&segs[1], Segment::Param(s) if s == "id"));
    assert!(matches!(&segs[2], Segment::Literal(s) if s == "posts"));
}

#[test]
fn non_ascii_segments_match() {
    let t = table(&[("GET", "/café/{q}", "h")]);
    let m = t.match_it("GET", "/café/naïve").unwrap();
    assert_eq!(pairs(&m.params), vec![("q", "naïve")]);
}
