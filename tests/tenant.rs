use ceno::{
    assemble_req, normalize_host, AppError, AppRouter, AppState, RouteRule, Swappable,
    SwappableAppRouter, TenentRouter,
};

fn rules(list: &[(&str, &str, &str)]) -> Vec<RouteRule> {
    list.iter().map(|(m, p, h)| RouteRule::new(m, p, h)).collect()
}

fn state() -> AppState<&'static str> {
    let router = SwappableAppRouter::try_new(&rules(&[("GET", "/api/hello", "hello")])).unwrap();
    AppState::new(
        vec![TenentRouter::new("localhost", router)],
        vec![("localhost".to_string(), Swappable::new("pool-v1"))],
    )
}

#[test]
fn host_port_is_stripped() {
    assert_eq!(normalize_host("localhost:5000"), "localhost");
    assert_eq!(normalize_host("localhost"), "localhost");
    assert_eq!(normalize_host(":80"), "");
    assert_eq!(normalize_host(""), "");
    assert_eq!(normalize_host("a:b:c"), "a");
}

#[test]
fn unknown_host_is_reported() {
    let s = state();
    assert_eq!(
        s.get_router_by_host("example.com:80").err(),
        Some(AppError::HostNotFound("example.com".to_string()))
    );
    assert_eq!(
        s.resolve("nope", "GET", "/api/hello").err(),
        Some(AppError::HostNotFound("nope".to_string()))
    );
}

#[test]
fn host_without_pool_is_not_found() {
    let router = SwappableAppRouter::try_new(&rules(&[("GET", "/", "i")])).unwrap();
    let s: AppState<u32> = AppState::new(vec![TenentRouter::new("a", router)], vec![]);
    assert_eq!(s.get_router_by_host("a").err(), Some(AppError::HostNotFound("a".to_string())));
}

#[test]
fn localhost_hello_end_to_end_routing() {
    let s = state();
    let (m, pool) = s.resolve("localhost:5000", "GET", "/api/hello").unwrap();
    assert_eq!(m.handler, "hello");
    assert_eq!(*pool, "pool-v1");
    let req = assemble_req(&m, "GET", "http://localhost/api/hello", vec![], vec![], None);
    assert_eq!(req.method, "GET");
    assert_eq!(req.url, "http://localhost/api/hello");
    assert_eq!(s.resolve("localhost", "POST", "/api/hello").err(), Some(AppError::MethodNotAllowed));
    assert_eq!(s.resolve("localhost", "GET", "/api").err(), Some(AppError::NotFound));
}

#[test]
fn last_registration_of_a_host_wins() {
    let r1 = SwappableAppRouter::try_new(&rules(&[("GET", "/", "first")])).unwrap();
    let r2 = SwappableAppRouter::try_new(&rules(&[("GET", "/", "second")])).unwrap();
    let s = AppState::new(
        vec![TenentRouter::new("h", r1), TenentRouter::new("h", r2)],
        vec![("h".to_string(), Swappable::new(1)), ("h".to_string(), Swappable::new(2))],
    );
    let (m, p) = s.resolve("h", "GET", "/").unwrap();
    assert_eq!(m.handler, "second");
    assert_eq!(*p, 2);
}

#[test]
fn swap_then_load_returns_new_value() {
    let mut h = Swappable::new(1u32);
    assert_eq!(*h.load(), 1);
    h.swap(2);
    assert_eq!(*h.load(), 2);
}

#[test]
fn loaded_snapshot_survives_swap() {
    let mut h = Swappable::new(String::from("v1"));
    let held = h.load();
    h.swap(String::from("v2"));
    assert_eq!(*held, "v1");
    assert_eq!(*h.load(), "v2");
}

#[test]
fn router_swap_publishes_new_routes() {
    let mut s = state();
    s.swap_router("localhost:1", &rules(&[("GET", "/api/bye", "bye")])).unwrap();
    assert_eq!(s.resolve("localhost", "GET", "/api/bye").unwrap().0.handler, "bye");
    assert_eq!(s.resolve("localhost", "GET", "/api/hello").err(), Some(AppError::NotFound));
}

#[test]
fn failed_router_swap_keeps_old_routes() {
    let mut s = state();
    let held: std::sync::Arc<AppRouter> = s.get_router_by_host("localhost").unwrap().0;
    assert_eq!(
        s.swap_router("localhost", &rules(&[("GET", "bad", "x")])),
        Err(AppError::ConfigError)
    );
    assert_eq!(s.resolve("localhost", "GET", "/api/hello").unwrap().0.handler, "hello");
    assert_eq!(held.match_it("GET", "/api/hello").unwrap().handler, "hello");
    assert_eq!(
        s.swap_router("other", &rules(&[("GET", "/", "x")])),
        Err(AppError::HostNotFound("other".to_string()))
    );
}

#[test]
fn pool_swap_keeps_in_flight_snapshot() {
    let mut s = state();
    let (_, old_pool) = s.resolve("localhost", "GET", "/api/hello").unwrap();
    let prev = s.swap_pool("localhost", "pool-v2").unwrap();
    assert_eq!(*prev, "pool-v1");
    let (_, new_pool) = s.resolve("localhost", "GET", "/api/hello").unwrap();
    assert_eq!(*old_pool, "pool-v1");
    assert_eq!(*new_pool, "pool-v2");
    assert_eq!(s.swap_pool("nope", "x"), Err(AppError::HostNotFound("nope".to_string())));
}

#[test]
fn swap_hands_back_previous_snapshot() {
    let mut h = Swappable::new(1u32);
    let prev = h.swap(2);
    assert_eq!(*prev, 1);
    assert_eq!(*h.load(), 2);
}

#[test]
fn tenant_swap_publishes_routes_and_pool_together() {
    let mut s = state();
    let prev = s.swap_tenant("localhost:5000", &rules(&[("GET", "/api/bye", "bye")]), "pool-v2").unwrap();
    assert_eq!(*prev, "pool-v1");
    let (m, p) = s.resolve("localhost", "GET", "/api/bye").unwrap();
    assert_eq!(m.handler, "bye");
    assert_eq!(*p, "pool-v2");
}

#[test]
fn failed_tenant_swap_changes_nothing() {
    let mut s = state();
    assert_eq!(
        s.swap_tenant("localhost", &rules(&[("GET", "no-slash", "x")]), "pool-v2"),
        Err(AppError::ConfigError)
    );
    let (m, p) = s.resolve("localhost", "GET", "/api/hello").unwrap();
    assert_eq!(m.handler, "hello");
    assert_eq!(*p, "pool-v1");
    assert_eq!(
        s.swap_tenant("other", &rules(&[("GET", "/", "x")]), "pool-v2"),
        Err(AppError::HostNotFound("other".to_string()))
    );
    assert_eq!(*s.resolve("localhost", "GET", "/api/hello").unwrap().1, "pool-v1");
}

#[test]
fn error_status_codes() {
    assert_eq!(AppError::HostNotFound("h".to_string()).status_code(), 404);
    assert_eq!(AppError::NotFound.status_code(), 404);
    assert_eq!(AppError::MethodNotAllowed.status_code(), 405);
    assert_eq!(AppError::EngineFault.status_code(), 502);
    assert_eq!(AppError::HandlerNotFound.status_code(), 502);
    assert_eq!(AppError::ConfigError.status_code(), 500);
}
