use web_middleware::http::{Headers, Method, Request, Response};
use web_middleware::middleware::{run_interceptors, AppHeaders, CacheDirective, Cached, CORS};

fn header(res: &Response, name: &str) -> Option<String> {
    res.headers.get(name).cloned()
}

fn request(method: Method, headers: Vec<(&str, &str)>) -> Request {
    let mut h = Headers::new();
    for (n, v) in headers {
        h.set(n, v);
    }
    Request { method, headers: h }
}

#[test]
fn security_headers_default_to_no_cache() {
    let mut res = Response::new(200);
    AppHeaders.on_response(&mut res);
    assert_eq!(header(&res, "Cache-Control").as_deref(), Some("no-cache, no-store, max-age=0"));
    assert_eq!(header(&res, "Referrer-Policy").as_deref(), Some("same-origin"));
    assert_eq!(header(&res, "X-Frame-Options").as_deref(), Some("SAMEORIGIN"));
    assert_eq!(header(&res, "X-Content-Type-Options").as_deref(), Some("nosniff"));
    assert_eq!(header(&res, "X-XSS-Protection").as_deref(), Some("1; mode=block"));
    assert_eq!(
        header(&res, "Content-Security-Policy").as_deref(),
        Some("frame-ancestors 'self' chrome-extension://nngceckbapebfimnlniiiahkandclblb moz-extension://*;")
    );
    let fp = header(&res, "feature-policy").unwrap();
    assert!(fp.starts_with("accelerometer 'none';"));
    assert!(fp.contains("sync-xhr 'self' https://haveibeenpwned.com https://twofactorauth.org"));
    assert_eq!(res.status, 200);
    assert!(res.body.is_none());
}

#[test]
fn long_cache_directive_survives_security_headers() {
    let cached = Cached::long(Response::new(200));
    assert_eq!(cached.directive, CacheDirective::Long);
    let produced: Result<Response, ()> = Ok(cached.inner);
    let mut res = cached.directive.respond_to(produced).unwrap();
    AppHeaders.on_response(&mut res);
    assert_eq!(header(&res, "Cache-Control").as_deref(), Some("public, max-age=604800"));
}

#[test]
fn short_cache_directive_overwrites_inner_value() {
    let mut inner = Response::new(404);
    inner.headers.set("cache-control", "private");
    let cached = Cached::short(inner);
    assert_eq!(cached.directive.value(), "public, max-age=600");
    let res = cached.directive.respond_to::<()>(Ok(cached.inner)).unwrap();
    assert_eq!(header(&res, "Cache-Control").as_deref(), Some("public, max-age=600"));
    assert_eq!(res.status, 404);
}

#[test]
fn cache_directive_passes_failure_through() {
    let r = CacheDirective::Long.respond_to::<&str>(Err("boom"));
    assert!(matches!(r, Err("boom")));
}

#[test]
fn cors_translates_file_origin() {
    let req = request(Method::Get, vec![("Origin", "file://")]);
    let mut res = Response::new(200);
    CORS.on_response(&req, &mut res);
    assert_eq!(header(&res, "Access-Control-Allow-Origin").as_deref(), Some("*"));
    assert!(header(&res, "Access-Control-Allow-Methods").is_none());
}

#[test]
fn cors_echoes_other_origins() {
    let req = request(Method::Post, vec![("origin", "https://vault.example.com")]);
    let mut res = Response::new(201);
    CORS.on_response(&req, &mut res);
    assert_eq!(
        header(&res, "Access-Control-Allow-Origin").as_deref(),
        Some("https://vault.example.com")
    );
    assert_eq!(res.status, 201);
    assert!(res.body.is_none());
    assert_eq!(CORS::valid_url("file:///".to_string()), "file:///");
    assert_eq!(CORS::valid_url("file://".to_string()), "*");
}

#[test]
fn cors_absent_origin_is_empty() {
    let req = request(Method::Get, vec![]);
    let mut res = Response::new(200);
    CORS.on_response(&req, &mut res);
    assert_eq!(header(&res, "Access-Control-Allow-Origin").as_deref(), Some(""));
}

#[test]
fn cors_preflight_answers_in_full() {
    let req = request(
        Method::Options,
        vec![
            ("Origin", "https://a.example"),
            ("Access-Control-Request-Method", "PUT"),
            ("Access-Control-Request-Headers", "X-Custom"),
        ],
    );
    let mut res = Response::new(404);
    CORS.on_response(&req, &mut res);
    assert_eq!(res.status, 200);
    assert_eq!(res.body.as_ref().map(|b| b.len()), Some(0));
    assert_eq!(header(&res, "Access-Control-Allow-Methods").as_deref(), Some("PUT"));
    assert_eq!(header(&res, "Access-Control-Allow-Headers").as_deref(), Some("X-Custom"));
    assert_eq!(header(&res, "Access-Control-Allow-Credentials").as_deref(), Some("true"));
    assert_eq!(header(&res, "Content-Type").as_deref(), Some("text/plain"));
    assert_eq!(header(&res, "Access-Control-Allow-Origin").as_deref(), Some("https://a.example"));
}

#[test]
fn header_names_ignore_ascii_case() {
    let mut h = Headers::new();
    h.set("X-Test", "1");
    h.set("x-test", "2");
    assert_eq!(h.get("X-TEST").map(|v| v.as_str()), Some("2"));
    assert!(h.contains("x-Test"));
    assert!(!h.contains("X-Other"));
    assert_eq!(h.entries().len(), 1);
    h.set("X-Other", "3");
    assert_eq!(h.entries().len(), 2);
    assert_eq!(h.get("x-other").map(|v| v.as_str()), Some("3"));
    assert_eq!(h.get("x-test").map(|v| v.as_str()), Some("2"));
}

#[test]
fn interceptor_chain_keeps_cache_directive_and_adds_cors() {
    let req = request(Method::Get, vec![("Origin", "file://")]);
    let mut res = CacheDirective::Long.respond_to::<()>(Ok(Response::new(200))).unwrap();
    run_interceptors(&req, &mut res);
    assert_eq!(header(&res, "Cache-Control").as_deref(), Some("public, max-age=604800"));
    assert_eq!(header(&res, "Access-Control-Allow-Origin").as_deref(), Some("*"));
    assert_eq!(header(&res, "X-Frame-Options").as_deref(), Some("SAMEORIGIN"));
    assert_eq!(res.status, 200);
}
