//! The response interceptors: hardening headers, CORS and cache directives.
use vstd::prelude::*;
use vstd::string::StringExecFns;
use crate::http::{header_key, Headers, Method, Request, Response};
use crate::text::str_eq;

verus! {

pub const FEATURE_POLICY: &'static str = "accelerometer 'none'; ambient-light-sensor 'none'; autoplay 'none'; camera 'none'; encrypted-media 'none'; fullscreen 'none'; geolocation 'none'; gyroscope 'none'; magnetometer 'none'; microphone 'none'; midi 'none'; payment 'none'; picture-in-picture 'none'; sync-xhr 'self' https://haveibeenpwned.com https://twofactorauth.org; usb 'none'; vr 'none'";

pub const CONTENT_SECURITY_POLICY: &'static str = "frame-ancestors 'self' chrome-extension://nngceckbapebfimnlniiiahkandclblb moz-extension://*;";

pub const NO_CACHE: &'static str = "no-cache, no-store, max-age=0";

pub const CACHE_LONG: &'static str = "public, max-age=604800";

pub const CACHE_SHORT: &'static str = "public, max-age=600";

/// The headers the security interceptor sets on every response, before its
/// cache default.
pub open spec fn hardened(m: Map<Seq<char>, Seq<char>>) -> Map<Seq<char>, Seq<char>> {
    m.insert(header_key("Feature-Policy"@), FEATURE_POLICY@).insert(
        header_key("Referrer-Policy"@),
        "same-origin"@,
    ).insert(header_key("X-Frame-Options"@), "SAMEORIGIN"@).insert(
        header_key("X-Content-Type-Options"@),
        "nosniff"@,
    ).insert(header_key("X-XSS-Protection"@), "1; mode=block"@).insert(
        header_key("Content-Security-Policy"@),
        CONTENT_SECURITY_POLICY@,
    )
}

/// The security interceptor's result: the hardening headers, and the
/// no-cache default where no cache directive is set.
pub open spec fn secured(m: Map<Seq<char>, Seq<char>>) -> Map<Seq<char>, Seq<char>> {
    let h = hardened(m);
    if h.contains_key(header_key("Cache-Control"@)) {
        h
    } else {
        h.insert(header_key("Cache-Control"@), NO_CACHE@)
    }
}

/// Sets the hardening headers on every response.
pub struct AppHeaders;

impl AppHeaders {
    /// Sets the hardening headers and, where the response carries no
    /// `Cache-Control` header, the no-cache default. Status and body stay.
    pub fn on_response(&self, res: &mut Response)
        ensures
            final(res).headers@ == secured(old(res).headers@),
            final(res).status == old(res).status,
            final(res).body == old(res).body,
    {
        res.headers.set("Feature-Policy", FEATURE_POLICY);
        res.headers.set("Referrer-Policy", "same-origin");
        res.headers.set("X-Frame-Options", "SAMEORIGIN");
        res.headers.set("X-Content-Type-Options", "nosniff");
        res.headers.set("X-XSS-Protection", "1; mode=block");
        res.headers.set("Content-Security-Policy", CONTENT_SECURITY_POLICY);
        if !res.headers.contains("Cache-Control") {
            res.headers.set("Cache-Control", NO_CACHE);
        }
    }
}

/// The origin a response allows: the request's own, except that a local
/// file context (`file://`) allows every origin.
pub open spec fn allowed_origin(origin: Seq<char>) -> Seq<char> {
    if origin == "file://"@ {
        "*"@
    } else {
        origin
    }
}

/// The value of a request header, or the empty string where it is absent.
pub open spec fn header_or_empty(m: Map<Seq<char>, Seq<char>>, name: Seq<char>) -> Seq<char> {
    if m.contains_key(header_key(name)) {
        m[header_key(name)]
    } else {
        Seq::empty()
    }
}

/// The CORS headers set on the response to `req`.
pub open spec fn cors_headers(
    req: Map<Seq<char>, Seq<char>>,
    preflight: bool,
    m: Map<Seq<char>, Seq<char>>,
) -> Map<Seq<char>, Seq<char>> {
    let m1 = m.insert(
        header_key("Access-Control-Allow-Origin"@),
        allowed_origin(header_or_empty(req, "Origin"@)),
    );
    if preflight {
        m1.insert(
            header_key("Access-Control-Allow-Methods"@),
            header_or_empty(req, "Access-Control-Request-Method"@),
        ).insert(
            header_key("Access-Control-Allow-Headers"@),
            header_or_empty(req, "Access-Control-Request-Headers"@),
        ).insert(header_key("Access-Control-Allow-Credentials"@), "true"@).insert(
            header_key("Content-Type"@),
            "text/plain"@,
        )
    } else {
        m1
    }
}

/// Answers cross-origin requests, preflight ones in full.
#[allow(non_camel_case_types)]
pub struct CORS;

impl CORS {
    /// The value of header `name` in `headers`, or the empty string.
    pub fn get_header(headers: &Headers, name: &str) -> (r: String)
        ensures
            r@ == header_or_empty(headers@, name@),
    {
        match headers.get(name) {
            Some(h) => h.clone(),
            None => String::new(),
        }
    }

    /// The origin to allow for a request from `url`.
    pub fn valid_url(url: String) -> (r: String)
        ensures
            r@ == allowed_origin(url@),
    {
        if str_eq(url.as_str(), "file://") {
            String::from_str("*")
        } else {
            url
        }
    }

    /// Allows the request's origin; for a preflight (`OPTIONS`) request also
    /// echoes the requested method and headers, allows credentials, and
    /// answers 200 with an empty plain-text body.
    pub fn on_response(&self, req: &Request, res: &mut Response)
        ensures
            final(res).headers@ == cors_headers(
                req.headers@,
                req.method == Method::Options,
                old(res).headers@,
            ),
            req.method == Method::Options ==> final(res).status == 200,
            req.method == Method::Options ==> (final(res).body matches Some(b) && b@.len() == 0),
            req.method != Method::Options ==> final(res).status == old(res).status,
            req.method != Method::Options ==> final(res).body == old(res).body,
    {
        let origin = CORS::valid_url(CORS::get_header(&req.headers, "Origin"));
        res.headers.set("Access-Control-Allow-Origin", origin.as_str());
        if req.method == Method::Options {
            let allow_headers = CORS::get_header(&req.headers, "Access-Control-Request-Headers");
            let allow_method = CORS::get_header(&req.headers, "Access-Control-Request-Method");
            res.headers.set("Access-Control-Allow-Methods", allow_method.as_str());
            res.headers.set("Access-Control-Allow-Headers", allow_headers.as_str());
            res.headers.set("Access-Control-Allow-Credentials", "true");
            res.status = 200;
            res.headers.set("Content-Type", "text/plain");
            res.body = Some(Vec::new());
        }
    }
}

/// The interceptor chain in its fixed order: the security headers first,
/// then CORS.
pub fn run_interceptors(req: &Request, res: &mut Response)
    ensures
        final(res).headers@ == cors_headers(
            req.headers@,
            req.method == Method::Options,
            secured(old(res).headers@),
        ),
        req.method == Method::Options ==> final(res).status == 200,
        req.method == Method::Options ==> (final(res).body matches Some(b) && b@.len() == 0),
        req.method != Method::Options ==> final(res).status == old(res).status,
        req.method != Method::Options ==> final(res).body == old(res).body,
{
    AppHeaders.on_response(res);
    CORS.on_response(req, res);
}

/// An explicit cache policy for a response.
#[derive(Clone, Copy, Debug, PartialEq, Eq, Structural)]
pub enum CacheDirective {
    /// Ten minutes.
    Short,
    /// Seven days.
    Long,
}

impl CacheDirective {
    pub open spec fn value_spec(self) -> Seq<char> {
        match self {
            CacheDirective::Short => CACHE_SHORT@,
            CacheDirective::Long => CACHE_LONG@,
        }
    }

    /// The `Cache-Control` value of this directive.
    pub fn value(&self) -> (r: &'static str)
        ensures
            r@ == self.value_spec(),
    {
        match self {
            CacheDirective::Short => CACHE_SHORT,
            CacheDirective::Long => CACHE_LONG,
        }
    }

    /// Writes the directive over any `Cache-Control` value of a produced
    /// response; a failure passes through unchanged.
    pub fn respond_to<E>(self, produced: Result<Response, E>) -> (r: Result<Response, E>)
        ensures
            produced is Err ==> r == produced,
            produced is Ok <==> r is Ok,
            r matches Ok(res) ==> res.headers@ == produced->Ok_0.headers@.insert(
                header_key("Cache-Control"@),
                self.value_spec(),
            ),
            r matches Ok(res) ==> res.status == produced->Ok_0.status,
            r matches Ok(res) ==> res.body == produced->Ok_0.body,
    {
        match produced {
            Ok(mut res) => {
                res.headers.set("Cache-Control", self.value());
                Ok(res)
            },
            Err(e) => Err(e),
        }
    }
}

/// A response producer together with the cache directive that its response
/// will carry.
pub struct Cached<R> {
    pub inner: R,
    pub directive: CacheDirective,
}

impl<R> Cached<R> {
    /// Cache for seven days.
    pub fn long(r: R) -> (c: Cached<R>)
        ensures
            c.inner == r,
            c.directive == CacheDirective::Long,
    {
        Cached { inner: r, directive: CacheDirective::Long }
    }

    /// Cache for ten minutes.
    pub fn short(r: R) -> (c: Cached<R>)
        ensures
            c.inner == r,
            c.directive == CacheDirective::Short,
    {
        Cached { inner: r, directive: CacheDirective::Short }
    }
}

proof fn lemma_hardened_keeps_cache_control(m: Map<Seq<char>, Seq<char>>)
    ensures
        hardened(m).contains_key(header_key("Cache-Control"@)) == m.contains_key(
            header_key("Cache-Control"@),
        ),
        m.contains_key(header_key("Cache-Control"@)) ==> hardened(m)[header_key(
            "Cache-Control"@,
        )] == m[header_key("Cache-Control"@)],
{
    reveal_strlit("Cache-Control");
    reveal_strlit("Feature-Policy");
    reveal_strlit("Referrer-Policy");
    reveal_strlit("X-Frame-Options");
    reveal_strlit("X-Content-Type-Options");
    reveal_strlit("X-XSS-Protection");
    reveal_strlit("Content-Security-Policy");
    let cc = header_key("Cache-Control"@);
    assert(cc.len() == 13);
    assert(header_key("Feature-Policy"@).len() == 14);
    assert(header_key("Referrer-Policy"@).len() == 15);
    assert(header_key("X-Frame-Options"@).len() == 15);
    assert(header_key("X-Content-Type-Options"@).len() == 22);
    assert(header_key("X-XSS-Protection"@).len() == 16);
    assert(header_key("Content-Security-Policy"@).len() == 23);
}

/// Without a `Cache-Control` header, the security interceptor sets the
/// no-cache default; a cache directive written before it (as `Cached`
/// responses carry) stays as it was.
pub proof fn lemma_cache_directive_survives(m: Map<Seq<char>, Seq<char>>, d: CacheDirective)
    ensures
        !m.contains_key(header_key("Cache-Control"@)) ==> secured(m)[header_key(
            "Cache-Control"@,
        )] == NO_CACHE@,
        secured(m.insert(header_key("Cache-Control"@), d.value_spec()))[header_key(
            "Cache-Control"@,
        )] == d.value_spec(),
{
    lemma_hardened_keeps_cache_control(m);
    lemma_hardened_keeps_cache_control(
        m.insert(header_key("Cache-Control"@), d.value_spec()),
    );
}

} // verus!
