//! Gateway handlers: turning WSGI environments and ASGI scopes into requests
//! for an application callable, and its responses back into plain parts.

use vstd::prelude::*;
use crate::http::{pair_insert, path_and_query, query_entries, HttpMethod, PairsView, Request, Response};
use crate::text::{
    concat3, is_prefix, lowercase, owned, replace_char, replace_char_str, split_char, starts_with,
    str_eq, str_is_empty, string_from_range, chars_of, to_lowercase,
};
use vstd::utf8::encode_utf8;

verus! {

/// The method a gateway names; anything unknown is `GET`.
pub open spec fn gateway_method(name: Seq<char>) -> HttpMethod {
    if name == "POST"@ { HttpMethod::POST }
    else if name == "PUT"@ { HttpMethod::PUT }
    else if name == "PATCH"@ { HttpMethod::PATCH }
    else if name == "DELETE"@ { HttpMethod::DELETE }
    else if name == "HEAD"@ { HttpMethod::HEAD }
    else if name == "OPTIONS"@ { HttpMethod::OPTIONS }
    else { HttpMethod::GET }
}

fn method_named(name: &str) -> (r: HttpMethod)
    ensures
        r == gateway_method(name@),
{
    if str_eq(name, "POST") { HttpMethod::POST }
    else if str_eq(name, "PUT") { HttpMethod::PUT }
    else if str_eq(name, "PATCH") { HttpMethod::PATCH }
    else if str_eq(name, "DELETE") { HttpMethod::DELETE }
    else if str_eq(name, "HEAD") { HttpMethod::HEAD }
    else if str_eq(name, "OPTIONS") { HttpMethod::OPTIONS }
    else { HttpMethod::GET }
}

/// The path with its query string, joined by `?` when there is one.
pub open spec fn full_path(path: Seq<char>, query: Seq<char>) -> Seq<char> {
    if query.len() == 0 { path } else { path + "?"@ + query }
}

fn join_path(path: &str, query: &str) -> (r: String)
    ensures
        r@ == full_path(path@, query@),
{
    if str_is_empty(query) { owned(path) } else { concat3(path, "?", query) }
}

/// The value under `key` in environment pairs: the first pair with that key.
pub open spec fn env_lookup(env: Seq<(String, String)>, key: Seq<char>) -> Option<Seq<char>>
    decreases env.len(),
{
    if env.len() == 0 {
        None
    } else if env[0].0@ == key {
        Some(env[0].1@)
    } else {
        env_lookup(env.drop_first(), key)
    }
}

/// The value under `key`, or `default`.
pub open spec fn env_or(env: Seq<(String, String)>, key: Seq<char>, default: Seq<char>) -> Seq<char> {
    match env_lookup(env, key) {
        Some(v) => v,
        None => default,
    }
}

fn env_get<'a>(env: &'a Vec<(String, String)>, key: &str) -> (r: Option<&'a str>)
    ensures
        match env_lookup(env@, key@) {
            Some(v) => r matches Some(x) && x@ == v,
            None => r is None,
        },
{
    let mut i: usize = 0;
    assert(env@.skip(0) =~= env@);
    while i < env.len()
        invariant
            i <= env.len(),
            env_lookup(env@, key@) == env_lookup(env@.skip(i as int), key@),
        decreases env.len() - i,
    {
        assert(env@.skip(i as int).drop_first() =~= env@.skip(i + 1));
        assert(env@.skip(i as int)[0] == env@[i as int]);
        if str_eq(env[i].0.as_str(), key) {
            return Some(env[i].1.as_str());
        }
        i = i + 1;
    }
    assert(env@.skip(i as int).len() == 0);
    None
}

/// The header name an `HTTP_*` environment key stands for: the rest of the
/// key in lowercase, `_` turned into `-`.
pub open spec fn wsgi_header_name(key: Seq<char>) -> Seq<char> {
    replace_char(lowercase(key.subrange(5, key.len() as int)), '_', "-"@)
}

/// The request headers the `HTTP_*` entries of an environment give, in order.
pub open spec fn wsgi_http_headers(env: Seq<(String, String)>) -> PairsView
    decreases env.len(),
{
    if env.len() == 0 {
        Seq::empty()
    } else {
        let h = wsgi_http_headers(env.drop_last());
        let e = env.last();
        if is_prefix("HTTP_"@, e.0@) {
            pair_insert(h, lowercase(wsgi_header_name(e.0@)), e.1@)
        } else {
            h
        }
    }
}

/// The headers set from `key` when the environment has it.
pub open spec fn with_env_header(h: PairsView, env: Seq<(String, String)>, key: Seq<char>, name: Seq<char>) -> PairsView {
    match env_lookup(env, key) {
        Some(v) => pair_insert(h, lowercase(name), v),
        None => h,
    }
}

/// All request headers of an environment: the `HTTP_*` entries, then the
/// content type and the content length.
pub open spec fn wsgi_headers(env: Seq<(String, String)>) -> PairsView {
    with_env_header(
        with_env_header(wsgi_http_headers(env), env, "CONTENT_TYPE"@, "content-type"@),
        env, "CONTENT_LENGTH"@, "content-length"@)
}

/// The request path (with query string) an environment describes.
pub open spec fn wsgi_full_path(env: Seq<(String, String)>) -> Seq<char> {
    full_path(env_or(env, "PATH_INFO"@, "/"@), env_or(env, "QUERY_STRING"@, Seq::empty()))
}

/// The request an environment describes.
pub open spec fn wsgi_request(env: Seq<(String, String)>, r: Request) -> bool {
    &&& r.method == gateway_method(env_or(env, "REQUEST_METHOD"@, "GET"@))
    &&& r.path@ == path_and_query(wsgi_full_path(env)).0
    &&& r.query.wf()
    &&& r.query@ == query_entries(split_char(path_and_query(wsgi_full_path(env)).1, '&'))
    &&& r.headers@ == wsgi_headers(env)
    &&& r.body@ == match env_lookup(env, "wsgi.input"@) {
        Some(b) => encode_utf8(b),
        None => Seq::empty(),
    }
    &&& r.cookies@.len() == 0
    &&& r.session is None
    &&& r.user is None
    &&& r.extensions@.len() == 0
}

/// Converts a WSGI environment into a request.
pub fn environ_to_request(environ: &Vec<(String, String)>) -> (r: Request)
    ensures
        wsgi_request(environ@, r),
{
    proof { reveal_strlit(""); }
    let method = method_named(match env_get(environ, "REQUEST_METHOD") { Some(m) => m, None => "GET" });
    let path = match env_get(environ, "PATH_INFO") { Some(p) => p, None => "/" };
    let query = match env_get(environ, "QUERY_STRING") { Some(q) => q, None => "" };
    assert(query@ == env_or(environ@, "QUERY_STRING"@, Seq::empty()));
    let fp = join_path(path, query);
    assert(fp@ == wsgi_full_path(environ@));
    let mut req = Request::new(method, fp.as_str());
    assert(req.headers@ =~= wsgi_http_headers(environ@.take(0)));
    let mut i: usize = 0;
    while i < environ.len()
        invariant
            i <= environ.len(),
            req.headers@ == wsgi_http_headers(environ@.take(i as int)),
            req.method == gateway_method(env_or(environ@, "REQUEST_METHOD"@, "GET"@)),
            req.path@ == path_and_query(wsgi_full_path(environ@)).0,
            req.query.wf(),
            req.query@ == query_entries(split_char(path_and_query(wsgi_full_path(environ@)).1, '&')),
            req.body@.len() == 0,
            req.cookies@.len() == 0,
            req.session is None,
            req.user is None,
            req.extensions@.len() == 0,
        decreases environ.len() - i,
    {
        assert(environ@.take(i + 1).drop_last() =~= environ@.take(i as int));
        let key = environ[i].0.as_str();
        if starts_with(key, "HTTP_") {
            proof { reveal_strlit("HTTP_"); }
            let chars = chars_of(key);
            let rest = string_from_range(&chars, 5, chars.len());
            let low = to_lowercase(rest.as_str());
            let name = replace_char_str(low.as_str(), '_', "-");
            req.set_header(name.as_str(), environ[i].1.as_str());
        }
        i = i + 1;
    }
    assert(environ@.take(environ.len() as int) =~= environ@);
    match env_get(environ, "CONTENT_TYPE") {
        Some(ct) => { req.set_header("content-type", ct); },
        None => {},
    }
    match env_get(environ, "CONTENT_LENGTH") {
        Some(cl) => { req.set_header("content-length", cl); },
        None => {},
    }
    match env_get(environ, "wsgi.input") {
        Some(b) => { req.body = vstd::slice::slice_to_vec(b.as_bytes()); },
        None => {},
    }
    assert(req.headers@ == wsgi_headers(environ@));
    assert(req.method == gateway_method(env_or(environ@, "REQUEST_METHOD"@, "GET"@)));
    assert(req.path@ == path_and_query(wsgi_full_path(environ@)).0);
    assert(req.query.wf());
    assert(req.query@ == query_entries(split_char(path_and_query(wsgi_full_path(environ@)).1, '&')));
    assert(req.body@ == match env_lookup(environ@, "wsgi.input"@) {
        Some(b) => encode_utf8(b),
        None => Seq::empty(),
    });
    assert(req.cookies@.len() == 0);
    req
}

/// The (name, value) pairs of a response's headers, in order.
pub open spec fn header_pairs(h: PairsView, r: Seq<(String, String)>) -> bool {
    r.map_values(|p: (String, String)| (p.0@, p.1@)) == h
}

fn pairs_of(h: &crate::http::HeaderMap) -> (r: Vec<(String, String)>)
    ensures
        header_pairs(h@, r@),
{
    let mut r: Vec<(String, String)> = Vec::new();
    let mut i: usize = 0;
    while i < h.len()
        invariant
            i <= h@.len(),
            r@.map_values(|p: (String, String)| (p.0@, p.1@)) == h@.take(i as int),
        decreases h@.len() - i,
    {
        let p = (owned(h.key_at(i)), owned(h.value_at(i)));
        let ghost before = r@;
        r.push(p);
        assert(r@.map_values(|p: (String, String)| (p.0@, p.1@)) =~= before.map_values(|p: (String, String)| (p.0@, p.1@)).push((p.0@, p.1@)));
        assert(h@.take(i + 1) =~= h@.take(i as int).push(h@[i as int]));
        i = i + 1;
    }
    assert(h@.take(h@.len() as int) =~= h@);
    r
}

/// A WSGI handler: wraps an application callable for WSGI servers.
pub struct WSGIHandler<H> {
    handler: H,
}

impl<H: Fn(Request) -> Response> WSGIHandler<H> {
    /// The application callable.
    pub closed spec fn app(&self) -> H {
        self.handler
    }

    /// A handler for `handler`.
    pub fn new(handler: H) -> (r: Self)
        ensures
            r.app() == handler,
    {
        WSGIHandler { handler }
    }

    /// A handler for the function `f`.
    pub fn from_fn(f: H) -> (r: Self)
        ensures
            r.app() == f,
    {
        WSGIHandler { handler: f }
    }

    /// The callable interface for WSGI servers: runs the application on the
    /// request the environment describes and answers the status, the
    /// response headers and the body.
    pub fn __call__(&self, environ: &Vec<(String, String)>) -> (r: (i32, Vec<(String, String)>, Vec<u8>))
        requires
            forall|req: Request| self.app().requires((req,)),
        ensures
            exists|req: Request, resp: Response| wsgi_request(environ@, req) && self.app().ensures((req,), resp)
                && r.0 == resp.status.code() as i32 && header_pairs(resp.headers@, r.1@) && r.2@ == resp.body@,
    {
        let request = environ_to_request(environ);
        let ghost req = request;
        assert(self.app().requires((request,)));
        let response = (self.handler)(request);
        let status = response.status_code() as i32;
        let headers = pairs_of(&response.headers);
        let body = vstd::slice::slice_to_vec(response.body.as_slice());
        assert(wsgi_request(environ@, req) && self.app().ensures((req,), response)
            && status == response.status.code() as i32 && header_pairs(response.headers@, headers@) && body@ == response.body@);
        (status, headers, body)
    }
}

/// An ASGI HTTP scope, as the handler reads it: the method, path and query
/// string when they are strings, and the header list when it is an array,
/// each entry an array (or not) of strings (or not).
#[derive(Debug, Clone)]
pub struct AsgiScope {
    pub method: Option<String>,
    pub path: Option<String>,
    pub query_string: Option<String>,
    pub headers: Option<Vec<Option<Vec<Option<String>>>>>,
}

/// The headers an ASGI header list sets: each entry that is an array of at
/// least two items whose first two are strings, in order.
pub open spec fn asgi_headers(h: PairsView, entries: Seq<Option<Vec<Option<String>>>>) -> PairsView
    decreases entries.len(),
{
    if entries.len() == 0 {
        h
    } else {
        let prev = asgi_headers(h, entries.drop_last());
        match entries.last() {
            Some(items) => if items@.len() >= 2 {
                match (items@[0], items@[1]) {
                    (Some(k), Some(v)) => pair_insert(prev, lowercase(k@), v@),
                    _ => prev,
                }
            } else {
                prev
            },
            None => prev,
        }
    }
}

/// The text of an optional string, or `default`.
pub open spec fn opt_or(o: Option<String>, default: Seq<char>) -> Seq<char> {
    match o {
        Some(s) => s@,
        None => default,
    }
}

/// The request path (with query string) a scope describes.
pub open spec fn asgi_full_path(scope: AsgiScope) -> Seq<char> {
    full_path(opt_or(scope.path, "/"@), opt_or(scope.query_string, Seq::empty()))
}

/// The request a scope describes.
pub open spec fn asgi_request(scope: AsgiScope, r: Request) -> bool {
    &&& r.method == gateway_method(opt_or(scope.method, "GET"@))
    &&& r.path@ == path_and_query(asgi_full_path(scope)).0
    &&& r.query.wf()
    &&& r.query@ == query_entries(split_char(path_and_query(asgi_full_path(scope)).1, '&'))
    &&& r.headers@ == match scope.headers {
        Some(entries) => asgi_headers(Seq::empty(), entries@),
        None => Seq::empty(),
    }
    &&& r.body@.len() == 0
    &&& r.cookies@.len() == 0
    &&& r.session is None
    &&& r.user is None
    &&& r.extensions@.len() == 0
}

fn opt_str<'a>(o: &'a Option<String>, default: &'a str) -> (r: &'a str)
    ensures
        r@ == opt_or(*o, default@),
{
    match o {
        Some(s) => s.as_str(),
        None => default,
    }
}

/// Converts an ASGI scope into a request.
pub fn scope_to_request(scope: &AsgiScope) -> (r: Request)
    ensures
        asgi_request(*scope, r),
{
    proof { reveal_strlit(""); }
    let method = method_named(opt_str(&scope.method, "GET"));
    let q = opt_str(&scope.query_string, "");
    assert(q@ == opt_or(scope.query_string, Seq::empty()));
    let fp = join_path(opt_str(&scope.path, "/"), q);
    assert(fp@ == asgi_full_path(*scope));
    let mut req = Request::new(method, fp.as_str());
    match &scope.headers {
        Some(entries) => {
            assert(req.headers@ =~= asgi_headers(Seq::empty(), entries@.take(0)));
            let mut i: usize = 0;
            while i < entries.len()
                invariant
                    i <= entries.len(),
                    req.headers@ == asgi_headers(Seq::empty(), entries@.take(i as int)),
                    req.method == gateway_method(opt_or(scope.method, "GET"@)),
                    req.path@ == path_and_query(asgi_full_path(*scope)).0,
                    req.query.wf(),
                    req.query@ == query_entries(split_char(path_and_query(asgi_full_path(*scope)).1, '&')),
                    req.body@.len() == 0,
                    req.cookies@.len() == 0,
                    req.session is None,
                    req.user is None,
                    req.extensions@.len() == 0,
                decreases entries.len() - i,
            {
                assert(entries@.take(i + 1).drop_last() =~= entries@.take(i as int));
                match &entries[i] {
                    Some(items) => {
                        if items.len() >= 2 {
                            match (&items[0], &items[1]) {
                                (Some(k), Some(v)) => { req.set_header(k.as_str(), v.as_str()); },
                                _ => {},
                            }
                        }
                    },
                    None => {},
                }
                i = i + 1;
            }
            assert(entries@.take(entries.len() as int) =~= entries@);
        },
        None => {
            assert(req.headers@ =~= Seq::<(Seq<char>, Seq<char>)>::empty());
        },
    }
    req
}

/// An ASGI handler: wraps an application callable for ASGI servers.
pub struct ASGIHandler<H> {
    handler: H,
}

impl<H: Fn(Request) -> Response> ASGIHandler<H> {
    /// The application callable.
    pub closed spec fn app(&self) -> H {
        self.handler
    }

    /// A handler for `handler`.
    pub fn new(handler: H) -> (r: Self)
        ensures
            r.app() == handler,
    {
        ASGIHandler { handler }
    }

    /// A handler for the function `f`.
    pub fn from_fn(f: H) -> (r: Self)
        ensures
            r.app() == f,
    {
        ASGIHandler { handler: f }
    }

    /// Runs the application on the request an HTTP scope describes.
    pub fn handle_http(&self, scope: &AsgiScope) -> (r: Response)
        requires
            forall|req: Request| self.app().requires((req,)),
        ensures
            exists|req: Request| asgi_request(*scope, req) && self.app().ensures((req,), r),
    {
        let req = scope_to_request(scope);
        let ghost r0 = req;
        assert(self.app().requires((req,)));
        let resp = (self.handler)(req);
        assert(asgi_request(*scope, r0) && self.app().ensures((r0,), resp));
        resp
    }
}

/// A WSGI handler for `handler`.
pub fn get_wsgi_handler<H: Fn(Request) -> Response>(handler: H) -> (r: WSGIHandler<H>)
    ensures
        r.app() == handler,
{
    WSGIHandler::new(handler)
}

/// An ASGI handler for `handler`.
pub fn get_asgi_handler<H: Fn(Request) -> Response>(handler: H) -> (r: ASGIHandler<H>)
    ensures
        r.app() == handler,
{
    ASGIHandler::new(handler)
}

} // verus!
