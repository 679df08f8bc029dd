//! Security headers and HTTPS redirection.

use vstd::prelude::*;
use crate::errors::RjangoError;
use crate::http::{default_headers, multi_lookup, pair_insert, pair_lookup, Request, Response};
use crate::middleware::Middleware;
use crate::text::{concat2, concat3, join, join_strings, lowercase, nat_str, owned, str_eq, str_is_empty, u64_to_string, views};

verus! {

/// Adds HSTS, nosniff, XSS-filter, referrer and opener policies, and
/// redirects plain HTTP to HTTPS when configured.
#[derive(Debug, Clone)]
pub struct SecurityMiddleware {
    /// `SECURE_SSL_REDIRECT`.
    pub ssl_redirect: bool,
    /// `SECURE_HSTS_SECONDS`; 0 sends no HSTS header.
    pub hsts_seconds: u64,
    /// `SECURE_HSTS_INCLUDE_SUBDOMAINS`.
    pub hsts_include_subdomains: bool,
    /// `SECURE_HSTS_PRELOAD`.
    pub hsts_preload: bool,
    /// `SECURE_CONTENT_TYPE_NOSNIFF`.
    pub content_type_nosniff: bool,
    /// `SECURE_BROWSER_XSS_FILTER`.
    pub browser_xss_filter: bool,
    /// `SECURE_REFERRER_POLICY`; empty sends none.
    pub referrer_policy: String,
    /// `SECURE_CROSS_ORIGIN_OPENER_POLICY`; empty sends none.
    pub cross_origin_opener_policy: String,
}

impl Default for SecurityMiddleware {
    /// The settings when none is given: nosniff on, referrer policy
    /// `same-origin`, everything else off.
    fn default() -> (r: Self)
        ensures
            !r.ssl_redirect,
            r.hsts_seconds == 0,
            !r.hsts_include_subdomains,
            !r.hsts_preload,
            r.content_type_nosniff,
            !r.browser_xss_filter,
            r.referrer_policy@ == "same-origin"@,
            r.cross_origin_opener_policy@ == ""@,
    {
        SecurityMiddleware {
            ssl_redirect: false,
            hsts_seconds: 0,
            hsts_include_subdomains: false,
            hsts_preload: false,
            content_type_nosniff: true,
            browser_xss_filter: false,
            referrer_policy: owned("same-origin"),
            cross_origin_opener_policy: owned(""),
        }
    }
}

/// `key=value` for each entry of a query whose key has a value (its first).
pub open spec fn query_parts(s: Seq<(Seq<char>, Seq<Seq<char>>)>, n: int) -> Seq<Seq<char>>
    decreases n,
{
    if n <= 0 {
        Seq::empty()
    } else {
        let acc = query_parts(s, n - 1);
        match multi_lookup(s, s[n - 1].0) {
            Some(vs) => if vs.len() > 0 { acc.push(s[n - 1].0 + "="@ + vs[0]) } else { acc },
            None => acc,
        }
    }
}

/// The scheme a request came in with, as the proxy headers say (`http`
/// when they say nothing).
pub open spec fn forwarded_scheme(headers: Seq<(Seq<char>, Seq<char>)>) -> Seq<char> {
    match pair_lookup(headers, lowercase("x-forwarded-proto"@)) {
        Some(v) => v,
        None => match pair_lookup(headers, lowercase("x-forwarded-scheme"@)) {
            Some(v) => v,
            None => "http"@,
        },
    }
}

/// The HTTPS address of a request: its host (`localhost` when absent), its
/// path and its query.
pub open spec fn https_url(request: Request) -> Seq<char> {
    let host = match pair_lookup(request.headers@, lowercase("host"@)) {
        Some(v) => v,
        None => "localhost"@,
    };
    let qs = if request.query@.len() > 0 {
        "?"@ + join(query_parts(request.query@, request.query@.len() as int), "&"@)
    } else {
        ""@
    };
    "https://"@ + host + request.path@ + qs
}

/// The `Strict-Transport-Security` value.
pub open spec fn hsts_value(m: SecurityMiddleware) -> Seq<char> {
    "max-age="@ + nat_str(m.hsts_seconds as nat)
        + (if m.hsts_include_subdomains { "; includeSubDomains"@ } else { ""@ })
        + (if m.hsts_preload { "; preload"@ } else { ""@ })
}

/// `headers` with `name` set to `value` unless already present.
pub open spec fn insert_absent(headers: Seq<(Seq<char>, Seq<char>)>, name: Seq<char>, value: Seq<char>) -> Seq<(Seq<char>, Seq<char>)> {
    if pair_lookup(headers, lowercase(name)) is Some { headers } else { pair_insert(headers, lowercase(name), value) }
}

/// The headers after the security headers are added, in the order the
/// middleware adds them.
pub open spec fn security_headers(m: SecurityMiddleware, h: Seq<(Seq<char>, Seq<char>)>) -> Seq<(Seq<char>, Seq<char>)> {
    let h1 = if m.content_type_nosniff { pair_insert(h, lowercase("x-content-type-options"@), "nosniff"@) } else { h };
    let h2 = if m.browser_xss_filter { insert_absent(h1, "x-xss-protection"@, "1; mode=block"@) } else { h1 };
    let h3 = if m.referrer_policy@.len() > 0 { insert_absent(h2, "referrer-policy"@, m.referrer_policy@) } else { h2 };
    let h4 = if m.cross_origin_opener_policy@.len() > 0 {
        insert_absent(h3, "cross-origin-opener-policy"@, m.cross_origin_opener_policy@)
    } else {
        h3
    };
    if m.hsts_seconds > 0 { insert_absent(h4, "strict-transport-security"@, hsts_value(m)) } else { h4 }
}

fn set_if_absent(response: &mut Response, name: &str, value: &str)
    ensures
        final(response).headers@ == insert_absent(old(response).headers@, name@, value@),
        final(response).status == old(response).status,
        final(response).body == old(response).body,
        final(response).cookies == old(response).cookies,
{
    if response.header(name).is_none() {
        response.set_header(name, value);
    }
}

impl SecurityMiddleware {
    fn query_string(request: &Request) -> (r: String)
        ensures
            r@ == (if request.query@.len() > 0 {
                "?"@ + join(query_parts(request.query@, request.query@.len() as int), "&"@)
            } else {
                ""@
            }),
    {
        if request.query.is_empty() {
            return owned("");
        }
        let keys = request.query.keys();
        let ghost s = request.query@;
        let mut parts: Vec<String> = Vec::new();
        let mut i: usize = 0;
        while i < keys.len()
            invariant
                i <= keys@.len(),
                keys@.len() == s.len(),
                s == request.query@,
                forall|j: int| 0 <= j < keys@.len() ==> keys@[j]@ == s[j].0,
                views(parts@) == query_parts(s, i as int),
            decreases keys.len() - i,
        {
            let k = keys[i].as_str();
            match request.query.first_value(k) {
                Some(v) => {
                    let ghost before = views(parts@);
                    parts.push(concat3(k, "=", v));
                    assert(views(parts@) =~= before.push(s[i as int].0 + "="@ + v@));
                },
                None => {},
            }
            i = i + 1;
        }
        concat2("?", join_strings(&parts, "&").as_str())
    }
}

impl Middleware for SecurityMiddleware {
    fn process_request(&self, request: &mut Request) -> (r: Result<Option<Response>, RjangoError>)
        ensures
            *final(request) == *old(request),
            (self.ssl_redirect && forwarded_scheme(old(request).headers@) == "http"@) ==> (r matches Ok(Some(resp))
                && resp.status.code() == 301
                && resp.headers@ == pair_insert(default_headers(), "location"@, https_url(*old(request)))),
            !(self.ssl_redirect && forwarded_scheme(old(request).headers@) == "http"@) ==> r matches Ok(None),
    {
        if self.ssl_redirect {
            let scheme = match request.header("x-forwarded-proto") {
                Some(v) => v,
                None => match request.header("x-forwarded-scheme") {
                    Some(v) => v,
                    None => "http",
                },
            };
            if str_eq(scheme, "http") {
                let host = match request.header("host") {
                    Some(v) => v,
                    None => "localhost",
                };
                let qs = Self::query_string(request);
                let mut url = concat3("https://", host, request.path.as_str());
                url.append(qs.as_str());
                return Ok(Some(Response::redirect(url.as_str(), true)));
            }
        }
        Ok(None)
    }

    fn process_response(&self, request: &Request, response: &mut Response) -> (r: Result<(), RjangoError>)
        ensures
            r is Ok,
            final(response).headers@ == security_headers(*self, old(response).headers@),
            final(response).status == old(response).status,
            final(response).body == old(response).body,
            final(response).cookies == old(response).cookies,
    {
        if self.content_type_nosniff {
            response.set_header("x-content-type-options", "nosniff");
        }
        if self.browser_xss_filter {
            set_if_absent(response, "x-xss-protection", "1; mode=block");
        }
        if !str_is_empty(self.referrer_policy.as_str()) {
            set_if_absent(response, "referrer-policy", self.referrer_policy.as_str());
        }
        if !str_is_empty(self.cross_origin_opener_policy.as_str()) {
            set_if_absent(response, "cross-origin-opener-policy", self.cross_origin_opener_policy.as_str());
        }
        if self.hsts_seconds > 0 {
            let mut hsts = concat2("max-age=", u64_to_string(self.hsts_seconds).as_str());
            if self.hsts_include_subdomains {
                hsts.append("; includeSubDomains");
            }
            if self.hsts_preload {
                hsts.append("; preload");
            }
            proof { reveal_strlit(""); }
            assert(hsts@ == hsts_value(*self));
            set_if_absent(response, "strict-transport-security", hsts.as_str());
        }
        Ok(())
    }
}

} // verus!
