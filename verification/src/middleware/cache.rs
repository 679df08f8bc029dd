//! Page cache middleware: which responses are stored, the text a response
//! is stored as, the cache key of a request, and the response served from
//! a stored text. The cache itself is held by the caller.

use vstd::prelude::*;
use vstd::utf8::encode_utf8;
use crate::http::{
    eq_ignore_ascii_case, pair_insert, pair_lookup, str_eq_ignore_ascii_case, utf8_lossy, HttpMethod, PairsView,
    Request, Response, StatusCode, default_headers,
};
use crate::json::{first_entry, JsonValue};
use crate::orm::fields::{json_quote, json_quoted};
use crate::serializers::{entry_views, json_object_parsed, parse_json_object};
use crate::text::{concat2, contains_seq, contains_str, join, join_strings, lowercase, nat_str, owned, parse_u64, parse_u64_str, u64_to_string, views};

verus! {

/// Tries to answer a request from the page cache; placed first in the stack.
#[derive(Debug, Clone, Copy)]
pub struct FetchFromCacheMiddleware;

/// Stores successful responses in the page cache; placed last in the stack.
#[derive(Debug, Clone, Copy)]
pub struct UpdateCacheMiddleware;

/// The prefix of cache keys when none is configured.
pub const CACHE_MIDDLEWARE_KEY_PREFIX: &'static str = "views.decorators.cache";

/// The seconds a page stays cached when none is configured.
pub const CACHE_MIDDLEWARE_SECONDS: u64 = 600;

/// The session's key as the session stores it (`_session_key`), empty when
/// there is no session or no such string.
pub open spec fn session_key_part(session: Option<Vec<(String, JsonValue)>>) -> Seq<char> {
    match session {
        Some(es) => match first_entry(es@, "_session_key"@) {
            Some(i) => match es@[i].1 {
                JsonValue::String(s) => s@,
                _ => ""@,
            },
            None => ""@,
        },
        None => ""@,
    }
}

/// The cache key of a request: prefix, method, path and session key,
/// separated by dots.
pub open spec fn cache_key_text(prefix: Seq<char>, request: Request) -> Seq<char> {
    prefix + "."@ + request.method.spec_str() + "."@ + request.path@ + "."@ + session_key_part(request.session)
}

/// The cache key of `request` under `prefix` (see [`cache_key_text`]).
pub fn make_cache_key(prefix: &str, request: &Request) -> (r: String)
    ensures
        r@ == cache_key_text(prefix@, *request),
{
    let part: &str = match &request.session {
        Some(es) => match session_string(es, "_session_key") {
            Some(s) => s,
            None => "",
        },
        None => "",
    };
    proof { reveal_strlit(""); }
    assert(part@ == session_key_part(request.session));
    let mut r = owned(prefix);
    r.append(".");
    r.append(request.method.as_str());
    r.append(".");
    r.append(request.path.as_str());
    r.append(".");
    r.append(part);
    assert(r@ =~= cache_key_text(prefix@, *request));
    r
}

/// The string stored under `key` in entries (the first entry with that
/// key), or `None` when there is none or it is not a string.
fn session_string<'a>(es: &'a Vec<(String, JsonValue)>, key: &str) -> (r: Option<&'a str>)
    ensures
        match first_entry(es@, key@) {
            Some(i) => match es@[i].1 {
                JsonValue::String(s) => r matches Some(t) && t@ == s@,
                _ => r is None,
            },
            None => r is None,
        },
{
    let mut i: usize = 0;
    while i < es.len()
        invariant
            i <= es@.len(),
            forall|j: int| 0 <= j < i ==> es@[j].0@ != key@,
        decreases es.len() - i,
    {
        if crate::text::str_eq(es[i].0.as_str(), key) {
            proof { crate::json::lemma_first_entry_at(es@, key@, i as int); }
            return es[i].1.as_str();
        }
        i = i + 1;
    }
    proof { crate::json::lemma_first_entry_at(es@, key@, i as int); }
    None
}

/// A response to a request with `method` is stored: the method is GET or
/// HEAD, the status is 200 to 399, and no `cache-control` header says
/// `no-store` or `private`.
pub open spec fn cacheable(method: HttpMethod, status: u16, headers: PairsView) -> bool {
    &&& (method is GET || method is HEAD)
    &&& 200 <= status < 400
    &&& match pair_lookup(headers, "cache-control"@) {
        Some(cc) => !contains_seq(cc, "no-store"@) && !contains_seq(cc, "private"@),
        None => true,
    }
}

/// A header is stored with a page unless it is `set-cookie`,
/// `authorization` or `x-cache` (in any case).
pub open spec fn stored_header(name: Seq<char>) -> bool {
    !eq_ignore_ascii_case(name, "set-cookie"@) && !eq_ignore_ascii_case(name, "authorization"@)
        && !eq_ignore_ascii_case(name, "x-cache"@)
}

/// The headers stored with a page, in order.
pub open spec fn stored_headers(h: PairsView) -> PairsView
    decreases h.len(),
{
    if h.len() == 0 {
        Seq::empty()
    } else if stored_header(h.last().0) {
        stored_headers(h.drop_last()).push(h.last())
    } else {
        stored_headers(h.drop_last())
    }
}

/// `"name":"value"` for each pair.
pub open spec fn string_members(h: PairsView) -> Seq<Seq<char>> {
    h.map_values(|e: (Seq<char>, Seq<char>)| json_quoted(e.0) + ":"@ + json_quoted(e.1))
}

/// The JSON object of string pairs.
pub open spec fn string_object_text(h: PairsView) -> Seq<char> {
    "{"@ + join(string_members(h), ","@) + "}"@
}

/// The text a cacheable response is stored as: a JSON object of strings
/// with its body, its content type (`text/html` when it has none), its
/// stored headers as JSON text, and its status.
pub open spec fn page_entry_text(response: Response) -> Seq<char> {
    string_object_text(page_fields(response))
}

/// The fields of a stored page, in order.
pub open spec fn page_fields(response: Response) -> PairsView {
    seq![
        ("body"@, utf8_lossy(response.body@)),
        ("content_type"@, content_type_or_html(response.headers@)),
        ("headers"@, string_object_text(stored_headers(response.headers@))),
        ("status_code"@, nat_str(response.status.code() as nat)),
    ]
}

/// The `content-type` header, `text/html` when there is none.
pub open spec fn content_type_or_html(h: PairsView) -> Seq<char> {
    match pair_lookup(h, "content-type"@) {
        Some(c) => c,
        None => "text/html"@,
    }
}

fn string_object(pairs: &Vec<(String, String)>) -> (r: String)
    ensures
        r@ == string_object_text(crate::http::pair_views(pairs@)),
{
    let ghost h = crate::http::pair_views(pairs@);
    let mut parts: Vec<String> = Vec::new();
    let mut i: usize = 0;
    while i < pairs.len()
        invariant
            i <= pairs@.len(),
            h == crate::http::pair_views(pairs@),
            views(parts@) == string_members(h.take(i as int)),
        decreases pairs.len() - i,
    {
        let mut p = json_quote(pairs[i].0.as_str());
        p.append(":");
        let v = json_quote(pairs[i].1.as_str());
        p.append(v.as_str());
        assert(p@ == json_quoted(h[i as int].0) + ":"@ + json_quoted(h[i as int].1));
        let ghost before = views(parts@);
        parts.push(p);
        assert(views(parts@) =~= before.push(p@));
        assert(h.take(i + 1) =~= h.take(i as int).push(h[i as int]));
        assert(views(parts@) =~= string_members(h.take(i + 1)));
        i = i + 1;
    }
    assert(h.take(pairs@.len() as int) =~= h);
    let body = join_strings(&parts, ",");
    let mut r = owned("{");
    r.append(body.as_str());
    r.append("}");
    r
}

/// The text to store for `response` to a request with `method`, or `None`
/// when such a response is not stored (see [`cacheable`] and
/// [`page_entry_text`]).
pub fn cache_entry_for(method: HttpMethod, response: &Response) -> (r: Option<String>)
    ensures
        cacheable(method, response.status.code(), response.headers@) ==> (r matches Some(t) && t@ == page_entry_text(*response)),
        !cacheable(method, response.status.code(), response.headers@) ==> r is None,
{
    let is_get_or_head = match method {
        HttpMethod::GET => true,
        HttpMethod::HEAD => true,
        _ => false,
    };
    if !is_get_or_head {
        return None;
    }
    let status = response.status.0;
    if status < 200 || status >= 400 {
        return None;
    }
    match response.headers.get("cache-control") {
        Some(cc) => {
            if contains_str(cc, "no-store") || contains_str(cc, "private") {
                return None;
            }
        },
        None => {},
    }
    let mut kept: Vec<(String, String)> = Vec::new();
    let ghost hs = response.headers@;
    let mut i: usize = 0;
    while i < response.headers.len()
        invariant
            i <= hs.len(),
            hs == response.headers@,
            crate::http::pair_views(kept@) == stored_headers(hs.take(i as int)),
        decreases hs.len() - i,
    {
        let k = response.headers.key_at(i);
        let v = response.headers.value_at(i);
        assert(hs.take(i + 1).drop_last() =~= hs.take(i as int));
        let keep = !str_eq_ignore_ascii_case(k, "set-cookie") && !str_eq_ignore_ascii_case(k, "authorization")
            && !str_eq_ignore_ascii_case(k, "x-cache");
        if keep {
            let ghost before = crate::http::pair_views(kept@);
            kept.push((owned(k), owned(v)));
            assert(crate::http::pair_views(kept@) =~= before.push(hs[i as int]));
        }
        i = i + 1;
    }
    assert(hs.take(hs.len() as int) =~= hs);
    let headers_text = string_object(&kept);
    let ct = match response.headers.get("content-type") {
        Some(c) => owned(c),
        None => owned("text/html"),
    };
    let mut fields: Vec<(String, String)> = Vec::new();
    fields.push((owned("body"), response.body_str()));
    fields.push((owned("content_type"), ct));
    fields.push((owned("headers"), headers_text));
    fields.push((owned("status_code"), u64_to_string(status as u64)));
    let r = string_object(&fields);
    assert(crate::http::pair_views(kept@) == stored_headers(response.headers@));
    assert(headers_text@ == string_object_text(stored_headers(response.headers@)));
    assert(ct@ == content_type_or_html(response.headers@));
    assert(crate::http::pair_views(fields@) =~= page_fields(*response));
    Some(r)
}

/// Every value is a string: the pairs of keys and texts.
pub open spec fn all_strings(es: Seq<(Seq<char>, JsonValue)>) -> Option<PairsView>
    decreases es.len(),
{
    if es.len() == 0 {
        Some(Seq::empty())
    } else {
        match (all_strings(es.drop_last()), es.last().1) {
            (Some(p), JsonValue::String(s)) => Some(p.push((es.last().0, s@))),
            _ => None,
        }
    }
}

/// What `text` gives read as a JSON object of strings.
pub open spec fn string_map_of(text: Seq<char>) -> Option<PairsView> {
    match json_object_parsed(text) {
        Ok(es) => all_strings(es),
        Err(_) => None,
    }
}

/// `text` read as a JSON object whose values are all strings, or `None`.
fn parse_string_map(text: &str) -> (r: Option<Vec<(String, String)>>)
    ensures
        match string_map_of(text@) {
            Some(p) => r matches Some(v) && crate::http::pair_views(v@) == p,
            None => r is None,
        },
{
    let es = match parse_json_object(text) {
        Ok(es) => es,
        Err(_) => return None,
    };
    let ghost ev = entry_views(es@);
    let mut out: Vec<(String, String)> = Vec::new();
    let mut i: usize = 0;
    while i < es.len()
        invariant
            i <= es@.len(),
            ev == entry_views(es@),
            json_object_parsed(text@) == Ok::<_, Seq<char>>(ev),
            all_strings(ev.take(i as int)) == Some(crate::http::pair_views(out@)),
        decreases es.len() - i,
    {
        assert(ev.take(i + 1).drop_last() =~= ev.take(i as int));
        match &es[i].1 {
            JsonValue::String(s) => {
                let ghost before = crate::http::pair_views(out@);
                out.push((es[i].0.clone(), s.clone()));
                assert(crate::http::pair_views(out@) =~= before.push((ev[i as int].0, s@)));
            },
            _ => {
                proof { lemma_all_strings_prefix_none(ev, i as int + 1); }
                return None;
            },
        }
        i = i + 1;
    }
    assert(ev.take(es@.len() as int) =~= ev);
    Some(out)
}

proof fn lemma_all_strings_prefix_none(es: Seq<(Seq<char>, JsonValue)>, n: int)
    requires
        0 <= n <= es.len(),
        all_strings(es.take(n)) is None,
    ensures
        all_strings(es) is None,
    decreases es.len() - n,
{
    if n < es.len() {
        assert(es.take(n + 1).drop_last() =~= es.take(n));
        lemma_all_strings_prefix_none(es, n + 1);
    } else {
        assert(es.take(n) =~= es);
    }
}

/// Headers after setting each pair in order, names lowercased.
pub open spec fn headers_set(h: PairsView, pairs: PairsView) -> PairsView
    decreases pairs.len(),
{
    if pairs.len() == 0 {
        h
    } else {
        pair_insert(headers_set(h, pairs.drop_last()), lowercase(pairs.last().0), pairs.last().1)
    }
}

/// The response served from the stored text `cached`: `None` unless the
/// text is a JSON object of strings with a `body`. The response is an HTML
/// response of the body; a `content_type` sets its content type, a
/// `status_code` that reads as a `u16` sets its status, a `headers` text
/// that is a JSON object of strings sets each of those headers, and
/// `x-cache` is set to `HIT`.
pub open spec fn served_page(cached: Seq<char>) -> Option<(u16, PairsView, Seq<char>)> {
    match string_map_of(cached) {
        Some(data) => match pair_lookup(data, "body"@) {
            Some(body) => Some((served_status(data), pair_insert(served_headers(data), "x-cache"@, "HIT"@), body)),
            None => None,
        },
        None => None,
    }
}

/// The status of a served page: its `status_code` read as a `u16`, else 200.
pub open spec fn served_status(data: PairsView) -> u16 {
    match pair_lookup(data, "status_code"@) {
        Some(t) => match parse_u64(t) {
            Some(n) => if n <= 65535 { n as u16 } else { 200u16 },
            None => 200u16,
        },
        None => 200u16,
    }
}

/// The headers of an HTML response with the stored content type.
pub open spec fn served_base_headers(data: PairsView) -> PairsView {
    match pair_lookup(data, "content_type"@) {
        Some(ct) => pair_insert(default_headers(), "content-type"@, ct),
        None => default_headers(),
    }
}

/// The headers of a served page before `x-cache`: the base headers with
/// the stored headers set.
pub open spec fn served_headers(data: PairsView) -> PairsView {
    match pair_lookup(data, "headers"@) {
        Some(t) => match string_map_of(t) {
            Some(hs) => headers_set(served_base_headers(data), hs),
            None => served_base_headers(data),
        },
        None => served_base_headers(data),
    }
}

fn lookup_pair<'a>(pairs: &'a Vec<(String, String)>, key: &str) -> (r: Option<&'a str>)
    ensures
        match pair_lookup(crate::http::pair_views(pairs@), key@) {
            Some(v) => r matches Some(t) && t@ == v,
            None => r is None,
        },
{
    let ghost h = crate::http::pair_views(pairs@);
    let mut i: usize = 0;
    while i < pairs.len()
        invariant
            i <= pairs@.len(),
            h == crate::http::pair_views(pairs@),
            forall|j: int| 0 <= j < i ==> h[j].0 != key@,
        decreases pairs.len() - i,
    {
        if crate::text::str_eq(pairs[i].0.as_str(), key) {
            proof { crate::http::lemma_pair_at(h, key@, Seq::empty(), i as int); }
            return Some(pairs[i].1.as_str());
        }
        i = i + 1;
    }
    proof { crate::http::lemma_pair_at(h, key@, Seq::empty(), i as int); }
    None
}

/// The response served from the stored text `cached` (see [`served_page`]).
pub fn cached_response(cached: &str) -> (r: Option<Response>)
    ensures
        match served_page(cached@) {
            Some((status, headers, body)) => r matches Some(resp) && resp.status.code() == status
                && resp.headers@ == headers && resp.body@ == encode_utf8(body),
            None => r is None,
        },
{
    let data = match parse_string_map(cached) {
        Some(d) => d,
        None => return None,
    };
    let body = match lookup_pair(&data, "body") {
        Some(b) => b,
        None => return None,
    };
    let ghost dv = crate::http::pair_views(data@);
    let mut response = Response::html(body);
    match lookup_pair(&data, "content_type") {
        Some(ct) => response.headers.insert(owned("content-type"), owned(ct)),
        None => {},
    }
    assert(response.headers@ == served_base_headers(dv));
    match lookup_pair(&data, "status_code") {
        Some(t) => match parse_u64_str(t) {
            Some(n) => {
                if n <= 65535 {
                    response.status = StatusCode(n as u16);
                }
            },
            None => {},
        },
        None => {},
    }
    match lookup_pair(&data, "headers") {
        Some(t) => match parse_string_map(t) {
            Some(hs) => {
                let ghost h0 = response.headers@;
                let ghost st0 = response.status;
                let ghost b0 = response.body;
                let ghost hv = crate::http::pair_views(hs@);
                let mut i: usize = 0;
                while i < hs.len()
                    invariant
                        i <= hs@.len(),
                        hv == crate::http::pair_views(hs@),
                        response.headers@ == headers_set(h0, hv.take(i as int)),
                        response.status == st0,
                        response.body == b0,
                    decreases hs.len() - i,
                {
                    assert(hv.take(i + 1).drop_last() =~= hv.take(i as int));
                    response.set_header(hs[i].0.as_str(), hs[i].1.as_str());
                    i = i + 1;
                }
                assert(hv.take(hs@.len() as int) =~= hv);
            },
            None => {},
        },
        None => {},
    }
    assert(response.status.code() == served_status(dv));
    assert(response.headers@ == served_headers(dv));
    let ghost h2 = response.headers@;
    response.headers.insert(owned("x-cache"), owned("HIT"));
    assert(string_map_of(cached@) == Some(dv));
    assert(pair_lookup(dv, "body"@) == Some(body@));
    assert(response.headers@ == pair_insert(h2, "x-cache"@, "HIT"@));
    assert(response.body@ == encode_utf8(body@));
    Some(response)
}

} // verus!
