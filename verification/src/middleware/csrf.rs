//! Cross-site request forgery protection: unsafe requests must carry the
//! token of their `csrftoken` cookie.

use vstd::prelude::*;
use vstd::utf8::encode_utf8;
use crate::errors::RjangoError;
use crate::http::{
    multi_lookup, pair_lookup, query_entries, utf8_lossy, HttpMethod, QueryDict, Request, Response, StatusCode,
};
use crate::middleware::Middleware;
use crate::text::{chars_of, owned, split_char, str_eq, str_is_empty, string_from_range};

verus! {

/// The characters of a secret key.
pub open spec fn key_alphabet() -> Seq<char> {
    "abcdefghijklmnopqrstuvwxyz0123456789!@#$%^&*(-_=+)"@
}

/// A random 64-bit number from the standard library's per-process seeded
/// hasher state (`RandomState`); it is not cryptographically strong, and
/// nothing is stated of it.
#[verifier::external_body]
fn random_u64() -> u64 {
    std::hash::Hasher::finish(&std::hash::BuildHasher::build_hasher(&std::collections::hash_map::RandomState::new()))
}

/// A random secret key: 50 characters of [`key_alphabet`].
pub fn get_random_secret_key() -> (r: String)
    ensures
        r@.len() == 50,
        forall|i: int| 0 <= i < 50 ==> key_alphabet().contains(#[trigger] r@[i]),
{
    let alphabet = chars_of("abcdefghijklmnopqrstuvwxyz0123456789!@#$%^&*(-_=+)");
    proof {
        reveal_strlit("abcdefghijklmnopqrstuvwxyz0123456789!@#$%^&*(-_=+)");
    }
    assert(alphabet@.len() == 50);
    let mut key: Vec<char> = Vec::new();
    let mut i: usize = 0;
    while i < 50
        invariant
            i <= 50,
            alphabet@ == key_alphabet(),
            alphabet@.len() == 50,
            key@.len() == i,
            forall|j: int| 0 <= j < i ==> key_alphabet().contains(#[trigger] key@[j]),
        decreases 50 - i,
    {
        let n = random_u64();
        let idx = (n % 50) as usize;
        let c = alphabet[idx];
        assert(key_alphabet()[idx as int] == c);
        key.push(c);
        i = i + 1;
    }
    crate::text::string_from_chars(&key)
}

/// The prefix of every token.
pub open spec fn token_prefix() -> Seq<char> {
    "rjcsrf-"@
}

/// A request with one of these methods must carry the token.
pub open spec fn is_unsafe_method(m: HttpMethod) -> bool {
    m is POST || m is PUT || m is PATCH || m is DELETE
}

/// The first value of `key` in a dictionary view, empty when there is none.
pub open spec fn first_or_empty(s: Seq<(Seq<char>, Seq<Seq<char>>)>, key: Seq<char>) -> Seq<char> {
    match multi_lookup(s, key) {
        Some(vs) => if vs.len() > 0 { vs[0] } else { ""@ },
        None => ""@,
    }
}

/// The token a request submits: from its query, else from its form body,
/// else from its `x-csrftoken` header.
pub open spec fn submitted_token(request: Request) -> Seq<char> {
    let query_token = first_or_empty(request.query@, "csrfmiddlewaretoken"@);
    let body_token = if request.body@.len() > 0 {
        first_or_empty(query_entries(split_char(utf8_lossy(request.body@), '&')), "csrfmiddlewaretoken"@)
    } else {
        ""@
    };
    let header_token = match pair_lookup(request.headers@, crate::text::lowercase("x-csrftoken"@)) {
        Some(v) => v,
        None => ""@,
    };
    if query_token.len() > 0 {
        query_token
    } else if body_token.len() > 0 {
        body_token
    } else {
        header_token
    }
}

/// The request is refused: its method is unsafe and its `csrftoken`
/// cookie is missing, empty, or differs from the submitted token.
pub open spec fn csrf_refused(request: Request) -> bool {
    let cookie = match pair_lookup(request.cookies@, "csrftoken"@) {
        Some(v) => v,
        None => ""@,
    };
    is_unsafe_method(request.method) && (cookie.len() == 0 || cookie != submitted_token(request))
}

/// Refuses unsafe requests without a valid token and sets the token cookie.
#[derive(Debug, Clone, Copy, Default)]
pub struct CsrfMiddleware;

impl CsrfMiddleware {
    /// A new token: `rjcsrf-` and 32 characters of a random secret key.
    pub fn generate_token() -> (r: String)
        ensures
            r@.len() == 39,
            r@.subrange(0, 7) == token_prefix(),
            forall|i: int| 7 <= i < 39 ==> key_alphabet().contains(#[trigger] r@[i]),
    {
        let key = get_random_secret_key();
        let kv = chars_of(key.as_str());
        let head = string_from_range(&kv, 0, 32);
        let r = crate::text::concat2("rjcsrf-", head.as_str());
        proof {
            reveal_strlit("rjcsrf-");
            assert(r@.subrange(0, 7) =~= token_prefix());
            assert forall|i: int| 7 <= i < 39 implies key_alphabet().contains(#[trigger] r@[i]) by {
                assert(r@[i] == key@[i - 7]);
            }
        }
        r
    }
}

fn has_cookie(cookies: &Vec<(String, String)>, name: &str) -> (r: bool)
    ensures
        r == exists|i: int| 0 <= i < cookies@.len() && (#[trigger] cookies@[i]).0@ == name@,
{
    let mut i: usize = 0;
    while i < cookies.len()
        invariant
            i <= cookies@.len(),
            forall|j: int| 0 <= j < i ==> (#[trigger] cookies@[j]).0@ != name@,
        decreases cookies.len() - i,
    {
        if str_eq(cookies[i].0.as_str(), name) {
            return true;
        }
        i = i + 1;
    }
    false
}

impl Middleware for CsrfMiddleware {
    fn process_request(&self, request: &mut Request) -> (r: Result<Option<Response>, RjangoError>)
        ensures
            *final(request) == *old(request),
            csrf_refused(*old(request)) ==> (r matches Ok(Some(resp)) && resp.status.code() == 403
                && resp.body@ == encode_utf8("CSRF token missing or incorrect"@)),
            !csrf_refused(*old(request)) ==> r matches Ok(None),
    {
        let unsafe_method = match request.method {
            HttpMethod::POST | HttpMethod::PUT | HttpMethod::PATCH | HttpMethod::DELETE => true,
            _ => false,
        };
        if !unsafe_method {
            return Ok(None);
        }
        let cookie_token = match request.cookie("csrftoken") {
            Some(v) => v,
            None => "",
        };
        let body_token: String = if request.body.len() > 0 {
            let body_str = request.body_str();
            let body_qs = QueryDict::from_query(body_str.as_str());
            match body_qs.first_value("csrfmiddlewaretoken") {
                Some(v) => owned(v),
                None => owned(""),
            }
        } else {
            owned("")
        };
        let query_token = match request.query.first_value("csrfmiddlewaretoken") {
            Some(v) => v,
            None => "",
        };
        let header_token = match request.header("x-csrftoken") {
            Some(v) => v,
            None => "",
        };
        let valid_token: &str = if !str_is_empty(query_token) {
            query_token
        } else if !str_is_empty(body_token.as_str()) {
            body_token.as_str()
        } else {
            header_token
        };
        proof { reveal_strlit(""); }
        assert(valid_token@ == submitted_token(*request));
        if str_is_empty(cookie_token) || !str_eq(cookie_token, valid_token) {
            let body = vstd::slice::slice_to_vec("CSRF token missing or incorrect".as_bytes());
            return Ok(Some(Response::new(StatusCode::FORBIDDEN(), body)));
        }
        Ok(None)
    }

    fn process_response(&self, request: &Request, response: &mut Response) -> (r: Result<(), RjangoError>)
        ensures
            r is Ok,
            (exists|i: int| 0 <= i < old(response).cookies@.len() && (#[trigger] old(response).cookies@[i]).0@ == "csrftoken"@)
                ==> *final(response) == *old(response),
            !(exists|i: int| 0 <= i < old(response).cookies@.len() && (#[trigger] old(response).cookies@[i]).0@ == "csrftoken"@)
                ==> {
                &&& final(response).cookies@.len() == old(response).cookies@.len() + 1
                &&& forall|i: int| 0 <= i < old(response).cookies@.len() ==> final(response).cookies@[i] == old(response).cookies@[i]
                &&& final(response).cookies@.last().0@ == "csrftoken"@
                &&& exists|t: Seq<char>| t.len() == 39 && t.subrange(0, 7) == token_prefix()
                    && final(response).cookies@.last().1@ == crate::http::cookie_text("csrftoken"@, t)
                &&& final(response).headers == old(response).headers
                &&& final(response).status == old(response).status
            },
    {
        if !has_cookie(&response.cookies, "csrftoken") {
            let token = Self::generate_token();
            response.set_cookie("csrftoken", token.as_str());
        }
        Ok(())
    }
}

} // verus!
