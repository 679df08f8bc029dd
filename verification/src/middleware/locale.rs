//! The response language from the request's `Accept-Language`.

use vstd::prelude::*;
use crate::errors::RjangoError;
use crate::http::{pair_insert, pair_lookup, Request, Response};
use crate::middleware::Middleware;
use crate::text::{owned, split_first, split_first_str};

verus! {

/// Sets `Content-Language` to the first language the request accepts
/// (`en-us` when it names none).
#[derive(Debug, Clone, Copy, Default)]
pub struct LocaleMiddleware;

/// The language a request asks for: the first comma-separated entry of its
/// `accept-language` header, or `en-us`.
pub open spec fn request_language(headers: Seq<(Seq<char>, Seq<char>)>) -> Seq<char> {
    match pair_lookup(headers, "accept-language"@) {
        Some(v) => split_first(v, ',').0,
        None => "en-us"@,
    }
}

impl Middleware for LocaleMiddleware {
    fn process_response(&self, request: &Request, response: &mut Response) -> (r: Result<(), RjangoError>)
        ensures
            r is Ok,
            final(response).headers@ == pair_insert(old(response).headers@, "Content-Language"@, request_language(request.headers@)),
            final(response).status == old(response).status,
            final(response).body == old(response).body,
    {
        let lang = match request.headers.get("accept-language") {
            Some(v) => split_first_str(v, ',').0,
            None => owned("en-us"),
        };
        response.headers.insert(owned("Content-Language"), lang);
        Ok(())
    }
}

} // verus!
