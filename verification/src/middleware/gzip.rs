//! Marking responses as gzip-encoded for clients that accept it.

use vstd::prelude::*;
use crate::errors::RjangoError;
use crate::http::{pair_insert, pair_lookup, Request, Response};
use crate::middleware::Middleware;
use crate::text::{contains_seq, contains_str, owned};

verus! {

/// Sets `Content-Encoding: gzip` when the request's `accept-encoding`
/// mentions gzip.
#[derive(Debug, Clone, Copy, Default)]
pub struct GZipMiddleware;

/// The `accept-encoding` header of a request, empty when absent.
pub open spec fn accept_encoding(headers: Seq<(Seq<char>, Seq<char>)>) -> Seq<char> {
    match pair_lookup(headers, "accept-encoding"@) {
        Some(v) => v,
        None => ""@,
    }
}

impl Middleware for GZipMiddleware {
    fn process_response(&self, request: &Request, response: &mut Response) -> (r: Result<(), RjangoError>)
        ensures
            r is Ok,
            final(response).headers@ == (if contains_seq(accept_encoding(request.headers@), "gzip"@) {
                pair_insert(old(response).headers@, "Content-Encoding"@, "gzip"@)
            } else {
                old(response).headers@
            }),
            final(response).status == old(response).status,
            final(response).body == old(response).body,
    {
        let accept = match request.headers.get("accept-encoding") {
            Some(v) => v,
            None => "",
        };
        if contains_str(accept, "gzip") {
            response.headers.insert(owned("Content-Encoding"), owned("gzip"));
        }
        Ok(())
    }
}

} // verus!
