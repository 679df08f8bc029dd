//! An `ETag` for every response.

use vstd::prelude::*;
use crate::errors::RjangoError;
use crate::http::{pair_insert, Request, Response};
use crate::middleware::Middleware;
use crate::text::{concat3, nat_str, owned, usize_to_string};

verus! {

/// Sets the `ETag` header to the body length in quotes.
#[derive(Debug, Clone, Copy, Default)]
pub struct ConditionalGetMiddleware;

impl Middleware for ConditionalGetMiddleware {
    fn process_response(&self, request: &Request, response: &mut Response) -> (r: Result<(), RjangoError>)
        ensures
            r is Ok,
            final(response).headers@ == pair_insert(
                old(response).headers@,
                "ETag"@,
                "\""@ + nat_str(old(response).body@.len()) + "\""@,
            ),
            final(response).status == old(response).status,
            final(response).body == old(response).body,
    {
        let etag = concat3("\"", usize_to_string(response.body.len()).as_str(), "\"");
        response.headers.insert(owned("ETag"), etag);
        Ok(())
    }
}

} // verus!
