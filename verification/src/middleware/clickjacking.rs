//! Clickjacking protection: the `X-Frame-Options` header.

use vstd::prelude::*;
use crate::errors::RjangoError;
use crate::http::{pair_insert, pair_lookup, Request, Response};
use crate::middleware::Middleware;
use crate::text::{lowercase, owned, to_uppercase, uppercase};

verus! {

/// Sets the `X-Frame-Options` header to the configured value in uppercase,
/// `DENY` when none is configured, unless the response already has one.
#[derive(Debug, Clone, Default)]
pub struct XFrameOptionsMiddleware {
    /// The configured value (the `X_FRAME_OPTIONS` setting), if any.
    pub setting: Option<String>,
}

/// The header value the middleware sets.
pub open spec fn frame_option(setting: Option<String>) -> Seq<char> {
    uppercase(match setting {
        Some(s) => s@,
        None => "DENY"@,
    })
}

impl Middleware for XFrameOptionsMiddleware {
    fn process_response(&self, request: &Request, response: &mut Response) -> (r: Result<(), RjangoError>)
        ensures
            r is Ok,
            match pair_lookup(old(response).headers@, lowercase("X-Frame-Options"@)) {
                Some(_) => *final(response) == *old(response),
                None => final(response).headers@ == pair_insert(
                    old(response).headers@,
                    lowercase("X-Frame-Options"@),
                    frame_option(self.setting),
                ) && final(response).status == old(response).status && final(response).body == old(response).body,
            },
    {
        if response.header("X-Frame-Options").is_some() {
            return Ok(());
        }
        let value = match &self.setting {
            Some(s) => to_uppercase(s.as_str()),
            None => to_uppercase("DENY"),
        };
        response.set_header("X-Frame-Options", value.as_str());
        Ok(())
    }
}

} // verus!
