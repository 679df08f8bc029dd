//! Flash messages kept in the session; the middleware itself changes nothing.

use vstd::prelude::*;
use crate::middleware::Middleware;

verus! {

/// Makes flash messages available through the session; it leaves requests
/// and responses as they are.
#[derive(Debug, Clone, Copy, Default)]
pub struct MessageMiddleware;

impl Middleware for MessageMiddleware {}

} // verus!
