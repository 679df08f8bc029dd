//! Request and response middleware: each one may answer a request before
//! the view, and may change the response after it.

pub mod cache;
pub mod clickjacking;
pub mod common;
pub mod conditional_get;
pub mod csp;
pub mod csrf;
pub mod gzip;
pub mod locale;
pub mod messages;
pub mod remote_user;
pub mod security;
pub mod session;

use vstd::prelude::*;
use crate::errors::{displays_as, RjangoError};
use crate::http::{default_headers, Request, Response};
use vstd::utf8::encode_utf8;
use crate::text::concat2;

verus! {

/// A step around the view: it may answer a request itself, change the
/// response, or turn an error into a response. By default it does nothing.
pub trait Middleware {
    /// Looks at the request before the view; `Some` answers it at once.
    fn process_request(&self, request: &mut Request) -> Result<Option<Response>, RjangoError> {
        Ok(None)
    }

    /// Changes the response after the view.
    fn process_response(&self, request: &Request, response: &mut Response) -> Result<(), RjangoError> {
        Ok(())
    }

    /// Turns an error into a response; `None` leaves it unanswered.
    fn process_exception(&self, request: &Request, error: &RjangoError) -> Result<Option<Response>, RjangoError> {
        Ok(None)
    }
}

/// Pushes `x` at the end of `v`, which then holds one more item.
fn push_last<T>(v: &mut Vec<T>, x: T)
    ensures
        final(v)@.len() == old(v)@.len() + 1,
        final(v)@.subrange(0, old(v)@.len() as int) == old(v)@,
{
    v.push(x);
}

/// `x` is the 500 response with body `text`, as `Response::server_error` makes.
pub open spec fn is_server_error(x: Response, text: Seq<char>) -> bool {
    &&& x.status.code() == 500
    &&& x.headers@ == default_headers()
    &&& x.body@ == encode_utf8(text)
}

/// `x` is the 500 response that reports error `e` after `prefix`.
pub open spec fn error_response(x: Response, prefix: Seq<char>, e: RjangoError) -> bool {
    exists|t: Seq<char>| displays_as(&e, t) && #[trigger] is_server_error(x, prefix + t)
}

/// The response a request step's outcome ends the run with: none to go on,
/// the middleware's own answer, or a 500 response for its error.
pub open spec fn request_step_answer(outcome: Result<Option<Response>, RjangoError>, x: Response) -> bool {
    match outcome {
        Ok(None) => false,
        Ok(Some(a)) => x == a,
        Err(e) => error_response(x, "Middleware error: "@, e),
    }
}

/// What a request step's outcome makes of the run: `None` goes on to the
/// next step, `Some` answers the request with the middleware's answer, or with
/// a 500 response `Middleware error: <error>` for its error.
pub fn request_step_response(outcome: Result<Option<Response>, RjangoError>) -> (r: Option<Response>)
    ensures
        match outcome {
            Ok(None) => r is None,
            Ok(Some(a)) => r == Some(a),
            Err(e) => r matches Some(x) && error_response(x, "Middleware error: "@, e),
        },
{
    match outcome {
        Ok(None) => None,
        Ok(Some(a)) => Some(a),
        Err(e) => {
            let t = e.to_string();
            let msg = concat2("Middleware error: ", t.as_str());
            let x = Response::server_error(msg.as_str());
            assert(is_server_error(x, "Middleware error: "@ + t@));
            Some(x)
        },
    }
}

/// What a response step's outcome makes of the run: `None` keeps the
/// response as the step left it, `Some` replaces it with a 500 response
/// `Middleware response error: <error>`, which ends the run.
pub fn response_step_response(outcome: Result<(), RjangoError>) -> (r: Option<Response>)
    ensures
        match outcome {
            Ok(()) => r is None,
            Err(e) => r matches Some(x) && error_response(x, "Middleware response error: "@, e),
        },
{
    match outcome {
        Ok(()) => None,
        Err(e) => {
            let t = e.to_string();
            let msg = concat2("Middleware response error: ", t.as_str());
            let x = Response::server_error(msg.as_str());
            assert(is_server_error(x, "Middleware response error: "@ + t@));
            Some(x)
        },
    }
}

/// Middleware applied in order around a view.
pub struct MiddlewareStack {
    middlewares: Vec<Box<dyn Middleware>>,
}

impl MiddlewareStack {
    /// The number of middleware.
    pub closed spec fn len(&self) -> nat {
        self.middlewares@.len()
    }

    /// The middleware at position `i`, counted from the first added.
    pub closed spec fn at(&self, i: int) -> Box<dyn Middleware> {
        self.middlewares@[i]
    }

    /// An empty stack.
    pub fn new() -> (r: Self)
        ensures
            r.len() == 0,
    {
        MiddlewareStack { middlewares: Vec::new() }
    }

    /// Adds `middleware` last; the ones before keep their places.
    pub fn add<M: Middleware + 'static>(&mut self, middleware: M)
        ensures
            final(self).len() == old(self).len() + 1,
            forall|i: int| 0 <= i < old(self).len() ==> final(self).at(i) == old(self).at(i),
    {
        let b: Box<dyn Middleware> = Box::new(middleware);
        push_last(&mut self.middlewares, b);
        proof {
            assert forall|i: int| 0 <= i < old(self).len() implies self.at(i) == old(self).at(i) by {
                assert(self.middlewares@.subrange(0, old(self).middlewares@.len() as int)[i] == self.middlewares@[i]);
            }
        }
    }

    /// Runs each middleware's request step in order (the first answer, or
    /// the first error as a 500 response, ends the run), then the view on
    /// a copy of the request as the request steps left it, then each
    /// response step in reverse order (an error there replaces the response
    /// with a 500 and ends the run). With no middleware, the response is the
    /// view's response to the request.
    pub fn process<V: Fn(Request) -> Response>(&self, request: Request, view: V) -> (r: Response)
        requires
            forall|req: Request| call_requires(view, (req,)),
        ensures
            self.len() == 0 ==> call_ensures(view, (request,), r),
            self.len() > 0 ==> {
                ||| exists|o: Result<Option<Response>, RjangoError>| #[trigger] request_step_answer(o, r)
                ||| exists|e: RjangoError| #[trigger] error_response(r, "Middleware response error: "@, e)
                ||| exists|req: Request, v: Response| #[trigger] call_ensures(view, (req,), v)
            },
    {
        if self.middlewares.len() == 0 {
            return view(request);
        }
        let mut request = request;
        let mut i: usize = 0;
        while i < self.middlewares.len()
            invariant
                i <= self.middlewares@.len(),
            decreases self.middlewares.len() - i,
        {
            let outcome = self.middlewares[i].process_request(&mut request);
            let ghost o = outcome;
            match request_step_response(outcome) {
                Some(x) => {
                    assert(request_step_answer(o, x));
                    return x;
                },
                None => {},
            }
            i = i + 1;
        }
        let copy = request.clone();
        let ghost req_seen = copy;
        let mut response = view(copy);
        let ghost from_view = response;
        assert(call_ensures(view, (req_seen,), from_view));
        let mut j: usize = self.middlewares.len();
        while j > 0
            invariant
                j <= self.middlewares@.len(),
                call_ensures(view, (req_seen,), from_view),
            decreases j,
        {
            j = j - 1;
            let outcome = self.middlewares[j].process_response(&request, &mut response);
            match response_step_response(outcome) {
                Some(x) => {
                    return x;
                },
                None => {},
            }
        }
        response
    }
}

} // verus!
