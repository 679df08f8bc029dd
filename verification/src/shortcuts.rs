//! View shortcuts: rendering, redirects, and 404 answers for missing objects.

use vstd::prelude::*;
use vstd::string::StringSliceAdditionalSpecFns;
use vstd::utf8::encode_utf8;
use crate::errors::RjangoError;
use crate::http::{default_headers, pair_insert, Request, Response, StatusCode};
use crate::text::{concat3, owned};

verus! {

/// The page a template renders to.
pub open spec fn rendered_page(template_name: Seq<char>) -> Seq<char> {
    "<html><body><p>Template '"@ + template_name + "' rendered</p></body></html>"@
}

/// Renders `template_name` into a 200 HTML response; the context is not read.
pub fn render<C>(request: &Request, template_name: &str, context: C) -> (r: Result<Response, RjangoError>)
    ensures
        r matches Ok(resp) && resp.status.code() == 200 && resp.headers@ == default_headers()
            && resp.body@ == encode_utf8(rendered_page(template_name@)),
{
    let body = concat3("<html><body><p>Template '", template_name, "' rendered</p></body></html>");
    Ok(Response::new(StatusCode::OK(), vstd::slice::slice_to_vec(body.as_str().as_bytes())))
}

/// A temporary (302) redirect to `to`.
pub fn redirect(to: &str) -> (r: Response)
    ensures
        r.status.code() == 302,
        r.headers@ == pair_insert(default_headers(), "location"@, to@),
        r.body@.len() == 0,
{
    Response::redirect(to, false)
}

/// The body of a 404 for a missing object.
pub open spec fn object_not_found_page() -> Seq<char> {
    "<h1>Not Found</h1><p>The requested resource was not found.</p>"@
}

/// The body of a 404 for an empty list.
pub open spec fn list_not_found_page() -> Seq<char> {
    "<h1>Not Found</h1><p>No items found.</p>"@
}

/// The object `lookup_fn` finds, or a 404 response when it finds none.
pub fn get_object_or_404<F: FnOnce() -> Option<T>, T>(lookup_fn: F) -> (r: Result<T, Response>)
    requires
        lookup_fn.requires(()),
    ensures
        match r {
            Ok(obj) => lookup_fn.ensures((), Some(obj)),
            Err(resp) => lookup_fn.ensures((), None::<T>) && resp.status.code() == 404
                && resp.body@ == encode_utf8(object_not_found_page()),
        },
{
    match lookup_fn() {
        Some(obj) => Ok(obj),
        None => Err(Response::new(
            StatusCode::NOT_FOUND(),
            vstd::slice::slice_to_vec("<h1>Not Found</h1><p>The requested resource was not found.</p>".as_bytes()),
        )),
    }
}

/// The items `lookup_fn` finds, or a 404 response when there are none.
pub fn get_list_or_404<F: FnOnce() -> Vec<T>, T>(lookup_fn: F) -> (r: Result<Vec<T>, Response>)
    requires
        lookup_fn.requires(()),
    ensures
        match r {
            Ok(items) => lookup_fn.ensures((), items) && items@.len() > 0,
            Err(resp) => exists|v: Vec<T>| lookup_fn.ensures((), v) && v@.len() == 0 && resp.status.code() == 404
                && resp.body@ == encode_utf8(list_not_found_page()),
        },
{
    let items = lookup_fn();
    if items.len() == 0 {
        let ghost v = items;
        Err(Response::new(
            StatusCode::NOT_FOUND(),
            vstd::slice::slice_to_vec("<h1>Not Found</h1><p>No items found.</p>".as_bytes()),
        ))
    } else {
        Ok(items)
    }
}

/// The URL for `to`: the text itself.
pub fn resolve_url(to: &str) -> (r: String)
    ensures
        r@ == to@,
{
    owned(to)
}

} // verus!
