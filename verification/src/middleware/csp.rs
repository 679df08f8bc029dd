//! Content-Security-Policy headers, with per-request nonces for inline
//! scripts and styles.

use vstd::prelude::*;
use crate::http::{pair_insert, pair_lookup, Request, Response};
use crate::text::{
    append_prefixed, concat3, contains_seq, contains_str, copy_strings, join, join_strings, lowercase, owned,
    prefixed_all, str_eq, str_is_empty, views,
};

verus! {

/// `'self'` — matches the current origin.
pub const CSP_SELF: &'static str = "'self'";
/// `'none'` — matches nothing.
pub const CSP_NONE: &'static str = "'none'";
/// `'strict-dynamic'` — allows scripts loaded by trusted scripts.
pub const CSP_STRICT_DYNAMIC: &'static str = "'strict-dynamic'";
/// `'unsafe-inline'` — allows inline scripts and styles.
pub const CSP_UNSAFE_INLINE: &'static str = "'unsafe-inline'";
/// `'unsafe-eval'` — allows `eval()` and similar.
pub const CSP_UNSAFE_EVAL: &'static str = "'unsafe-eval'";
/// `'report-sample'` — include a sample of the violation in the report.
pub const CSP_REPORT_SAMPLE: &'static str = "'report-sample'";

/// Default source directive.
pub const DIR_DEFAULT_SRC: &'static str = "default-src";
/// Script source directive.
pub const DIR_SCRIPT_SRC: &'static str = "script-src";
/// Style source directive.
pub const DIR_STYLE_SRC: &'static str = "style-src";
/// Image source directive.
pub const DIR_IMG_SRC: &'static str = "img-src";
/// Font source directive.
pub const DIR_FONT_SRC: &'static str = "font-src";
/// Connect source directive (XHR, WebSockets, EventSource).
pub const DIR_CONNECT_SRC: &'static str = "connect-src";
/// Frame source directive.
pub const DIR_FRAME_SRC: &'static str = "frame-src";
/// Object source directive.
pub const DIR_OBJECT_SRC: &'static str = "object-src";
/// Base URI directive.
pub const DIR_BASE_URI: &'static str = "base-uri";
/// Form action directive.
pub const DIR_FORM_ACTION: &'static str = "form-action";
/// Report URI directive.
pub const DIR_REPORT_URI: &'static str = "report-uri";
/// Manifest source directive.
pub const DIR_MANIFEST_SRC: &'static str = "manifest-src";
/// Media source directive.
pub const DIR_MEDIA_SRC: &'static str = "media-src";
/// Frame ancestors directive.
pub const DIR_FRAME_ANCESTORS: &'static str = "frame-ancestors";
/// Worker source directive.
pub const DIR_WORKER_SRC: &'static str = "worker-src";

/// A directive and its sources separated by spaces; nothing without sources.
pub open spec fn directive_text(directive: Seq<char>, sources: Seq<Seq<char>>) -> Seq<char> {
    if sources.len() == 0 { Seq::empty() } else { directive + prefixed_all(sources, " "@) }
}

/// Some source already carries a nonce.
pub open spec fn has_nonce_source(sources: Seq<Seq<char>>) -> bool {
    exists|i: int| 0 <= i < sources.len() && contains_seq(sources[i], "'nonce-"@)
}

/// The sources of a directive once the nonce is injected: `script-src` and
/// `style-src` get `'nonce-N'` last unless a source already carries a nonce.
pub open spec fn with_nonce(directive: Seq<char>, sources: Seq<Seq<char>>, nonce: Option<Seq<char>>) -> Seq<Seq<char>> {
    match nonce {
        Some(n) => if (directive == "script-src"@ || directive == "style-src"@) && !has_nonce_source(sources) {
            sources.push("'nonce-"@ + n + "'"@)
        } else {
            sources
        },
        None => sources,
    }
}

/// The parts that are not empty, in order.
pub open spec fn nonempty_parts(parts: Seq<Seq<char>>) -> Seq<Seq<char>>
    decreases parts.len(),
{
    if parts.len() == 0 {
        Seq::empty()
    } else if parts.last().len() == 0 {
        nonempty_parts(parts.drop_last())
    } else {
        nonempty_parts(parts.drop_last()).push(parts.last())
    }
}

/// The views of a policy: each directive with its sources.
pub open spec fn policy_view(p: Seq<(String, Vec<String>)>) -> Seq<(Seq<char>, Seq<Seq<char>>)> {
    p.map_values(|e: (String, Vec<String>)| (e.0@, views(e.1@)))
}

/// The view of an optional string.
pub open spec fn opt_text(o: Option<&str>) -> Option<Seq<char>> {
    match o {
        Some(s) => Some(s@),
        None => None,
    }
}

/// The header value of a policy: the directives that have sources, in
/// order, separated by `; `.
pub open spec fn csp_header(policy: Seq<(Seq<char>, Seq<Seq<char>>)>, nonce: Option<Seq<char>>) -> Seq<char> {
    join(nonempty_parts(policy.map_values(
        |e: (Seq<char>, Seq<Seq<char>>)| directive_text(e.0, with_nonce(e.0, e.1, nonce)))), "; "@)
}

/// Build a single CSP directive string from a list of sources.
pub fn build_directive(directive: &str, sources: &[String]) -> (r: String)
    ensures
        r@ == directive_text(directive@, views(sources@)),
{
    if sources.len() == 0 {
        return String::new();
    }
    let mut result = owned(directive);
    append_prefixed(&mut result, sources, " ");
    result
}

fn any_nonce_source(sources: &Vec<String>) -> (r: bool)
    ensures
        r == has_nonce_source(views(sources@)),
{
    let ghost vs = views(sources@);
    let mut i: usize = 0;
    while i < sources.len()
        invariant
            i <= sources.len(),
            vs == views(sources@),
            forall|j: int| 0 <= j < i ==> !contains_seq(#[trigger] vs[j], "'nonce-"@),
        decreases sources.len() - i,
    {
        if contains_str(sources[i].as_str(), "'nonce-") {
            assert(contains_seq(vs[i as int], "'nonce-"@));
            return true;
        }
        i = i + 1;
    }
    false
}

fn expanded_sources(directive: &str, sources: &Vec<String>, nonce: Option<&str>) -> (r: Vec<String>)
    ensures
        views(r@) == with_nonce(directive@, views(sources@), opt_text(nonce)),
{
    let mut expanded = copy_strings(sources);
    match nonce {
        Some(n) => {
            if (str_eq(directive, "script-src") || str_eq(directive, "style-src")) && !any_nonce_source(sources) {
                let v = concat3("'nonce-", n, "'");
                let ghost before = expanded@;
                expanded.push(v);
                assert(views(expanded@) =~= views(before).push(v@));
            }
        },
        None => {},
    }
    expanded
}

/// Build the full Content-Security-Policy header value from a policy: each
/// directive with its sources, in order; directives without sources are
/// left out; the nonce is injected into `script-src` and `style-src`.
pub fn build_csp_header(policy: &Vec<(String, Vec<String>)>, nonce: Option<&str>) -> (r: String)
    ensures
        r@ == csp_header(policy_view(policy@), opt_text(nonce)),
{
    let ghost pv = policy_view(policy@);
    let ghost texts = pv.map_values(
        |e: (Seq<char>, Seq<Seq<char>>)| directive_text(e.0, with_nonce(e.0, e.1, opt_text(nonce))));
    let mut parts: Vec<String> = Vec::new();
    let mut i: usize = 0;
    while i < policy.len()
        invariant
            i <= policy.len(),
            pv == policy_view(policy@),
            texts == pv.map_values(
                |e: (Seq<char>, Seq<Seq<char>>)| directive_text(e.0, with_nonce(e.0, e.1, opt_text(nonce)))),
            views(parts@) == nonempty_parts(texts.take(i as int)),
        decreases policy.len() - i,
    {
        let directive = policy[i].0.as_str();
        let expanded = expanded_sources(directive, &policy[i].1, nonce);
        let d = build_directive(directive, expanded.as_slice());
        assert(d@ == texts[i as int]);
        assert(texts.take(i + 1).drop_last() =~= texts.take(i as int));
        if !str_is_empty(d.as_str()) {
            let ghost before = parts@;
            parts.push(d);
            assert(views(parts@) =~= views(before).push(d@));
        }
        i = i + 1;
    }
    assert(texts.take(policy.len() as int) =~= texts);
    join_strings(&parts, "; ")
}

/// The nonce stored on a request, if any.
pub open spec fn request_nonce(request: Request) -> Option<Seq<char>> {
    pair_lookup(request.extensions@, "csp_nonce"@)
}

/// The response header a policy is sent under.
pub open spec fn csp_header_name(report_only: bool) -> Seq<char> {
    if report_only { "content-security-policy-report-only"@ } else { "content-security-policy"@ }
}

/// The headers of a response once the policy is applied: unchanged without
/// a policy, with an empty header value, or when the header is already set;
/// otherwise the header is added.
pub open spec fn csp_applied(
    headers: Seq<(Seq<char>, Seq<char>)>,
    policy: Seq<(Seq<char>, Seq<Seq<char>>)>,
    nonce: Option<Seq<char>>,
    report_only: bool,
) -> Seq<(Seq<char>, Seq<char>)> {
    let value = csp_header(policy, nonce);
    let key = lowercase(csp_header_name(report_only));
    if policy.len() == 0 || value.len() == 0 || pair_lookup(headers, key) is Some {
        headers
    } else {
        pair_insert(headers, key, value)
    }
}

/// Content-Security-Policy middleware: adds the policy header to responses.
#[derive(Debug, Clone, Copy)]
pub struct ContentSecurityPolicyMiddleware;

impl ContentSecurityPolicyMiddleware {
    /// Create a new CSP middleware.
    pub fn new() -> (r: Self) {
        ContentSecurityPolicyMiddleware
    }

    /// The nonce stored on the request, if one was.
    pub fn get_nonce(request: &Request) -> (r: Option<&str>)
        ensures
            opt_text(r) == request_nonce(*request),
    {
        let r = request.extensions.get("csp_nonce");
        match r {
            Some(x) => {},
            None => {},
        }
        r
    }

    /// Adds the header of `policy` to the response, under the report-only
    /// name when `report_only`, with the request's nonce injected; leaves a
    /// header that is already set alone.
    pub fn process_response(&self, request: &Request, response: &mut Response, policy: &Vec<(String, Vec<String>)>, report_only: bool)
        ensures
            final(response).headers@ == csp_applied(old(response).headers@, policy_view(policy@), request_nonce(*request), report_only),
            final(response).status == old(response).status,
            final(response).body == old(response).body,
            final(response).cookies == old(response).cookies,
    {
        if policy.len() == 0 {
            return;
        }
        let nonce = Self::get_nonce(request);
        let value = build_csp_header(policy, nonce);
        if str_is_empty(value.as_str()) {
            return;
        }
        let name = if report_only { "content-security-policy-report-only" } else { "content-security-policy" };
        if response.header(name).is_none() {
            response.set_header(name, value.as_str());
        }
    }
}

impl Default for ContentSecurityPolicyMiddleware {
    fn default() -> (r: Self) {
        ContentSecurityPolicyMiddleware
    }
}

} // verus!
