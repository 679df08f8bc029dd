//! URL normalisation (trailing slash, `www.`) and blocking of user agents.

use vstd::prelude::*;
use crate::errors::RjangoError;
use crate::http::{default_headers, pair_insert, pair_lookup, Request, Response};
use crate::middleware::Middleware;
use crate::text::{
    chars_of, concat2, concat3, contains_seq, contains_str, has_char, is_prefix, is_suffix, last_occurrence,
    lowercase, owned, rfind_str, split_char, split_on_char, starts_with, ends_with, str_is_empty, to_lowercase,
    trim, trim_end_char, trim_end_seq, trim_seq, views,
};

verus! {

/// Adds trailing slashes, prepends `www.` and refuses listed user agents.
#[derive(Debug, Clone)]
pub struct CommonMiddleware {
    /// The `APPEND_SLASH` setting.
    pub append_slash: bool,
    /// The `PREPEND_WWW` setting.
    pub prepend_www: bool,
    /// The `DISALLOWED_USER_AGENTS` setting: comma-separated fragments.
    pub disallowed_user_agents: String,
}

impl Default for CommonMiddleware {
    fn default() -> (r: Self)
        ensures
            r.append_slash,
            !r.prepend_www,
            r.disallowed_user_agents@ == Seq::<char>::empty(),
    {
        proof { reveal_strlit(""); }
        CommonMiddleware { append_slash: true, prepend_www: false, disallowed_user_agents: owned("") }
    }
}

/// The last `/`-separated segment of a path (the whole path when it has no `/`).
pub open spec fn last_segment(path: Seq<char>) -> Seq<char> {
    match last_occurrence(path, "/"@) {
        Some(i) => path.subrange(i + 1, path.len() as int),
        None => path,
    }
}

/// A path gets a trailing slash when appending is on, it has none, it is
/// not under `/api/`, and its last segment does not look like a file name.
pub open spec fn wants_slash(append_slash: bool, path: Seq<char>) -> bool {
    append_slash && !is_suffix("/"@, path) && !is_prefix("/api/"@, path)
        && !(has_char(path, '.') && has_char(last_segment(path), '.'))
}

/// The user agent contains, ignoring case, one of the comma-separated
/// fragments (each trimmed).
pub open spec fn agent_denied(user_agent: Seq<char>, denied: Seq<char>) -> bool {
    denied.len() > 0 && exists|i: int| 0 <= i < split_char(denied, ',').len()
        && contains_seq(lowercase(user_agent), lowercase(trim_seq(#[trigger] split_char(denied, ',')[i])))
}

/// A header of a request, empty when absent.
pub open spec fn header_or_empty(headers: Seq<(Seq<char>, Seq<char>)>, name: Seq<char>) -> Seq<char> {
    match pair_lookup(headers, lowercase(name)) {
        Some(v) => v,
        None => ""@,
    }
}

/// Where a request is sent to get `www.` before its host.
pub open spec fn www_url(append_slash: bool, host: Seq<char>, path: Seq<char>) -> Seq<char> {
    if wants_slash(append_slash, path) {
        "http://www."@ + host + trim_end_seq(path, '/') + "/"@
    } else {
        "http://www."@ + host + path
    }
}

impl CommonMiddleware {
    /// Whether `path` is to get a trailing slash.
    pub fn should_redirect_with_slash(&self, path: &str) -> (r: bool)
        ensures
            r == wants_slash(self.append_slash, path@),
    {
        if !self.append_slash {
            return false;
        }
        if ends_with(path, "/") {
            return false;
        }
        if starts_with(path, "/api/") {
            return false;
        }
        let v = chars_of(path);
        if crate::text::contains_char(&v, '.') {
            proof {
                reveal_strlit("/");
                assert("/"@.len() == 1);
            }
            let last = match rfind_str(&v, "/") {
                Some(i) => {
                    assert(i + "/"@.len() <= v@.len());
                    assert("/"@.len() == 1);
                    assert(i + 1 <= v.len());
                    crate::text::string_from_range(&v, i + 1, v.len())
                },
                None => owned(path),
            };
            let lv = chars_of(last.as_str());
            if crate::text::contains_char(&lv, '.') {
                return false;
            }
        }
        true
    }

    /// Whether the request's user agent is refused.
    pub fn check_user_agent(&self, request: &Request) -> (r: Result<(), RjangoError>)
        ensures
            agent_denied(header_or_empty(request.headers@, "User-Agent"@), self.disallowed_user_agents@) ==> (
                r matches Err(RjangoError::PermissionDenied(m)) && m@ == "Forbidden user agent"@),
            !agent_denied(header_or_empty(request.headers@, "User-Agent"@), self.disallowed_user_agents@) ==> r is Ok,
    {
        let user_agent = match request.header("User-Agent") {
            Some(v) => v,
            None => "",
        };
        let denied = self.disallowed_user_agents.as_str();
        if str_is_empty(denied) {
            return Ok(());
        }
        let ua = to_lowercase(user_agent);
        let parts = split_on_char(denied, ',');
        let ghost ps = views(parts@);
        let mut i: usize = 0;
        while i < parts.len()
            invariant
                i <= parts.len(),
                ps == views(parts@),
                ps == split_char(denied@, ','),
                denied@.len() > 0,
                denied@ == self.disallowed_user_agents@,
                user_agent@ == header_or_empty(request.headers@, "User-Agent"@),
                ua@ == lowercase(user_agent@),
                forall|j: int| 0 <= j < i ==> !contains_seq(lowercase(user_agent@), lowercase(trim_seq(#[trigger] ps[j]))),
            decreases parts.len() - i,
        {
            let fragment = to_lowercase(trim(parts[i].as_str()).as_str());
            if contains_str(ua.as_str(), fragment.as_str()) {
                assert(split_char(denied@, ',')[i as int] == ps[i as int]);
                assert(contains_seq(lowercase(user_agent@), lowercase(trim_seq(split_char(denied@, ',')[i as int]))));
                assert(user_agent@ == header_or_empty(request.headers@, "User-Agent"@));
                assert(agent_denied(user_agent@, denied@));
                return Err(RjangoError::PermissionDenied(owned("Forbidden user agent")));
            }
            i = i + 1;
        }
        Ok(())
    }
}

impl Middleware for CommonMiddleware {
    fn process_request(&self, request: &mut Request) -> (r: Result<Option<Response>, RjangoError>)
        ensures
            *final(request) == *old(request),
            agent_denied(header_or_empty(old(request).headers@, "User-Agent"@), self.disallowed_user_agents@) ==> (
                r matches Err(RjangoError::PermissionDenied(m)) && m@ == "Forbidden user agent"@),
            !agent_denied(header_or_empty(old(request).headers@, "User-Agent"@), self.disallowed_user_agents@) ==> {
                let host = header_or_empty(old(request).headers@, "Host"@);
                if self.prepend_www && host.len() > 0 && !is_prefix("www."@, lowercase(host)) {
                    r matches Ok(Some(resp)) && resp.status.code() == 301 && resp.headers@ == pair_insert(
                        default_headers(),
                        "location"@,
                        www_url(self.append_slash, host, old(request).path@),
                    )
                } else {
                    r matches Ok(None)
                }
            },
    {
        match self.check_user_agent(request) {
            Err(e) => return Err(e),
            Ok(()) => {},
        }
        if self.prepend_www {
            let host = match request.header("Host") {
                Some(v) => v,
                None => "",
            };
            if !str_is_empty(host) && !starts_with(to_lowercase(host).as_str(), "www.") {
                let path = request.path.as_str();
                let url = if self.should_redirect_with_slash(path) {
                    let mut u = concat3("http://www.", host, trim_end_char(path, '/').as_str());
                    u.append("/");
                    u
                } else {
                    concat3("http://www.", host, path)
                };
                return Ok(Some(Response::redirect(url.as_str(), true)));
            }
        }
        Ok(None)
    }

    fn process_response(&self, request: &Request, response: &mut Response) -> (r: Result<(), RjangoError>)
        ensures
            r is Ok,
            if self.append_slash && old(response).status.code() == 404 && !is_suffix("/"@, request.path@) {
                final(response).status.code() == 301 && final(response).headers@ == pair_insert(
                    default_headers(),
                    "location"@,
                    request.path@ + "/"@,
                ) && final(response).body@.len() == 0 && final(response).cookies@.len() == 0
            } else {
                *final(response) == *old(response)
            },
    {
        if self.append_slash && response.status_code() == 404 {
            let path = request.path.as_str();
            if !ends_with(path, "/") {
                let new_path = concat2(path, "/");
                *response = Response::redirect(new_path.as_str(), true);
            }
        }
        Ok(())
    }
}

} // verus!
