//! Authentication through a `REMOTE_USER` value set by the front server.

use vstd::prelude::*;
use crate::errors::RjangoError;
use crate::http::{pair_insert, pair_lookup, Request, Response};
use crate::middleware::Middleware;
use crate::json::JsonValue;
use crate::text::{is_prefix, lowercase, owned, split_char, split_on_char, starts_with, str_is_empty, trim, trim_seq, views};

verus! {

/// Authenticates users from the `REMOTE_USER` header or variable.
#[derive(Debug, Clone, Default)]
pub struct RemoteUserMiddleware {
    /// The `REMOTE_USER` variable of the server, used when the request has
    /// no such header.
    pub remote_user_setting: Option<String>,
    /// `REMOTE_USER_IGNORE_PATHS`: comma-separated path prefixes left alone.
    pub ignore_paths: String,
}

/// The user record of `username`: an object with `is_active` and
/// `is_authenticated` true and `username` the name, keys in that order.
pub open spec fn is_user_record(v: JsonValue, username: Seq<char>) -> bool {
    &&& v matches JsonValue::Object(es)
    &&& es@.len() == 3
    &&& es@[0].0@ == "is_active"@
    &&& es@[0].1 == JsonValue::Bool(true)
    &&& es@[1].0@ == "is_authenticated"@
    &&& es@[1].1 == JsonValue::Bool(true)
    &&& es@[2].0@ == "username"@
    &&& es@[2].1 matches JsonValue::String(u)
    &&& u@ == username
}

/// The user record of `username` (see [`is_user_record`]).
pub fn remote_user_record(username: &str) -> (r: JsonValue)
    ensures
        is_user_record(r, username@),
{
    let mut es: Vec<(String, JsonValue)> = Vec::new();
    es.push((owned("is_active"), JsonValue::Bool(true)));
    es.push((owned("is_authenticated"), JsonValue::Bool(true)));
    es.push((owned("username"), JsonValue::String(owned(username))));
    JsonValue::Object(es)
}

/// The remote user of a request: its `REMOTE_USER` header, else the
/// server's variable.
pub open spec fn remote_user_of(headers: Seq<(Seq<char>, Seq<char>)>, setting: Option<String>) -> Option<Seq<char>> {
    match pair_lookup(headers, lowercase("REMOTE_USER"@)) {
        Some(v) => Some(v),
        None => match setting {
            Some(s) => Some(s@),
            None => None,
        },
    }
}

/// Authentication backend that trusts `REMOTE_USER`.
#[derive(Debug, Clone, Copy)]
pub struct RemoteUserBackend;

/// `path` starts with one of the non-blank comma-separated prefixes.
pub open spec fn path_ignored(path: Seq<char>, ignore_paths: Seq<char>) -> bool {
    ignore_paths.len() > 0 && exists|i: int| 0 <= i < split_char(ignore_paths, ',').len()
        && trim_seq(#[trigger] split_char(ignore_paths, ',')[i]).len() > 0
        && is_prefix(trim_seq(split_char(ignore_paths, ',')[i]), path)
}

/// A request is authenticated from `REMOTE_USER` when the value is present
/// and not empty, the request has no user yet, and its path is not ignored.
pub open spec fn remote_user_applies(remote_user: Option<Seq<char>>, already_authenticated: bool, path: Seq<char>, ignore_paths: Seq<char>) -> bool {
    match remote_user {
        Some(u) => u.len() > 0 && !already_authenticated && !path_ignored(path, ignore_paths),
        None => false,
    }
}

impl RemoteUserMiddleware {
    /// `path` lies under one of the comma-separated `ignore_paths`.
    pub fn is_ignored(path: &str, ignore_paths: &str) -> (r: bool)
        ensures
            r == path_ignored(path@, ignore_paths@),
    {
        if str_is_empty(ignore_paths) {
            return false;
        }
        let parts = split_on_char(ignore_paths, ',');
        let ghost ps = views(parts@);
        let mut i: usize = 0;
        while i < parts.len()
            invariant
                i <= parts.len(),
                ps == views(parts@),
                ps == split_char(ignore_paths@, ','),
                ignore_paths@.len() > 0,
                forall|j: int| 0 <= j < i ==> !(trim_seq(#[trigger] ps[j]).len() > 0 && is_prefix(trim_seq(ps[j]), path@)),
            decreases parts.len() - i,
        {
            let p = trim(parts[i].as_str());
            if !str_is_empty(p.as_str()) && starts_with(path, p.as_str()) {
                assert(split_char(ignore_paths@, ',')[i as int] == ps[i as int]);
                assert(trim_seq(ps[i as int]).len() > 0 && is_prefix(trim_seq(ps[i as int]), path@));
                return true;
            }
            i = i + 1;
        }
        false
    }

    /// Whether the request is to be authenticated as `remote_user`.
    pub fn applies(remote_user: Option<&str>, already_authenticated: bool, path: &str, ignore_paths: &str) -> (r: bool)
        ensures
            r == remote_user_applies(match remote_user { Some(u) => Some(u@), None => None }, already_authenticated, path@, ignore_paths@),
    {
        match remote_user {
            Some(u) => !str_is_empty(u) && !already_authenticated && !Self::is_ignored(path, ignore_paths),
            None => false,
        }
    }
}

impl Middleware for RemoteUserMiddleware {
    /// Marks the request as coming from its remote user (see
    /// [`remote_user_applies`]): the user is set and the `x-remote-user`
    /// header says `authenticated`. The request is never answered here.
    fn process_request(&self, request: &mut Request) -> (r: Result<Option<Response>, RjangoError>)
        ensures
            r matches Ok(None),
            remote_user_applies(
                remote_user_of(old(request).headers@, self.remote_user_setting),
                old(request).user is Some,
                old(request).path@,
                self.ignore_paths@,
            ) ==> (final(request).user is Some
                && is_user_record(final(request).user->0, remote_user_of(old(request).headers@, self.remote_user_setting)->0))
                && final(request).headers@ == pair_insert(old(request).headers@, lowercase("x-remote-user"@), "authenticated"@)
                && final(request).path == old(request).path,
            !remote_user_applies(
                remote_user_of(old(request).headers@, self.remote_user_setting),
                old(request).user is Some,
                old(request).path@,
                self.ignore_paths@,
            ) ==> *final(request) == *old(request),
    {
        let remote_user: Option<String> = match request.header("REMOTE_USER") {
            Some(v) => Some(owned(v)),
            None => match &self.remote_user_setting {
                Some(s) => Some(s.clone()),
                None => None,
            },
        };
        let applies = match &remote_user {
            Some(u) => Self::applies(Some(u.as_str()), request.user.is_some(), request.path.as_str(), self.ignore_paths.as_str()),
            None => Self::applies(None, request.user.is_some(), request.path.as_str(), self.ignore_paths.as_str()),
        };
        if applies {
            match &remote_user {
                Some(u) => {
                    request.user = Some(remote_user_record(u.as_str()));
                    request.set_header("x-remote-user", "authenticated");
                },
                None => {},
            }
        }
        Ok(None)
    }
}

} // verus!
