//! Session support via cookies.

use vstd::prelude::*;
use crate::http::{pair_insert, PairsView};
use crate::json::{first_entry, json_text, JsonValue};
use crate::messages::session_view;
use crate::orm::fields::json_quoted;
use crate::sessions::pair_remove;
use crate::text::{owned, str_eq};

verus! {

/// Session middleware: persistent sessions in HttpOnly cookies with
/// SameSite protection.
#[derive(Debug, Clone)]
pub struct SessionMiddleware {
    pub cookie_name: String,
    pub cookie_age: u64,
    pub http_only: bool,
    pub same_site: String,
}

impl Default for SessionMiddleware {
    /// The `sessionid` cookie, two weeks, HttpOnly, SameSite `Lax`.
    fn default() -> (r: Self)
        ensures
            r.cookie_name@ == "sessionid"@,
            r.cookie_age == 1209600,
            r.http_only,
            r.same_site@ == "Lax"@,
    {
        SessionMiddleware {
            cookie_name: owned("sessionid"),
            cookie_age: 1209600,
            http_only: true,
            same_site: owned("Lax"),
        }
    }
}

impl SessionMiddleware {
    /// The default session middleware.
    pub fn new() -> (r: Self)
        ensures
            r.cookie_name@ == "sessionid"@,
            r.cookie_age == 1209600,
            r.http_only,
            r.same_site@ == "Lax"@,
    {
        SessionMiddleware::default()
    }
}

/// The pairs `start` with each of `es` set in turn.
pub open spec fn pairs_set(start: PairsView, es: PairsView) -> PairsView
    decreases es.len(),
{
    if es.len() == 0 {
        start
    } else {
        pair_insert(pairs_set(start, es.drop_last()), es.last().0, es.last().1)
    }
}

/// The session of a request: `_session_key` set to `key`, then each stored
/// value set in turn.
pub fn session_with_key(key: &str, data: Vec<(String, JsonValue)>) -> (r: Vec<(String, JsonValue)>)
    ensures
        session_view(r@) == pairs_set(seq![("_session_key"@, json_quoted(key@))], session_view(data@)),
{
    let mut b = crate::sessions::InMemorySessionBackend::new();
    let kv = JsonValue::String(owned(key));
    crate::sessions::SessionBackend::set(&mut b, "_session_key", kv);
    let ghost dv = session_view(data@);
    assert(b@ =~= seq![("_session_key"@, json_quoted(key@))]) by {
        reveal_with_fuel(pair_insert, 2);
    }
    let ghost start = b@;
    let mut data = data;
    let mut i: usize = 0;
    let n = data.len();
    let mut rest: Vec<(String, JsonValue)> = Vec::new();
    std::mem::swap(&mut rest, &mut data);
    let ghost all = rest@;
    while i < n
        invariant
            n == all.len(),
            i <= n,
            rest@ == all.subrange(i as int, n as int),
            dv == session_view(all),
            b@ == pairs_set(start, dv.take(i as int)),
        decreases n - i,
    {
        let (k, v) = rest.remove(0);
        assert(rest@ =~= all.subrange(i + 1, n as int));
        assert(dv.take(i + 1).drop_last() =~= dv.take(i as int));
        crate::sessions::SessionBackend::set(&mut b, k.as_str(), v);
        i = i + 1;
    }
    assert(dv.take(n as int) =~= dv);
    b.into_entries()
}

/// What a response saves of a request's session: its key (the
/// `_session_key` string) and its other values; `None` when there is no
/// such key.
pub fn session_to_save(session: &Vec<(String, JsonValue)>) -> (r: Option<(String, Vec<(String, JsonValue)>)>)
    ensures
        match first_entry(session@, "_session_key"@) {
            Some(i) => match session@[i].1 {
                JsonValue::String(k) => r matches Some((key, data)) && key@ == k@
                    && session_view(data@) == pair_remove(session_view(session@), "_session_key"@),
                _ => r is None,
            },
            None => r is None,
        },
{
    let mut i: usize = 0;
    while i < session.len()
        invariant
            i <= session@.len(),
            forall|j: int| 0 <= j < i ==> session@[j].0@ != "_session_key"@,
        ensures
            i <= session@.len(),
            forall|j: int| 0 <= j < i ==> session@[j].0@ != "_session_key"@,
            i < session@.len() ==> session@[i as int].0@ == "_session_key"@,
        decreases session.len() - i,
    {
        if str_eq(session[i].0.as_str(), "_session_key") {
            break;
        }
        i = i + 1;
    }
    proof { crate::json::lemma_first_entry_at(session@, "_session_key"@, i as int); }
    if i == session.len() {
        return None;
    }
    let key = match &session[i].1 {
        JsonValue::String(k) => k.clone(),
        _ => return None,
    };
    let ghost s = session_view(session@);
    let mut kept: Vec<(String, JsonValue)> = Vec::new();
    let mut j: usize = 0;
    while j < session.len()
        invariant
            j <= session@.len(),
            s == session_view(session@),
            session_view(kept@) == pair_remove(s.take(j as int), "_session_key"@),
        decreases session.len() - j,
    {
        proof {
            reveal(Seq::filter);
            assert(s.take(j + 1).drop_last() =~= s.take(j as int));
            assert(s.take(j + 1).last() == s[j as int]);
        }
        if !str_eq(session[j].0.as_str(), "_session_key") {
            let ghost before = session_view(kept@);
            let e = (session[j].0.clone(), session[j].1.duplicate());
            kept.push(e);
            assert(session_view(kept@) =~= before.push(s[j as int]));
        }
        j = j + 1;
    }
    assert(s.take(session@.len() as int) =~= s);
    Some((key, kept))
}

} // verus!
