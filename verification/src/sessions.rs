//! Sessions: a backend that keeps session values in memory, session keys,
//! and the JSON text a session is stored as.

use vstd::prelude::*;
use crate::http::{lemma_pair_at, pair_insert, pair_lookup, PairsView};
use crate::json::{json_text, object_text, object_to_text, JsonValue};
use crate::serializers::{entry_views, json_object_parsed, parse_json_object};
use crate::text::{owned, push_char, str_eq};

verus! {

/// Reads and changes the values of a session.
pub trait SessionBackend {
    /// The value under `key`.
    fn get(&self, key: &str) -> Option<JsonValue>;
    /// Sets `key` to `value`.
    fn set(&mut self, key: &str, value: JsonValue);
    /// Removes `key`.
    fn delete(&mut self, key: &str);
    /// Removes every key.
    fn clear(&mut self);
    /// The keys.
    fn keys(&self) -> Vec<String>;
}

/// A session backend that keeps its values in memory.
#[derive(Debug, Clone)]
pub struct InMemorySessionBackend {
    data: Vec<(String, JsonValue)>,
}

impl View for InMemorySessionBackend {
    type V = PairsView;

    /// Each key with the JSON text of its value, in the order keys were
    /// first set.
    closed spec fn view(&self) -> PairsView {
        self.data@.map_values(|e: (String, JsonValue)| (e.0@, json_text(e.1)))
    }
}

impl InMemorySessionBackend {
    /// An empty session.
    pub fn new() -> (r: Self)
        ensures
            r@.len() == 0,
    {
        let r = InMemorySessionBackend { data: Vec::new() };
        assert(r@ =~= Seq::<(Seq<char>, Seq<char>)>::empty());
        r
    }

    /// The entries, in the order keys were first set.
    pub fn into_entries(self) -> (r: Vec<(String, JsonValue)>)
        ensures
            crate::messages::session_view(r@) == self@,
    {
        self.data
    }

    /// The session's id: `in-memory`.
    pub fn session_id(&self) -> (r: &'static str)
        ensures
            r@ == "in-memory"@,
    {
        "in-memory"
    }

    fn position(&self, key: &str) -> (i: usize)
        ensures
            i <= self@.len(),
            forall|j: int| 0 <= j < i ==> self@[j].0 != key@,
            i < self@.len() ==> self@[i as int].0 == key@,
    {
        let mut i: usize = 0;
        while i < self.data.len()
            invariant
                i <= self.data@.len(),
                forall|j: int| 0 <= j < i ==> self@[j].0 != key@,
            decreases self.data.len() - i,
        {
            if str_eq(self.data[i].0.as_str(), key) {
                return i;
            }
            i = i + 1;
        }
        i
    }
}

impl Default for InMemorySessionBackend {
    fn default() -> (r: Self)
        ensures
            r@.len() == 0,
    {
        InMemorySessionBackend::new()
    }
}

/// The pairs without those under `key`.
pub open spec fn pair_remove(s: PairsView, key: Seq<char>) -> PairsView {
    s.filter(|e: (Seq<char>, Seq<char>)| e.0 != key)
}

impl SessionBackend for InMemorySessionBackend {
    /// A copy of the value under `key`, if any.
    fn get(&self, key: &str) -> (r: Option<JsonValue>)
        ensures
            match pair_lookup(self@, key@) {
                Some(t) => r matches Some(v) && json_text(v) == t,
                None => r is None,
            },
    {
        let i = self.position(key);
        proof { lemma_pair_at(self@, key@, Seq::empty(), i as int); }
        if i < self.data.len() {
            Some(self.data[i].1.duplicate())
        } else {
            None
        }
    }

    /// Sets `key` to `value`, in place when the key is present.
    fn set(&mut self, key: &str, value: JsonValue)
        ensures
            final(self)@ == pair_insert(old(self)@, key@, json_text(value)),
    {
        let i = self.position(key);
        proof { lemma_pair_at(self@, key@, json_text(value), i as int); }
        let ghost t = json_text(value);
        if i < self.data.len() {
            self.data.set(i, (owned(key), value));
        } else {
            self.data.push((owned(key), value));
        }
        assert(self@ =~= pair_insert(old(self)@, key@, t));
    }

    /// Removes the entries under `key`.
    fn delete(&mut self, key: &str)
        ensures
            final(self)@ == pair_remove(old(self)@, key@),
    {
        let mut rest: Vec<(String, JsonValue)> = Vec::new();
        std::mem::swap(&mut rest, &mut self.data);
        let ghost all = rest@;
        let ghost s = all.map_values(|e: (String, JsonValue)| (e.0@, json_text(e.1)));
        let n = rest.len();
        let mut kept: Vec<(String, JsonValue)> = Vec::new();
        let mut i: usize = 0;
        while i < n
            invariant
                n == all.len(),
                i <= n,
                rest@ == all.subrange(i as int, n as int),
                s == all.map_values(|e: (String, JsonValue)| (e.0@, json_text(e.1))),
                kept@.map_values(|e: (String, JsonValue)| (e.0@, json_text(e.1))) == pair_remove(s.take(i as int), key@),
            decreases n - i,
        {
            let e = rest.remove(0);
            assert(e == all[i as int]);
            assert(rest@ =~= all.subrange(i + 1, n as int));
            let ghost before = kept@;
            assert(s.take(i + 1) =~= s.take(i as int).push(s[i as int]));
            proof {
                reveal(Seq::filter);
                assert(s.take(i + 1).drop_last() =~= s.take(i as int));
                assert(s.take(i + 1).last() == s[i as int]);
            }
            if !str_eq(e.0.as_str(), key) {
                kept.push(e);
                assert(kept@.map_values(|e: (String, JsonValue)| (e.0@, json_text(e.1)))
                    =~= before.map_values(|e: (String, JsonValue)| (e.0@, json_text(e.1))).push(s[i as int]));
            }
            i = i + 1;
        }
        assert(s.take(n as int) =~= s);
        self.data = kept;
    }

    /// Removes every entry.
    fn clear(&mut self)
        ensures
            final(self)@.len() == 0,
    {
        self.data = Vec::new();
    }

    /// The keys, in order.
    fn keys(&self) -> (r: Vec<String>)
        ensures
            r@.len() == self@.len(),
            forall|i: int| 0 <= i < r@.len() ==> r@[i]@ == self@[i].0,
    {
        let mut r: Vec<String> = Vec::new();
        let mut i: usize = 0;
        while i < self.data.len()
            invariant
                i <= self.data@.len(),
                r@.len() == i,
                forall|j: int| 0 <= j < i ==> r@[j]@ == self@[j].0,
            decreases self.data.len() - i,
        {
            r.push(self.data[i].0.clone());
            i = i + 1;
        }
        r
    }
}

/// The lowercase hex digits of `n`, most significant first, without
/// leading zeros (`0` for zero).
pub open spec fn hex_text(n: nat) -> Seq<char>
    decreases n,
{
    if n < 16 {
        seq!["0123456789abcdef"@[n as int]]
    } else {
        hex_text(n / 16).push("0123456789abcdef"@[(n % 16) as int])
    }
}

/// The lowercase hex digits of `n` (see [`hex_text`]).
pub fn hex_string(n: u128) -> (r: String)
    ensures
        r@ == hex_text(n as nat),
    decreases n,
{
    let digits = crate::text::chars_of("0123456789abcdef");
    proof { reveal_strlit("0123456789abcdef"); }
    assert(digits@.len() == 16);
    if n < 16 {
        let mut r = String::new();
        push_char(&mut r, digits[n as usize]);
        assert(r@ =~= hex_text(n as nat));
        r
    } else {
        let mut r = hex_string(n / 16);
        push_char(&mut r, digits[(n % 16) as usize]);
        r
    }
}

/// The session key for a clock reading of `nanos` nanoseconds since the
/// Unix epoch: `rjs-` and the reading in lowercase hex.
pub fn session_key_for(nanos: u128) -> (r: String)
    ensures
        r@ == "rjs-"@ + hex_text(nanos as nat),
{
    let mut r = owned("rjs-");
    let h = hex_string(nanos);
    r.append(h.as_str());
    r
}

/// Nanoseconds since the Unix epoch by the system clock, 0 for a clock set
/// before it; it depends on the time, so nothing is stated of it.
#[verifier::external_body]
fn unix_nanos() -> u128 {
    std::time::SystemTime::now().duration_since(std::time::UNIX_EPOCH).unwrap_or_default().as_nanos()
}

/// A new session key from the current time (see [`session_key_for`]).
pub fn generate_key() -> (r: String)
    ensures
        exists|n: u128| r@ == "rjs-"@ + hex_text(n as nat),
{
    let n = unix_nanos();
    session_key_for(n)
}

/// Session files older than this many seconds are cleared: two weeks.
pub const SESSION_FILE_MAX_AGE_SECS: u64 = 1209600;

/// A file of the session directory, with extension `extension` and last
/// changed `age_secs` seconds ago, is cleared: a `session` file older than
/// two weeks.
pub fn session_file_expired(extension: Option<&str>, age_secs: u64) -> (r: bool)
    ensures
        r == (extension matches Some(e) && e@ == "session"@ && age_secs > 1209600),
{
    match extension {
        Some(e) => str_eq(e, "session") && age_secs > SESSION_FILE_MAX_AGE_SECS,
        None => false,
    }
}

/// The session values stored as the JSON text `content`: the entries of
/// the object it holds, or `None` when it is not a JSON object.
pub fn session_from_text(content: &str) -> (r: Option<Vec<(String, JsonValue)>>)
    ensures
        r is Some ==> crate::json::object_wf(r->Some_0@),
        match json_object_parsed(content@) {
            Ok(v) => r matches Some(d) && entry_views(d@) == v,
            Err(_) => r is None,
        },
{
    match parse_json_object(content) {
        Ok(v) => Some(v),
        Err(_) => None,
    }
}

/// The JSON text a session is stored as: an object of its values.
pub fn session_to_text(data: &Vec<(String, JsonValue)>) -> (r: String)
    ensures
        r@ == object_text(data@),
{
    object_to_text(data)
}

} // verus!
