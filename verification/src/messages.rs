//! Flash message levels and messages.

use vstd::prelude::*;
use crate::http::PairsView;
use crate::json::{first_entry, items_text, json_text, JsonValue};
use crate::orm::fields::json_quoted;
use crate::sessions::pair_remove;
use crate::text::{join, nat_str, owned, parse_i64, parse_i64_str, str_eq, u64_to_string};

verus! {

/// Message severities, ordered as their numeric values 10, 20, 25, 30, 40.
#[derive(Debug, Clone, Copy, PartialEq, Eq, Structural)]
pub enum MessageLevel {
    Debug,
    Info,
    Success,
    Warning,
    Error,
}

impl MessageLevel {
    /// The numeric value of the level.
    pub open spec fn spec_value(self) -> i32 {
        match self {
            MessageLevel::Debug => 10,
            MessageLevel::Info => 20,
            MessageLevel::Success => 25,
            MessageLevel::Warning => 30,
            MessageLevel::Error => 40,
        }
    }

    /// The numeric value of the level.
    pub fn value(&self) -> (r: i32)
        ensures
            r == self.spec_value(),
    {
        match self {
            MessageLevel::Debug => 10,
            MessageLevel::Info => 20,
            MessageLevel::Success => 25,
            MessageLevel::Warning => 30,
            MessageLevel::Error => 40,
        }
    }

    /// The level with numeric value `n`; `Info` for any other number.
    pub fn from_int(n: i32) -> (r: Self)
        ensures
            r == level_of_int(n),
            (n == 10 || n == 20 || n == 25 || n == 30 || n == 40) ==> r.spec_value() == n,
            !(n == 10 || n == 20 || n == 25 || n == 30 || n == 40) ==> r == MessageLevel::Info,
    {
        match n {
            10 => MessageLevel::Debug,
            25 => MessageLevel::Success,
            30 => MessageLevel::Warning,
            40 => MessageLevel::Error,
            _ => MessageLevel::Info,
        }
    }

    /// The lowercase name of the level.
    pub open spec fn spec_name(self) -> Seq<char> {
        match self {
            MessageLevel::Debug => "debug"@,
            MessageLevel::Info => "info"@,
            MessageLevel::Success => "success"@,
            MessageLevel::Warning => "warning"@,
            MessageLevel::Error => "error"@,
        }
    }

    /// The lowercase name of the level.
    pub fn name(&self) -> (r: &'static str)
        ensures
            r@ == self.spec_name(),
    {
        match self {
            MessageLevel::Debug => "debug",
            MessageLevel::Info => "info",
            MessageLevel::Success => "success",
            MessageLevel::Warning => "warning",
            MessageLevel::Error => "error",
        }
    }
}

/// Reading a level back from its numeric value gives the level.
pub proof fn law_level_roundtrip(level: MessageLevel)
    ensures
        ({
            let n = level.spec_value();
            n == 10 || n == 20 || n == 25 || n == 30 || n == 40
        }),
{
}

/// A flash message with its level.
#[derive(Debug, Clone)]
pub struct Message {
    pub level: MessageLevel,
    pub message: String,
}

impl Message {
    /// A message with the given level and text.
    pub fn new(level: MessageLevel, message: &str) -> (r: Self)
        ensures
            r.level == level,
            r.message@ == message@,
    {
        Message { level, message: owned(message) }
    }
}

// ---------------------------------------------------------------------------
// Flash messages in a session
// ---------------------------------------------------------------------------

/// A session's entries as keys with the JSON text of their values.
pub open spec fn session_view(es: Seq<(String, JsonValue)>) -> PairsView {
    es.map_values(|e: (String, JsonValue)| (e.0@, json_text(e.1)))
}

/// The JSON text of the record of a message: `{"level":n,"message":"..."}`.
pub open spec fn message_record_text(level: MessageLevel, message: Seq<char>) -> Seq<char> {
    "{"@ + json_quoted("level"@) + ":"@ + nat_str(level.spec_value() as nat) + ","@
        + json_quoted("message"@) + ":"@ + json_quoted(message) + "}"@
}

/// The record of a message: an object with its level and its text.
#[verifier::rlimit(50)]
fn message_record(level: MessageLevel, message: &str) -> (r: JsonValue)
    ensures
        json_text(r) == message_record_text(level, message@),
{
    let n = level.value();
    assert(n > 0);
    let mut es: Vec<(String, JsonValue)> = Vec::new();
    es.push((owned("level"), JsonValue::Number(u64_to_string(n as u64))));
    es.push((owned("message"), JsonValue::String(owned(message))));
    let r = JsonValue::Object(es);
    proof {
        let e = es@;
        reveal_with_fuel(crate::json::entries_text, 3);
        assert(e.drop_last().drop_last() =~= Seq::<(String, JsonValue)>::empty());
        assert(crate::json::entries_text(e) =~= seq![
            json_quoted("level"@) + ":"@ + nat_str(n as nat),
            json_quoted("message"@) + ":"@ + json_quoted(message@),
        ]);
        reveal_with_fuel(join, 3);
        assert(join(crate::json::entries_text(e), ","@) =~= json_quoted("level"@) + ":"@ + nat_str(n as nat) + ","@
            + json_quoted("message"@) + ":"@ + json_quoted(message@));
        assert(json_text(r) =~= message_record_text(level, message@));
    }
    r
}

fn messages_position(session: &Vec<(String, JsonValue)>) -> (i: usize)
    ensures
        i <= session@.len(),
        i < session@.len() ==> session@[i as int].0@ == "_messages"@,
        (i == session@.len()) == (first_entry(session@, "_messages"@) is None),
        match first_entry(session@, "_messages"@) {
            Some(j) => i == j,
            None => i == session@.len(),
        },
{
    let mut i: usize = 0;
    while i < session.len()
        invariant
            i <= session@.len(),
            forall|j: int| 0 <= j < i ==> session@[j].0@ != "_messages"@,
        decreases session.len() - i,
    {
        if str_eq(session[i].0.as_str(), "_messages") {
            proof { crate::json::lemma_first_entry_at(session@, "_messages"@, i as int); }
            return i;
        }
        i = i + 1;
    }
    proof { crate::json::lemma_first_entry_at(session@, "_messages"@, i as int); }
    i
}

/// `after` is the session `before` with the message added to its
/// `_messages` array (see [`add_message`]).
pub open spec fn message_added(before: Seq<(String, JsonValue)>, after: Seq<(String, JsonValue)>, level: MessageLevel, message: Seq<char>) -> bool {
    let rec = message_record_text(level, message);
    match first_entry(before, "_messages"@) {
        None => session_view(after) == session_view(before).push(("_messages"@, "["@ + rec + "]"@)),
        Some(i) => match before[i].1 {
            JsonValue::Array(items) => session_view(after) == session_view(before).update(
                i, ("_messages"@, "["@ + join(items_text(items@).push(rec), ","@) + "]"@)),
            _ => session_view(after) == session_view(before),
        },
    }
}

/// Adds a message to the session's `_messages` array: the array is made
/// when the session has none; a `_messages` value that is not an array is
/// left as it is.
pub fn add_message(session: &mut Vec<(String, JsonValue)>, level: MessageLevel, message: &str)
    ensures
        message_added(old(session)@, final(session)@, level, message@),
{
    let rec = message_record(level, message);
    let i = messages_position(session);
    if i == session.len() {
        let mut items: Vec<JsonValue> = Vec::new();
        let ghost rt = json_text(rec);
        items.push(rec);
        let ghost before = session_view(session@);
        session.push((owned("_messages"), JsonValue::Array(items)));
        proof {
            assert(items@.drop_last() =~= Seq::<JsonValue>::empty());
            reveal_with_fuel(items_text, 2);
            assert(items_text(items@) =~= seq![rt]);
            assert(session_view(session@) =~= before.push(("_messages"@, "["@ + rt + "]"@)));
        }
    } else {
        let ghost before = session_view(session@);
        let ghost olds = session@;
        let (key, value) = session.remove(i);
        assert(value == olds[i as int].1 && key == olds[i as int].0);
        let new_value = match value {
            JsonValue::Array(items) => {
                let mut items = items;
                let ghost old_items = items@;
                let ghost rt = json_text(rec);
                items.push(rec);
                assert(items@.drop_last() =~= old_items);
                assert(items_text(items@) == items_text(old_items).push(rt));
                let nv = JsonValue::Array(items);
                assert(json_text(nv) == "["@ + join(items_text(old_items).push(rt), ","@) + "]"@);
                nv
            },
            other => other,
        };
        let ghost nv = json_text(new_value);
        session.insert(i, (key, new_value));
        proof {
            assert(session@ =~= olds.update(i as int, session@[i as int]));
            assert(session_view(session@) =~= session_view(olds).update(i as int, (olds[i as int].0@, nv)));
            if olds[i as int].1 is Array {
                assert(nv == "["@ + join(items_text(olds[i as int].1->Array_0@).push(message_record_text(level, message@)), ","@) + "]"@);
            }
            if !(olds[i as int].1 is Array) {
                assert(session_view(olds).update(i as int, (olds[i as int].0@, nv)) =~= session_view(olds));
            }
        }
    }
}

/// Adds a message of level `Info` (see [`add_message`]).
pub fn info(session: &mut Vec<(String, JsonValue)>, message: &str)
    ensures
        message_added(old(session)@, final(session)@, MessageLevel::Info, message@),
{
    add_message(session, MessageLevel::Info, message);
}

/// Adds a message of level `Success` (see [`add_message`]).
pub fn success(session: &mut Vec<(String, JsonValue)>, message: &str)
    ensures
        message_added(old(session)@, final(session)@, MessageLevel::Success, message@),
{
    add_message(session, MessageLevel::Success, message);
}

/// Adds a message of level `Warning` (see [`add_message`]).
pub fn warning(session: &mut Vec<(String, JsonValue)>, message: &str)
    ensures
        message_added(old(session)@, final(session)@, MessageLevel::Warning, message@),
{
    add_message(session, MessageLevel::Warning, message);
}

/// Adds a message of level `Error` (see [`add_message`]).
pub fn error(session: &mut Vec<(String, JsonValue)>, message: &str)
    ensures
        message_added(old(session)@, final(session)@, MessageLevel::Error, message@),
{
    add_message(session, MessageLevel::Error, message);
}

/// Adds a message of level `Debug` (see [`add_message`]).
pub fn debug(session: &mut Vec<(String, JsonValue)>, message: &str)
    ensures
        message_added(old(session)@, final(session)@, MessageLevel::Debug, message@),
{
    add_message(session, MessageLevel::Debug, message);
}

/// The level with numeric value `n`; `Info` for any other number.
pub open spec fn level_of_int(n: i32) -> MessageLevel {
    if n == 10 {
        MessageLevel::Debug
    } else if n == 25 {
        MessageLevel::Success
    } else if n == 30 {
        MessageLevel::Warning
    } else if n == 40 {
        MessageLevel::Error
    } else {
        MessageLevel::Info
    }
}

/// The level a stored message record gives: its `level` entry read as an
/// `i64` and cut to `i32`, 20 when there is none.
pub open spec fn record_level(es: Seq<(String, JsonValue)>) -> MessageLevel {
    let n: i64 = match first_entry(es, "level"@) {
        Some(i) => match es[i].1 {
            JsonValue::Number(t) => match parse_i64(t@) {
                Some(x) => x as i64,
                None => 20i64,
            },
            _ => 20i64,
        },
        None => 20i64,
    };
    level_of_int(n as i32)
}

/// The text a stored message record gives: its `message` string, empty
/// when there is none.
pub open spec fn record_text(es: Seq<(String, JsonValue)>) -> Seq<char> {
    match first_entry(es, "message"@) {
        Some(i) => match es[i].1 {
            JsonValue::String(s) => s@,
            _ => ""@,
        },
        None => ""@,
    }
}

/// The messages of the stored records that are objects, in order.
pub open spec fn messages_in(items: Seq<JsonValue>) -> Seq<(MessageLevel, Seq<char>)>
    decreases items.len(),
{
    if items.len() == 0 {
        Seq::empty()
    } else {
        let rest = messages_in(items.drop_last());
        match items.last() {
            JsonValue::Object(es) => rest.push((record_level(es@), record_text(es@))),
            _ => rest,
        }
    }
}

/// The messages stored in a session: those of its `_messages` array.
pub open spec fn stored_messages(session: Seq<(String, JsonValue)>) -> Seq<(MessageLevel, Seq<char>)> {
    match first_entry(session, "_messages"@) {
        Some(i) => match session[i].1 {
            JsonValue::Array(items) => messages_in(items@),
            _ => Seq::empty(),
        },
        None => Seq::empty(),
    }
}

/// Takes the flash messages out of the session: the `_messages` entry is
/// removed and the messages of its records that are objects are returned,
/// in order.
pub fn get_messages(session: &mut Vec<(String, JsonValue)>) -> (r: Vec<Message>)
    ensures
        session_view(final(session)@) == pair_remove(session_view(old(session)@), "_messages"@),
        r@.len() == stored_messages(old(session)@).len(),
        forall|k: int| 0 <= k < r@.len() ==> (#[trigger] r@[k]).level == stored_messages(old(session)@)[k].0
            && r@[k].message@ == stored_messages(old(session)@)[k].1,
{
    let mut rest: Vec<(String, JsonValue)> = Vec::new();
    std::mem::swap(&mut rest, session);
    let ghost all = rest@;
    let ghost s = session_view(all);
    let n = rest.len();
    let mut kept: Vec<(String, JsonValue)> = Vec::new();
    let mut found: Option<JsonValue> = None;
    let ghost mut pos: int = 0;
    let mut i: usize = 0;
    while i < n
        invariant
            n == all.len(),
            i <= n,
            rest@ == all.subrange(i as int, n as int),
            s == session_view(all),
            session_view(kept@) == pair_remove(s.take(i as int), "_messages"@),
            0 <= pos <= i,
            forall|j: int| 0 <= j < pos ==> all[j].0@ != "_messages"@,
            pos < i ==> all[pos].0@ == "_messages"@ && found == Some(all[pos].1),
            pos == i ==> found is None,
        decreases n - i,
    {
        let e = rest.remove(0);
        assert(e == all[i as int]);
        assert(rest@ =~= all.subrange(i + 1, n as int));
        let ghost before = kept@;
        proof {
            reveal(Seq::filter);
            assert(s.take(i + 1).drop_last() =~= s.take(i as int));
            assert(s.take(i + 1).last() == s[i as int]);
        }
        let (k, v) = e;
        if str_eq(k.as_str(), "_messages") {
            if found.is_none() {
                found = Some(v);
            }
        } else {
            kept.push((k, v));
            assert(session_view(kept@) =~= session_view(before).push(s[i as int]));
        }
        proof {
            if pos == i && all[i as int].0@ != "_messages"@ {
                pos = pos + 1;
            }
        }
        i = i + 1;
    }
    assert(s.take(n as int) =~= s);
    *session = kept;
    proof { crate::json::lemma_first_entry_at(all, "_messages"@, pos); }
    let mut r: Vec<Message> = Vec::new();
    match found {
        Some(JsonValue::Array(items)) => {
            let ghost want = messages_in(items@);
            let mut j: usize = 0;
            while j < items.len()
                invariant
                    j <= items@.len(),
                    r@.len() == messages_in(items@.take(j as int)).len(),
                    forall|k: int| 0 <= k < r@.len() ==> (#[trigger] r@[k]).level == messages_in(items@.take(j as int))[k].0
                        && r@[k].message@ == messages_in(items@.take(j as int))[k].1,
                decreases items.len() - j,
            {
                let item = &items[j];
                let ghost prev = messages_in(items@.take(j as int));
                assert(items@.take(j + 1).drop_last() =~= items@.take(j as int));
                assert(items@.take(j + 1).last() == items@[j as int]);
                match item {
                    JsonValue::Object(es) => {
                        let level: i64 = match item.get("level") {
                            Some(x) => match x.as_i64() {
                                Some(v) => v,
                                None => 20,
                            },
                            None => 20,
                        };
                        let text = match item.get("message") {
                            Some(x) => match x.as_str() {
                                Some(t) => owned(t),
                                None => owned(""),
                            },
                            None => owned(""),
                        };
                        let m = Message::new(MessageLevel::from_int(level as i32), text.as_str());
                        r.push(m);
                    },
                    _ => {},
                }
                j = j + 1;
            }
            assert(items@.take(items@.len() as int) =~= items@);
        },
        _ => {},
    }
    r
}

} // verus!
