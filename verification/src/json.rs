//! JSON values as the serializers read and write them: their compact text,
//! and JSON text parsed into them.

use vstd::prelude::*;
use crate::orm::fields::{json_quote, json_quoted};
use crate::text::{join, join_strings, views};

verus! {

/// A JSON value. A number is kept as the text `serde_json` writes for it;
/// an object keeps its entries in the order given.
#[derive(Debug)]
pub enum JsonValue {
    Null,
    Bool(bool),
    Number(String),
    String(String),
    Array(Vec<JsonValue>),
    Object(Vec<(String, JsonValue)>),
}

/// The compact JSON text of a value, as `serde_json::to_string` writes it:
/// no spaces, strings quoted and escaped, entries in their order.
pub open spec fn json_text(v: JsonValue) -> Seq<char>
    decreases v,
{
    match v {
        JsonValue::Null => "null"@,
        JsonValue::Bool(b) => if b { "true"@ } else { "false"@ },
        JsonValue::Number(t) => t@,
        JsonValue::String(s) => json_quoted(s@),
        JsonValue::Array(items) => "["@ + join(items_text(items@), ","@) + "]"@,
        JsonValue::Object(entries) => "{"@ + join(entries_text(entries@), ","@) + "}"@,
    }
}

/// The texts of array items, in order.
pub open spec fn items_text(s: Seq<JsonValue>) -> Seq<Seq<char>>
    decreases s,
{
    if s.len() == 0 {
        Seq::empty()
    } else {
        items_text(s.drop_last()).push(json_text(s.last()))
    }
}

/// The texts `"key":value` of object entries, in order.
pub open spec fn entries_text(s: Seq<(String, JsonValue)>) -> Seq<Seq<char>>
    decreases s,
{
    if s.len() == 0 {
        Seq::empty()
    } else {
        entries_text(s.drop_last()).push(json_quoted(s.last().0@) + ":"@ + json_text(s.last().1))
    }
}

/// The compact JSON text of an object with `entries`.
pub open spec fn object_text(entries: Seq<(String, JsonValue)>) -> Seq<char> {
    "{"@ + join(entries_text(entries), ","@) + "}"@
}

/// The compact JSON text of `v` (see [`json_text`]).
#[verifier::loop_isolation(false)]
pub fn to_json_text(v: &JsonValue) -> (r: String)
    ensures
        r@ == json_text(*v),
    decreases v,
{
    match v {
        JsonValue::Null => String::from_str("null"),
        JsonValue::Bool(b) => if *b { String::from_str("true") } else { String::from_str("false") },
        JsonValue::Number(t) => t.clone(),
        JsonValue::String(s) => json_quote(s.as_str()),
        JsonValue::Array(items) => {
            let mut parts: Vec<String> = Vec::new();
            let mut i: usize = 0;
            while i < items.len()
                invariant
                    i <= items@.len(),
                    views(parts@) == items_text(items@.take(i as int)),
                decreases items.len() - i,
            {
                proof {
                    assert(decreases_to!(*v => v->Array_0));
                    assert(decreases_to!(v->Array_0 => v->Array_0@));
                    assert(decreases_to!(v->Array_0@ => v->Array_0@[i as int]));
                }
                let t = to_json_text(&items[i]);
                let ghost before = views(parts@);
                parts.push(t);
                assert(items@.take(i + 1).drop_last() =~= items@.take(i as int));
                assert(views(parts@) =~= before.push(t@));
                i = i + 1;
            }
            assert(items@.take(items@.len() as int) =~= items@);
            let body = join_strings(&parts, ",");
            let mut r = String::from_str("[");
            r.append(body.as_str());
            r.append("]");
            r
        },
        JsonValue::Object(entries) => object_to_text(entries),
    }
}

/// The compact JSON text of an object with `entries`.
pub fn object_to_text(entries: &Vec<(String, JsonValue)>) -> (r: String)
    ensures
        r@ == object_text(entries@),
    decreases entries,
{
    let mut parts: Vec<String> = Vec::new();
    let mut i: usize = 0;
    while i < entries.len()
        invariant
            i <= entries@.len(),
            views(parts@) == entries_text(entries@.take(i as int)),
        decreases entries.len() - i,
    {
        assert(decreases_to!(entries => entries@[i as int].1));
        let k = json_quote(entries[i].0.as_str());
        let t = to_json_text(&entries[i].1);
        let mut p = k;
        p.append(":");
        p.append(t.as_str());
        let ghost before = views(parts@);
        parts.push(p);
        assert(entries@.take(i + 1).drop_last() =~= entries@.take(i as int));
        assert(views(parts@) =~= before.push(p@));
        i = i + 1;
    }
    assert(entries@.take(entries@.len() as int) =~= entries@);
    let body = join_strings(&parts, ",");
    let mut r = String::from_str("{");
    r.append(body.as_str());
    r.append("}");
    r
}

impl JsonValue {
    /// A copy of the value.
    #[verifier::loop_isolation(false)]
    pub fn duplicate(&self) -> (r: JsonValue)
        ensures
            json_text(r) == json_text(*self),
        decreases self,
    {
        match self {
            JsonValue::Null => JsonValue::Null,
            JsonValue::Bool(b) => JsonValue::Bool(*b),
            JsonValue::Number(t) => JsonValue::Number(t.clone()),
            JsonValue::String(s) => JsonValue::String(s.clone()),
            JsonValue::Array(items) => {
                let mut out: Vec<JsonValue> = Vec::new();
                let mut i: usize = 0;
                while i < items.len()
                    invariant
                        i <= items@.len(),
                        out@.len() == i,
                        items_text(out@) == items_text(items@.take(i as int)),
                    decreases items.len() - i,
                {
                    proof {
                        assert(decreases_to!(*self => self->Array_0));
                        assert(decreases_to!(self->Array_0 => self->Array_0@));
                        assert(decreases_to!(self->Array_0@ => self->Array_0@[i as int]));
                    }
                    let x = items[i].duplicate();
                    let ghost before = out@;
                    out.push(x);
                    assert(out@.drop_last() =~= before);
                    assert(items@.take(i + 1).drop_last() =~= items@.take(i as int));
                    i = i + 1;
                }
                assert(items@.take(items@.len() as int) =~= items@);
                JsonValue::Array(out)
            },
            JsonValue::Object(entries) => {
                let mut out: Vec<(String, JsonValue)> = Vec::new();
                let mut i: usize = 0;
                while i < entries.len()
                    invariant
                        i <= entries@.len(),
                        out@.len() == i,
                        entries_text(out@) == entries_text(entries@.take(i as int)),
                    decreases entries.len() - i,
                {
                    proof {
                        assert(decreases_to!(*self => self->Object_0));
                        assert(decreases_to!(self->Object_0 => self->Object_0@));
                        assert(decreases_to!(self->Object_0@ => self->Object_0@[i as int]));
                        assert(decreases_to!(self->Object_0@[i as int] => self->Object_0@[i as int].1));
                    }
                    let k = entries[i].0.clone();
                    let x = entries[i].1.duplicate();
                    let ghost before = out@;
                    out.push((k, x));
                    assert(out@.drop_last() =~= before);
                    assert(entries@.take(i + 1).drop_last() =~= entries@.take(i as int));
                    i = i + 1;
                }
                assert(entries@.take(entries@.len() as int) =~= entries@);
                JsonValue::Object(out)
            },
        }
    }

    /// The value under `key` of an object (its first entry with that key);
    /// `None` for a missing key or a value that is not an object.
    #[verifier::loop_isolation(false)]
    pub fn get(&self, key: &str) -> (r: Option<&JsonValue>)
        ensures
            match *self {
                JsonValue::Object(es) => match first_entry(es@, key@) {
                    Some(i) => r == Some(&es@[i].1),
                    None => r is None,
                },
                _ => r is None,
            },
    {
        match self {
            JsonValue::Object(entries) => {
                let mut i: usize = 0;
                while i < entries.len()
                    invariant
                        i <= entries@.len(),
                        forall|j: int| 0 <= j < i ==> entries@[j].0@ != key@,
                    decreases entries.len() - i,
                {
                    if crate::text::str_eq(entries[i].0.as_str(), key) {
                        proof { lemma_first_entry_at(entries@, key@, i as int); }
                        return Some(&entries[i].1);
                    }
                    i = i + 1;
                }
                proof { lemma_first_entry_at(entries@, key@, i as int); }
                None
            },
            _ => None,
        }
    }

    /// The integer of a number written as an integer that fits in `i64`;
    /// `None` for any other value (`Value::as_i64`).
    pub fn as_i64(&self) -> (r: Option<i64>)
        ensures
            r == (match *self {
                JsonValue::Number(t) => match crate::text::parse_i64(t@) {
                    Some(x) => Some(x as i64),
                    None => None,
                },
                _ => None::<i64>,
            }),
    {
        match self {
            JsonValue::Number(t) => crate::text::parse_i64_str(t.as_str()),
            _ => None,
        }
    }

    /// The text of a string value; `None` for any other value.
    pub fn as_str(&self) -> (r: Option<&str>)
        ensures
            match *self {
                JsonValue::String(s) => r matches Some(t) && t@ == s@,
                _ => r is None,
            },
    {
        match self {
            JsonValue::String(s) => Some(s.as_str()),
            _ => None,
        }
    }
}

/// The position of the first entry with key `key`.
pub open spec fn first_entry(es: Seq<(String, JsonValue)>, key: Seq<char>) -> Option<int>
    decreases es.len(),
{
    if es.len() == 0 {
        None
    } else if es[0].0@ == key {
        Some(0)
    } else {
        match first_entry(es.drop_first(), key) {
            Some(j) => Some(j + 1),
            None => None,
        }
    }
}

/// `first_entry` is `i` when `i` is the first position with the key, or
/// none when no position before `i = es.len()` has it.
pub proof fn lemma_first_entry_at(es: Seq<(String, JsonValue)>, key: Seq<char>, i: int)
    requires
        0 <= i <= es.len(),
        forall|j: int| 0 <= j < i ==> es[j].0@ != key,
        i < es.len() ==> es[i].0@ == key,
    ensures
        first_entry(es, key) == (if i < es.len() { Some(i) } else { None::<int> }),
    decreases i,
{
    if i > 0 {
        let t = es.drop_first();
        assert forall|j: int| 0 <= j < i - 1 implies t[j].0@ != key by {
            assert(t[j] == es[j + 1]);
        }
        if i < es.len() {
            assert(t[i - 1] == es[i]);
        }
        lemma_first_entry_at(t, key, i - 1);
        assert(es[0].0@ != key);
    }
}

impl Clone for JsonValue {
    /// As [`JsonValue::duplicate`].
    fn clone(&self) -> (r: Self)
        ensures
            json_text(r) == json_text(*self),
    {
        self.duplicate()
    }
}

/// The keys of an object's entries are in strictly ascending order, so
/// no key occurs twice (as in `serde_json`'s map, a `BTreeMap`).
pub open spec fn keys_ascending(es: Seq<(String, JsonValue)>) -> bool {
    forall|i: int, j: int| 0 <= i < j < es.len() ==> crate::text::seq_lt(#[trigger] es[i].0@, #[trigger] es[j].0@)
}

/// A well-formed value: every object in it has its keys in strictly
/// ascending order.
pub open spec fn json_wf(v: JsonValue) -> bool
    decreases v,
{
    match v {
        JsonValue::Array(items) => items_wf(items@),
        JsonValue::Object(es) => keys_ascending(es@) && entries_wf(es@),
        _ => true,
    }
}

/// Every item is well-formed.
pub open spec fn items_wf(s: Seq<JsonValue>) -> bool
    decreases s,
{
    s.len() == 0 || (items_wf(s.drop_last()) && json_wf(s.last()))
}

/// Every entry's value is well-formed.
pub open spec fn entries_wf(s: Seq<(String, JsonValue)>) -> bool
    decreases s,
{
    s.len() == 0 || (entries_wf(s.drop_last()) && json_wf(s.last().1))
}

/// An object's entries are well-formed: keys strictly ascending, values
/// well-formed.
pub open spec fn object_wf(es: Seq<(String, JsonValue)>) -> bool {
    keys_ascending(es) && entries_wf(es)
}

} // verus!
