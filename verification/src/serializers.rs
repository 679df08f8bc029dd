//! The XML layout of serialized objects, and the formats the serializers
//! know.

use vstd::prelude::*;
use crate::json::{entries_text, items_text, json_text, object_text, object_to_text, to_json_text, JsonValue};
use crate::text::{join, join_strings, trim, trim_seq, is_prefix, starts_with, views, concat2, lemma_seq_lt_strict_total, lemma_seq_lt_transitive, owned, replace_char, replace_char_str, seq_lt, str_eq, str_lt};

verus! {

/// `s` with `&`, `<`, `>`, `"` and `'` replaced by their XML entities, in that order.
pub open spec fn xml_escape(s: Seq<char>) -> Seq<char> {
    replace_char(
        replace_char(
            replace_char(replace_char(replace_char(s, '&', "&amp;"@), '<', "&lt;"@), '>', "&gt;"@),
            '"',
            "&quot;"@,
        ),
        '\'',
        "&apos;"@,
    )
}

/// Escapes `s` for XML text.
pub fn escape_xml(s: &str) -> (r: String)
    ensures
        r@ == xml_escape(s@),
{
    let a = replace_char_str(s, '&', "&amp;");
    let b = replace_char_str(a.as_str(), '<', "&lt;");
    let c = replace_char_str(b.as_str(), '>', "&gt;");
    let d = replace_char_str(c.as_str(), '"', "&quot;");
    replace_char_str(d.as_str(), '\'', "&apos;")
}

/// The views of a field list: names and texts.
pub open spec fn field_views(v: Seq<(String, String)>) -> Seq<(Seq<char>, Seq<char>)> {
    v.map_values(|p: (String, String)| (p.0@, p.1@))
}

/// The fields are in order of their names: no name sorts before an earlier one.
pub open spec fn names_sorted(s: Seq<(Seq<char>, Seq<char>)>) -> bool {
    forall|i: int, j: int| 0 <= i < j < s.len() ==> !seq_lt(#[trigger] s[j].0, #[trigger] s[i].0)
}

/// Where `x` goes among fields ordered by name: before the first field
/// whose name sorts after its name, so after every field of an equal name.
pub open spec fn insert_pos(s: Seq<(Seq<char>, Seq<char>)>, x: (Seq<char>, Seq<char>)) -> int
    decreases s.len(),
{
    if s.len() == 0 {
        0
    } else if seq_lt(x.0, s[0].0) {
        0
    } else {
        1 + insert_pos(s.drop_first(), x)
    }
}

/// The fields ordered by name by a stable insertion sort: fields with
/// equal names keep their input order.
pub open spec fn stable_sorted(s: Seq<(Seq<char>, Seq<char>)>) -> Seq<(Seq<char>, Seq<char>)>
    decreases s.len(),
{
    if s.len() == 0 {
        s
    } else {
        let t = stable_sorted(s.drop_last());
        t.insert(insert_pos(t, s.last()), s.last())
    }
}

proof fn lemma_insert_pos_at(s: Seq<(Seq<char>, Seq<char>)>, x: (Seq<char>, Seq<char>), j: int)
    requires
        0 <= j <= s.len(),
        forall|k: int| 0 <= k < j ==> !seq_lt(x.0, #[trigger] s[k].0),
        j < s.len() ==> seq_lt(x.0, s[j].0),
    ensures
        insert_pos(s, x) == j,
    decreases j,
{
    if j > 0 {
        let t = s.drop_first();
        assert forall|k: int| 0 <= k < j - 1 implies !seq_lt(x.0, #[trigger] t[k].0) by {
            assert(t[k] == s[k + 1]);
        }
        if j < s.len() {
            assert(t[j - 1] == s[j]);
        }
        lemma_insert_pos_at(t, x, j - 1);
        assert(!seq_lt(x.0, s[0].0));
    }
}

/// The fields of `v` ordered by name (fields with equal names keep their
/// order).
pub fn sort_fields(v: &Vec<(String, String)>) -> (r: Vec<(String, String)>)
    ensures
        field_views(r@) == stable_sorted(field_views(v@)),
        names_sorted(field_views(r@)),
        field_views(r@).to_multiset() == field_views(v@).to_multiset(),
{
    let mut r: Vec<(String, String)> = Vec::new();
    assert(field_views(r@) =~= field_views(v@).take(0));
    let mut i: usize = 0;
    while i < v.len()
        invariant
            i <= v.len(),
            names_sorted(field_views(r@)),
            field_views(r@).to_multiset() == field_views(v@).take(i as int).to_multiset(),
            field_views(r@) == stable_sorted(field_views(v@).take(i as int)),
        decreases v.len() - i,
    {
        let name = v[i].0.clone();
        let text = v[i].1.clone();
        let ghost x = (name@, text@);
        let ghost s = field_views(r@);
        let mut j: usize = 0;
        while j < r.len() && !str_lt(name.as_str(), r[j].0.as_str())
            invariant
                j <= r@.len(),
                s == field_views(r@),
                forall|k: int| 0 <= k < j ==> !seq_lt(name@, #[trigger] s[k].0),
            decreases r.len() - j,
        {
            j = j + 1;
        }
        proof {
            if j < s.len() {
                assert(seq_lt(name@, s[j as int].0));
            }
        }
        r.insert(j, (name, text));
        proof {
            let t = field_views(r@);
            assert(t =~= s.insert(j as int, x));
            lemma_insert_pos_at(s, x, j as int);
            assert(field_views(v@).take(i + 1).drop_last() =~= field_views(v@).take(i as int));
            assert(field_views(v@).take(i + 1).last() == x);
            vstd::seq_lib::to_multiset_insert(s, j as int, x);
            assert(field_views(v@).take(i + 1) =~= field_views(v@).take(i as int).push(x));
            vstd::seq_lib::to_multiset_build(field_views(v@).take(i as int), x);
            assert forall|a: int, b: int| 0 <= a < b < t.len() implies !seq_lt(#[trigger] t[b].0, #[trigger] t[a].0) by {
                if a < j && b < j {
                    assert(t[a] == s[a] && t[b] == s[b]);
                } else if a < j && b == j {
                    assert(t[a] == s[a]);
                } else if a < j && b > j {
                    assert(t[a] == s[a] && t[b] == s[b - 1]);
                } else if a == j {
                    assert(t[b] == s[b - 1]);
                    assert(seq_lt(name@, s[j as int].0));
                    if seq_lt(s[b - 1].0, name@) {
                        if b - 1 > j {
                            assert(!seq_lt(s[b - 1].0, s[j as int].0));
                        }
                        lemma_seq_lt_transitive(s[b - 1].0, name@, s[j as int].0);
                        lemma_seq_lt_strict_total(s[b - 1].0, s[j as int].0);
                    }
                } else {
                    assert(t[a] == s[a - 1] && t[b] == s[b - 1]);
                }
            }
        }
        i = i + 1;
    }
    assert(field_views(v@).take(i as int) =~= field_views(v@));
    r
}

/// One field element.
pub open spec fn field_xml(f: (Seq<char>, Seq<char>)) -> Seq<char> {
    "    <field name=\""@ + f.0 + "\">"@ + xml_escape(f.1) + "</field>\n"@
}

/// The field elements of the first `n` fields.
pub open spec fn fields_xml(s: Seq<(Seq<char>, Seq<char>)>, n: int) -> Seq<char>
    decreases n,
{
    if n <= 0 { Seq::empty() } else { fields_xml(s, n - 1) + field_xml(s[n - 1]) }
}

/// One object element with its fields in the order given.
pub open spec fn object_xml(s: Seq<(Seq<char>, Seq<char>)>) -> Seq<char> {
    "  <object>\n"@ + fields_xml(s, s.len() as int) + "  </object>\n"@
}

/// The object elements of the first `n` objects.
pub open spec fn objects_xml(objs: Seq<Seq<(Seq<char>, Seq<char>)>>, n: int) -> Seq<char>
    decreases n,
{
    if n <= 0 { Seq::empty() } else { objects_xml(objs, n - 1) + object_xml(objs[n - 1]) }
}

/// The XML document of objects whose fields are in the order given.
pub open spec fn document_xml(objs: Seq<Seq<(Seq<char>, Seq<char>)>>) -> Seq<char> {
    "<?xml version=\"1.0\" encoding=\"utf-8\"?>\n<django-objects>\n"@ + objects_xml(objs, objs.len() as int)
        + "</django-objects>\n"@
}

fn append_object(out: &mut String, fields: &Vec<(String, String)>)
    ensures
        final(out)@ == old(out)@ + object_xml(field_views(fields@)),
{
    let ghost s = field_views(fields@);
    out.append("  <object>\n");
    let ghost head = out@;
    let mut i: usize = 0;
    while i < fields.len()
        invariant
            i <= fields@.len(),
            s == field_views(fields@),
            out@ == head + fields_xml(s, i as int),
        decreases fields.len() - i,
    {
        let escaped = escape_xml(fields[i].1.as_str());
        let ghost before = out@;
        out.append("    <field name=\"");
        out.append(fields[i].0.as_str());
        out.append("\">");
        out.append(escaped.as_str());
        out.append("</field>\n");
        assert(out@ =~= before + field_xml(s[i as int]));
        i = i + 1;
    }
    out.append("  </object>\n");
}

/// The fields of each item ordered by name, equal names in input order.
pub open spec fn sorted_items(items: Seq<Seq<(Seq<char>, Seq<char>)>>) -> Seq<Seq<(Seq<char>, Seq<char>)>> {
    items.map_values(|it: Seq<(Seq<char>, Seq<char>)>| stable_sorted(it))
}

/// The views of the items' field lists.
pub open spec fn items_field_views(items: Seq<Vec<(String, String)>>) -> Seq<Seq<(Seq<char>, Seq<char>)>> {
    items.map_values(|it: Vec<(String, String)>| field_views(it@))
}

/// The XML document of `items`: each item an object element whose fields,
/// ordered by name (equal names in input order), are field elements with
/// their text escaped.
pub fn xml_document(items: &Vec<Vec<(String, String)>>) -> (r: String)
    ensures
        r@ == document_xml(sorted_items(items_field_views(items@))),
{
    let mut xml = String::from_str("<?xml version=\"1.0\" encoding=\"utf-8\"?>\n<django-objects>\n");
    let ghost head = xml@;
    let ghost want = sorted_items(items_field_views(items@));
    let mut i: usize = 0;
    while i < items.len()
        invariant
            i <= items@.len(),
            want == sorted_items(items_field_views(items@)),
            xml@ == head + objects_xml(want, i as int),
        decreases items.len() - i,
    {
        let fields = sort_fields(&items[i]);
        let ghost before = xml@;
        append_object(&mut xml, &fields);
        assert(field_views(fields@) == want[i as int]);
        i = i + 1;
    }
    xml.append("</django-objects>\n");
    assert(xml@ == document_xml(want));
    xml
}

/// The formats the serializers write.
#[derive(Debug, Clone, Copy, PartialEq, Eq)]
pub enum Format {
    Json,
    Xml,
}

/// The format named `name` for writing: `json` or `xml`; any other name is
/// refused with a message that names it.
pub fn serialization_format(name: &str) -> (r: Result<Format, String>)
    ensures
        name@ == "json"@ ==> r == Ok::<Format, String>(Format::Json),
        name@ == "xml"@ ==> r == Ok::<Format, String>(Format::Xml),
        name@ != "json"@ && name@ != "xml"@ ==> (r matches Err(m) && m@ == "Unsupported serialization format: "@ + name@),
{
    proof {
        reveal_strlit("json");
        reveal_strlit("xml");
        assert("json"@.len() == 4 && "xml"@.len() == 3);
    }
    if str_eq(name, "json") {
        Ok(Format::Json)
    } else if str_eq(name, "xml") {
        Ok(Format::Xml)
    } else {
        Err(concat2("Unsupported serialization format: ", name))
    }
}

/// The format named `name` for reading: only `json`; any other name is
/// refused with a message that names it.
pub fn deserialization_format(name: &str) -> (r: Result<Format, String>)
    ensures
        name@ == "json"@ ==> r == Ok::<Format, String>(Format::Json),
        name@ != "json"@ ==> (r matches Err(m) && m@ == "Unsupported deserialization format: "@ + name@),
{
    if str_eq(name, "json") {
        Ok(Format::Json)
    } else {
        Err(concat2("Unsupported deserialization format: ", name))
    }
}

// ---------------------------------------------------------------------------
// Values as field text
// ---------------------------------------------------------------------------

/// An array item inside a field: a string as itself, any other value as
/// its JSON text.
pub open spec fn item_text(v: JsonValue) -> Seq<char> {
    match v {
        JsonValue::String(s) => s@,
        _ => json_text(v),
    }
}

/// The texts of array items inside a field, in order.
pub open spec fn item_texts(s: Seq<JsonValue>) -> Seq<Seq<char>> {
    s.map_values(|v: JsonValue| item_text(v))
}

/// The text of a value inside an XML field: `None` for null, a string as
/// itself, a number or boolean as its JSON text, an array's items joined
/// by commas, an object as its JSON text.
pub open spec fn field_text(v: JsonValue) -> Seq<char> {
    match v {
        JsonValue::Null => "None"@,
        JsonValue::String(s) => s@,
        JsonValue::Array(items) => join(item_texts(items@), ","@),
        _ => json_text(v),
    }
}

/// The text of `v` inside an XML field (see [`field_text`]).
pub fn value_field_text(v: &JsonValue) -> (r: String)
    ensures
        r@ == field_text(*v),
{
    match v {
        JsonValue::Null => String::from_str("None"),
        JsonValue::String(s) => s.clone(),
        JsonValue::Array(items) => {
            let mut parts: Vec<String> = Vec::new();
            let mut i: usize = 0;
            while i < items.len()
                invariant
                    i <= items@.len(),
                    views(parts@) == item_texts(items@.take(i as int)),
                decreases items.len() - i,
            {
                let t = match &items[i] {
                    JsonValue::String(s) => s.clone(),
                    other => to_json_text(other),
                };
                assert(t@ == item_text(items@[i as int]));
                let ghost before = views(parts@);
                parts.push(t);
                assert(views(parts@) =~= before.push(t@));
                assert(items@.take(i + 1) =~= items@.take(i as int).push(items@[i as int]));
                assert(views(parts@) =~= item_texts(items@.take(i + 1)));
                i = i + 1;
            }
            assert(items@.take(items@.len() as int) =~= items@);
            join_strings(&parts, ",")
        },
        _ => to_json_text(v),
    }
}

/// The field lists of items with each value replaced by its field text.
pub open spec fn item_field_texts(items: Seq<Vec<(String, JsonValue)>>) -> Seq<Seq<(Seq<char>, Seq<char>)>> {
    items.map_values(|it: Vec<(String, JsonValue)>|
        it@.map_values(|f: (String, JsonValue)| (f.0@, field_text(f.1))))
}

/// No key occurs twice in the item, as in the map it stands for.
pub open spec fn keys_distinct(item: Seq<(String, JsonValue)>) -> bool {
    forall|i: int, j: int| 0 <= i < j < item.len() ==> #[trigger] item[i].0@ != #[trigger] item[j].0@
}

/// No item holds a key twice.
pub open spec fn items_keys_distinct(items: Seq<Vec<(String, JsonValue)>>) -> bool {
    forall|i: int| 0 <= i < items.len() ==> keys_distinct(#[trigger] items[i]@)
}

/// Items serialized as XML: the document of [`xml_document`] over each
/// item's fields, each value given as its [`field_text`].
pub fn serialize_xml(data: &Vec<Vec<(String, JsonValue)>>) -> (r: Result<String, String>)
    requires
        items_keys_distinct(data@),
    ensures
        r matches Ok(t) && t@ == document_xml(sorted_items(item_field_texts(data@))),
{
    let mut items: Vec<Vec<(String, String)>> = Vec::new();
    let mut i: usize = 0;
    while i < data.len()
        invariant
            i <= data@.len(),
            items@.len() == i,
            forall|k: int| 0 <= k < i ==> field_views(#[trigger] items@[k]@) == item_field_texts(data@)[k],
        decreases data.len() - i,
    {
        let item = &data[i];
        let mut fields: Vec<(String, String)> = Vec::new();
        let mut j: usize = 0;
        while j < item.len()
            invariant
                j <= item@.len(),
                i < data@.len(),
                *item == data@[i as int],
                field_views(fields@) == item@.take(j as int).map_values(|f: (String, JsonValue)| (f.0@, field_text(f.1))),
            decreases item.len() - j,
        {
            let name = item[j].0.clone();
            let text = value_field_text(&item[j].1);
            let ghost before = field_views(fields@);
            fields.push((name, text));
            assert(field_views(fields@) =~= before.push((item@[j as int].0@, field_text(item@[j as int].1))));
            assert(item@.take(j + 1) =~= item@.take(j as int).push(item@[j as int]));
            assert(field_views(fields@) =~= item@.take(j + 1).map_values(|f: (String, JsonValue)| (f.0@, field_text(f.1))));
            j = j + 1;
        }
        assert(item@.take(item@.len() as int) =~= item@);
        items.push(fields);
        i = i + 1;
    }
    let doc = xml_document(&items);
    assert(items_field_views(items@) =~= item_field_texts(data@));
    Ok(doc)
}

// ---------------------------------------------------------------------------
// JSON
// ---------------------------------------------------------------------------

/// The compact JSON text of items, each an object: `[` their texts joined
/// by commas `]`.
pub open spec fn items_json(items: Seq<Vec<(String, JsonValue)>>) -> Seq<char> {
    "["@ + join(items.map_values(|it: Vec<(String, JsonValue)>| object_text(it@)), ","@) + "]"@
}

/// Items as a JSON array of objects (`serde_json::to_string`); writing
/// such values does not fail.
pub fn serialize_json(items: &Vec<Vec<(String, JsonValue)>>) -> (r: Result<String, String>)
    requires
        items_keys_distinct(items@),
    ensures
        r matches Ok(t) && t@ == items_json(items@),
{
    let mut parts: Vec<String> = Vec::new();
    let mut i: usize = 0;
    while i < items.len()
        invariant
            i <= items@.len(),
            views(parts@) == items@.take(i as int).map_values(|it: Vec<(String, JsonValue)>| object_text(it@)),
        decreases items.len() - i,
    {
        let t = object_to_text(&items[i]);
        let ghost before = views(parts@);
        parts.push(t);
        assert(views(parts@) =~= before.push(t@));
        assert(items@.take(i + 1) =~= items@.take(i as int).push(items@[i as int]));
        assert(views(parts@) =~= items@.take(i + 1).map_values(|it: Vec<(String, JsonValue)>| object_text(it@)));
        i = i + 1;
    }
    assert(items@.take(items@.len() as int) =~= items@);
    let body = join_strings(&parts, ",");
    let mut r = String::from_str("[");
    r.append(body.as_str());
    r.append("]");
    Ok(r)
}

/// What `serde_json::from_str` makes of `text` read as an array of JSON
/// objects: each object's entries in key order, or the parser's message.
pub uninterp spec fn json_objects_parsed(text: Seq<char>) -> Result<Seq<Seq<(Seq<char>, JsonValue)>>, Seq<char>>;

/// What `serde_json::from_str` makes of `text` read as one JSON object:
/// its entries in key order, or the parser's message.
pub uninterp spec fn json_object_parsed(text: Seq<char>) -> Result<Seq<(Seq<char>, JsonValue)>, Seq<char>>;

/// The views of an item's entries: keys as text, values as they are.
pub open spec fn entry_views(it: Seq<(String, JsonValue)>) -> Seq<(Seq<char>, JsonValue)> {
    it.map_values(|e: (String, JsonValue)| (e.0@, e.1))
}

/// The views of items.
pub open spec fn items_views(items: Seq<Vec<(String, JsonValue)>>) -> Seq<Seq<(Seq<char>, JsonValue)>> {
    items.map_values(|it: Vec<(String, JsonValue)>| entry_views(it@))
}

/// `v` with the same tree, a number kept as the text `serde_json` writes
/// for it.
#[verifier::external_body]
fn json_value_of(v: &serde_json::Value) -> JsonValue {
    match v {
        serde_json::Value::Null => JsonValue::Null,
        serde_json::Value::Bool(b) => JsonValue::Bool(*b),
        serde_json::Value::Number(n) => JsonValue::Number(n.to_string()),
        serde_json::Value::String(s) => JsonValue::String(s.clone()),
        serde_json::Value::Array(a) => JsonValue::Array(a.iter().map(json_value_of).collect()),
        serde_json::Value::Object(m) => JsonValue::Object(m.iter().map(|(k, x)| (k.clone(), json_value_of(x))).collect()),
    }
}

/// `serde_json::from_str` of `text` as `Vec<serde_json::Map<String, Value>>`,
/// each object's entries in key order (the map is a `BTreeMap`, so its keys
/// are strictly ascending, nested objects too); the result depends on the
/// text alone.
#[verifier::external_body]
fn parse_json_objects(text: &str) -> (r: Result<Vec<Vec<(String, JsonValue)>>, String>)
    ensures
        r is Ok ==> forall|i: int| 0 <= i < r->Ok_0@.len() ==> crate::json::object_wf(#[trigger] r->Ok_0@[i]@),
        match r {
            Ok(v) => json_objects_parsed(text@) == Ok::<_, Seq<char>>(items_views(v@)),
            Err(e) => json_objects_parsed(text@) == Err::<Seq<Seq<(Seq<char>, JsonValue)>>, _>(e@),
        },
{
    match serde_json::from_str::<Vec<serde_json::Map<String, serde_json::Value>>>(text) {
        Ok(v) => Ok(v.iter().map(|m| m.iter().map(|(k, x)| (k.clone(), json_value_of(x))).collect()).collect()),
        Err(e) => Err(e.to_string()),
    }
}

/// `serde_json::from_str` of `text` as one `serde_json::Map<String, Value>`,
/// its entries in key order (the map is a `BTreeMap`, so its keys are
/// strictly ascending, nested objects too); the result depends on the text
/// alone.
#[verifier::external_body]
pub(crate) fn parse_json_object(text: &str) -> (r: Result<Vec<(String, JsonValue)>, String>)
    ensures
        r is Ok ==> crate::json::object_wf(r->Ok_0@),
        match r {
            Ok(v) => json_object_parsed(text@) == Ok::<_, Seq<char>>(entry_views(v@)),
            Err(e) => json_object_parsed(text@) == Err::<Seq<(Seq<char>, JsonValue)>, _>(e@),
        },
{
    match serde_json::from_str::<serde_json::Map<String, serde_json::Value>>(text) {
        Ok(m) => Ok(m.iter().map(|(k, x)| (k.clone(), json_value_of(x))).collect()),
        Err(e) => Err(e.to_string()),
    }
}

/// Reads `input` as a JSON array of objects; a parser error becomes
/// `Deserialization error: ` and its message.
pub fn deserialize_json_array(input: &str) -> (r: Result<Vec<Vec<(String, JsonValue)>>, String>)
    ensures
        r is Ok ==> forall|i: int| 0 <= i < r->Ok_0@.len() ==> crate::json::object_wf(#[trigger] r->Ok_0@[i]@),
        match json_objects_parsed(input@) {
            Ok(v) => r matches Ok(items) && items_views(items@) == v,
            Err(e) => r matches Err(m) && m@ == "Deserialization error: "@ + e,
        },
{
    match parse_json_objects(input) {
        Ok(v) => Ok(v),
        Err(e) => Err(concat2("Deserialization error: ", e.as_str())),
    }
}

/// Reads `input` as one JSON object; a parser error becomes
/// `Deserialization error: ` and its message.
pub fn deserialize_item(input: &str) -> (r: Result<Vec<(String, JsonValue)>, String>)
    ensures
        r is Ok ==> crate::json::object_wf(r->Ok_0@),
        match json_object_parsed(input@) {
            Ok(v) => r matches Ok(item) && entry_views(item@) == v,
            Err(e) => r matches Err(m) && m@ == "Deserialization error: "@ + e,
        },
{
    match parse_json_object(input) {
        Ok(v) => Ok(v),
        Err(e) => Err(concat2("Deserialization error: ", e.as_str())),
    }
}

/// One item as a JSON object.
pub fn serialize_item(item: &Vec<(String, JsonValue)>) -> (r: Result<String, String>)
    requires
        keys_distinct(item@),
    ensures
        r matches Ok(t) && t@ == object_text(item@),
{
    Ok(object_to_text(item))
}

/// Writes one item as text and reads it back.
pub trait Serializer {
    /// The text of `data`, an item with no key twice.
    fn serialize(&self, data: &Vec<(String, JsonValue)>) -> Result<String, String>
        requires
            keys_distinct(data@),
    ;
    /// The item that `input` holds.
    fn deserialize(&self, input: &str) -> Result<Vec<(String, JsonValue)>, String>;
}

/// The JSON serializer: an item is a JSON object.
#[derive(Debug, Clone, Copy)]
pub struct JSONSerializer;

impl Serializer for JSONSerializer {
    /// As [`serialize_item`].
    fn serialize(&self, data: &Vec<(String, JsonValue)>) -> (r: Result<String, String>)
        ensures
            r matches Ok(t) && t@ == object_text(data@),
    {
        serialize_item(data)
    }

    /// As [`deserialize_item`].
    fn deserialize(&self, input: &str) -> (r: Result<Vec<(String, JsonValue)>, String>)
        ensures
            r is Ok ==> crate::json::object_wf(r->Ok_0@),
            match json_object_parsed(input@) {
                Ok(v) => r matches Ok(item) && entry_views(item@) == v,
                Err(e) => r matches Err(m) && m@ == "Deserialization error: "@ + e,
            },
    {
        deserialize_item(input)
    }
}

/// What reading `data` as JSON items gives: the objects of an array, or the
/// one object, after trimming; a parse error or any other input is refused
/// with its message.
pub open spec fn json_read_outcome(data: Seq<char>, r: Result<Vec<Vec<(String, JsonValue)>>, String>) -> bool {
    let t = trim_seq(data);
    if is_prefix("["@, t) {
        match json_objects_parsed(t) {
            Ok(v) => r matches Ok(items) && items_views(items@) == v,
            Err(e) => r matches Err(m) && m@ == "Deserialization error: "@ + e,
        }
    } else if is_prefix("{"@, t) {
        match json_object_parsed(t) {
            Ok(v) => r matches Ok(items) && items@.len() == 1 && entry_views(items@[0]@) == v,
            Err(e) => r matches Err(m) && m@ == "Deserialization error: "@ + e,
        }
    } else {
        r matches Err(m) && m@ == "deserialize_json: input must be a JSON object or array"@
    }
}

/// Reads JSON text holding an array of objects or one object: the text is
/// trimmed; an array is read as [`deserialize_json_array`] does, an object
/// as [`deserialize_item`] does and gives one item; anything else is refused.
pub fn deserialize_json(data: &str) -> (r: Result<Vec<Vec<(String, JsonValue)>>, String>)
    ensures
        r is Ok ==> forall|i: int| 0 <= i < r->Ok_0@.len() ==> crate::json::object_wf(#[trigger] r->Ok_0@[i]@),
        json_read_outcome(data@, r),
{
    let trimmed = trim(data);
    if starts_with(trimmed.as_str(), "[") {
        deserialize_json_array(trimmed.as_str())
    } else if starts_with(trimmed.as_str(), "{") {
        match deserialize_item(trimmed.as_str()) {
            Ok(item) => {
                let mut v: Vec<Vec<(String, JsonValue)>> = Vec::new();
                v.push(item);
                Ok(v)
            },
            Err(e) => Err(e),
        }
    } else {
        Err(String::from_str("deserialize_json: input must be a JSON object or array"))
    }
}

/// Serializes items in the format named `format`: `json` as
/// [`serialize_json`], `xml` as [`serialize_xml`]; any other name is refused.
pub fn serialize(format: &str, data: &Vec<Vec<(String, JsonValue)>>) -> (r: Result<String, String>)
    requires
        items_keys_distinct(data@),
    ensures
        format@ == "json"@ ==> (r matches Ok(t) && t@ == items_json(data@)),
        format@ == "xml"@ ==> (r matches Ok(t) && t@ == document_xml(sorted_items(item_field_texts(data@)))),
        format@ != "json"@ && format@ != "xml"@ ==> (r matches Err(m) && m@ == "Unsupported serialization format: "@ + format@),
{
    match serialization_format(format) {
        Ok(Format::Json) => serialize_json(data),
        Ok(Format::Xml) => serialize_xml(data),
        Err(e) => Err(e),
    }
}

/// Reads items in the format named `format`: only `json`, as
/// [`deserialize_json`]; any other name is refused.
pub fn deserialize(format: &str, data: &str) -> (r: Result<Vec<Vec<(String, JsonValue)>>, String>)
    ensures
        r is Ok ==> forall|i: int| 0 <= i < r->Ok_0@.len() ==> crate::json::object_wf(#[trigger] r->Ok_0@[i]@),
        format@ != "json"@ ==> (r matches Err(m) && m@ == "Unsupported deserialization format: "@ + format@),
        format@ == "json"@ ==> json_read_outcome(data@, r),
{
    match deserialization_format(format) {
        Ok(_) => deserialize_json(data),
        Err(e) => Err(e),
    }
}

} // verus!
