use rjango::json::JsonValue;
use rjango::serializers::{
    deserialize, deserialize_item, deserialize_json, deserialize_json_array, serialize, serialize_item,
    serialize_json, serialize_xml, JSONSerializer, Serializer,
};

fn make_item() -> Vec<(String, JsonValue)> {
    vec![
        ("id".to_string(), JsonValue::Number("1".to_string())),
        ("name".to_string(), JsonValue::String("test".to_string())),
        ("active".to_string(), JsonValue::Bool(true)),
    ]
}

fn get<'a>(item: &'a [(String, JsonValue)], key: &str) -> &'a JsonValue {
    &item.iter().find(|(k, _)| k == key).unwrap().1
}

#[test]
fn test_json_serializer_roundtrip() {
    let item = make_item();
    let json = JSONSerializer.serialize(&item).unwrap();
    let back = JSONSerializer.deserialize(&json).unwrap();
    assert!(matches!(get(&back, "id"), JsonValue::Number(n) if n == "1"));
    assert!(matches!(get(&back, "name"), JsonValue::String(s) if s == "test"));
    assert!(matches!(get(&back, "active"), JsonValue::Bool(true)));
}

#[test]
fn test_serialize_json_array() {
    let items = vec![make_item(), make_item()];
    let json = serialize_json(&items).unwrap();
    let back = deserialize_json_array(&json).unwrap();
    assert_eq!(back.len(), 2);
}

#[test]
fn test_serialize_item_convenience() {
    let json = serialize_item(&make_item()).unwrap();
    let back = deserialize_item(&json).unwrap();
    assert!(matches!(get(&back, "id"), JsonValue::Number(n) if n == "1"));
}

#[test]
fn test_deserialize_empty() {
    assert!(deserialize_json_array("[]").unwrap().is_empty());
}

#[test]
fn test_deserialize_invalid() {
    assert!(deserialize_item("not json").is_err());
}

#[test]
fn test_serialize_empty_map() {
    assert_eq!(serialize_item(&vec![]).unwrap(), "{}");
}

#[test]
fn test_deserialize_json_array() {
    let json = serialize_json(&vec![make_item(), make_item()]).unwrap();
    assert_eq!(deserialize_json(&json).unwrap().len(), 2);
}

#[test]
fn test_deserialize_json_single_object() {
    let json = serialize_item(&make_item()).unwrap();
    let result = deserialize_json(&json).unwrap();
    assert_eq!(result.len(), 1);
    assert!(matches!(get(&result[0], "id"), JsonValue::Number(n) if n == "1"));
}

#[test]
fn test_deserialize_json_invalid() {
    assert!(deserialize_json("").is_err());
}

#[test]
fn serializers_deserialize_json_messages() {
    assert_eq!(
        deserialize_json("  42 ").unwrap_err(),
        "deserialize_json: input must be a JSON object or array"
    );
    assert!(deserialize_json("[1]").unwrap_err().starts_with("Deserialization error: "));
    assert_eq!(deserialize_json("  {\"a\": null} ").unwrap().len(), 1);
}

#[test]
fn test_serialize_xml_single() {
    let xml = serialize_xml(&vec![make_item()]).unwrap();
    assert!(xml.starts_with("<?xml"));
    assert!(xml.contains("<django-objects>"));
    assert!(xml.contains("<object>"));
    assert!(xml.contains(r#"<field name="id">1</field>"#));
    assert!(xml.contains(r#"<field name="name">test</field>"#));
    assert!(xml.contains(r#"<field name="active">true</field>"#));
}

#[test]
fn serializers_xml_exact_text() {
    let xml = serialize_xml(&vec![make_item()]).unwrap();
    assert_eq!(
        xml,
        "<?xml version=\"1.0\" encoding=\"utf-8\"?>\n<django-objects>\n  <object>\n    <field name=\"active\">true</field>\n    <field name=\"id\">1</field>\n    <field name=\"name\">test</field>\n  </object>\n</django-objects>\n"
    );
}

#[test]
fn test_serialize_xml_multiple() {
    let xml = serialize_xml(&vec![make_item(), make_item()]).unwrap();
    assert_eq!(xml.matches("<object>").count(), 2);
}

#[test]
fn test_serialize_xml_empty() {
    let xml = serialize_xml(&vec![]).unwrap();
    assert!(xml.contains("<django-objects>"));
    assert!(xml.contains("</django-objects>"));
    assert!(!xml.contains("<object>"));
}

#[test]
fn test_serialize_xml_escaping() {
    let item = vec![("content".to_string(), JsonValue::String("<hello & world>".to_string()))];
    let xml = serialize_xml(&vec![item]).unwrap();
    assert!(xml.contains("&lt;hello &amp; world&gt;"));
}

#[test]
fn test_serialize_xml_null() {
    let item = vec![("value".to_string(), JsonValue::Null)];
    let xml = serialize_xml(&vec![item]).unwrap();
    assert!(xml.contains(r#"<field name="value">None</field>"#));
}

#[test]
fn serializers_xml_arrays_and_objects() {
    let arr = JsonValue::Array(vec![
        JsonValue::String("a".to_string()),
        JsonValue::Number("2".to_string()),
        JsonValue::Null,
    ]);
    let obj = JsonValue::Object(vec![("k".to_string(), JsonValue::String("v\"".to_string()))]);
    let xml = serialize_xml(&vec![vec![("a".to_string(), arr), ("o".to_string(), obj)]]).unwrap();
    assert!(xml.contains(r#"<field name="a">a,2,null</field>"#));
    assert!(xml.contains(r#"<field name="o">{&quot;k&quot;:&quot;v\&quot;&quot;}</field>"#));
}

#[test]
fn test_serialize_format_json() {
    assert!(serialize("json", &vec![make_item()]).unwrap().starts_with('['));
}

#[test]
fn test_serialize_format_xml() {
    assert!(serialize("xml", &vec![make_item()]).unwrap().starts_with("<?xml"));
}

#[test]
fn test_serialize_format_unsupported() {
    let result = serialize("yaml", &vec![make_item()]);
    assert!(result.unwrap_err().contains("Unsupported"));
}

#[test]
fn test_deserialize_format_json() {
    let json = serialize_json(&vec![make_item()]).unwrap();
    assert_eq!(deserialize("json", &json).unwrap().len(), 1);
}

#[test]
fn test_deserialize_format_unsupported() {
    let result = deserialize("xml", "{}");
    assert!(result.unwrap_err().contains("Unsupported"));
}

#[test]
fn serializers_json_string_escapes() {
    let item = vec![("k".to_string(), JsonValue::String("a\"b\\c\td\u{1}é".to_string()))];
    assert_eq!(serialize_item(&item).unwrap(), "{\"k\":\"a\\\"b\\\\c\\td\\u0001é\"}");
}
