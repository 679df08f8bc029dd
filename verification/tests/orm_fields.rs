use rjango::forms::values::FormValue;
use rjango::orm::fields::{
    BinaryField, DecimalField, DurationField, EmailField, Field, FieldTypes, GenericIPAddressField,
    PositiveIntegerField, PositiveSmallIntegerField, SimpleField, SlugField, SmallIntegerField, TimeField,
    URLField, UUIDField,
};

fn num(t: &str) -> FormValue {
    FormValue::Number(t.to_string())
}

fn as_f64(v: &FormValue) -> Option<f64> {
    match v {
        FormValue::Number(t) => t.parse::<f64>().ok(),
        _ => None,
    }
}

#[test]
fn test_simple_field_new() {
    let f = SimpleField::new("id", FieldTypes::AutoField);
    assert_eq!(f.name(), "id");
    assert_eq!(f.field_type(), FieldTypes::AutoField);
    assert!(f.is_pk());
    assert!(!f.is_null());
    assert!(!f.is_unique());
}

#[test]
fn test_field_optional_attrs() {
    let f = SimpleField::new("name", FieldTypes::CharField)
        .null()
        .unique()
        .max_length(100)
        .default(FormValue::Text("default".into()));
    assert!(f.is_null());
    assert!(f.is_unique());
    assert_eq!(Field::default(&f), Some(FormValue::Text("default".into())));
}

#[test]
fn test_validate_null_disallowed() {
    let f = SimpleField::new("name", FieldTypes::CharField);
    assert!(f.validate(&FormValue::Null).is_err());
}

#[test]
fn test_validate_null_allowed() {
    let f = SimpleField::new("name", FieldTypes::CharField).null();
    assert!(f.validate(&FormValue::Null).is_ok());
}

#[test]
fn test_validate_max_length() {
    let f = SimpleField::new("name", FieldTypes::CharField).max_length(5);
    assert!(f.validate(&FormValue::Text("hello".into())).is_ok());
    assert!(f.validate(&FormValue::Text("hello!!!".into())).is_err());
}

#[test]
fn test_to_db_string() {
    let f = SimpleField::new("name", FieldTypes::CharField);
    assert_eq!(f.to_db(&FormValue::Text("hello".into())), "'hello'");
    assert_eq!(f.to_db(&FormValue::Text("it's".into())), "'it''s'");
}

#[test]
fn test_to_db_number() {
    let f = SimpleField::new("age", FieldTypes::IntegerField);
    assert_eq!(f.to_db(&num("42")), "42");
}

#[test]
fn test_to_db_bool() {
    let f = SimpleField::new("active", FieldTypes::BooleanField);
    assert_eq!(f.to_db(&FormValue::Bool(true)), "1");
    assert_eq!(f.to_db(&FormValue::Bool(false)), "0");
}

#[test]
fn test_to_db_null() {
    let f = SimpleField::new("name", FieldTypes::CharField);
    assert_eq!(f.to_db(&FormValue::Null), "NULL");
}

#[test]
fn test_from_db_integer() {
    let f = SimpleField::new("age", FieldTypes::IntegerField);
    assert_eq!(f.from_db("42"), num("42"));
}

#[test]
fn test_from_db_float() {
    let f = SimpleField::new("price", FieldTypes::FloatField);
    assert_eq!(as_f64(&f.from_db("3.14")), Some(3.14));
}

#[test]
fn test_from_db_boolean() {
    let f = SimpleField::new("active", FieldTypes::BooleanField);
    assert_eq!(f.from_db("1"), FormValue::Bool(true));
    assert_eq!(f.from_db("0"), FormValue::Bool(false));
}

#[test]
fn test_from_db_string() {
    let f = SimpleField::new("name", FieldTypes::CharField);
    assert_eq!(f.from_db("Alice"), FormValue::Text("Alice".into()));
}

#[test]
fn test_decimal_field_valid() {
    let f = DecimalField::new("price", 10, 2);
    assert!(f.validate(&FormValue::Text("123.45".into())).is_ok());
}

#[test]
fn test_decimal_field_exceeds_digits() {
    let f = DecimalField::new("price", 5, 2);
    assert!(f.validate(&FormValue::Text("12345.00".into())).is_err());
}

#[test]
fn test_decimal_field_exceeds_decimal() {
    let f = DecimalField::new("price", 10, 1);
    assert!(f.validate(&FormValue::Text("123.45".into())).is_err());
}

#[test]
fn test_decimal_field_nullable() {
    let f = DecimalField::new("price", 10, 2).null();
    assert!(f.validate(&FormValue::Null).is_ok());
}

#[test]
fn test_decimal_field_from_db() {
    let f = DecimalField::new("price", 10, 2);
    assert_eq!(f.from_db("123.45"), FormValue::Text("123.45".into()));
}

#[test]
fn test_decimal_field_to_db() {
    let f = DecimalField::new("price", 10, 2);
    assert_eq!(f.to_db(&FormValue::Text("99.99".into())), "99.99");
}

#[test]
fn test_uuid_valid() {
    let f = UUIDField::new("id");
    assert!(f.validate(&FormValue::Text("550e8400-e29b-41d4-a716-446655440000".into())).is_ok());
}

#[test]
fn test_uuid_invalid() {
    let f = UUIDField::new("id");
    assert!(f.validate(&FormValue::Text("short".into())).is_err());
}

#[test]
fn test_uuid_nullable() {
    let f = UUIDField::new("id").null();
    assert!(f.validate(&FormValue::Null).is_ok());
}

#[test]
fn test_email_valid() {
    let f = EmailField::new("email");
    assert!(f.validate(&FormValue::Text("user@example.com".into())).is_ok());
}

#[test]
fn test_email_no_at() {
    let f = EmailField::new("email");
    assert!(f.validate(&FormValue::Text("userexample.com".into())).is_err());
}

#[test]
fn test_email_no_domain() {
    let f = EmailField::new("email");
    assert!(f.validate(&FormValue::Text("user@".into())).is_err());
}

#[test]
fn test_url_valid() {
    let f = URLField::new("url");
    assert!(f.validate(&FormValue::Text("https://example.com".into())).is_ok());
}

#[test]
fn test_url_no_protocol() {
    let f = URLField::new("url");
    assert!(f.validate(&FormValue::Text("example.com".into())).is_err());
}

#[test]
fn test_url_invalid() {
    let f = URLField::new("url");
    assert!(f.validate(&FormValue::Text("ftp://example.com".into())).is_err());
}

#[test]
fn test_slug_valid() {
    let f = SlugField::new("slug");
    assert!(f.validate(&FormValue::Text("my-article_1".into())).is_ok());
}

#[test]
fn test_slug_invalid_chars() {
    let f = SlugField::new("slug");
    assert!(f.validate(&FormValue::Text("hello world!".into())).is_err());
}

#[test]
fn test_slug_empty() {
    let f = SlugField::new("slug");
    assert!(f.validate(&FormValue::Text("".into())).is_err());
}

#[test]
fn test_ipv4_valid() {
    let f = GenericIPAddressField::new("ip", "IPv4");
    assert!(f.validate(&FormValue::Text("192.168.1.1".into())).is_ok());
}

#[test]
fn test_ipv4_invalid_octet() {
    let f = GenericIPAddressField::new("ip", "IPv4");
    assert!(f.validate(&FormValue::Text("192.168.1.300".into())).is_err());
}

#[test]
fn test_ipv6_valid() {
    let f = GenericIPAddressField::new("ip", "IPv6");
    assert!(f.validate(&FormValue::Text("::1".into())).is_ok());
}

#[test]
fn test_ipv4_as_both() {
    let f = GenericIPAddressField::new("ip", "both");
    assert!(f.validate(&FormValue::Text("10.0.0.1".into())).is_ok());
}

#[test]
fn test_time_valid() {
    let f = TimeField::new("time");
    assert!(f.validate(&FormValue::Text("12:30:45".into())).is_ok());
}

#[test]
fn test_time_invalid() {
    let f = TimeField::new("time");
    assert!(f.validate(&FormValue::Text("25:00:00".into())).is_err());
}

#[test]
fn test_time_wrong_format() {
    let f = TimeField::new("time");
    assert!(f.validate(&FormValue::Text("12:30".into())).is_err());
}

#[test]
fn test_duration_valid() {
    let f = DurationField::new("duration");
    assert!(f.validate(&FormValue::Text("P1DT12H".into())).is_ok());
}

#[test]
fn test_duration_invalid() {
    let f = DurationField::new("duration");
    assert!(f.validate(&FormValue::Text("XYZ".into())).is_err());
}

#[test]
fn test_binary_hex_valid() {
    let f = BinaryField::new("data");
    assert!(f.validate(&FormValue::Text("aabb".into())).is_ok());
}

#[test]
fn test_binary_hex_odd_len() {
    let f = BinaryField::new("data");
    assert!(f.validate(&FormValue::Text("aaa".into())).is_err());
}

#[test]
fn test_binary_to_db_hex() {
    let f = BinaryField::new("data");
    assert!(f.to_db(&FormValue::Text("aabb".into())).contains("x'"));
}

#[test]
fn test_binary_from_db() {
    let f = BinaryField::new("data");
    assert_eq!(f.from_db("x'aabb'"), FormValue::Text("aabb".into()));
}

#[test]
fn test_smallint_valid() {
    let f = SmallIntegerField::new("count");
    assert!(f.validate(&num("100")).is_ok());
}

#[test]
fn test_smallint_too_big() {
    let f = SmallIntegerField::new("count");
    assert!(f.validate(&num("99999")).is_err());
}

#[test]
fn test_smallint_negative() {
    let f = SmallIntegerField::new("count");
    assert!(f.validate(&num("-100")).is_ok());
}

#[test]
fn test_smallint_too_negative() {
    let f = SmallIntegerField::new("count");
    assert!(f.validate(&num("-99999")).is_err());
}

#[test]
fn test_positive_int_valid() {
    let f = PositiveIntegerField::new("count");
    assert!(f.validate(&num("42")).is_ok());
}

#[test]
fn test_positive_int_negative() {
    let f = PositiveIntegerField::new("count");
    assert!(f.validate(&num("-1")).is_err());
}

#[test]
fn test_positive_smallint_valid() {
    let f = PositiveSmallIntegerField::new("count");
    assert!(f.validate(&num("100")).is_ok());
}

#[test]
fn test_positive_smallint_too_big() {
    let f = PositiveSmallIntegerField::new("count");
    assert!(f.validate(&num("99999")).is_err());
}

#[test]
fn test_positive_smallint_negative() {
    let f = PositiveSmallIntegerField::new("count");
    assert!(f.validate(&num("-1")).is_err());
}

#[test]
fn orm_fields_messages() {
    let f = SimpleField::new("name", FieldTypes::CharField).max_length(3);
    assert_eq!(f.validate(&FormValue::Null), Err("Field 'name' cannot be null".to_string()));
    assert_eq!(f.validate(&FormValue::Text("abcd".into())), Err("Field 'name' exceeds max length 3".to_string()));
    let d = DecimalField::new("p", 5, 2);
    assert_eq!(d.validate(&FormValue::Text("x".into())), Err("Field 'p' is not a valid decimal: x".to_string()));
    assert_eq!(d.validate(&FormValue::Text("1234.5".into())), Err("Field 'p' integer part too long (max 3)".to_string()));
    assert_eq!(d.validate(&FormValue::Text("-1.234".into())), Err("Field 'p' fractional part too long (max 2)".to_string()));
    assert_eq!(d.validate(&FormValue::Bool(true)), Err("Field 'p' requires a numeric string".to_string()));
    assert!(d.validate(&num("12.5")).is_ok());
    let ip = GenericIPAddressField::new("ip", "both");
    assert_eq!(ip.validate(&FormValue::Text("1.2.3.999".into())), Err("Field 'ip' invalid octet: 999".to_string()));
    assert_eq!(ip.validate(&FormValue::Text("1..3".into())), Err("Field 'ip' invalid octet: ".to_string()));
    let t = TimeField::new("t");
    assert_eq!(t.validate(&FormValue::Text("12:60:00".into())), Err("Field 't' invalid time value".to_string()));
    assert_eq!(t.validate(&FormValue::Text("ab:00:00".into())), Err("Field 't' invalid hour".to_string()));
    let s = SmallIntegerField::new("n");
    assert_eq!(s.validate(&num("40000")), Err("Field 'n' value 40000 out of range for smallint".to_string()));
    assert_eq!(s.validate(&FormValue::Text("1".into())), Err("Field 'n' requires an integer".to_string()));
    assert_eq!(PositiveIntegerField::new("n").validate(&num("-3")), Err("Field 'n' must be non-negative, got -3".to_string()));
}

#[test]
fn orm_fields_database_text() {
    let f = SimpleField::new("x", FieldTypes::IntegerField);
    assert_eq!(f.from_db("abc"), num("0"));
    assert_eq!(f.from_db("-7"), num("-7"));
    assert_eq!(SimpleField::new("b", FieldTypes::BooleanField).from_db("true"), FormValue::Bool(true));
    assert_eq!(SimpleField::new("r", FieldTypes::FloatField).from_db("oops"), num("0.0"));
    let b = BinaryField::new("data");
    assert_eq!(b.to_db(&FormValue::Json("[1,255,16]".into())), "x'01ff10'");
    assert_eq!(b.validate(&FormValue::Json("[1,256]".into())), Err("Field 'data' byte at index 1 invalid".to_string()));
    assert!(b.validate(&FormValue::Json("[]".into())).is_ok());
    assert_eq!(b.from_db("x'"), FormValue::Text("x'".into()));
    assert_eq!(UUIDField::new("u").to_db(&FormValue::Text("a'b".into())), "'a''b'");
    assert_eq!(UUIDField::new("u").to_db(&num("5")), "5");
    assert_eq!(EmailField::new("e").to_db(&FormValue::Text("x".into())), "'x'");
    let row = vec![("x".to_string(), num("3")), ("y".to_string(), FormValue::Null)];
    assert_eq!(f.value_from_object(&row), Some(num("3")));
    assert_eq!(SimpleField::new("y", FieldTypes::CharField).value_to_string(&row), "None");
    assert_eq!(SimpleField::new("z", FieldTypes::CharField).value_to_string(&row), "");
}
