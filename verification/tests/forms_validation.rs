use rjango::forms::validation::{
    validate_ipv4_address, validate_ipv6_address, validate_slug, validate_unicode_slug, DecimalValidator,
    EmailValidator, ErrorList, FileExtensionValidator, IntegerValidator, MaxLengthValidator, MinLengthValidator,
    ProhibitNullCharactersValidator, RegexValidator, RequiredValidator, URLValidator, Validator, NON_FIELD_ERRORS,
};

#[test]
fn test_error_list_new() { let el = ErrorList::new(); assert!(el.is_empty()); assert_eq!(el.len(), 0); }

#[test]
fn test_error_list_from_strings() { let el = ErrorList::from_strings(vec!["a".into(),"b".into()]); assert_eq!(el.len(), 2); }

#[test]
fn test_error_list_add() { let mut el = ErrorList::new(); el.add("Error"); assert!(!el.is_empty()); assert_eq!(el.len(), 1); }

#[test]
fn test_error_list_extend() { let mut el = ErrorList::new(); el.extend(vec!["a".into(),"b".into()]); assert_eq!(el.len(), 2); }

#[test]
fn test_error_list_as_ul() {
        let el = ErrorList::from_strings(vec!["First".into(),"Second".into()]);
        let html = el.as_ul();
        assert!(html.starts_with("<ul")); assert!(html.ends_with("</ul>"));
        assert!(html.contains("<li>First</li>")); assert!(html.contains("<li>Second</li>"));
    }

#[test]
fn test_error_list_as_ul_empty() { assert_eq!(ErrorList::new().as_ul(), ""); }

#[test]
fn test_error_list_as_json() { let el = ErrorList::from_strings(vec!["a".into()]); assert!(el.as_json().contains("a")); }

#[test]
fn test_error_list_as_text() { let el = ErrorList::from_strings(vec!["a".into(),"b".into()]); assert_eq!(el.as_text(), "a; b"); }

#[test]
fn test_error_list_single_as_text() { let el = ErrorList::from_strings(vec!["only".into()]); assert_eq!(el.as_text(), "only"); }

#[test]
fn test_error_list_iter() { let el = ErrorList::from_strings(vec!["a".into(),"b".into()]); let c: Vec<&str> = el.iter(); assert_eq!(c, vec!["a","b"]); }

#[test]
fn test_error_list_from_vec() { let el: ErrorList = vec!["x".into()].into(); assert_eq!(el.len(), 1); }

#[test]
fn test_error_list_into_iter() { let el = ErrorList::from_strings(vec!["a".into()]); let v: Vec<String> = el.into_iter(); assert_eq!(v.len(), 1); }

#[test]
fn test_non_field_errors_constant() { assert_eq!(NON_FIELD_ERRORS, "__all__"); }

#[test]
fn validation_test_required_validator() { let v = RequiredValidator; assert!(v.validate("h").is_ok()); assert!(v.validate("").is_err()); }

#[test]
fn test_required_validator_whitespace() { let v = RequiredValidator; assert!(v.validate("   ").is_err()); }

#[test]
fn test_email_validator() { let v = EmailValidator; assert!(v.validate("a@b.co").is_ok()); assert!(v.validate("a@b.co.uk").is_ok()); assert!(v.validate("x").is_err()); assert!(v.validate("").is_err()); assert!(v.validate("@x").is_err()); }

#[test]
fn test_url_validator() { let v = URLValidator; assert!(v.validate("https://x.com").is_ok()); assert!(v.validate("ftp://x.com").is_err()); }

#[test]
fn test_min_length_validator() { let v = MinLengthValidator::new(3); assert!(v.validate("abc").is_ok()); assert!(v.validate("ab").is_err()); }

#[test]
fn test_max_length_validator() { let v = MaxLengthValidator::new(5); assert!(v.validate("12345").is_ok()); assert!(v.validate("123456").is_err()); }

#[test]
fn test_regex_validator() { let v = RegexValidator::new("p"); assert!(v.validate("pat").is_ok()); assert!(v.validate("no").is_err()); }

#[test]
fn test_integer_validator_default() { let v = IntegerValidator::new(); assert!(v.validate("42").is_ok()); assert!(v.validate("x").is_err()); }

#[test]
fn test_integer_validator_with_min() { let v = IntegerValidator::new().with_min(0); assert!(v.validate("10").is_ok()); assert!(v.validate("-1").is_err()); }

#[test]
fn test_integer_validator_with_max() { let v = IntegerValidator::new().with_max(100); assert!(v.validate("50").is_ok()); assert!(v.validate("101").is_err()); }

#[test]
fn test_integer_validator_with_both() { let v = IntegerValidator::new().with_min(1).with_max(10); assert!(v.validate("5").is_ok()); assert!(v.validate("0").is_err()); assert!(v.validate("11").is_err()); }

#[test]
fn test_integer_validator_float() { let v = IntegerValidator::new(); assert!(v.validate("3.14").is_err()); }

#[test]
fn test_decimal_ok() { let v = DecimalValidator::new(5,2); assert!(v.validate("123.45").is_ok()); assert!(v.validate("100").is_ok()); }

#[test]
fn test_decimal_too_many_decimals() { let v = DecimalValidator::new(5,2); assert!(v.validate("1.234").is_err()); }

#[test]
fn test_decimal_too_many_digits() { let v = DecimalValidator::new(4,2); assert!(v.validate("1234.56").is_err()); }

#[test]
fn test_decimal_empty() { let v = DecimalValidator::new(5,2); assert!(v.validate("").is_err()); }

#[test]
fn test_decimal_negative() { let v = DecimalValidator::new(6,3); assert!(v.validate("-123.456").is_ok()); }

#[test]
fn test_decimal_multi_dot() { let v = DecimalValidator::new(5,2); assert!(v.validate("1.2.3").is_err()); }

#[test]
fn test_validate_slug_ok() { assert!(validate_slug("hello-world").is_ok()); assert!(validate_slug("a").is_ok()); }

#[test]
fn test_validate_slug_empty() { assert!(validate_slug("").is_err()); }

#[test]
fn test_validate_slug_uppercase() { assert!(validate_slug("Hello").is_err()); }

#[test]
fn test_validate_slug_trailing_hyphen() { assert!(validate_slug("hello-").is_err()); }

#[test]
fn test_validate_slug_leading_hyphen() { assert!(validate_slug("-hello").is_err()); }

#[test]
fn test_validate_slug_double_hyphen() { assert!(validate_slug("a--b").is_err()); }

#[test]
fn test_validate_unicode_slug_ok() { assert!(validate_unicode_slug("héllo").is_ok()); assert!(validate_unicode_slug("hello_world").is_ok()); }

#[test]
fn test_validate_unicode_slug_special() { assert!(validate_unicode_slug("hello!world").is_err()); }

#[test]
fn test_validate_ipv4_ok() { assert!(validate_ipv4_address("192.168.1.1").is_ok()); assert!(validate_ipv4_address("10.0.0.1").is_ok()); assert!(validate_ipv4_address("255.255.255.255").is_ok()); }

#[test]
fn test_validate_ipv4_wrong_parts() { assert!(validate_ipv4_address("1.2.3").is_err()); assert!(validate_ipv4_address("1.2.3.4.5").is_err()); }

#[test]
fn test_validate_ipv4_out_of_range() { assert!(validate_ipv4_address("999.999.999.999").is_err()); }

#[test]
fn test_validate_ipv4_leading_zero() { assert!(validate_ipv4_address("01.2.3.4").is_err()); }

#[test]
fn test_validate_ipv6_ok() { assert!(validate_ipv6_address("::1").is_ok()); assert!(validate_ipv6_address("2001:db8::ff00:42:8329").is_ok()); assert!(validate_ipv6_address("fe80::1").is_ok()); }

#[test]
fn test_validate_ipv6_empty() { assert!(validate_ipv6_address("").is_err()); }

#[test]
fn test_validate_ipv6_triple_colon() { assert!(validate_ipv6_address("a:::b").is_err()); }

#[test]
fn test_validate_ipv6_no_colon() { assert!(validate_ipv6_address("abc").is_err()); }

#[test]
fn test_validate_ipv6_too_many_segments() { assert!(validate_ipv6_address("1:2:3:4:5:6:7:8:9").is_err()); }

#[test]
fn test_validate_ipv6_invalid_hex() { assert!(validate_ipv6_address("2001:xyz::1").is_err()); }

#[test]
fn test_prohibit_null_ok() { let v = ProhibitNullCharactersValidator; assert!(v.validate("hello").is_ok()); }

#[test]
fn test_prohibit_null_fail() { let v = ProhibitNullCharactersValidator; assert!(v.validate("he\0llo").is_err()); }

#[test]
fn test_file_extension_ok() { let v = FileExtensionValidator::new(vec!["jpg","png"]); assert!(v.validate("photo.jpg").is_ok()); assert!(v.validate("image.png").is_ok()); }

#[test]
fn test_file_extension_fail() { let v = FileExtensionValidator::new(vec!["jpg"]); assert!(v.validate("file.pdf").is_err()); }

#[test]
fn test_file_extension_no_ext() { let v = FileExtensionValidator::new(vec!["txt"]); assert!(v.validate("README").is_err()); }

#[test]
fn test_file_extension_empty() { let v = FileExtensionValidator::new(vec!["txt"]); assert!(v.validate("").is_ok()); }

#[test]
fn test_file_extension_case_insensitive() { let v = FileExtensionValidator::new(vec!["jpg"]); assert!(v.validate("photo.JPG").is_ok()); }

#[test]
fn test_file_extension_images_factory() { let v = FileExtensionValidator::images(); assert!(v.validate("photo.jpg").is_ok()); assert!(v.validate("file.pdf").is_err()); }

#[test]
fn test_file_extension_documents_factory() { let v = FileExtensionValidator::documents(); assert!(v.validate("doc.pdf").is_ok()); assert!(v.validate("photo.jpg").is_err()); }

#[test]
fn error_list_as_json_exact_text() {
    let el = ErrorList::from_strings(vec!["a".into(), "say \"hi\"".into()]);
    assert_eq!(el.as_json(), "[\"a\",\"say \\\"hi\\\"\"]");
    assert_eq!(ErrorList::new().as_json(), "[]");
}
