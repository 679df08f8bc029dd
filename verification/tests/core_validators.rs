use rjango::validators::{
    validate_choice, validate_email, validate_file_extension, validate_file_size, validate_integer, validate_ipv4_address,
    validate_ipv6_address, validate_max_length, validate_min_length, validate_required, validate_slug, validate_url,
};

#[test]
fn validators_test_required_validator() {
        assert!(validate_required("").is_some());
        assert!(validate_required("   ").is_some());
        assert!(validate_required("hello").is_none());
    }

#[test]
fn test_max_length() {
        assert!(validate_max_length("hello", 5).is_none());
        assert!(validate_max_length("hello world", 5).is_some());
    }

#[test]
fn test_min_length() {
        assert!(validate_min_length("ab", 2).is_none());
        assert!(validate_min_length("a", 2).is_some());
    }

#[test]
fn test_validate_email_valid() {
        assert!(validate_email("test@example.com").is_none());
        assert!(validate_email("user+tag@sub.domain.co.uk").is_none());
    }

#[test]
fn test_validate_email_invalid() {
        assert!(validate_email("not-an-email").is_some());
        assert!(validate_email("missing@dot").is_some());
    }

#[test]
fn test_validate_url_valid() {
        assert!(validate_url("https://example.com").is_none());
        assert!(validate_url("http://test.com/path?q=1").is_none());
    }

#[test]
fn test_validate_url_invalid() {
        assert!(validate_url("not-a-url").is_some());
    }

#[test]
fn test_validate_slug_valid() {
        assert!(validate_slug("hello-world").is_none());
        assert!(validate_slug("test_123").is_none());
    }

#[test]
fn test_validate_slug_invalid() {
        assert!(validate_slug("hello world").is_some());
        assert!(validate_slug("hello@world").is_some());
    }

#[test]
fn test_validate_ipv4_valid() {
        assert!(validate_ipv4_address("192.168.1.1").is_none());
        assert!(validate_ipv4_address("10.0.0.255").is_none());
    }

#[test]
fn test_validate_ipv4_invalid() {
        assert!(validate_ipv4_address("256.1.2.3").is_some());
        assert!(validate_ipv4_address("not-an-ip").is_some());
    }

#[test]
fn test_validate_ipv6_valid() {
        assert!(validate_ipv6_address("::1").is_none());
        assert!(validate_ipv6_address("2001:db8::ff00:42:8329").is_none());
    }

#[test]
fn test_validate_ipv6_invalid() {
        assert!(validate_ipv6_address("not-ipv6").is_some());
        assert!(validate_ipv6_address("abc").is_some());
    }

#[test]
fn test_validate_integer() {
        assert!(validate_integer("42").is_none());
        assert!(validate_integer("-5").is_none());
        assert!(validate_integer("not-a-number").is_some());
    }

#[test]
fn test_validate_choice() {
        assert!(validate_choice("a", &["a", "b", "c"]).is_none());
        assert!(validate_choice("z", &["a", "b"]).is_some());
    }

#[test]
fn test_validate_file_extension() {
        assert!(validate_file_extension("photo.jpg", &["jpg", "png"]).is_none());
        assert!(validate_file_extension("doc.pdf", &["jpg"]).is_some());
    }

#[test]
fn test_validate_file_size() {
        assert!(validate_file_size(100, 1024).is_none());
        assert!(validate_file_size(2048, 1024).is_some());
    }
