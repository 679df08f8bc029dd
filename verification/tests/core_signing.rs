use rjango::signing::{
    b62_decode, b62_encode, b64_decode, b64_encode, base64_hmac, constant_time_compare, decode_payload, salted_hmac,
    Algorithm, BadSignature, SignatureExpired, Signer, TimestampSigner,
};

#[test]
fn test_b62_encode_zero() {
    assert_eq!(b62_encode(0), "0");
}

#[test]
fn test_b62_encode_positive() {
    assert_eq!(b62_encode(10), "A");
    assert_eq!(b62_encode(62), "10");
    assert_eq!(b62_encode(123), "1z");
}

#[test]
fn test_b62_encode_negative() {
    assert_eq!(b62_encode(-10), "-A");
    assert_eq!(b62_encode(-62), "-10");
}

#[test]
fn test_b62_decode_zero() {
    assert_eq!(b62_decode("0").unwrap(), 0);
}

#[test]
fn test_b62_decode_roundtrip() {
    let values = [0, 1, 10, 61, 62, 123, 1000, 999999, i64::MAX, i64::MIN + 1];
    for &v in &values {
        let encoded = b62_encode(v);
        let decoded = b62_decode(&encoded).unwrap();
        assert_eq!(decoded, v, "roundtrip failed for {v}: encoded={encoded}");
    }
}

#[test]
fn test_b62_decode_invalid_char() {
    assert!(b62_decode("hello!").is_err());
}

#[test]
fn test_b62_decode_empty() {
    assert!(b62_decode("").is_err());
}

#[test]
fn test_b64_encode_basic() {
    assert_eq!(b64_encode(b"hello"), "aGVsbG8");
}

#[test]
fn test_b64_encode_no_padding() {
    assert_eq!(b64_encode(b"test"), "dGVzdA");
}

#[test]
fn test_b64_decode_no_pad() {
    assert_eq!(b64_decode("aGVsbG8").unwrap(), b"hello");
}

#[test]
fn test_b64_decode_with_padding() {
    assert_eq!(b64_decode("dGVzdA==").unwrap(), b"test");
}

#[test]
fn test_b64_roundtrip() {
    let data = b"hello world";
    let encoded = b64_encode(data);
    let decoded = b64_decode(&encoded).unwrap();
    assert_eq!(decoded, data);
}

#[test]
fn test_constant_time_compare_eq() {
    assert!(constant_time_compare(b"abc", b"abc"));
}

#[test]
fn test_constant_time_compare_ne_len() {
    assert!(!constant_time_compare(b"abc", b"abcd"));
}

#[test]
fn test_constant_time_compare_ne_content() {
    assert!(!constant_time_compare(b"abc", b"abd"));
}

#[test]
fn test_constant_time_compare_empty() {
    assert!(constant_time_compare(b"", b""));
}

#[test]
fn test_salted_hmac_sha256() {
    let result = salted_hmac(b"salt", b"value", b"secret", Algorithm::Sha256);
    assert_eq!(result.len(), 32);
}

#[test]
fn test_salted_hmac_deterministic() {
    let a = salted_hmac(b"salt", b"value", b"secret", Algorithm::Sha256);
    let b = salted_hmac(b"salt", b"value", b"secret", Algorithm::Sha256);
    assert_eq!(a, b);
}

#[test]
fn test_salted_hmac_different_salt() {
    let a = salted_hmac(b"salt1", b"value", b"secret", Algorithm::Sha256);
    let b = salted_hmac(b"salt2", b"value", b"secret", Algorithm::Sha256);
    assert_ne!(a, b);
}

#[test]
fn test_salted_hmac_lengths_per_algorithm() {
    assert_eq!(salted_hmac(b"s", b"v", b"k", Algorithm::Sha1).len(), 20);
    assert_eq!(salted_hmac(b"s", b"v", b"k", Algorithm::Sha384).len(), 48);
    assert_eq!(salted_hmac(b"s", b"v", b"k", Algorithm::Sha512).len(), 64);
}

#[test]
fn test_base64_hmac_not_empty() {
    let result = base64_hmac("salt", "value", b"secret", Algorithm::Sha256);
    assert!(!result.is_empty());
    assert!(b64_decode(&result).is_ok());
}

#[test]
fn test_signer_default_salt() {
    let signer = Signer::default();
    assert_eq!(signer.salt(), "django.core.signing.Signer");
}

#[test]
fn test_signer_default_algorithm() {
    let signer = Signer::default();
    assert_eq!(signer.algorithm(), Algorithm::Sha256);
}

#[test]
fn test_signer_default_sep() {
    let signer = Signer::default();
    assert_eq!(signer.sep(), ":");
}

fn signer_with(key: &[u8], sep: &str, algorithm: Algorithm, fallback: Vec<Vec<u8>>) -> Signer {
    Signer::new(key.to_vec(), sep.to_string(), "salt".to_string(), algorithm, fallback)
}

#[test]
fn test_signer_sign_and_unsign() {
    let signer = Signer::new(b"secret-key".to_vec(), ":".to_string(), "test-salt".to_string(), Algorithm::Sha256, vec![]);
    let signed = signer.sign("hello");
    let unsigned = signer.unsign(&signed).unwrap();
    assert_eq!(unsigned, "hello");
}

#[test]
fn test_signer_signature_length() {
    let signer = signer_with(b"key", ":", Algorithm::Sha256, vec![]);
    let sig = signer.signature("hello");
    assert_eq!(sig.len(), 43);
}

#[test]
fn test_signer_unsign_bad_signature() {
    let signer = Signer::default();
    let result = signer.unsign("value:bad-signature");
    assert!(result.is_err());
}

#[test]
fn test_signer_unsign_missing_sep() {
    let signer = Signer::default();
    let result = signer.unsign("noseparator");
    assert!(result.is_err());
    assert!(result.unwrap_err().to_string().contains("No \":\" found"));
}

#[test]
fn test_signer_fallback_keys() {
    let signer = signer_with(b"primary", ":", Algorithm::Sha256, vec![b"fallback1".to_vec(), b"fallback2".to_vec()]);
    let signed = signer.sign("test");
    let verifier = signer_with(b"unknown", ":", Algorithm::Sha256, vec![b"primary".to_vec()]);
    let result = verifier.unsign(&signed).unwrap();
    assert_eq!(result, "test");
}

#[test]
fn test_signer_different_sep() {
    let signer = signer_with(b"key", "~", Algorithm::Sha256, vec![]);
    let signed = signer.sign("hello");
    assert!(signed.contains('~'));
    let result = signer.unsign(&signed).unwrap();
    assert_eq!(result, "hello");
}

#[test]
fn test_signer_wrong_key_rejected() {
    let a = signer_with(b"key-a", ":", Algorithm::Sha256, vec![]);
    let b = signer_with(b"key-b", ":", Algorithm::Sha256, vec![]);
    assert!(b.unsign(&a.sign("hello")).is_err());
}

#[test]
fn test_signer_sign_payload_roundtrip() {
    let signer = signer_with(b"key", ":", Algorithm::Sha256, vec![]);
    let data: Vec<u8> = b"[0,1,2,3,4,5,6,7,8,9,0,1,2,3,4,5,6,7,8,9,0,1,2,3,4,5,6,7,8,9]".to_vec();
    let plain = signer.sign_payload(&data, false);
    assert_eq!(signer.unsign_payload(&plain).unwrap(), data);
    let packed = signer.sign_payload(&data, true);
    assert!(packed.starts_with('.'));
    assert_eq!(signer.unsign_payload(&packed).unwrap(), data);
}

#[test]
fn test_decode_payload_plain() {
    assert_eq!(decode_payload("ImhlbGxvIg").unwrap(), b"\"hello\"");
}

#[test]
fn test_timestamp_signer_sign_and_unsign() {
    let signer = TimestampSigner::new(b"key".to_vec(), ":".to_string(), "salt".to_string(), Algorithm::Sha256, vec![]);
    let signed = signer.sign("hello");
    let (unsigned, _ts) = signer.unsign_timestamped(&signed).unwrap();
    assert_eq!(unsigned, "hello");
}

#[test]
fn test_timestamp_signer_has_timestamp() {
    let signer = TimestampSigner::new(b"key".to_vec(), ":".to_string(), "salt".to_string(), Algorithm::Sha256, vec![]);
    let signed = signer.sign("test");
    let parts: Vec<&str> = signed.split(':').collect();
    assert_eq!(parts.len(), 3, "expected 3 sep parts: value, timestamp, sig");
    let ts = b62_decode(parts[1]).unwrap();
    assert!(ts > 0, "timestamp should be > 0");
}

#[test]
fn test_timestamp_signer_fixed_timestamp() {
    let signer = TimestampSigner::new(b"key".to_vec(), ":".to_string(), "salt".to_string(), Algorithm::Sha256, vec![]);
    let signed = signer.sign_with_timestamp("v", 62);
    assert!(signed.starts_with("v:10:"));
    assert_eq!(signer.unsign_timestamped(&signed).unwrap(), ("v".to_string(), 62));
}

#[test]
fn test_timestamp_signer_default_salt() {
    let signer = TimestampSigner::default();
    assert_eq!(signer.signer().salt(), "django.core.signing.Signer");
}

#[test]
fn test_algorithm_from_name() {
    assert_eq!(Algorithm::from_name("sha1").unwrap(), Algorithm::Sha1);
    assert_eq!(Algorithm::from_name("SHA256").unwrap(), Algorithm::Sha256);
    assert_eq!(Algorithm::from_name("sha384").unwrap(), Algorithm::Sha384);
    assert_eq!(Algorithm::from_name("sha512").unwrap(), Algorithm::Sha512);
}

#[test]
fn test_algorithm_from_name_invalid() {
    assert!(Algorithm::from_name("md5").is_err());
}

#[test]
fn test_algorithm_name() {
    assert_eq!(Algorithm::Sha1.name(), "sha1");
    assert_eq!(Algorithm::Sha256.name(), "sha256");
    assert_eq!(Algorithm::Sha384.name(), "sha384");
    assert_eq!(Algorithm::Sha512.name(), "sha512");
}

#[test]
fn test_bad_signature_display() {
    let err = BadSignature::new("test error");
    assert_eq!(err.to_string(), "test error");
}

#[test]
fn test_signature_expired_display() {
    let err = SignatureExpired::new("too old");
    assert_eq!(err.to_string(), "too old");
}

#[test]
fn test_signature_expired_into_bad_signature() {
    let expired = SignatureExpired::new("expired");
    let bad: BadSignature = expired.into();
    assert_eq!(bad.to_string(), "expired");
}

#[test]
fn test_sign_with_sha1() {
    let signer = signer_with(b"key", ":", Algorithm::Sha1, vec![]);
    let signed = signer.sign("hello");
    let unsigned = signer.unsign(&signed).unwrap();
    assert_eq!(unsigned, "hello");
}

#[test]
fn test_sign_with_sha512() {
    let signer = signer_with(b"key", ":", Algorithm::Sha512, vec![]);
    let signed = signer.sign("hello");
    let unsigned = signer.unsign(&signed).unwrap();
    assert_eq!(unsigned, "hello");
}
