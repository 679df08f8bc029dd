use rjango::contenttypes::ContentTypeManager;
use rjango::http::Response;
use rjango::signing::{is_safe_separator, Algorithm, Signer};

#[test]
fn contenttypes_ids_follow_first_registration() {
    let mut m = ContentTypeManager::new();
    assert_eq!(m.register("blog", "post").id, 1);
    assert_eq!(m.register("blog", "comment").id, 2);
    assert_eq!(m.register("blog", "post").id, 1);
    assert_eq!(m.register("auth", "user").id, 3);
}

#[test]
fn signing_fallback_key_accepts() {
    let signer = Signer::new(b"old-key".to_vec(), ":".to_string(), "salt".to_string(), Algorithm::Sha256, vec![]);
    let verifier = Signer::new(
        b"new-key".to_vec(),
        ":".to_string(),
        "salt".to_string(),
        Algorithm::Sha256,
        vec![b"old-key".to_vec()],
    );
    let signed = signer.sign("hello");
    assert_eq!(verifier.unsign(&signed).unwrap(), "hello");
    let stranger = Signer::new(b"other".to_vec(), ":".to_string(), "salt".to_string(), Algorithm::Sha256, vec![]);
    assert!(stranger.unsign(&signed).is_err());
}

#[test]
fn signing_separator_range() {
    assert!(is_safe_separator(":"));
    assert!(is_safe_separator("~"));
    assert!(!is_safe_separator(""));
    assert!(!is_safe_separator("x"));
    assert!(!is_safe_separator("^"));
    assert!(!is_safe_separator("["));
    assert!(!is_safe_separator("_"));
}

#[test]
fn http_secure_cookie_leaves_body() {
    let mut r = Response::html("x");
    r.set_secure_cookie("sessionid", "abc", true, "Strict", 3600);
    assert_eq!(r.body_str(), "x");
    assert_eq!(
        r.cookies.last().unwrap(),
        &("sessionid".to_string(), "sessionid=abc; Path=/; HttpOnly; SameSite=Strict; Max-Age=3600".to_string())
    );
    r.set_secure_cookie("sessionid", "abc", false, "bogus", 0);
    assert_eq!(r.cookies.last().unwrap().1, "sessionid=abc; Path=/; SameSite=Lax");
}

#[test]
fn algorithm_from_name_round_trips_through_name() {
    for a in [Algorithm::Sha1, Algorithm::Sha256, Algorithm::Sha384, Algorithm::Sha512] {
        assert_eq!(Algorithm::from_name(a.name()).unwrap(), a);
    }
    assert_eq!(Algorithm::from_name("SHA256").unwrap(), Algorithm::Sha256);
    assert!(Algorithm::from_name("md5").is_err());
}
