use rjango::http::{HttpMethod, Request, Response};
use rjango::middleware::csp::{
    build_csp_header, build_directive, ContentSecurityPolicyMiddleware, CSP_NONE, CSP_SELF, CSP_STRICT_DYNAMIC,
};

fn policy(entries: &[(&str, &[&str])]) -> Vec<(String, Vec<String>)> {
    entries.iter().map(|(d, s)| (d.to_string(), s.iter().map(|x| x.to_string()).collect())).collect()
}

#[test]
fn test_csp_helper_constants() {
    assert_eq!(CSP_SELF, "'self'");
    assert_eq!(CSP_NONE, "'none'");
    assert_eq!(CSP_STRICT_DYNAMIC, "'strict-dynamic'");
}

#[test]
fn test_build_csp_header_empty() {
    let policy: Vec<(String, Vec<String>)> = Vec::new();
    let result = build_csp_header(&policy, None);
    assert_eq!(result, "");
}

#[test]
fn test_build_csp_header_simple() {
    let p = policy(&[("default-src", &["'self'"])]);
    assert_eq!(build_csp_header(&p, None), "default-src 'self'");
}

#[test]
fn test_build_csp_header_multiple() {
    let p = policy(&[
        ("default-src", &["'self'"]),
        ("img-src", &["'self'", "https://*.example.com"]),
        ("script-src", &["'self'"]),
    ]);
    let result = build_csp_header(&p, Some("test-nonce"));
    assert!(result.contains("script-src 'self' 'nonce-test-nonce'"));
    assert!(result.contains("default-src 'self'"));
    assert!(result.contains("img-src 'self' https://*.example.com"));
    assert_eq!(
        result,
        "default-src 'self'; img-src 'self' https://*.example.com; script-src 'self' 'nonce-test-nonce'"
    );
}

#[test]
fn test_build_csp_header_no_nonce_for_other_dirs() {
    let p = policy(&[("img-src", &["'self'"])]);
    let result = build_csp_header(&p, Some("nonce123"));
    assert_eq!(result, "img-src 'self'");
    assert!(!result.contains("nonce123"));
}

#[test]
fn test_build_csp_header_skips_empty_and_existing_nonce() {
    let p = policy(&[("style-src", &["'nonce-abc'"]), ("font-src", &[]), ("object-src", &["'none'"])]);
    assert_eq!(build_csp_header(&p, Some("xyz")), "style-src 'nonce-abc'; object-src 'none'");
}

#[test]
fn test_build_directive() {
    let sources = vec!["'self'".to_string(), "https://example.com".to_string()];
    let result = build_directive("script-src", &sources);
    assert_eq!(result, "script-src 'self' https://example.com");
}

#[test]
fn test_build_directive_empty() {
    let sources: Vec<String> = vec![];
    let result = build_directive("script-src", &sources);
    assert_eq!(result, "");
}

#[test]
fn test_process_response_sets_header_once() {
    let mw = ContentSecurityPolicyMiddleware::new();
    let req = Request::new(HttpMethod::GET, "/");
    let p = policy(&[("default-src", &["'self'"])]);
    let mut resp = Response::html("<html></html>");
    mw.process_response(&req, &mut resp, &p, false);
    assert_eq!(resp.header("content-security-policy"), Some("default-src 'self'"));
    let mut resp2 = Response::html("<html></html>");
    resp2.set_header("content-security-policy", "default-src 'none'");
    mw.process_response(&req, &mut resp2, &p, false);
    assert_eq!(resp2.header("content-security-policy"), Some("default-src 'none'"));
    let mut resp3 = Response::html("<html></html>");
    mw.process_response(&req, &mut resp3, &p, true);
    assert_eq!(resp3.header("content-security-policy-report-only"), Some("default-src 'self'"));
    assert!(resp3.header("content-security-policy").is_none());
}

#[test]
fn test_process_response_injects_request_nonce() {
    let mw = ContentSecurityPolicyMiddleware::new();
    let mut req = Request::new(HttpMethod::GET, "/");
    req.extensions.insert("csp_nonce".to_string(), "n1".to_string());
    assert_eq!(ContentSecurityPolicyMiddleware::get_nonce(&req), Some("n1"));
    let p = policy(&[("script-src", &["'self'"])]);
    let mut resp = Response::html("x");
    mw.process_response(&req, &mut resp, &p, false);
    assert_eq!(resp.header("content-security-policy"), Some("script-src 'self' 'nonce-n1'"));
}

#[test]
fn test_get_nonce_none() {
    let req = Request::new(HttpMethod::GET, "/");
    assert!(ContentSecurityPolicyMiddleware::get_nonce(&req).is_none());
}
