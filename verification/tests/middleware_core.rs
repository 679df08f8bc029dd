use rjango::errors::RjangoError;
use rjango::http::{HttpMethod, Request, Response, StatusCode};
use rjango::middleware::clickjacking::XFrameOptionsMiddleware;
use rjango::middleware::common::CommonMiddleware;
use rjango::middleware::conditional_get::ConditionalGetMiddleware;
use rjango::middleware::csrf::CsrfMiddleware;
use rjango::middleware::gzip::GZipMiddleware;
use rjango::middleware::locale::LocaleMiddleware;
use rjango::middleware::remote_user::RemoteUserMiddleware;
use rjango::middleware::security::SecurityMiddleware;
use rjango::middleware::{Middleware, MiddlewareStack};

#[test]
fn test_empty_stack() {
    let stack = MiddlewareStack::new();
    let req = Request::new(HttpMethod::GET, "/");
    let resp = stack.process(req, |_| Response::html("hello"));
    assert_eq!(resp.body_str(), "hello");
}

struct AddHeaderMiddleware;

impl Middleware for AddHeaderMiddleware {
    fn process_response(&self, _req: &Request, resp: &mut Response) -> Result<(), RjangoError> {
        resp.headers.insert("x-custom".into(), "value".into());
        Ok(())
    }
}

#[test]
fn test_middleware_modifies_response() {
    let mut stack = MiddlewareStack::new();
    stack.add(AddHeaderMiddleware);
    let req = Request::new(HttpMethod::GET, "/");
    let resp = stack.process(req, |_| Response::html("test"));
    assert_eq!(resp.header("x-custom"), Some("value"));
}

struct Refuse;

impl Middleware for Refuse {
    fn process_request(&self, _req: &mut Request) -> Result<Option<Response>, RjangoError> {
        Ok(Some(Response::new(StatusCode::FORBIDDEN(), b"no".to_vec())))
    }
}

#[test]
fn middleware_stack_answer_skips_view() {
    let mut stack = MiddlewareStack::new();
    stack.add(Refuse);
    let resp = stack.process(Request::new(HttpMethod::GET, "/"), |_| Response::html("view"));
    assert_eq!(resp.status_code(), 403);
    assert_eq!(resp.body_str(), "no");
}

#[test]
fn test_xframe_deny_by_default() {
    let mw = XFrameOptionsMiddleware::default();
    let req = Request::new(HttpMethod::GET, "/");
    let mut resp = Response::html("<h1>test</h1>");
    let result = mw.process_response(&req, &mut resp);
    assert!(result.is_ok());
    assert_eq!(resp.header("X-Frame-Options"), Some("DENY"));
}

#[test]
fn test_xframe_does_not_override_existing() {
    let mw = XFrameOptionsMiddleware::default();
    let req = Request::new(HttpMethod::GET, "/");
    let mut resp = Response::html("<h1>test</h1>");
    resp.set_header("X-Frame-Options", "SAMEORIGIN");
    let result = mw.process_response(&req, &mut resp);
    assert!(result.is_ok());
    assert_eq!(resp.header("X-Frame-Options"), Some("SAMEORIGIN"));
}

#[test]
fn middleware_xframe_setting_uppercased() {
    let mw = XFrameOptionsMiddleware { setting: Some("sameorigin".to_string()) };
    let mut resp = Response::html("x");
    mw.process_response(&Request::new(HttpMethod::GET, "/"), &mut resp).unwrap();
    assert_eq!(resp.header("X-Frame-Options"), Some("SAMEORIGIN"));
}

#[test]
fn test_common_no_interference() {
    let mw = CommonMiddleware::default();
    let mut req = Request::new(HttpMethod::GET, "/test/");
    let result = mw.process_request(&mut req);
    assert!(result.is_ok());
    assert!(result.unwrap().is_none());
}

#[test]
fn test_append_slash_404() {
    let mw = CommonMiddleware::default();
    let req = Request::new(HttpMethod::GET, "/no-slash");
    let mut resp = Response::new(StatusCode::NOT_FOUND(), b"Not Found".to_vec());
    let result = mw.process_response(&req, &mut resp);
    assert!(result.is_ok());
    assert_eq!(resp.status_code(), 301);
}

#[test]
fn test_should_redirect_with_slash() {
    let mw = CommonMiddleware::default();
    assert!(mw.should_redirect_with_slash("/path"));
    assert!(!mw.should_redirect_with_slash("/path/"));
    assert!(!mw.should_redirect_with_slash("/api/v1/users"));
    assert!(!mw.should_redirect_with_slash("/image.png"));
}

#[test]
fn test_user_agent_block() {
    let mut req = Request::new(HttpMethod::GET, "/");
    req.headers.insert("User-Agent".into(), "BadBot/1.0".into());
    let result = CommonMiddleware::default().check_user_agent(&req);
    assert!(result.is_ok());
}

#[test]
fn middleware_user_agent_denied() {
    let mw = CommonMiddleware {
        append_slash: true,
        prepend_www: false,
        disallowed_user_agents: "badbot".to_string(),
    };
    let mut req = Request::new(HttpMethod::GET, "/");
    req.set_header("User-Agent", "BadBot/1.0");
    assert!(mw.check_user_agent(&req).is_err());
}

#[test]
fn test_conditional_get_sets_etag() {
    let req = Request::new(HttpMethod::GET, "/");
    let mut res = Response::html("test body content");
    let mw = ConditionalGetMiddleware;
    mw.process_response(&req, &mut res).unwrap();
    let etag = res.headers.get("ETag").unwrap();
    assert!(etag.len() > 2);
    assert!(etag.starts_with('"'));
    assert!(etag.ends_with('"'));
}

#[test]
fn middleware_etag_is_body_length() {
    let mut res = Response::html("test body content");
    ConditionalGetMiddleware.process_response(&Request::new(HttpMethod::GET, "/"), &mut res).unwrap();
    assert_eq!(res.headers.get("ETag"), Some("\"17\""));
}

#[test]
fn test_csrf_get_allowed() {
    let mw = CsrfMiddleware;
    let mut req = Request::new(HttpMethod::GET, "/");
    let result = mw.process_request(&mut req).unwrap();
    assert!(result.is_none());
}

#[test]
fn test_csrf_post_blocks_without_token() {
    let mw = CsrfMiddleware;
    let mut req = Request::new(HttpMethod::POST, "/submit/");
    let result = mw.process_request(&mut req).unwrap();
    assert!(result.is_some());
    assert_eq!(result.unwrap().status_code(), 403);
}

#[test]
fn test_csrf_token_generation() {
    let t1 = CsrfMiddleware::generate_token();
    let t2 = CsrfMiddleware::generate_token();
    assert_ne!(t1, t2);
    assert!(t1.starts_with("rjcsrf-"));
    assert_eq!(t1.len(), 39);
}

#[test]
fn test_csrf_post_with_valid_token() {
    let mw = CsrfMiddleware;
    let mut req = Request::new(HttpMethod::POST, "/submit/?csrfmiddlewaretoken=test-token");
    req.cookies.insert("csrftoken".into(), "test-token".into());
    let result = mw.process_request(&mut req).unwrap();
    assert!(result.is_none());
}

#[test]
fn middleware_csrf_wrong_token_refused() {
    let mut req = Request::new(HttpMethod::POST, "/submit/?csrfmiddlewaretoken=other");
    req.cookies.insert("csrftoken".into(), "test-token".into());
    let result = CsrfMiddleware.process_request(&mut req).unwrap();
    assert_eq!(result.unwrap().status_code(), 403);
}

#[test]
fn test_csrf_response_sets_cookie() {
    let mw = CsrfMiddleware;
    let mut resp = Response::html("hello");
    assert!(!resp.cookies.iter().any(|(k, _)| k == "csrftoken"));
    mw.process_response(&Request::new(HttpMethod::GET, "/"), &mut resp).unwrap();
    assert!(resp.cookies.iter().any(|(k, _)| k == "csrftoken"));
}

#[test]
fn test_gzip_adds_header() {
    let mut req = Request::new(HttpMethod::GET, "/");
    req.headers.insert("accept-encoding".into(), "gzip, deflate".into());
    let mut res = Response::html("<html></html>");
    let mw = GZipMiddleware;
    mw.process_response(&req, &mut res).unwrap();
    assert_eq!(res.headers.get("Content-Encoding").unwrap(), "gzip");
}

#[test]
fn test_gzip_no_header_without_encoding() {
    let req = Request::new(HttpMethod::GET, "/");
    let mut res = Response::html("<html></html>");
    let mw = GZipMiddleware;
    mw.process_response(&req, &mut res).unwrap();
    assert!(res.headers.get("Content-Encoding").is_none());
}

#[test]
fn test_locale_sets_content_language() {
    let mut req = Request::new(HttpMethod::GET, "/");
    req.headers.insert("accept-language".into(), "fr-FR,fr;q=0.9".into());
    let mut res = Response::html("bonjour");
    let mw = LocaleMiddleware;
    mw.process_response(&req, &mut res).unwrap();
    assert_eq!(res.headers.get("Content-Language").unwrap(), "fr-FR");
}

#[test]
fn test_locale_default_without_header() {
    let req = Request::new(HttpMethod::GET, "/");
    let mut res = Response::html("hello");
    let mw = LocaleMiddleware;
    mw.process_response(&req, &mut res).unwrap();
    assert_eq!(res.headers.get("Content-Language").unwrap(), "en-us");
}

#[test]
fn test_remote_user_no_header() {
    let mw = RemoteUserMiddleware::default();
    let mut req = Request::new(HttpMethod::GET, "/");
    let result = mw.process_request(&mut req).unwrap();
    assert!(result.is_none());
    assert!(req.user.is_none());
}

#[test]
fn test_remote_user_with_header() {
    let mw = RemoteUserMiddleware::default();
    let mut req = Request::new(HttpMethod::GET, "/dashboard/");
    req.set_header("REMOTE_USER", "john_doe");
    let result = mw.process_request(&mut req).unwrap();
    assert!(result.is_none());
    assert!(req.user.is_some());
    if let Some(ref user) = req.user {
        assert_eq!(user.get("username").and_then(|v| v.as_str()), Some("john_doe"));
    }
}

#[test]
fn test_remote_user_ignores_empty_header() {
    let mw = RemoteUserMiddleware::default();
    let mut req = Request::new(HttpMethod::GET, "/");
    req.set_header("REMOTE_USER", "");
    let result = mw.process_request(&mut req).unwrap();
    assert!(result.is_none());
    assert!(req.user.is_none());
}

#[test]
fn middleware_remote_user_ignored_path() {
    let mw = RemoteUserMiddleware { remote_user_setting: None, ignore_paths: "/api,/static".to_string() };
    let mut req = Request::new(HttpMethod::GET, "/api/data");
    req.set_header("REMOTE_USER", "api_bot");
    assert!(mw.process_request(&mut req).unwrap().is_none());
    assert!(req.user.is_none());
}

#[test]
fn test_remote_user_middleware_process_exception_noop() {
    let mw = RemoteUserMiddleware::default();
    let req = Request::new(HttpMethod::GET, "/");
    let err = RjangoError::NotFound("test".into());
    let result = mw.process_exception(&req, &err);
    assert!(result.is_ok());
    assert!(result.unwrap().is_none());
}

#[test]
fn test_remote_user_chain_with_stack() {
    let mut stack = MiddlewareStack::new();
    stack.add(RemoteUserMiddleware::default());
    let mut req = Request::new(HttpMethod::GET, "/protected/");
    req.set_header("REMOTE_USER", "alice");
    let resp = stack.process(req, |r| {
        let username = r
            .user
            .as_ref()
            .and_then(|u| u.get("username"))
            .and_then(|v| v.as_str())
            .unwrap_or("anonymous");
        Response::html(&format!("Hello, {}", username))
    });
    assert_eq!(resp.body_str(), "Hello, alice");
}

#[test]
fn test_security_headers_default() {
    let req = Request::new(HttpMethod::GET, "/");
    let mut res = Response::html("<html></html>");
    let mw = SecurityMiddleware::default();
    mw.process_response(&req, &mut res).unwrap();
    assert_eq!(res.header("x-content-type-options"), Some("nosniff"));
    assert_eq!(res.header("referrer-policy"), Some("same-origin"));
}

#[test]
fn test_security_does_not_override_existing_referrer() {
    let req = Request::new(HttpMethod::GET, "/");
    let mut res = Response::html("test");
    res.set_header("referrer-policy", "no-referrer");
    let mw = SecurityMiddleware::default();
    mw.process_response(&req, &mut res).unwrap();
    assert_eq!(res.header("referrer-policy"), Some("no-referrer"));
}

#[test]
fn test_security_does_not_override_existing_xcto() {
    let req = Request::new(HttpMethod::GET, "/");
    let mut res = Response::html("test");
    res.set_header("x-content-type-options", "nosniff");
    let mw = SecurityMiddleware::default();
    mw.process_response(&req, &mut res).unwrap();
    assert_eq!(res.header("x-content-type-options"), Some("nosniff"));
}

#[test]
fn test_security_process_exception_noop() {
    let mw = SecurityMiddleware::default();
    let req = Request::new(HttpMethod::GET, "/");
    let err = RjangoError::NotFound("test".into());
    let result = mw.process_exception(&req, &err);
    assert!(result.is_ok());
    assert!(result.unwrap().is_none());
}

#[test]
fn test_security_no_redirect_when_disabled() {
    let mut req = Request::new(HttpMethod::GET, "/path");
    let mw = SecurityMiddleware::default();
    let result = mw.process_request(&mut req).unwrap();
    assert!(result.is_none());
}

#[test]
fn middleware_security_redirects_to_https() {
    let mut mw = SecurityMiddleware::default();
    mw.ssl_redirect = true;
    let mut req = Request::new(HttpMethod::GET, "/path?q=1");
    let resp = mw.process_request(&mut req).unwrap().unwrap();
    assert_eq!(resp.status_code(), 301);
    let loc = resp.header("location").unwrap();
    assert!(loc.starts_with("https://"));
    assert!(loc.contains("/path"));
    assert!(loc.contains("q=1"));
}

#[test]
fn middleware_request_step_outcomes() {
    assert!(rjango::middleware::request_step_response(Ok(None)).is_none());
    let answered = rjango::middleware::request_step_response(Ok(Some(Response::html("early")))).unwrap();
    assert_eq!(answered.body, b"early".to_vec());
    let failed = rjango::middleware::request_step_response(Err(RjangoError::Middleware("boom".to_string()))).unwrap();
    assert_eq!(failed.status.0, 500);
    assert_eq!(String::from_utf8(failed.body).unwrap(), "Middleware error: Middleware error: boom");
}

#[test]
fn middleware_response_step_outcomes() {
    assert!(rjango::middleware::response_step_response(Ok(())).is_none());
    let failed = rjango::middleware::response_step_response(Err(RjangoError::Internal("late".to_string()))).unwrap();
    assert_eq!(failed.status.0, 500);
    assert_eq!(String::from_utf8(failed.body).unwrap(), "Middleware response error: Internal error: late");
}
