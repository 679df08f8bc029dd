use rjango::handlers::{get_asgi_handler, get_wsgi_handler, AsgiScope, ASGIHandler, WSGIHandler};
use rjango::http::{HttpMethod, Request, Response, StatusCode};

fn echo_handler(req: Request) -> Response {
    Response::new(StatusCode::OK(), format!("Echo: {}", req.path).into_bytes())
}

fn env(pairs: &[(&str, &str)]) -> Vec<(String, String)> {
    pairs.iter().map(|(k, v)| (k.to_string(), v.to_string())).collect()
}

fn scope(method: Option<&str>, path: Option<&str>) -> AsgiScope {
    AsgiScope { method: method.map(String::from), path: path.map(String::from), query_string: None, headers: None }
}

#[test]
fn test_wsgi_handler_create() {
    let _handler = WSGIHandler::from_fn(echo_handler);
}

#[test]
fn test_wsgi_environ_to_request_get() {
    let handler = WSGIHandler::from_fn(echo_handler);
    let environ = env(&[("REQUEST_METHOD", "GET"), ("PATH_INFO", "/test/"), ("QUERY_STRING", "q=rust")]);
    let (status, _headers, body) = handler.__call__(&environ);
    assert_eq!(status, 200);
    assert!(String::from_utf8_lossy(&body).contains("/test/"));
}

#[test]
fn test_wsgi_environ_to_request_post() {
    let handler = WSGIHandler::from_fn(echo_handler);
    let environ = env(&[("REQUEST_METHOD", "POST"), ("PATH_INFO", "/submit/"), ("CONTENT_TYPE", "application/json")]);
    let (status, _, _) = handler.__call__(&environ);
    assert_eq!(status, 200);
}

#[test]
fn test_asgi_handler_create() {
    let _handler = ASGIHandler::from_fn(echo_handler);
}

#[test]
fn test_asgi_handle_http() {
    let handler = ASGIHandler::from_fn(echo_handler);
    let response = handler.handle_http(&scope(Some("GET"), Some("/api/")));
    assert_eq!(response.status_code(), 200);
}

#[test]
fn test_asgi_with_headers() {
    let handler = ASGIHandler::from_fn(|req: Request| {
        let ct = req.header("content-type").unwrap_or("none").to_string();
        Response::new(StatusCode::OK(), ct.into_bytes())
    });
    let mut s = scope(Some("POST"), Some("/admin/"));
    s.headers = Some(vec![
        Some(vec![Some("content-type".to_string()), Some("application/json".to_string())]),
        Some(vec![Some("x-short".to_string())]),
        None,
    ]);
    let response = handler.handle_http(&s);
    assert_eq!(response.status_code(), 200);
    assert_eq!(response.body_str(), "application/json");
}

#[test]
fn test_wsgi_header_conversion() {
    let handler = WSGIHandler::from_fn(|req: Request| -> Response {
        let content_type = req.header("content-type").unwrap_or("none").to_string();
        let agent = req.header("user-agent").unwrap_or("none").to_string();
        Response::new(StatusCode::OK(), format!("{} {}", content_type, agent).into_bytes())
    });
    let environ = env(&[
        ("REQUEST_METHOD", "GET"),
        ("PATH_INFO", "/"),
        ("HTTP_HOST", "example.com"),
        ("HTTP_USER_AGENT", "rust-test"),
        ("CONTENT_TYPE", "text/html"),
    ]);
    let (_status, _, body) = handler.__call__(&environ);
    assert!(String::from_utf8_lossy(&body).contains("text/html"));
    assert!(String::from_utf8_lossy(&body).contains("rust-test"));
}

#[test]
fn test_wsgi_no_path() {
    let handler = WSGIHandler::from_fn(echo_handler);
    let environ = env(&[("REQUEST_METHOD", "GET")]);
    let (_status, _, body) = handler.__call__(&environ);
    assert!(String::from_utf8_lossy(&body).contains("/"));
}

#[test]
fn test_get_wsgi_handler() {
    let handler = get_wsgi_handler(echo_handler);
    let environ = env(&[("REQUEST_METHOD", "GET"), ("PATH_INFO", "/ping")]);
    let (status, _, body) = handler.__call__(&environ);
    assert_eq!(status, 200);
    assert!(String::from_utf8_lossy(&body).contains("/ping"));
}

#[test]
fn test_get_asgi_handler() {
    let handler = get_asgi_handler(echo_handler);
    let response = handler.handle_http(&scope(Some("GET"), Some("/hello")));
    assert_eq!(response.status_code(), 200);
}

#[test]
fn test_wsgi_method_body_and_query() {
    let handler = WSGIHandler::from_fn(|req: Request| {
        let text = format!("{:?} {} {} {}", req.method, req.path, req.query.get("a").unwrap_or("-"), String::from_utf8_lossy(&req.body));
        Response::new(StatusCode::OK(), text.into_bytes())
    });
    let environ = env(&[("REQUEST_METHOD", "DELETE"), ("PATH_INFO", "/x"), ("QUERY_STRING", "a=1"), ("wsgi.input", "payload")]);
    let (_s, headers, body) = handler.__call__(&environ);
    assert_eq!(String::from_utf8_lossy(&body), "DELETE /x 1 payload");
    assert!(headers.iter().any(|(k, _)| k == "content-type"));
    let environ2 = env(&[("REQUEST_METHOD", "BREW")]);
    let (_s, _h, body2) = handler.__call__(&environ2);
    assert!(String::from_utf8_lossy(&body2).starts_with("GET /"));
}
