use rjango::http::{FileResponse, HttpMethod, MultiValueDict, QueryDict, Request, Response, StatusCode, StreamingHttpResponse};

#[test]
fn test_query_dict() {
        let q = QueryDict::from_query("key=value&key2=a&key2=b");
        assert_eq!(q.get("key"), Some("value"));
        assert_eq!(q.get_list("key2"), vec!["a", "b"]);
        assert!(q.contains("key"));
        assert!(!q.contains("missing"));
    }

#[test]
fn test_request_path_parsing() {
        let req = Request::new(HttpMethod::GET, "/path?a=1&b=2");
        assert_eq!(req.path, "/path");
        assert_eq!(req.query.get("a"), Some("1"));
    }

#[test]
fn test_response_html() {
        let resp = Response::html("<h1>Hello</h1>");
        assert_eq!(resp.status_code(), 200);
        assert_eq!(resp.body_str(), "<h1>Hello</h1>");
    }

#[test]
fn http_test_redirect() {
        let resp = Response::redirect("/login", false);
        assert_eq!(resp.status_code(), 302);
        assert_eq!(resp.header("location"), Some("/login"));
    }

#[test]
fn test_not_found() {
        let resp = Response::not_found();
        assert_eq!(resp.status_code(), 404);
    }

#[test]
fn test_status_codes() {
        assert_eq!(StatusCode::OK().as_u16(), 200);
        assert_eq!(StatusCode::NOT_FOUND().as_u16(), 404);
        assert_eq!(StatusCode::NOT_FOUND().reason_phrase(), "Not Found");
    }

#[test]
fn test_multi_value_dict() {
        let mut d = MultiValueDict::new();
        assert!(d.is_empty());
        assert_eq!(d.len(), 0);

        d.add("color", "red");
        d.add("color", "blue");
        d.add("size", "large");
        assert!(!d.is_empty());
        assert_eq!(d.len(), 2);
        assert_eq!(d.get("color"), Some("red"));
        assert_eq!(d.get_list("color"), vec!["red", "blue"]);
        assert_eq!(d.get("size"), Some("large"));
        assert_eq!(d.get("missing"), None);

        let items = d.items();
        assert_eq!(items.len(), 2);

        let keys = d.keys();
        assert_eq!(keys.len(), 2);

        let encoded = d.urlencode();
        assert!(encoded.contains("color=red"));
        assert!(encoded.contains("color=blue"));
        assert!(encoded.contains("size=large"));

        d.set("color", "green");
        assert_eq!(d.get_list("color"), vec!["green"]);

        assert_eq!(MultiValueDict::default().len(), 0);
    }

#[test]
fn test_multi_value_dict_empty_urlencode() {
        let d = MultiValueDict::new();
        assert_eq!(d.urlencode(), "");
    }

#[test]
fn test_request_is_ajax() {
        let mut req = Request::new(HttpMethod::GET, "/");
        assert!(!req.is_ajax());
        req.set_header("x-requested-with", "XMLHttpRequest");
        assert!(req.is_ajax());
    }

#[test]
fn test_request_is_secure() {
        let mut req = Request::new(HttpMethod::GET, "/");
        assert!(!req.is_secure());
        req.set_header("x-forwarded-proto", "https");
        assert!(req.is_secure());
    }

#[test]
fn test_request_get_host() {
        let mut req = Request::new(HttpMethod::GET, "/");
        assert!(req.get_host().is_none());
        req.set_header("host", "example.com:8080");
        assert_eq!(req.get_host(), Some("example.com:8080"));
    }

#[test]
fn test_request_build_absolute_uri() {
        let mut req = Request::new(HttpMethod::GET, "/path");
        req.set_header("host", "example.com");
        assert_eq!(req.build_absolute_uri("/foo"), "http://example.com/foo");
        assert_eq!(req.build_absolute_uri("https://other.com"), "https://other.com");
    }

#[test]
fn test_request_build_absolute_uri_https() {
        let mut req = Request::new(HttpMethod::GET, "/");
        req.set_header("host", "secure.com");
        req.set_header("x-forwarded-proto", "https");
        assert_eq!(req.build_absolute_uri("/admin"), "https://secure.com/admin");
    }

#[test]
fn test_request_build_absolute_uri_no_host() {
        let req = Request::new(HttpMethod::GET, "/");
        assert_eq!(req.build_absolute_uri("/foo"), "http://localhost/foo");
    }

#[test]
fn test_streaming_http_response_new() {
        let resp = StreamingHttpResponse::new(StatusCode::OK());
        assert_eq!(resp.status_code(), 200);
        assert_eq!(resp.header("content-type"), Some("text/html; charset=utf-8"));
    }

#[test]
fn test_streaming_http_response_set_header() {
        let mut resp = StreamingHttpResponse::new(StatusCode::OK());
        resp.set_header("content-type", "text/event-stream");
        assert_eq!(resp.header("content-type"), Some("text/event-stream"));
    }

#[test]
fn test_file_response_new() {
        let body = b"file contents".to_vec();
        let resp = FileResponse::new(body.clone(), "readme.txt", "text/plain");
        assert_eq!(resp.status_code(), 200);
        assert_eq!(resp.header("content-type"), Some("text/plain"));
        let cd = resp.header("content-disposition").unwrap_or("");
        assert!(cd.starts_with("attachment"));
        assert!(cd.contains("readme.txt"));
        assert_eq!(resp.body, body);
    }

#[test]
fn test_file_response_inline() {
        let resp = FileResponse::inline(b"{\"key\": 1}".to_vec(), "data.json", "application/json");
        let cd = resp.header("content-disposition").unwrap_or("");
        assert!(cd.starts_with("inline"));
        assert!(cd.contains("data.json"));
    }

#[test]
fn test_file_response_set_header() {
        let mut resp = FileResponse::new(vec![], "f.bin", "application/octet-stream");
        resp.set_header("cache-control", "no-cache");
        assert_eq!(resp.header("cache-control"), Some("no-cache"));
    }

#[test]
fn test_file_response_status_code() {
        let resp = FileResponse::new(vec![], "f.txt", "text/plain");
        assert_eq!(resp.status_code(), 200);
    }

#[test]
fn http_urlencode_quotes_like_django() {
    let mut e = MultiValueDict::new();
    e.add("q", "a&b c");
    assert_eq!(e.urlencode(), "q=a%26b+c");
    let mut f = MultiValueDict::new();
    f.add("n\u{e9}", "x~y.z_-");
    assert_eq!(f.urlencode(), "n%C3%A9=x~y.z_-");
}
