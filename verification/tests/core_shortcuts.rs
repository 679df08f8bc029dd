use rjango::http::{HttpMethod, Request, Response};
use rjango::shortcuts::{get_list_or_404, get_object_or_404, redirect, render, resolve_url};

#[test]
fn test_render() {
        let req = Request::new(HttpMethod::GET, "/");
        let ctx = vec![("key".to_string(), serde_json::Value::String("value".to_string()))];
        let resp = render(&req, "index.html", ctx).unwrap();
        assert_eq!(resp.status_code(), 200);
        assert!(resp.body_str().contains("index.html"));
    }

#[test]
fn shortcuts_test_redirect() {
        let resp = redirect("/login/");
        assert_eq!(resp.status_code(), 302);
        assert_eq!(resp.header("location"), Some("/login/"));
    }

#[test]
fn test_redirect_using_builder() {
        let resp = Response::redirect("/new-url/", false);
        assert_eq!(resp.status_code(), 302);
        assert_eq!(resp.header("location"), Some("/new-url/"));
    }

#[test]
fn test_get_object_or_404_found() {
        let result = get_object_or_404(|| Some(42));
        assert_eq!(result, Ok(42));
    }

#[test]
fn test_get_object_or_404_not_found() {
        let result: Result<i32, Response> = get_object_or_404(|| None::<i32>);
        assert!(result.is_err());
        assert_eq!(result.err().unwrap().status_code(), 404);
    }

#[test]
fn test_get_list_or_404_found() {
        let result = get_list_or_404(|| vec![1, 2, 3]);
        assert_eq!(result, Ok(vec![1, 2, 3]));
    }

#[test]
fn test_get_list_or_404_empty() {
        let result: Result<Vec<i32>, Response> = get_list_or_404(|| Vec::<i32>::new());
        assert!(result.is_err());
        assert_eq!(result.err().unwrap().status_code(), 404);
    }

#[test]
fn test_resolve_url() {
        assert_eq!(resolve_url("/some/path/"), "/some/path/");
        assert_eq!(resolve_url("named-url"), "named-url");
    }
