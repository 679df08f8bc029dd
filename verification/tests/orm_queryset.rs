use rjango::http::{HttpMethod, Request, Response};
use rjango::json::JsonValue;
use rjango::middleware::cache::{cache_entry_for, cached_response, make_cache_key};
use rjango::orm::aggregates::{AggType, Aggregate};
use rjango::orm::query::QuerySet;
use rjango::routing::{match_route, path_matches};

#[test]
fn test_query_set_chaining() {
    let sql = QuerySet::new("products").filter("price", ">", "10").filter("in_stock", "=", "true").order_by("name").sql();
    assert!(sql.contains("WHERE") && sql.contains("ORDER BY name"));
}

#[test]
fn test_query_set_limit_offset() {
    let sql = QuerySet::new("posts").filter("published", "=", "1").order_by("-created_at").limit(10).offset(20).sql();
    assert!(sql.contains("LIMIT 10") && sql.contains("OFFSET 20"));
}

#[test]
fn test_none_queryset() {
    let qs = QuerySet::none();
    assert!(qs.is_none());
}

#[test]
fn queryset_reverse_turns_orderings() {
    let sql = QuerySet::new("t").order_by("-a").order_by("b").reverse().sql();
    assert_eq!(sql, QuerySet::new("t").order_by("a").order_by("-b").sql());
    let plain = QuerySet::new("t").order_by("--a").reverse().sql();
    let again = QuerySet::new("t").order_by("a").sql();
    assert_eq!(plain, again);
}

#[test]
fn queryset_values_and_exclude() {
    let sql = QuerySet::new("t").values(&vec!["a", "b"]).exclude("x", "=", "1").sql();
    assert!(sql.starts_with("SELECT a, b FROM t"));
    assert!(sql.contains("NOT"));
    assert_eq!(QuerySet::new("t").db_alias("other").sql(), QuerySet::new("t").sql());
}

#[test]
fn routing_patterns() {
    assert!(path_matches("/a/", "/a/"));
    assert!(path_matches("/static/*", "/static/css/x.css"));
    assert!(!path_matches("/static/*", "/media/x"));
    let pats = vec!["/".to_string(), "/api/*".to_string()];
    assert_eq!(match_route(&pats, "/api/users").unwrap(), 1);
    assert_eq!(match_route(&pats, "/nope").unwrap_err().to_string(), "Not found: No route found for: /nope");
}

#[test]
fn cache_entry_and_served_page() {
    let mut resp = Response::html("hello world");
    resp.set_header("set-cookie", "a=b");
    resp.set_header("x-extra", "1");
    let entry = cache_entry_for(HttpMethod::GET, &resp).unwrap();
    assert_eq!(
        entry,
        r#"{"body":"hello world","content_type":"text/html; charset=utf-8","headers":"{\"content-type\":\"text/html; charset=utf-8\",\"x-extra\":\"1\"}","status_code":"200"}"#
    );
    let served = cached_response(&entry).unwrap();
    assert_eq!(served.body_str(), "hello world");
    assert_eq!(served.status_code(), 200);
    assert_eq!(served.header("x-cache"), Some("HIT"));
    assert_eq!(served.header("x-extra"), Some("1"));
    assert!(served.header("set-cookie").is_none());
    assert!(cached_response("not json").is_none());
    assert!(cached_response(r#"{"status_code":"200"}"#).is_none());
}

#[test]
fn test_update_cache_skips_redirect() {
    let resp = Response::redirect("/elsewhere/", false);
    assert!(cache_entry_for(HttpMethod::GET, &resp).is_none());
}

#[test]
fn test_fetch_from_cache_skips_post() {
    assert!(cache_entry_for(HttpMethod::POST, &Response::html("x")).is_none());
}

#[test]
fn test_update_cache_respects_no_store() {
    let mut resp = Response::html("secret data");
    resp.set_header("cache-control", "no-store");
    assert!(cache_entry_for(HttpMethod::GET, &resp).is_none());
}

#[test]
fn test_cache_key_method_differentiation() {
    let get = Request::new(HttpMethod::GET, "/page/");
    let head = Request::new(HttpMethod::HEAD, "/page/");
    assert_ne!(make_cache_key("p", &get), make_cache_key("p", &head));
    let mut with_session = Request::new(HttpMethod::GET, "/page/");
    with_session.session = Some(vec![("_session_key".to_string(), JsonValue::String("k1".to_string()))]);
    assert_eq!(make_cache_key("p", &with_session), "p.GET./page/.k1");
}

#[test]
fn test_select_for_update_constructs_correct_sql() {
    let qs = QuerySet::new("items").select_for_update(true, false);
    let sql = qs.sql();
    assert!(sql.contains("FOR UPDATE"));
    assert!(sql.contains("NOWAIT"));
    assert!(!sql.contains("SKIP LOCKED"));
}

#[test]
fn test_select_for_update_skip_locked() {
    let qs = QuerySet::new("items").select_for_update(false, true);
    let sql = qs.sql();
    assert!(sql.contains("SKIP LOCKED"));
    assert!(!sql.contains("NOWAIT"));
}

#[test]
fn test_extra_select_adds_computed_column() {
    let qs = QuerySet::new("items").extra(Some(vec![("total", "price * quantity")]), None, None, None);
    let sql = qs.sql();
    assert!(sql.contains("(price * quantity) AS total"));
}

#[test]
fn test_extra_where_adds_raw_clause() {
    let qs = QuerySet::new("items").extra(None, Some(vec!["price > 100"]), None, None);
    let sql = qs.sql();
    assert!(sql.contains("WHERE price > 100"));
}

#[test]
fn test_extra_tables_adds_join() {
    let qs = QuerySet::new("items").extra(None, None, Some(vec!["categories"]), None);
    let sql = qs.sql();
    assert!(sql.contains("SELECT * FROM items, categories"));
}

#[test]
fn queryset_select_for_update_exact_statement() {
    let qs = QuerySet::new("items").select_for_update(true, true);
    assert_eq!(qs.sql(), "SELECT * FROM items FOR UPDATE NOWAIT SKIP LOCKED");
    assert_eq!(qs.count_sql(), "SELECT COUNT(*) FROM items");
}

#[test]
fn queryset_extra_order_and_all_parts() {
    let qs = QuerySet::new("items")
        .filter("a", "=", "1")
        .extra(Some(vec![("t", "x + y")]), Some(vec!["b > 2"]), Some(vec!["c"]), Some(vec!["-t"]));
    assert_eq!(qs.sql(), "SELECT *, (x + y) AS t FROM items, c WHERE a = 1 AND b > 2 ORDER BY -t");
}

#[test]
fn queryset_only_selects_given_fields() {
    let qs = QuerySet::new("users").only(&vec!["id", "name"]);
    assert_eq!(qs.sql(), "SELECT id, name FROM users");
}

#[test]
fn queryset_defer_and_undefer_keep_statement() {
    let qs = QuerySet::new("users").defer(&vec!["bio", "bio"]).undefer("bio");
    assert_eq!(qs.sql(), "SELECT * FROM users");
}

#[test]
fn queryset_select_related_adds_left_joins() {
    let qs = QuerySet::new("books").select_related(&vec!["author", "publisher"]);
    assert_eq!(
        qs.sql(),
        "SELECT * FROM books LEFT JOIN author ON books.author_id = author.id LEFT JOIN publisher ON books.publisher_id = publisher.id"
    );
}

#[test]
fn queryset_annotate_after_all_columns_and_after_chosen_ones() {
    let agg = Aggregate::new(AggType::Count, "id");
    let qs = QuerySet::new("orders").annotate(&agg);
    assert_eq!(qs.sql(), "SELECT *, COUNT(id) AS count_id FROM orders");
    let qs2 = QuerySet::new("orders").values(&vec!["customer"]).annotate(&agg);
    assert_eq!(qs2.sql(), "SELECT customer, COUNT(id) AS count_id FROM orders");
}

#[test]
fn queryset_set_operations() {
    let a = QuerySet::new("a").filter("x", "=", "1");
    let b = QuerySet::new("b");
    let u = QuerySet::union(a.clone(), b.clone());
    assert_eq!(u.sql(), "SELECT * FROM (SELECT * FROM a WHERE x = 1 UNION SELECT * FROM b) AS union_qs");
    let i = QuerySet::intersection(a.clone(), b.clone());
    assert_eq!(i.sql(), "SELECT * FROM (SELECT * FROM a WHERE x = 1 INTERSECT SELECT * FROM b) AS inter_qs");
    let d = QuerySet::difference(a, b);
    assert_eq!(d.sql(), "SELECT * FROM (SELECT * FROM a WHERE x = 1 EXCEPT SELECT * FROM b) AS diff_qs");
}

#[test]
fn queryset_statements_for_the_database() {
    let qs = QuerySet::new("items").filter("a", "=", "1").extra(None, Some(vec!["raw > 0"]), None, None);
    assert_eq!(qs.explain_sql(), "EXPLAIN QUERY PLAN SELECT * FROM items WHERE a = 1 AND raw > 0");
    assert_eq!(qs.dates_sql("created", "month").unwrap(), "SELECT DISTINCT strftime('%Y-%m', created) AS date_val FROM items");
    assert_eq!(qs.dates_sql("created", "week"), Err("Invalid kind 'week' for dates()".to_string()));
    let agg = Aggregate::new(AggType::Sum, "price");
    assert_eq!(qs.aggregate_statement(&agg), "SELECT SUM(price) AS sum_price FROM items WHERE a = 1");
    assert_eq!(qs.in_bulk_sql(&vec![1, -2, 30]), "SELECT * FROM items WHERE id IN (1, -2, 30)");
    assert_eq!(qs.get_by_pk_sql(7), "SELECT * FROM items WHERE id = 7");
    assert_eq!(
        qs.update_statement(&vec![("name".to_string(), "O'Neil".to_string())]),
        "UPDATE items SET name = 'O''Neil' WHERE a = 1"
    );
    assert_eq!(qs.delete_statement(), "DELETE FROM items WHERE a = 1");
    assert_eq!(QuerySet::new("t").delete_statement(), "DELETE FROM t");
}
