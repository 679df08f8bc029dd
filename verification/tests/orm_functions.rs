use rjango::orm::functions::{
    abs, cast, coalesce, extract_month, extract_year, greatest, least, length, lower, now, replace, reverse, round, sqrt,
    substr, trim, upper,
};

#[test]
fn test_length() {
        let f = length("name");
        assert_eq!(f.to_sql(&mut 1), "LENGTH(name)");
    }

#[test]
fn test_lower() {
        let f = lower("name");
        assert_eq!(f.to_sql(&mut 1), "LOWER(name)");
    }

#[test]
fn test_upper() {
        let f = upper("name");
        assert_eq!(f.to_sql(&mut 1), "UPPER(name)");
    }

#[test]
fn test_trim() {
        let f = trim("name");
        assert_eq!(f.to_sql(&mut 1), "TRIM(name)");
    }

#[test]
fn test_abs() {
        let f = abs("score");
        assert_eq!(f.to_sql(&mut 1), "ABS(score)");
    }

#[test]
fn test_now() {
        let f = now();
        assert_eq!(f.to_sql(&mut 1), "NOW()");
    }

#[test]
fn test_coalesce() {
        let f = coalesce(vec!["a".to_string(), "b".to_string()]);
        assert_eq!(f.to_sql(&mut 1), "COALESCE($1, $2)");
    }

#[test]
fn test_substr() {
        let f = substr("bio", 1, Some(10));
        assert_eq!(f.to_sql(&mut 1), "SUBSTR(bio, 1, 10)");
    }

#[test]
fn test_substr_no_len() {
        let f = substr("bio", 3, None);
        assert_eq!(f.to_sql(&mut 1), "SUBSTR(bio, 3)");
    }

#[test]
fn test_replace() {
        let f = replace("name", "old", "new");
        let sql = f.to_sql(&mut 1);
        assert!(sql.starts_with("REPLACE(name,"));
    }

#[test]
fn test_round() {
        let f = round("price", Some(2));
        assert_eq!(f.to_sql(&mut 1), "ROUND(price, 2)");
    }

#[test]
fn test_round_default() {
        let f = round("price", None);
        assert_eq!(f.to_sql(&mut 1), "ROUND(price)");
    }

#[test]
fn test_cast() {
        let f = cast("id", "TEXT");
        assert_eq!(f.to_sql(&mut 1), "CAST(id AS TEXT)");
    }

#[test]
fn test_greatest() {
        let f = greatest(vec!["a".to_string(), "b".to_string()]);
        assert_eq!(f.to_sql(&mut 1), "GREATEST(a, b)");
    }

#[test]
fn test_least() {
        let f = least(vec!["x".to_string(), "y".to_string()]);
        assert_eq!(f.to_sql(&mut 1), "LEAST(x, y)");
    }

#[test]
fn test_extract_year() {
        let f = extract_year("created_at");
        assert!(f.to_sql(&mut 1).contains("strftime"));
    }

#[test]
fn test_extract_month() {
        let f = extract_month("created_at");
        assert!(f.to_sql(&mut 1).contains("'%m'"));
    }

#[test]
fn test_sqrt() {
        let f = sqrt("distance");
        assert_eq!(f.to_sql(&mut 1), "SQRT(distance)");
    }

#[test]
fn test_reverse() {
        let f = reverse("name");
        assert_eq!(f.to_sql(&mut 1), "REVERSE(name)");
    }

#[test]
fn test_db_function_clone() {
        let f = length("name");
        let c = f.clone();
        assert_eq!(f, c);
    }

#[test]
fn test_db_function_debug() {
        let f = lower("email");
        let d = format!("{:?}", f);
        assert!(d.contains("Lower"));
    }
