use rjango::orm::expressions::{
    cast, coalesce, col, col_table, length, lower, now, raw, substr, trim, upper, Expression, F,
};

#[test]
fn test_now_function() {
        let sql = now().to_sql();
        assert_eq!(sql, "NOW()");
    }

#[test]
fn test_cast_function() {
        let sql = cast(col("age"), "TEXT").to_sql();
        assert_eq!(sql, r#"CAST("age" AS TEXT)"#);
    }

#[test]
fn test_coalesce_function() {
        let sql = coalesce(vec![col("title"), Expression::Value("Untitled".into())]).to_sql();
        assert_eq!(sql, r#"COALESCE("title", 'Untitled')"#);
    }

#[test]
fn test_length_function() {
        let sql = length(col("name")).to_sql();
        assert_eq!(sql, r#"LENGTH("name")"#);
    }

#[test]
fn test_lower_function() {
        let sql = lower(col("email")).to_sql();
        assert_eq!(sql, r#"LOWER("email")"#);
    }

#[test]
fn test_upper_function() {
        let sql = upper(col("name")).to_sql();
        assert_eq!(sql, r#"UPPER("name")"#);
    }

#[test]
fn test_substr_function() {
        let sql = substr(col("name"), 1, Some(10)).to_sql();
        assert_eq!(sql, r#"SUBSTR("name", '1', '10')"#);
    }

#[test]
fn test_trim_function() {
        let sql = trim(col("name")).to_sql();
        assert_eq!(sql, r#"TRIM("name")"#);
    }

#[test]
fn test_concat_function() {
        let sql = rjango::orm::expressions::concat(vec![col("first_name"), Expression::Value(" ".into()), col("last_name")]).to_sql();
        assert_eq!(sql, r#"CONCAT("first_name", ' ', "last_name")"#);
    }

#[test]
fn test_column_expression() {
        let sql = col("id").to_sql();
        assert_eq!(sql, r#""id""#);
    }

#[test]
fn test_column_with_table() {
        let sql = col_table("users", "email").to_sql();
        assert_eq!(sql, r#""users"."email""#);
    }

#[test]
fn test_value_expression() {
        let sql = Expression::Value("hello".into()).to_sql();
        assert_eq!(sql, "'hello'");
    }

#[test]
fn test_null_value() {
        let sql = Expression::Value("NULL".into()).to_sql();
        assert_eq!(sql, "NULL");
    }

#[test]
fn test_raw_expression() {
        let sql = raw("COUNT(*)").to_sql();
        assert_eq!(sql, "COUNT(*)");
    }

#[test]
fn test_and_expression() {
        let sql = Expression::And(
            Box::new(Expression::Raw("age > 18".into())),
            Box::new(Expression::Raw("active = 1".into())),
        ).to_sql();
        assert_eq!(sql, "(age > 18 AND active = 1)");
    }

#[test]
fn test_or_expression() {
        let sql = Expression::Or(
            Box::new(Expression::Raw("status = 'draft'".into())),
            Box::new(Expression::Raw("status = 'pending'".into())),
        ).to_sql();
        assert_eq!(sql, "(status = 'draft' OR status = 'pending')");
    }

#[test]
fn test_not_expression() {
        let sql = Expression::Not(Box::new(Expression::Raw("deleted".into()))).to_sql();
        assert_eq!(sql, "NOT (deleted)");
    }

#[test]
fn test_f_expression() {
        let f = F::new("price");
        let sql: Expression = f.into();
        assert_eq!(sql.to_sql(), r#""price""#);
    }

#[test]
fn test_expression_display_f() {
        let f = F::new("quantity");
        assert_eq!(f.to_string(), r#""quantity""#);
    }

#[test]
fn test_nested_functions() {
        let expr = lower(trim(col("email")));
        let sql = expr.to_sql();
        assert_eq!(sql, r#"LOWER(TRIM("email"))"#);
    }
