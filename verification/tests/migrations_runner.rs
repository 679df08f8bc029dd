use rjango::migrations::operations::{FieldTypes, MigrationField, MigrationOperation, ModelOptions};
use rjango::migrations::runner::{Migration, MigrationRunner};
use rjango::orm::backend::DatabaseBackend;

#[test]
fn runner_test_delete_model_sql() {
        let op = MigrationOperation::DeleteModel { name: "Post".into() };
        let sql = op.to_sql(&DatabaseBackend::SQLite);
        assert!(sql[0].contains("DROP TABLE"));
    }

#[test]
fn runner_test_add_field_sql() {
        let field = MigrationField {
            name: "email".into(),
            field_type: FieldTypes::CharField,
            null: true,
            primary_key: false,
            unique: false,
            default: None,
            max_length: Some(255),
        };
        let op = MigrationOperation::AddField { model_name: "User".into(), field };
        let sql = op.to_sql(&DatabaseBackend::SQLite);
        assert!(sql[0].contains("ALTER TABLE"));
        assert!(sql[0].contains("ADD COLUMN"));
    }

#[test]
fn test_create_model_sql() {
    let _runner = MigrationRunner::new(":memory:", DatabaseBackend::SQLite);
    let fields = vec![
        MigrationField {
            name: "title".into(),
            field_type: FieldTypes::CharField,
            null: false,
            primary_key: false,
            unique: false,
            default: None,
            max_length: Some(200),
        },
        MigrationField {
            name: "body".into(),
            field_type: FieldTypes::TextField,
            null: true,
            primary_key: false,
            unique: false,
            default: None,
            max_length: None,
        },
    ];
    let op = MigrationOperation::CreateModel { name: "Post".into(), fields, options: ModelOptions::default() };
    let sql = op.to_sql(&DatabaseBackend::SQLite);
    assert!(sql[0].contains("CREATE TABLE post"));
    assert!(sql[0].contains("title TEXT NOT NULL"));
}

#[test]
fn test_plan_filters_applied() {
    let mut runner = MigrationRunner::new(":memory:", DatabaseBackend::SQLite);
    let m1 = Migration::new("0001_initial", "blog");
    let m2 = Migration::new("0002_add_title", "blog");
    runner.apply(&m1).unwrap();
    let migrations = [m1.clone(), m2.clone()];
    let plan = runner.plan(&migrations);
    assert_eq!(plan.len(), 1);
    assert_eq!(plan[0].name, "0002_add_title");
}

#[test]
fn test_to_sql_plan() {
    let runner = MigrationRunner::new(":memory:", DatabaseBackend::SQLite);
    let m1 = Migration::new("0001_initial", "blog");
    let plan = runner.to_sql(&[m1]);
    assert_eq!(plan.len(), 1);
    assert_eq!(plan[0].0, "blog_0001_initial");
}

#[test]
fn test_to_sql_collects_statements() {
    let runner = MigrationRunner::new(":memory:", DatabaseBackend::SQLite);
    let m = Migration::new("0002", "shop")
        .operation(MigrationOperation::DeleteModel { name: "Old".into() })
        .operation(MigrationOperation::DeleteModel { name: "Older".into() })
        .depends_on("0001");
    assert_eq!(m.full_name(), "shop_0002");
    assert_eq!(m.dependencies, vec!["0001".to_string()]);
    let plan = runner.to_sql(&[m]);
    assert_eq!(plan[0].1, vec!["DROP TABLE old".to_string(), "DROP TABLE older".to_string()]);
}

#[test]
fn test_plan_after_applying_everything_is_empty() {
    let mut runner = MigrationRunner::new("db", DatabaseBackend::PostgreSQL);
    let ms = [Migration::new("a", "x"), Migration::new("b", "x"), Migration::new("c", "x")];
    runner.apply(&ms[1]).unwrap();
    let names: Vec<&str> = runner.plan(&ms).iter().map(|m| m.name.as_str()).collect();
    assert_eq!(names, vec!["a", "c"]);
    runner.apply(&ms[0]).unwrap();
    runner.apply(&ms[2]).unwrap();
    assert!(runner.plan(&ms).is_empty());
    assert_eq!(runner.applied_migrations.len(), 3);
}
