use rjango::migrations::operations::{FieldTypes, MigrationField, MigrationOperation, ModelOptions};
use rjango::orm::backend::DatabaseBackend;

fn text_field(name: &str) -> MigrationField {
    MigrationField {
        name: name.to_string(),
        field_type: FieldTypes::TextField,
        null: false,
        primary_key: false,
        unique: false,
        default: None,
        max_length: None,
    }
}

fn char_field(name: &str) -> MigrationField {
    MigrationField {
        name: name.to_string(),
        field_type: FieldTypes::CharField,
        null: false,
        primary_key: false,
        unique: false,
        default: None,
        max_length: Some(100),
    }
}

#[test]
fn test_create_model_sql_sqlite() {
        let op = MigrationOperation::CreateModel {
            name: "Post".into(),
            fields: vec![
                char_field("title"),
                text_field("body"),
            ],
            options: ModelOptions::default(),
        };
        let sql = op.to_sql(&DatabaseBackend::SQLite);
        assert_eq!(sql.len(), 1);
        assert!(sql[0].starts_with("CREATE TABLE"));
        assert!(sql[0].contains("title"));
        assert!(sql[0].contains("body"));
        assert!(sql[0].contains("TEXT"));
    }

#[test]
fn test_create_model_sql_postgresql() {
        let op = MigrationOperation::CreateModel {
            name: "Article".into(),
            fields: vec![char_field("title")],
            options: ModelOptions::default(),
        };
        let sql = op.to_sql(&DatabaseBackend::PostgreSQL);
        assert!(sql[0].contains("article"));
    }

#[test]
fn test_create_model_with_primary_key() {
        let id_field = MigrationField {
            name: "id".into(),
            field_type: FieldTypes::AutoField,
            null: false,
            primary_key: true,
            unique: false,
            default: None,
            max_length: None,
        };
        let op = MigrationOperation::CreateModel {
            name: "User".into(),
            fields: vec![id_field],
            options: ModelOptions::default(),
        };
        let sql = op.to_sql(&DatabaseBackend::SQLite);
        assert!(sql[0].contains("INTEGER"));
        assert!(sql[0].contains("PRIMARY KEY"));
    }

#[test]
fn test_create_model_with_not_null_and_unique() {
        let field = MigrationField {
            name: "username".into(),
            field_type: FieldTypes::CharField,
            null: false,
            primary_key: false,
            unique: true,
            default: None,
            max_length: Some(150),
        };
        let op = MigrationOperation::CreateModel {
            name: "User".into(),
            fields: vec![field],
            options: ModelOptions::default(),
        };
        let sql = op.to_sql(&DatabaseBackend::SQLite);
        assert!(sql[0].contains("NOT NULL"));
        assert!(sql[0].contains("UNIQUE"));
    }

#[test]
fn test_create_model_with_default() {
        let field = MigrationField {
            name: "is_active".into(),
            field_type: FieldTypes::BooleanField,
            null: false,
            primary_key: false,
            unique: false,
            default: Some("1".into()),
            max_length: None,
        };
        let op = MigrationOperation::CreateModel {
            name: "User".into(),
            fields: vec![field],
            options: ModelOptions::default(),
        };
        let sql = op.to_sql(&DatabaseBackend::SQLite);
        assert!(sql[0].contains("DEFAULT"));
        assert!(sql[0].contains("1"));
    }

#[test]
fn operations_test_delete_model_sql() {
        let op = MigrationOperation::DeleteModel { name: "OldTable".into() };
        let sql = op.to_sql(&DatabaseBackend::SQLite);
        assert_eq!(sql.len(), 1);
        assert_eq!(sql[0], "DROP TABLE oldtable");
    }

#[test]
fn test_delete_model_sql_mysql() {
        let op = MigrationOperation::DeleteModel { name: "OldTable".into() };
        let sql = op.to_sql(&DatabaseBackend::MySQL);
        assert_eq!(sql[0], "DROP TABLE oldtable");
    }

#[test]
fn test_rename_model_sql() {
        let op = MigrationOperation::RenameModel {
            old_name: "OldName".into(),
            new_name: "NewName".into(),
        };
        let sql = op.to_sql(&DatabaseBackend::SQLite);
        // Unimplemented — just check it doesn't panic
        assert!(sql[0].contains("Unimplemented"));
    }

#[test]
fn operations_test_add_field_sql() {
        let op = MigrationOperation::AddField {
            model_name: "Post".into(),
            field: char_field("subtitle"),
        };
        let sql = op.to_sql(&DatabaseBackend::SQLite);
        assert_eq!(sql.len(), 1);
        assert!(sql[0].contains("ALTER TABLE"));
        assert!(sql[0].contains("ADD COLUMN"));
        assert!(sql[0].contains("subtitle"));
    }

#[test]
fn test_add_field_with_primary_key() {
        let op = MigrationOperation::AddField {
            model_name: "Post".into(),
            field: MigrationField {
                name: "id".into(),
                field_type: FieldTypes::AutoField,
                null: false,
                primary_key: true,
                unique: false,
                default: None,
                max_length: None,
            },
        };
        let sql = op.to_sql(&DatabaseBackend::SQLite);
        assert!(sql[0].contains("PRIMARY KEY"));
        assert!(sql[0].contains("NOT NULL"));
    }

#[test]
fn test_remove_field_sql() {
        let op = MigrationOperation::RemoveField {
            model_name: "Post".into(),
            field_name: "obsolete".into(),
        };
        let sql = op.to_sql(&DatabaseBackend::SQLite);
        assert!(sql[0].contains("DROP COLUMN"));
        assert!(sql[0].contains("obsolete"));
    }

#[test]
fn test_alter_field_sql() {
        let op = MigrationOperation::AlterField {
            model_name: "Post".into(),
            field: char_field("title"),
        };
        let sql = op.to_sql(&DatabaseBackend::SQLite);
        // Unimplemented
        assert!(sql[0].contains("Unimplemented"));
    }

#[test]
fn test_rename_field_sql() {
        let op = MigrationOperation::RenameField {
            model_name: "Post".into(),
            old_name: "old".into(),
            new_name: "new".into(),
        };
        let sql = op.to_sql(&DatabaseBackend::SQLite);
        assert!(sql[0].contains("Unimplemented"));
    }

#[test]
fn test_add_index_sql() {
        let op = MigrationOperation::AddIndex {
            model_name: "Post".into(),
            index_name: "post_title_idx".into(),
            fields: vec!["title".into()],
        };
        let sql = op.to_sql(&DatabaseBackend::SQLite);
        assert!(sql[0].contains("Unimplemented"));
    }

#[test]
fn test_remove_index_sql() {
        let op = MigrationOperation::RemoveIndex {
            model_name: "Post".into(),
            index_name: "post_title_idx".into(),
        };
        let sql = op.to_sql(&DatabaseBackend::SQLite);
        assert!(sql[0].contains("Unimplemented"));
    }

#[test]
fn test_run_sql() {
        let op = MigrationOperation::RunSQL {
            sql: "CREATE INDEX idx ON t(c);".into(),
            reverse_sql: Some("DROP INDEX idx;".into()),
        };
        let sql = op.to_sql(&DatabaseBackend::PostgreSQL);
        assert_eq!(sql, vec!["CREATE INDEX idx ON t(c);".to_string()]);
    }

#[test]
fn test_run_sql_no_reverse() {
        let op = MigrationOperation::RunSQL {
            sql: "VACUUM;".into(),
            reverse_sql: None,
        };
        let sql = op.to_sql(&DatabaseBackend::MySQL);
        assert_eq!(sql, vec!["VACUUM;".to_string()]);
    }

#[test]
fn test_migration_field_new() {
        let f = char_field("email");
        assert_eq!(f.name, "email");
        assert_eq!(f.field_type, FieldTypes::CharField);
        assert!(!f.null);
        assert!(!f.primary_key);
        assert!(!f.unique);
        assert_eq!(f.max_length, Some(100));
    }

#[test]
fn test_migration_field_fully_configured() {
        let f = MigrationField {
            name: "id".into(),
            field_type: FieldTypes::BigAutoField,
            null: false,
            primary_key: true,
            unique: true,
            default: None,
            max_length: None,
        };
        assert_eq!(f.field_type, FieldTypes::BigAutoField);
        assert!(f.primary_key);
        assert!(f.unique);
    }

#[test]
fn test_model_options_default() {
        let opts = ModelOptions::default();
        assert!(opts.table_name.is_none());
        assert!(opts.ordering.is_none());
        assert!(opts.verbose_name.is_none());
        assert!(opts.verbose_name_plural.is_none());
    }

#[test]
fn test_model_options_configured() {
        let opts = ModelOptions {
            table_name: Some("custom_table".into()),
            ordering: Some(vec!["-created".into()]),
            verbose_name: Some("My Model".into()),
            verbose_name_plural: Some("My Models".into()),
        };
        assert_eq!(opts.table_name.as_deref(), Some("custom_table"));
        assert_eq!(opts.ordering.as_deref(), Some(["-created".to_string()].as_slice()));
    }

#[test]
fn test_add_field_not_null() {
        let op = MigrationOperation::AddField {
            model_name: "User".into(),
            field: MigrationField {
                name: "email".into(),
                field_type: FieldTypes::EmailField,
                null: false,
                primary_key: false,
                unique: false,
                default: None,
                max_length: Some(254),
            },
        };
        let sql = op.to_sql(&DatabaseBackend::SQLite);
        assert!(sql[0].contains("NOT NULL"));
    }
