use rjango::migrations::detector::SchemaDetector;
use rjango::migrations::operations::{FieldTypes, MigrationField, MigrationOperation};

fn make_field(name: &str) -> MigrationField {
    MigrationField {
        name: name.to_string(),
        field_type: FieldTypes::CharField,
        null: false,
        primary_key: false,
        unique: false,
        default: None,
        max_length: Some(100),
    }
}

#[test]
fn test_schema_detector_new() {
        let _detector = SchemaDetector::new();
        // Just verify it constructs
    }

#[test]
fn test_detect_field_changes_no_changes() {
        let fields = vec![make_field("id"), make_field("title"), make_field("body")];
        let ops = SchemaDetector::detect_field_changes(&fields, &fields, "Post");
        assert!(ops.is_empty());
    }

#[test]
fn test_detect_field_changes_added() {
        let old = vec![make_field("id"), make_field("title")];
        let new = vec![make_field("id"), make_field("title"), make_field("body")];
        let ops = SchemaDetector::detect_field_changes(&old, &new, "Post");
        assert_eq!(ops.len(), 1);
        match &ops[0] {
            MigrationOperation::AddField { model_name, field } => {
                assert_eq!(model_name, "Post");
                assert_eq!(field.name, "body");
            }
            _ => panic!("Expected AddField"),
        }
    }

#[test]
fn test_detect_field_changes_removed() {
        let old = vec![make_field("id"), make_field("title"), make_field("body")];
        let new = vec![make_field("id"), make_field("body")];
        let ops = SchemaDetector::detect_field_changes(&old, &new, "Post");
        assert_eq!(ops.len(), 1);
        match &ops[0] {
            MigrationOperation::RemoveField { model_name, field_name } => {
                assert_eq!(model_name, "Post");
                assert_eq!(field_name, "title");
            }
            _ => panic!("Expected RemoveField"),
        }
    }

#[test]
fn test_detect_field_changes_add_and_remove() {
        let old = vec![make_field("id"), make_field("title"), make_field("old_field")];
        let new = vec![make_field("id"), make_field("title"), make_field("new_field")];
        let ops = SchemaDetector::detect_field_changes(&old, &new, "Post");
        assert_eq!(ops.len(), 2);
    }

#[test]
fn test_detect_field_changes_empty_old() {
        let old = vec![];
        let new = vec![make_field("id"), make_field("name")];
        let ops = SchemaDetector::detect_field_changes(&old, &new, "NewModel");
        assert_eq!(ops.len(), 2);
        for op in &ops {
            match op {
                MigrationOperation::AddField { model_name, .. } => {
                    assert_eq!(model_name, "NewModel");
                }
                _ => panic!("Expected AddField"),
            }
        }
    }

#[test]
fn test_detect_field_changes_empty_new() {
        let old = vec![make_field("id"), make_field("name")];
        let new = vec![];
        let ops = SchemaDetector::detect_field_changes(&old, &new, "GoneModel");
        assert_eq!(ops.len(), 2);
        for op in &ops {
            match op {
                MigrationOperation::RemoveField { model_name, .. } => {
                    assert_eq!(model_name, "GoneModel");
                }
                _ => panic!("Expected RemoveField"),
            }
        }
    }

#[test]
fn test_create_model_op_with_empty_fields() {
        let op = SchemaDetector::create_model_op("EmptyModel", vec![]);
        match op {
            MigrationOperation::CreateModel { name, fields, .. } => {
                assert_eq!(name, "EmptyModel");
                assert!(fields.is_empty());
            }
            _ => panic!("Expected CreateModel"),
        }
    }

#[test]
fn test_field_type_access() {
        let f = make_field("test_field");
        assert_eq!(f.name, "test_field");
        assert_eq!(f.field_type, FieldTypes::CharField);
        assert!(!f.null);
        assert!(!f.primary_key);
        assert!(!f.unique);
        assert_eq!(f.max_length, Some(100));
    }
