use rjango::orm::fields::{FieldTypes, SimpleField};
use rjango::orm::models::{ModelBuilder, ModelMetadata};

#[test]
fn test_model_metadata_new() {
    let meta = ModelMetadata {
        app_label: "blog".to_string(),
        model_name: "Article".to_string(),
        table_name: "blog_article".to_string(),
        fields: Vec::new(),
        pk_field: "id".to_string(),
        ordering: None,
        verbose_name: "article".to_string(),
        verbose_name_plural: "articles".to_string(),
    };
    assert_eq!(meta.app_label, "blog");
    assert_eq!(meta.model_name, "Article");
    assert_eq!(meta.table_name, "blog_article");
    assert_eq!(meta.pk_field, "id");
    assert_eq!(meta.verbose_name, "article");
    assert_eq!(meta.verbose_name_plural, "articles");
    assert!(meta.ordering.is_none());
}

#[test]
fn test_model_builder_new() {
    let _builder = ModelBuilder::new("myapp", "MyModel");
}

#[test]
fn test_model_builder_build_defaults() {
    let meta = ModelBuilder::new("myapp", "MyModel").build();
    assert_eq!(meta.app_label, "myapp");
    assert_eq!(meta.model_name, "MyModel");
    assert_eq!(meta.table_name, "myapp_mymodel");
    assert_eq!(meta.pk_field, "id"); // default when no fields
    assert_eq!(meta.verbose_name, "MyModel");
    assert_eq!(meta.verbose_name_plural, "MyModels");
    assert!(meta.fields.is_empty());
}

#[test]
fn test_model_builder_build_with_fields() {
    let meta = ModelBuilder::new("auth", "User")
        .field(Box::new(SimpleField::new("id", FieldTypes::AutoField)))
        .field(Box::new(SimpleField::new("username", FieldTypes::CharField)))
        .build();
    assert_eq!(meta.app_label, "auth");
    assert_eq!(meta.model_name, "User");
    assert_eq!(meta.table_name, "auth_user");
    assert_eq!(meta.pk_field, "id");
    assert_eq!(meta.fields.len(), 2);
}

#[test]
fn test_model_builder_build_multiple_fields() {
    let meta = ModelBuilder::new("blog", "Post")
        .field(Box::new(SimpleField::new("id", FieldTypes::BigAutoField)))
        .field(Box::new(SimpleField::new("title", FieldTypes::CharField)))
        .field(Box::new(SimpleField::new("body", FieldTypes::TextField)))
        .field(Box::new(SimpleField::new("published", FieldTypes::BooleanField)))
        .build();
    assert_eq!(meta.table_name, "blog_post");
    assert_eq!(meta.fields.len(), 4);
    assert_eq!(meta.pk_field, "id");
}

#[test]
fn test_model_builder_with_underscore_name() {
    let meta = ModelBuilder::new("my_app", "my_model").build();
    assert_eq!(meta.table_name, "my_app_my_model");
    assert_eq!(meta.verbose_name, "my model");
    assert_eq!(meta.verbose_name_plural, "my models");
}

#[test]
fn test_model_builder_no_pk_field() {
    let meta = ModelBuilder::new("app", "Model")
        .field(Box::new(SimpleField::new("name", FieldTypes::CharField)))
        .build();
    assert_eq!(meta.pk_field, "id");
}

#[test]
fn test_model_builder_empty_field_list() {
    let meta = ModelBuilder::new("app", "Empty").build();
    assert_eq!(meta.fields.len(), 0);
    assert_eq!(meta.pk_field, "id");
}

#[test]
fn test_model_metadata_clone() {
    let meta = ModelBuilder::new("app", "Source").build();
    let cloned = meta.clone();
    assert_eq!(cloned.app_label, meta.app_label);
    assert_eq!(cloned.model_name, meta.model_name);
    assert_eq!(cloned.table_name, meta.table_name);
    assert!(cloned.fields.is_empty());
}

#[test]
fn orm_models_first_primary_key_wins() {
    let meta = ModelBuilder::new("Shop", "Item_Kind")
        .field(Box::new(SimpleField::new("code", FieldTypes::CharField)))
        .field(Box::new(SimpleField::new("key", FieldTypes::SmallAutoField)))
        .field(Box::new(SimpleField::new("id", FieldTypes::AutoField)))
        .build();
    assert_eq!(meta.pk_field, "key");
    assert_eq!(meta.table_name, "shop_item_kind");
    assert_eq!(meta.verbose_name_plural, "Item Kinds");
}
