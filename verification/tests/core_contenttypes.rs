use rjango::contenttypes::{lookup_content_type, register_content_type, ContentType, ContentTypeManager};

#[test]
fn test_register_and_lookup() {
        let mut mgr = ContentTypeManager::new();
        let ct = mgr.register("auth", "user");
        assert_eq!(ct.id, 1);
        assert_eq!(ct.app_label, "auth");
        assert_eq!(ct.model, "user");

        let found = mgr.get_for_model("auth", "user");
        assert!(found.is_some());
        assert_eq!(found.unwrap().id, 1);

        let found_id = mgr.get_for_id(1);
        assert!(found_id.is_some());
        assert_eq!(found_id.unwrap().model, "user");
    }

#[test]
fn test_register_duplicate() {
        let mut mgr = ContentTypeManager::new();
        let ct1 = mgr.register("blog", "post");
        let ct2 = mgr.register("blog", "post");
        assert_eq!(ct1.id, ct2.id);
    }

#[test]
fn test_lookup_missing() {
        let mgr = ContentTypeManager::new();
        assert!(mgr.get_for_model("nonexistent", "model").is_none());
        assert!(mgr.get_for_id(999).is_none());
    }

#[test]
fn test_get_all() {
        let mut mgr = ContentTypeManager::new();
        mgr.register("auth", "user");
        mgr.register("blog", "post");
        let all = mgr.get_all();
        assert_eq!(all.len(), 2);
    }

#[test]
fn test_content_type_name() {
        let ct = ContentType::new(1, "auth", "user");
        assert_eq!(ct.name(), "auth.user");
    }

#[test]
fn test_global_registry() {
        let mut registry: Option<ContentTypeManager> = None;
        let _ = register_content_type(&mut registry, "test", "global");
        let found = lookup_content_type(&registry, "test", "global");
        assert!(found.is_some());
        assert_eq!(found.unwrap().model, "global");
    }

#[test]
fn test_global_duplicate() {
        let mut registry: Option<ContentTypeManager> = None;
        let ct1 = register_content_type(&mut registry, "test2", "model");
        let ct2 = register_content_type(&mut registry, "test2", "model");
        assert_eq!(ct1.id, ct2.id);
    }
