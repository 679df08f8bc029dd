use rjango::apps::{AppConfig, Registry};

#[test]
fn apps_test_app_config_new() {
        let cfg = AppConfig::new("my_blog");
        assert_eq!(cfg.name, "my_blog");
        assert_eq!(cfg.label, "my blog");
        assert_eq!(cfg.url_prefix, "/my-blog/");
        assert_eq!(cfg.namespace, "my_blog");
        assert_eq!(cfg.verbose_name, "my blog");
        assert!(cfg.has_models);
    }

#[test]
fn test_app_config_new_with_underscores() {
        let cfg = AppConfig::new("django_contrib_admin");
        assert_eq!(cfg.name, "django_contrib_admin");
        assert_eq!(cfg.label, "django contrib admin");
        assert_eq!(cfg.url_prefix, "/django-contrib-admin/");
    }

#[test]
fn test_app_config_new_simple_name() {
        let cfg = AppConfig::new("auth");
        assert_eq!(cfg.name, "auth");
        assert_eq!(cfg.label, "auth");
        assert_eq!(cfg.url_prefix, "/auth/");
    }

#[test]
fn test_registry_new() {
        let registry = Registry::new();
        assert!(registry.get_apps().is_empty());
        assert!(!registry.is_app_installed("anything"));
    }

#[test]
fn test_registry_default() {
        let registry: Registry = Default::default();
        assert!(registry.get_apps().is_empty());
    }

#[test]
fn apps_test_registry_register_and_get() {
        let mut registry = Registry::new();
        let cfg = AppConfig::new("blog");
        registry.register(cfg);
        
        let retrieved = registry.get_app("blog");
        assert!(retrieved.is_some());
        assert_eq!(retrieved.unwrap().name, "blog");
    }

#[test]
fn test_registry_get_nonexistent() {
        let registry = Registry::new();
        assert!(registry.get_app("nonexistent").is_none());
    }

#[test]
fn test_registry_get_app_mut() {
        let mut registry = Registry::new();
        registry.register(AppConfig::new("mutable_app"));
        
        let app = registry.get_app_mut("mutable_app");
        assert!(app.is_some());
        app.unwrap().has_models = false;
        
        let app = registry.get_app("mutable_app").unwrap();
        assert!(!app.has_models);
    }

#[test]
fn test_registry_get_app_mut_nonexistent() {
        let mut registry = Registry::new();
        assert!(registry.get_app_mut("nowhere").is_none());
    }

#[test]
fn test_registry_get_apps_multiple() {
        let mut registry = Registry::new();
        registry.register(AppConfig::new("app1"));
        registry.register(AppConfig::new("app2"));
        registry.register(AppConfig::new("app3"));
        let apps = registry.get_apps();
        assert_eq!(apps.len(), 3);
    }

#[test]
fn test_registry_is_app_installed() {
        let mut registry = Registry::new();
        registry.register(AppConfig::new("installed"));
        assert!(registry.is_app_installed("installed"));
        assert!(!registry.is_app_installed("missing"));
    }

#[test]
fn apps_test_registry_register_model() {
        let mut registry = Registry::new();
        registry.register_model("myapp", "Article", "myapp_article");
        registry.register_model("myapp", "Comment", "myapp_comment");
        
        let models = registry.get_models("myapp");
        assert_eq!(models.len(), 2);
        
        let names: Vec<&str> = models.iter().map(|(n, _)| *n).collect();
        assert!(names.contains(&"Article"));
        assert!(names.contains(&"Comment"));
    }

#[test]
fn test_registry_register_model_duplicate_overwrites() {
        let mut registry = Registry::new();
        registry.register_model("myapp", "Article", "myapp_article");
        registry.register_model("myapp", "Article", "myapp_article_v2");
        
        let models = registry.get_models("myapp");
        assert_eq!(models.len(), 1);
        assert_eq!(models[0].1, "myapp_article_v2");
    }

#[test]
fn test_registry_get_models_empty() {
        let registry = Registry::new();
        let models = registry.get_models("empty_app");
        assert!(models.is_empty());
    }

#[test]
fn test_registry_get_models_no_registration() {
        let mut registry = Registry::new();
        registry.register(AppConfig::new("myapp"));
        // App registered but no models registered for it
        let models = registry.get_models("myapp");
        assert!(models.is_empty());
    }

#[test]
fn test_app_config_clone_and_debug() {
        let cfg = AppConfig::new("test");
        let _cloned = cfg.clone();
        let _debug = format!("{:?}", cfg);
    }

#[test]
fn test_registry_clone_and_debug() {
        let registry = Registry::new();
        let _debug = format!("{:?}", registry);
    }
#[test]
fn lib_test_app_config_new() {
        let cfg = AppConfig::new("my_app");
        assert_eq!(cfg.name, "my_app");
        assert_eq!(cfg.label, "my app");
        assert_eq!(cfg.url_prefix, "/my-app/");
        assert!(cfg.has_models);
    }

#[test]
fn lib_test_registry_register_and_get() {
        let mut registry = Registry::new();
        let cfg = AppConfig::new("test_app");
        registry.register(cfg);
        assert!(registry.is_app_installed("test_app"));
        assert!(!registry.is_app_installed("non_existent"));
        let retrieved = registry.get_app("test_app");
        assert!(retrieved.is_some());
        assert_eq!(retrieved.unwrap().name, "test_app");
    }

#[test]
fn test_registry_get_apps() {
        let mut registry = Registry::new();
        registry.register(AppConfig::new("app1"));
        registry.register(AppConfig::new("app2"));
        let apps = registry.get_apps();
        assert_eq!(apps.len(), 2);
    }

#[test]
fn lib_test_registry_register_model() {
        let mut registry = Registry::new();
        registry.register_model("myapp", "MyModel", "myapp_mymodel");
        let models = registry.get_models("myapp");
        assert_eq!(models.len(), 1);
        assert_eq!(models[0].0, "MyModel");
        assert_eq!(models[0].1, "myapp_mymodel");
    }


#[test]
fn test_registry_register_replaces_and_keeps_order() {
    let mut registry = Registry::new();
    registry.register(AppConfig::new("a"));
    registry.register(AppConfig::new("b"));
    let mut again = AppConfig::new("a");
    again.has_models = false;
    registry.register(again);
    let names: Vec<&str> = registry.get_apps().iter().map(|c| c.name.as_str()).collect();
    assert_eq!(names, vec!["a", "b"]);
    assert!(!registry.get_app("a").unwrap().has_models);
}
