use rjango::checks::{check_debug_mode, check_secret_key_length, ChecksRegistry};
use rjango::errors::RjangoError;
use rjango::exceptions::{
    BadRequest, EmptyResultSet, FieldDoesNotExist, FullResultSet, ImproperlyConfigured, SuspiciousOperation,
    SynchronousOnlyOperation,
};
use rjango::files::{ContentFile, File, FileSystemStorage};
use rjango::forms::fields::FieldType;
use rjango::forms::formsets::ManagementForm;
use rjango::forms::modelform::{default_widget, field_type_from_string};
use rjango::forms::widgets::WidgetType;
use rjango::messages::MessageLevel;
use rjango::middleware::remote_user::{RemoteUserBackend, RemoteUserMiddleware};
use rjango::middleware::session::SessionMiddleware;
use rjango::signals::{
    get_signal, post_delete, post_migrate, post_save, pre_delete, pre_migrate, pre_save, receiver, request_finished,
    request_started, Signal, SignalRegistry,
};
use rjango::staticfiles::{StaticFilesConfig, StaticFinder};
use rjango::VERSION;
use std::any::Any;
use std::path::PathBuf;
use std::sync::atomic::{AtomicBool, AtomicUsize, Ordering};
use std::sync::Arc;

type Cb = Box<dyn Fn(&dyn Any)>;

fn fire(signal: &Signal<Cb>, sender: &dyn Any) {
    for i in 0..signal.send() {
        (signal.callback(i))(sender);
    }
}

#[test]
fn test_version_is_set() {
    assert!(!VERSION.is_empty());
}

#[test]
fn test_signal_connect_and_send() {
    let mut signal: Signal<Cb> = Signal::new("test_signal");
    let called = Arc::new(AtomicBool::new(false));
    let called_clone = called.clone();
    signal.connect(Box::new(move |_| { called_clone.store(true, Ordering::SeqCst); }));
    fire(&signal, &42);
    assert!(called.load(Ordering::SeqCst));
}

#[test]
fn signals_test_signal_name() {
    let signal: Signal<Cb> = Signal::new("my_signal");
    assert_eq!(signal.name(), "my_signal");
}

#[test]
fn test_get_signal_reuses() {
    let mut reg: SignalRegistry<Cb> = SignalRegistry::new();
    get_signal(&mut reg, "shared").connect(Box::new(|_| {}));
    let s2 = get_signal(&mut reg, "shared");
    assert_eq!(s2.name(), "shared");
    assert_eq!(s2.receiver_count(), 1);
}

#[test]
fn signals_test_predefined_signals() {
    let mut reg: SignalRegistry<Cb> = SignalRegistry::new();
    assert_eq!(pre_save(&mut reg).name(), "pre_save");
    assert_eq!(post_save(&mut reg).name(), "post_save");
    assert_eq!(pre_delete(&mut reg).name(), "pre_delete");
    assert_eq!(post_delete(&mut reg).name(), "post_delete");
    assert_eq!(pre_migrate(&mut reg).name(), "pre_migrate");
    assert_eq!(post_migrate(&mut reg).name(), "post_migrate");
    assert_eq!(request_started(&mut reg).name(), "request_started");
    assert_eq!(request_finished(&mut reg).name(), "request_finished");
}

#[test]
fn test_signal_multiple_receivers() {
    let mut signal: Signal<Cb> = Signal::new("multi");
    let counter = Arc::new(AtomicUsize::new(0));
    let c1 = counter.clone();
    let c2 = counter.clone();
    signal.connect(Box::new(move |_| { c1.fetch_add(1, Ordering::SeqCst); }));
    signal.connect(Box::new(move |_| { c2.fetch_add(1, Ordering::SeqCst); }));
    fire(&signal, &"test");
    assert_eq!(counter.load(Ordering::SeqCst), 2);
}

#[test]
fn test_disconnect() {
    let mut signal: Signal<Cb> = Signal::new("disconnect_test");
    signal.connect(Box::new(|_| {}));
    signal.connect(Box::new(|_| {}));
    assert_eq!(signal.receiver_count(), 2);
    signal.disconnect();
    assert_eq!(signal.receiver_count(), 0);
}

#[test]
fn test_receiver_function() {
    let mut signal: Signal<Cb> = Signal::new("receiver_test");
    let called = Arc::new(AtomicBool::new(false));
    let c = called.clone();
    receiver(&mut signal, Box::new(move |_| { c.store(true, Ordering::SeqCst); }));
    fire(&signal, &"ping");
    assert!(called.load(Ordering::SeqCst));
}

#[test]
fn signals_test_receiver_count() {
    let mut signal: Signal<Cb> = Signal::new("count_test");
    assert_eq!(signal.receiver_count(), 0);
    signal.connect(Box::new(|_| {}));
    assert_eq!(signal.receiver_count(), 1);
}

#[test]
fn test_file_new_with_content() {
    let f = File::new(b"hello world".to_vec(), "test.txt");
    assert_eq!(f.name, "test.txt");
    assert_eq!(f.content, b"hello world");
    assert_eq!(f.size, 11);
}

#[test]
fn test_file_new_empty() {
    let f = File::new(vec![], "empty.txt");
    assert_eq!(f.size, 0);
    assert!(f.content.is_empty());
}

#[test]
fn test_file_extension_and_stem() {
    let f = File::new(b"data".to_vec(), "photo.jpg");
    assert_eq!(f.extension(), Some("jpg"));
    assert_eq!(f.stem(), Some("photo"));
    let f2 = File::new(b"data".to_vec(), "noext");
    assert_eq!(f2.extension(), None);
    assert_eq!(f2.stem(), Some("noext"));
}

#[test]
fn test_content_file_alias() {
    let f = ContentFile::new(b"content".to_vec(), "file.bin");
    assert_eq!(f.name, "file.bin");
    assert_eq!(f.content, b"content");
    assert_eq!(f.size, 7);
}

#[test]
fn test_file_clone_and_eq() {
    let a = File::new(b"same".to_vec(), "a.txt");
    let b = a.clone();
    assert_eq!(a, b);
}

#[test]
fn test_storage_url() {
    let storage = FileSystemStorage::new("/srv/media", "/media/");
    assert_eq!(storage.url("uploads/file.txt"), "/media/uploads/file.txt");
}

#[test]
fn test_storage_url_without_trailing_slash() {
    let storage = FileSystemStorage::new("/srv/media", "/media");
    assert_eq!(storage.url("file.txt"), "/media/file.txt");
}

#[test]
fn test_storage_url_empty_base() {
    let storage = FileSystemStorage::new("/srv/media", "");
    assert_eq!(storage.url("file.txt"), "file.txt");
}

#[test]
fn test_storage_url_with_subdirectories() {
    let storage = FileSystemStorage::new("/srv/media", "/media/");
    assert_eq!(storage.url("avatars/user123/profile.png"), "/media/avatars/user123/profile.png");
}

#[test]
fn test_field_does_not_exist() {
    let e = FieldDoesNotExist("email".into());
    assert!(e.to_string().contains("email"));
}

#[test]
fn test_empty_result_set() {
    let e = EmptyResultSet;
    assert_eq!(e.to_string(), "EmptyResultSet");
}

#[test]
fn test_display_all() {
    assert!(ImproperlyConfigured("x".into()).to_string().contains("x"));
    assert!(BadRequest("y".into()).to_string().contains("y"));
    assert!(SuspiciousOperation("z".into()).to_string().contains("z"));
    assert!(SynchronousOnlyOperation("sync".into()).to_string().contains("sync"));
    assert_eq!(FullResultSet.to_string(), "FullResultSet");
}

#[test]
fn test_debug_warning() {
    let msgs = check_debug_mode(true);
    assert!(msgs.iter().any(|m| m.id == "security.W001"));
}

#[test]
fn test_secret_key_check() {
    let msgs = check_secret_key_length("change-me-to-a-random-string");
    assert!(msgs.iter().any(|m| m.id == "security.E001"));
}

#[test]
fn test_registry() {
    let mut reg = ChecksRegistry::new();
    reg.register(|| check_debug_mode(true), vec!["security".into()]);
    assert_eq!(reg.run_all().len(), 1);
    assert_eq!(reg.run_tagged("security").len(), 1);
    assert_eq!(reg.run_tagged("nonexistent").len(), 0);
}

#[test]
fn test_checks_pass_when_safe() {
    assert!(check_debug_mode(false).is_empty());
    assert!(check_secret_key_length("a-secret-key-that-is-long-enough-for-the-check-to-pass-0123456789").is_empty());
}

#[test]
fn test_message_level_names() {
    assert_eq!(MessageLevel::Debug.name(), "debug");
    assert_eq!(MessageLevel::Info.name(), "info");
    assert_eq!(MessageLevel::Success.name(), "success");
    assert_eq!(MessageLevel::Warning.name(), "warning");
    assert_eq!(MessageLevel::Error.name(), "error");
}

#[test]
fn test_message_level_roundtrip() {
    assert_eq!(MessageLevel::from_int(10), MessageLevel::Debug);
    assert_eq!(MessageLevel::from_int(20), MessageLevel::Info);
    assert_eq!(MessageLevel::from_int(25), MessageLevel::Success);
    assert_eq!(MessageLevel::from_int(30), MessageLevel::Warning);
    assert_eq!(MessageLevel::from_int(40), MessageLevel::Error);
    assert_eq!(MessageLevel::from_int(99), MessageLevel::Info);
}

#[test]
fn test_message_level_values() {
    for level in [MessageLevel::Debug, MessageLevel::Info, MessageLevel::Success, MessageLevel::Warning, MessageLevel::Error] {
        assert_eq!(MessageLevel::from_int(level.value()), level);
    }
}

#[test]
fn test_error_display() {
    let e = RjangoError::NotFound("user not found".into());
    assert_eq!(e.to_string(), "Not found: user not found");
}

struct NoFiles;

impl StaticFinder for NoFiles {
    fn find(&self, _path: &str) -> Option<PathBuf> {
        None
    }
    fn list(&self, _prefix: &str) -> Vec<String> {
        Vec::new()
    }
}

#[test]
fn test_empty_finder() {
    let config: StaticFilesConfig<NoFiles> = StaticFilesConfig::new();
    assert!(config.find("anything.txt").is_none());
    assert!(config.list("").is_empty());
}

#[test]
fn test_field_type_mapping() {
    assert!(matches!(field_type_from_string("IntegerField"), FieldType::Integer));
    assert!(matches!(field_type_from_string("BooleanField"), FieldType::Boolean));
    assert!(matches!(field_type_from_string("EmailField"), FieldType::Email));
}

#[test]
fn test_default_widget_mapping() {
    assert!(matches!(default_widget(&FieldType::Char), WidgetType::TextInput));
    assert!(matches!(default_widget(&FieldType::Boolean), WidgetType::CheckboxInput));
}

#[test]
fn test_management_form_new() {
    let mf = ManagementForm::new(10, 3, 1, 50);
    assert_eq!(mf.total_forms, 10);
    assert_eq!(mf.initial_forms, 3);
}

#[test]
fn test_remote_user_backend_new() {
    let _backend = RemoteUserBackend;
}

#[test]
fn test_remote_user_decision() {
    assert!(RemoteUserMiddleware::applies(Some("alice"), false, "/protected/", ""));
    assert!(!RemoteUserMiddleware::applies(Some(""), false, "/protected/", ""));
    assert!(!RemoteUserMiddleware::applies(None, false, "/protected/", ""));
    assert!(!RemoteUserMiddleware::applies(Some("alice"), true, "/protected/", ""));
    assert!(!RemoteUserMiddleware::applies(Some("alice"), false, "/api/users", "/static, /api"));
    assert!(RemoteUserMiddleware::applies(Some("alice"), false, "/home", "/static, ,/api"));
}

#[test]
fn test_session_middleware_defaults() {
    let mw = SessionMiddleware::new();
    assert_eq!(mw.cookie_name, "sessionid");
    assert_eq!(mw.cookie_age, 1209600);
    assert!(mw.http_only);
    assert_eq!(mw.same_site, "Lax");
}
