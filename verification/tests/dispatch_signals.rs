use rjango::dispatch::{
    got_request_exception, post_delete, post_migrate, post_save, pre_delete, pre_migrate, pre_save, request_finished,
    request_started, Signal,
};
use std::any::{Any, TypeId};
use std::collections::HashMap;
use std::sync::atomic::{AtomicBool, AtomicUsize, Ordering};
use std::sync::{Arc, Mutex};

type Cb = Box<dyn Fn(&dyn Any, &HashMap<String, String>)>;

/// Calls every receiver the signal selects for `sender`, in order.
fn send(sig: &Signal<Cb>, sender: &dyn Any, kwargs: &HashMap<String, String>) -> usize {
    let targets = sig.send(&sender.type_id());
    for &i in &targets {
        (sig.callback(i))(sender, kwargs);
    }
    targets.len()
}

fn noop() -> Cb {
    Box::new(|_s, _k| {})
}

struct Article;
struct Comment;

#[test]
fn test_signal_creation() {
    let sig: Signal<Cb> = Signal::new("test");
    assert_eq!(sig.name(), "test");
}

#[test]
fn test_connect_and_send() {
    let mut sig: Signal<Cb> = Signal::new("test_connect");
    let received = Arc::new(AtomicBool::new(false));
    let r = received.clone();
    sig.connect(Box::new(move |_sender, _kwargs| { r.store(true, Ordering::SeqCst); }), None, None);
    let kwargs = HashMap::new();
    send(&sig, &"hello", &kwargs);
    assert!(received.load(Ordering::SeqCst));
}

#[test]
fn test_send_with_kwargs() {
    let mut sig: Signal<Cb> = Signal::new("kwargs");
    let val = Arc::new(Mutex::new(String::new()));
    let v = val.clone();
    sig.connect(
        Box::new(move |_sender, kwargs| {
            if let Some(msg) = kwargs.get("msg") {
                *v.lock().unwrap() = msg.clone();
            }
        }),
        None,
        None,
    );
    let mut kwargs = HashMap::new();
    kwargs.insert("msg".to_string(), "hello".to_string());
    send(&sig, &"sender", &kwargs);
    assert_eq!(*val.lock().unwrap(), "hello");
}

#[test]
fn test_send_with_sender_info() {
    let mut sig: Signal<Cb> = Signal::new("sender_info");
    let captured_sender = Arc::new(Mutex::new(String::new()));
    let cs = captured_sender.clone();
    sig.connect(Box::new(move |sender, _kwargs| { *cs.lock().unwrap() = format!("{:?}", sender.type_id()); }), None, None);
    send(&sig, &42, &HashMap::new());
    let val = captured_sender.lock().unwrap().clone();
    assert!(!val.is_empty(), "Expected non-empty type_id string, got empty");
}

#[test]
fn test_sender_filter() {
    let mut sig: Signal<Cb> = Signal::new("filtered");
    let called = Arc::new(AtomicUsize::new(0));
    let c1 = called.clone();
    let c2 = called.clone();
    sig.connect(Box::new(move |_s, _k| { c1.fetch_add(1, Ordering::SeqCst); }), Some(TypeId::of::<Article>()), None);
    sig.connect(Box::new(move |_s, _k| { c2.fetch_add(2, Ordering::SeqCst); }), None, None);
    send(&sig, &Article, &HashMap::new());
    assert_eq!(called.load(Ordering::SeqCst), 3);
    send(&sig, &Comment, &HashMap::new());
    assert_eq!(called.load(Ordering::SeqCst), 5);
}

#[test]
fn test_dispatch_uid_dedup() {
    let mut sig: Signal<Cb> = Signal::new("dedup");
    let counter = Arc::new(AtomicUsize::new(0));
    let c = counter.clone();
    sig.connect(Box::new(move |_s, _k| { c.fetch_add(1, Ordering::SeqCst); }), None, Some("uid1"));
    sig.connect(Box::new(move |_s, _k| {}), None, Some("uid1"));
    assert_eq!(sig.receiver_count(), 1);
    send(&sig, &"test", &HashMap::new());
    assert_eq!(counter.load(Ordering::SeqCst), 1);
}

#[test]
fn test_multiple_receivers() {
    let mut sig: Signal<Cb> = Signal::new("multi");
    let counter = Arc::new(AtomicUsize::new(0));
    let c1 = counter.clone();
    let c2 = counter.clone();
    sig.connect(Box::new(move |_s, _k| { c1.fetch_add(1, Ordering::SeqCst); }), None, None);
    sig.connect(Box::new(move |_s, _k| { c2.fetch_add(1, Ordering::SeqCst); }), None, None);
    send(&sig, &"x", &HashMap::new());
    assert_eq!(counter.load(Ordering::SeqCst), 2);
}

#[test]
fn test_disconnect_all() {
    let mut sig: Signal<Cb> = Signal::new("disconnect_all");
    sig.connect(noop(), None, Some("a"));
    sig.connect(noop(), None, Some("b"));
    assert_eq!(sig.receiver_count(), 2);
    sig.disconnect(None, None);
    assert_eq!(sig.receiver_count(), 0);
}

#[test]
fn test_disconnect_by_uid() {
    let mut sig: Signal<Cb> = Signal::new("disconnect_uid");
    sig.connect(noop(), None, Some("keep"));
    sig.connect(noop(), None, Some("remove"));
    assert_eq!(sig.receiver_count(), 2);
    sig.disconnect(Some("remove"), None);
    assert_eq!(sig.receiver_count(), 1);
}

#[test]
fn test_disconnect_by_sender() {
    let mut sig: Signal<Cb> = Signal::new("disconnect_sender");
    sig.connect(noop(), Some(TypeId::of::<Article>()), Some("a1"));
    sig.connect(noop(), None, Some("catchall"));
    assert_eq!(sig.receiver_count(), 2);
    sig.disconnect(None, Some(TypeId::of::<Article>()));
    assert_eq!(sig.receiver_count(), 1);
}

#[test]
fn test_send_no_receivers() {
    let sig: Signal<Cb> = Signal::new("orphan");
    assert_eq!(send(&sig, &"x", &HashMap::new()), 0);
}

#[test]
fn lib_test_receiver_count() {
    let mut sig: Signal<Cb> = Signal::new("count_test");
    assert_eq!(sig.receiver_count(), 0);
    sig.connect(noop(), None, None);
    assert_eq!(sig.receiver_count(), 1);
    sig.connect(noop(), None, None);
    assert_eq!(sig.receiver_count(), 2);
}

#[test]
fn lib_test_predefined_signals() {
    let s: Signal<Cb> = request_started();
    assert_eq!(s.name(), "request_started");
    let s: Signal<Cb> = post_save();
    assert_eq!(s.name(), "post_save");
}

#[test]
fn test_all_predefined_signals() {
    let signals: Vec<Signal<Cb>> = vec![
        request_started(),
        request_finished(),
        got_request_exception(),
        pre_save(),
        post_save(),
        pre_delete(),
        post_delete(),
        pre_migrate(),
        post_migrate(),
    ];
    let names: Vec<&str> = signals.iter().map(|s| s.name()).collect();
    assert!(names.contains(&"request_started"));
    assert!(names.contains(&"post_delete"));
    assert!(names.contains(&"got_request_exception"));
    assert_eq!(names.len(), 9);
}

#[test]
fn lib_test_signal_name() {
    let sig: Signal<Cb> = Signal::new("custom_signal");
    assert_eq!(sig.name(), "custom_signal");
}

#[test]
fn test_send_empty_kwargs() {
    let mut sig: Signal<Cb> = Signal::new("empty_kwargs");
    let called = Arc::new(AtomicBool::new(false));
    let c = called.clone();
    sig.connect(Box::new(move |_s, _k| { c.store(true, Ordering::SeqCst); }), None, None);
    send(&sig, &"x", &HashMap::new());
    assert!(called.load(Ordering::SeqCst));
}

#[test]
fn test_multiple_sends() {
    let mut sig: Signal<Cb> = Signal::new("multiple_sends");
    let counter = Arc::new(AtomicUsize::new(0));
    let c = counter.clone();
    sig.connect(Box::new(move |_s, _k| { c.fetch_add(1, Ordering::SeqCst); }), None, None);
    for _ in 0..5 {
        send(&sig, &"x", &HashMap::new());
    }
    assert_eq!(counter.load(Ordering::SeqCst), 5);
}

#[test]
fn test_sender_filter_disconnect_by_both() {
    let mut sig: Signal<Cb> = Signal::new("filter_disconnect_both");
    sig.connect(noop(), Some(TypeId::of::<Article>()), Some("uid1"));
    sig.connect(noop(), None, Some("uid2"));
    sig.disconnect(Some("uid1"), None);
    assert_eq!(sig.receiver_count(), 1);
}

#[test]
fn test_send_targets_in_connection_order() {
    let mut sig: Signal<Cb> = Signal::new("order");
    sig.connect(noop(), Some(TypeId::of::<Comment>()), None);
    sig.connect(noop(), None, None);
    sig.connect(noop(), Some(TypeId::of::<Article>()), None);
    assert_eq!(sig.send(&TypeId::of::<Article>()), vec![1, 2]);
    assert_eq!(sig.send(&TypeId::of::<Comment>()), vec![0, 1]);
}

#[test]
fn disconnect_keeps_the_callbacks_of_kept_receivers_in_order() {
    let log = Arc::new(Mutex::new(Vec::<&'static str>::new()));
    let mut sig: Signal<Cb> = Signal::new("disconnect_order");
    for name in ["a", "b", "c", "d"] {
        let l = log.clone();
        sig.connect(Box::new(move |_s: &dyn Any, _k: &HashMap<String, String>| l.lock().unwrap().push(name)), None, Some(name));
    }
    sig.disconnect(Some("b"), None);
    send(&sig, &"x", &HashMap::new());
    assert_eq!(*log.lock().unwrap(), vec!["a", "c", "d"]);
}
