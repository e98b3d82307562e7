use koid::registry::{Registry, RunControl};
use std::sync::atomic::{AtomicBool, Ordering};
use std::sync::Arc;

#[test]
fn registry_reads_back_what_was_last_registered() {
    let mut r: Registry<u32> = Registry::new();
    r.insert("a", 1);
    r.insert("b", 2);
    r.insert("a", 3);
    assert_eq!(r.get("a"), Some(&3));
    assert_eq!(r.get("b"), Some(&2));
    assert_eq!(r.ids(), vec!["a".to_string(), "b".to_string()]);
    assert_eq!(r.remove("a"), Some(3));
    assert_eq!(r.get("a"), None);
    assert!(!r.contains("a"));
    assert_eq!(r.remove("a"), None);
    assert_eq!(r.ids(), vec!["b".to_string()]);
}

#[test]
fn abort_raises_the_flag_of_a_running_request() {
    let mut c: RunControl<u8> = RunControl::new();
    let flag = Arc::new(AtomicBool::new(false));
    c.register_active("r1", flag.clone());
    assert!(!c.abort("r2"));
    assert!(c.abort("r1"));
    assert!(flag.load(Ordering::Relaxed));
    c.remove_active("r1");
    assert!(!c.abort("r1"));
}

#[test]
fn cancelling_a_skill_wakes_its_input_and_marks_it() {
    let mut c: RunControl<&'static str> = RunControl::new();
    c.register_skill_input("s", "tx");
    assert!(!c.is_skill_cancelled("s"));
    c.cancel_skill("s");
    assert!(c.is_skill_cancelled("s"));
    assert_eq!(c.take_skill_input("s"), None);
    c.clear_skill_cancel("s");
    assert!(!c.is_skill_cancelled("s"));
    c.register_skill_input("t", "tx2");
    assert_eq!(c.take_skill_input("t"), Some("tx2"));
    assert_eq!(c.take_skill_input("t"), None);
}

#[test]
fn each_waiting_run_gets_back_its_own_channel() {
    let mut c: RunControl<&str> = RunControl::new();
    c.register_skill_input("a", "tx-a");
    c.register_skill_input("b", "tx-b");
    assert_eq!(c.take_skill_input("b"), Some("tx-b"));
    assert_eq!(c.take_skill_input("a"), Some("tx-a"));
    c.register_skill_input("a", "tx-1");
    c.register_skill_input("a", "tx-2");
    assert_eq!(c.take_skill_input("a"), Some("tx-2"));
}
