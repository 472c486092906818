use resource_mirror::mirror::{backoff_delay_ms, Action, Mirror, Notification, Phase, Scope};
use resource_mirror::object::{ObjectRef, RemoteObject};

fn record(namespace: &str, name: &str, image: Option<&str>) -> RemoteObject {
    RemoteObject {
        namespace: namespace.to_string(),
        name: name.to_string(),
        image: image.map(|s| s.to_string()),
    }
}

fn key(namespace: &str, name: &str) -> ObjectRef {
    ObjectRef::new(namespace.to_string(), name.to_string())
}

fn forever(scope: Scope) -> Mirror {
    Mirror::new(scope, false, 0)
}

#[test]
fn fresh_mirror_bootstraps_first() {
    let m = forever(Scope::AllNamespaces);
    assert_eq!(m.current_phase(), Phase::Bootstrapping);
    assert!(matches!(m.next_action(), Action::List));
    // queries against a not-yet-bootstrapped mirror find nothing
    assert!(m.get_entry("a".to_string(), "x".to_string()).is_none());
    assert!(m.list_entries().is_empty());
}

#[test]
fn list_then_delete_end_to_end() {
    let mut m = forever(Scope::AllNamespaces);
    m.on_list_ok("rv1".to_string(), vec![record("a", "x", Some("nginx:1.25"))]);
    assert_eq!(m.current_phase(), Phase::Watching);

    let entries = m.list_entries();
    assert_eq!(entries.len(), 1);
    assert_eq!(entries[0].name, "x");
    assert_eq!(entries[0].namespace, "a");
    assert_eq!(entries[0].container, "nginx");
    assert_eq!(entries[0].version, "1.25");

    m.on_notification(Notification::Delete(key("a", "x"), "rv2".to_string()));
    assert!(m.get_entry("a".to_string(), "x".to_string()).is_none());
    assert!(m.list_entries().is_empty());
}

#[test]
fn unprojectable_record_is_invisible_to_queries() {
    let mut m = forever(Scope::AllNamespaces);
    m.on_list_ok("rv1".to_string(), vec![record("a", "x", None)]);
    assert!(m.list_entries().is_empty());
    assert!(m.get_entry("a".to_string(), "x".to_string()).is_none());
    // the raw record is still mirrored
    assert!(m.get_object(&key("a", "x")).is_some());
}

#[test]
fn delete_after_upsert_wins() {
    let mut m = forever(Scope::AllNamespaces);
    m.on_list_ok("rv1".to_string(), vec![]);
    m.on_notification(Notification::Upsert(
        record("a", "x", Some("app:1")),
        "rv2".to_string(),
    ));
    m.on_notification(Notification::Delete(key("a", "x"), "rv3".to_string()));
    assert!(m.get_object(&key("a", "x")).is_none());
}

#[test]
fn upsert_after_delete_wins() {
    let mut m = forever(Scope::AllNamespaces);
    m.on_list_ok("rv1".to_string(), vec![]);
    m.on_notification(Notification::Delete(key("a", "x"), "rv2".to_string()));
    m.on_notification(Notification::Upsert(
        record("a", "x", Some("app:1")),
        "rv3".to_string(),
    ));
    let got = m.get_object(&key("a", "x")).unwrap();
    assert_eq!(got.image.as_deref(), Some("app:1"));
}

#[test]
fn rebootstrap_supersedes_prior_state() {
    let mut m = forever(Scope::AllNamespaces);
    m.on_list_ok("rv1".to_string(), vec![record("a", "x", Some("app:1"))]);
    assert!(m.get_object(&key("a", "x")).is_some());

    m.on_notification(Notification::Expired);
    assert_eq!(m.current_phase(), Phase::Bootstrapping);
    assert!(matches!(m.next_action(), Action::List));

    m.on_list_ok("rv9".to_string(), vec![record("b", "y", Some("app:2"))]);
    assert!(m.get_object(&key("a", "x")).is_none());
    assert!(m.get_object(&key("b", "y")).is_some());
}

#[test]
fn list_objects_enumerates_the_raw_snapshot() {
    let mut m = forever(Scope::AllNamespaces);
    m.on_list_ok(
        "rv1".to_string(),
        vec![record("a", "x", Some("app:1")), record("b", "y", None)],
    );
    let objs = m.list_objects();
    assert_eq!(objs.len(), 2);
    let mut names: Vec<String> = objs.iter().map(|o| o.name.clone()).collect();
    names.sort();
    assert_eq!(names, vec!["x".to_string(), "y".to_string()]);
}

#[test]
fn bookmark_advances_the_cursor_only() {
    let mut m = forever(Scope::AllNamespaces);
    m.on_list_ok("rv1".to_string(), vec![record("a", "x", Some("app:1"))]);
    m.on_notification(Notification::Bookmark("rv5".to_string()));
    assert_eq!(m.list_entries().len(), 1);
    match m.next_action() {
        Action::Watch(cursor) => assert_eq!(cursor, "rv5"),
        _ => panic!("expected a watch action"),
    }
}

#[test]
fn upsert_advances_the_cursor() {
    let mut m = forever(Scope::AllNamespaces);
    m.on_list_ok("rv1".to_string(), vec![]);
    m.on_notification(Notification::Upsert(
        record("a", "x", Some("app:1")),
        "rv2".to_string(),
    ));
    match m.next_action() {
        Action::Watch(cursor) => assert_eq!(cursor, "rv2"),
        _ => panic!("expected a watch action"),
    }
}

#[test]
fn transient_watch_failure_backs_off_then_resumes() {
    let mut m = forever(Scope::AllNamespaces);
    m.on_list_ok("rv1".to_string(), vec![record("a", "x", Some("app:1"))]);
    m.on_watch_closed();
    assert_eq!(m.current_phase(), Phase::BackingOff);
    match m.next_action() {
        Action::Sleep(ms) => assert_eq!(ms, 800),
        _ => panic!("expected a sleep action"),
    }
    // the store is untouched by the failure
    assert_eq!(m.list_entries().len(), 1);

    m.on_backoff_elapsed();
    assert_eq!(m.current_phase(), Phase::Watching);
    match m.next_action() {
        Action::Watch(cursor) => assert_eq!(cursor, "rv1"),
        _ => panic!("expected a watch action"),
    }
}

#[test]
fn repeated_failures_grow_the_delay() {
    let mut m = forever(Scope::AllNamespaces);
    m.on_list_failed();
    match m.next_action() {
        Action::Sleep(ms) => assert_eq!(ms, 800),
        _ => panic!("expected a sleep action"),
    }
    m.on_backoff_elapsed();
    assert_eq!(m.current_phase(), Phase::Bootstrapping);
    m.on_list_failed();
    match m.next_action() {
        Action::Sleep(ms) => assert_eq!(ms, 1600),
        _ => panic!("expected a sleep action"),
    }
}

#[test]
fn success_resets_the_failure_count() {
    let mut m = forever(Scope::AllNamespaces);
    m.on_list_failed();
    m.on_backoff_elapsed();
    m.on_list_ok("rv1".to_string(), vec![]);
    m.on_watch_closed();
    match m.next_action() {
        Action::Sleep(ms) => assert_eq!(ms, 800),
        _ => panic!("expected a sleep action"),
    }
}

#[test]
fn backoff_ladder_doubles_up_to_the_cap() {
    assert_eq!(backoff_delay_ms(0), 800);
    assert_eq!(backoff_delay_ms(1), 800);
    assert_eq!(backoff_delay_ms(2), 1600);
    assert_eq!(backoff_delay_ms(3), 3200);
    assert_eq!(backoff_delay_ms(4), 6400);
    assert_eq!(backoff_delay_ms(5), 12800);
    assert_eq!(backoff_delay_ms(6), 25600);
    assert_eq!(backoff_delay_ms(7), 30000);
    assert_eq!(backoff_delay_ms(8), 30000);
    assert_eq!(backoff_delay_ms(100), 30000);
}

#[test]
fn fail_fast_terminates_after_the_budget() {
    let mut m = Mirror::new(Scope::Namespace("prod".to_string()), true, 2);
    m.on_list_failed();
    assert_eq!(m.current_phase(), Phase::BackingOff);
    m.on_backoff_elapsed();
    m.on_list_failed();
    assert_eq!(m.current_phase(), Phase::Terminated);
    assert!(matches!(m.next_action(), Action::Stop));
}

#[test]
fn readiness_follows_the_first_bootstrap() {
    let mut m = forever(Scope::AllNamespaces);
    assert!(!m.is_ready());
    m.on_list_failed();
    assert!(!m.is_ready());
    m.on_backoff_elapsed();
    m.on_list_ok("rv1".to_string(), vec![]);
    assert!(m.is_ready());
    // a later expiry does not withdraw readiness: the store keeps serving
    m.on_notification(Notification::Expired);
    assert!(m.is_ready());
}

#[test]
fn scope_is_kept_for_the_driver() {
    let m = forever(Scope::Namespace("team-a".to_string()));
    match m.scope() {
        Scope::Namespace(ns) => assert_eq!(ns, "team-a"),
        Scope::AllNamespaces => panic!("expected the namespace scope"),
    }
}
