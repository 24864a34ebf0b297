use lsys::common::cache::clear::{
    broadcast, ClearOutcome, LocalCacheClear, LocalCacheClearItem, LocalCacheMessage,
    RECONNECT_SECONDS, REMOTE_NOTIFY_TYPE_CACHE,
};

/// A cache of texts by key. Its payload is the key to forget, and an empty
/// payload is one that it cannot read.
struct TextCache {
    name: String,
    entries: Vec<(String, String)>,
    calls: usize,
}

impl TextCache {
    fn new(name: &str, keys: &[&str]) -> Self {
        TextCache {
            name: name.to_string(),
            entries: keys.iter().map(|k| (k.to_string(), format!("value of {}", k))).collect(),
            calls: 0,
        }
    }

    fn keys(&self) -> Vec<String> {
        self.entries.iter().map(|e| e.0.clone()).collect()
    }
}

impl LocalCacheClearItem for TextCache {
    fn cache_name(&self) -> &str {
        &self.name
    }

    fn clear_from_message(&mut self, msg: &str) -> Result<(), String> {
        self.calls += 1;
        if msg.is_empty() {
            return Err("empty payload".to_string());
        }
        self.entries.retain(|e| e.0 != msg);
        Ok(())
    }
}

fn instance() -> LocalCacheClear<TextCache> {
    LocalCacheClear::new(vec![
        TextCache::new("rbac", &["role-1", "role-2"]),
        TextCache::new("user", &["user-1", "user-2"]),
        TextCache::new("user", &["user-1"]),
    ])
}

#[test]
fn a_message_keeps_its_fields() {
    let m = LocalCacheMessage::new("user".to_string(), "user-1".to_string());
    assert_eq!(m.cache_name, "user");
    assert_eq!(m.message, "user-1");
    let c = m.clone();
    assert_eq!(c.cache_name, "user");
    assert_eq!(c.message, "user-1");
}

#[test]
fn the_listener_takes_cache_notices() {
    let l = instance();
    assert_eq!(l.msg_type(), REMOTE_NOTIFY_TYPE_CACHE);
    assert_eq!(l.handlers().len(), 3);
    assert_eq!(RECONNECT_SECONDS, 1);
}

#[test]
fn route_finds_the_first_handler_of_a_name() {
    let l = instance();
    assert_eq!(l.route("rbac"), Some(0));
    assert_eq!(l.route("user"), Some(1));
    assert_eq!(l.route("unknown"), None);
    assert_eq!(l.route(""), None);
}

#[test]
fn a_notice_clears_the_first_matching_cache_only() {
    let mut l = instance();
    let out = l.run(&LocalCacheMessage::new("user".to_string(), "user-1".to_string()));
    assert!(matches!(out, ClearOutcome::Cleared(1)));
    let h = l.handlers();
    assert_eq!(h[0].keys(), vec!["role-1".to_string(), "role-2".to_string()]);
    assert_eq!(h[1].keys(), vec!["user-2".to_string()]);
    assert_eq!(h[2].keys(), vec!["user-1".to_string()]);
    assert_eq!((h[0].calls, h[1].calls, h[2].calls), (0, 1, 0));
}

#[test]
fn a_payload_that_cannot_be_read_is_reported_and_the_listener_goes_on() {
    let mut l = instance();
    match l.run(&LocalCacheMessage::new("rbac".to_string(), String::new())) {
        ClearOutcome::Failed(0, e) => assert_eq!(e, "empty payload"),
        other => panic!("unexpected: {:?}", other),
    }
    let out = l.run(&LocalCacheMessage::new("rbac".to_string(), "role-2".to_string()));
    assert!(matches!(out, ClearOutcome::Cleared(0)));
    assert_eq!(l.handlers()[0].keys(), vec!["role-1".to_string()]);
}

#[test]
fn an_unknown_cache_name_is_dropped() {
    let mut l = instance();
    let out = l.run(&LocalCacheMessage::new("unknown".to_string(), "user-1".to_string()));
    assert!(matches!(out, ClearOutcome::Unmatched));
    for h in l.handlers() {
        assert_eq!(h.calls, 0);
    }
    assert_eq!(l.handlers()[1].keys(), vec!["user-1".to_string(), "user-2".to_string()]);
    // The listener is as fit as before.
    let out = l.run(&LocalCacheMessage::new("user".to_string(), "user-2".to_string()));
    assert!(matches!(out, ClearOutcome::Cleared(1)));
}

#[test]
fn a_broadcast_clears_the_cache_in_every_process() {
    let mut instances: Vec<LocalCacheClear<TextCache>> = (0..5).map(|_| instance()).collect();
    let outcomes = broadcast(
        &mut instances,
        &LocalCacheMessage::new("rbac".to_string(), "role-1".to_string()),
    );
    assert_eq!(outcomes.len(), 5);
    for (l, out) in instances.iter().zip(outcomes.iter()) {
        assert!(matches!(out, ClearOutcome::Cleared(0)));
        assert_eq!(l.handlers()[0].keys(), vec!["role-2".to_string()]);
        assert_eq!(l.handlers()[1].keys(), vec!["user-1".to_string(), "user-2".to_string()]);
    }
}

#[test]
fn a_broadcast_for_an_unknown_cache_changes_no_process() {
    let mut instances: Vec<LocalCacheClear<TextCache>> = (0..4).map(|_| instance()).collect();
    let outcomes = broadcast(
        &mut instances,
        &LocalCacheMessage::new("unknown".to_string(), "role-1".to_string()),
    );
    assert_eq!(outcomes.len(), 4);
    for (l, out) in instances.iter().zip(outcomes.iter()) {
        assert!(matches!(out, ClearOutcome::Unmatched));
        for h in l.handlers() {
            assert_eq!(h.calls, 0);
        }
        assert_eq!(l.handlers()[0].keys(), vec!["role-1".to_string(), "role-2".to_string()]);
    }
}

#[test]
fn a_notice_that_arrives_twice_does_no_harm() {
    let mut l = instance();
    let m = LocalCacheMessage::new("user".to_string(), "user-1".to_string());
    assert!(matches!(l.run(&m), ClearOutcome::Cleared(1)));
    assert!(matches!(l.run(&m), ClearOutcome::Cleared(1)));
    assert_eq!(l.handlers()[1].keys(), vec!["user-2".to_string()]);
}

#[test]
fn a_broadcast_to_no_process_does_nothing() {
    let mut instances: Vec<LocalCacheClear<TextCache>> = Vec::new();
    let outcomes = broadcast(
        &mut instances,
        &LocalCacheMessage::new("rbac".to_string(), "role-1".to_string()),
    );
    assert!(outcomes.is_empty());
}

#[test]
fn handlers_are_registered_under_the_names_they_give() {
    let l = instance();
    assert_eq!(l.names(), &vec!["rbac".to_string(), "user".to_string(), "user".to_string()]);
}

#[test]
fn handlers_can_be_registered_under_given_names() {
    let mut l = LocalCacheClear::with_names(vec![
        ("first".to_string(), TextCache::new("ignored", &["a", "b"])),
        ("second".to_string(), TextCache::new("ignored", &["a"])),
    ]);
    assert_eq!(l.names(), &vec!["first".to_string(), "second".to_string()]);
    assert_eq!(l.route("second"), Some(1));
    assert_eq!(l.route("ignored"), None);
    let out = l.run(&LocalCacheMessage::new("first".to_string(), "a".to_string()));
    assert!(matches!(out, ClearOutcome::Cleared(0)));
    assert_eq!(l.handlers()[0].keys(), vec!["b".to_string()]);
    assert_eq!(l.handlers()[1].keys(), vec!["a".to_string()]);
}

#[test]
fn a_handler_that_is_registered_later_comes_last() {
    let mut l = instance();
    l.register(TextCache::new("setting", &["site"]));
    assert_eq!(l.names().len(), 4);
    assert_eq!(l.route("setting"), Some(3));
    assert_eq!(l.route("user"), Some(1));
    let out = l.run(&LocalCacheMessage::new("setting".to_string(), "site".to_string()));
    assert!(matches!(out, ClearOutcome::Cleared(3)));
    assert!(l.handlers()[3].keys().is_empty());
}
