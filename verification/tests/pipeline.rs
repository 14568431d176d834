use canister_core::dedup::EventDeduper;
use canister_core::push_events::{ingest, IdempotentEvent};

fn event(key: u128, name: &str) -> IdempotentEvent {
    IdempotentEvent {
        idempotency_key: key,
        name: name.to_string(),
        timestamp: 1,
        user: None,
        source: None,
        payload: Vec::new(),
    }
}

const SALT: [u8; 32] = [7u8; 32];

#[test]
fn batch_is_deduplicated_within_itself_and_across_the_window() {
    let mut deduper = EventDeduper::new(60);

    let batch = vec![event(1, "a"), event(1, "a"), event(2, "b")];
    let forwarded = ingest(&mut deduper, SALT, batch, 1000);
    let names: Vec<&str> = forwarded.iter().map(|e| e.name.as_str()).collect();
    assert_eq!(names, vec!["a", "b"]);

    let again = ingest(&mut deduper, SALT, vec![event(1, "a")], 1030);
    assert_eq!(again.len(), 0);

    let later = ingest(&mut deduper, SALT, vec![event(1, "a")], 1090);
    assert_eq!(later.len(), 1);
    assert_eq!(later[0].name, "a");
}

#[test]
fn reingesting_unmodified_batch_immediately_forwards_nothing() {
    let mut deduper = EventDeduper::new(60);
    let first = ingest(
        &mut deduper,
        SALT,
        vec![event(10, "x"), event(11, "y")],
        500,
    );
    assert_eq!(first.len(), 2);
    let second = ingest(
        &mut deduper,
        SALT,
        vec![event(10, "x"), event(11, "y")],
        500,
    );
    assert_eq!(second.len(), 0);
}

#[test]
fn forwarded_events_keep_order_and_fields() {
    let mut deduper = EventDeduper::new(60);
    let mut e = event(5, "named");
    e.timestamp = 42;
    e.source = Some("src".to_string());
    e.payload = vec![1, 2, 3];
    e.user = Some("plain-user".to_string());
    let forwarded = ingest(&mut deduper, SALT, vec![e], 0);
    assert_eq!(forwarded.len(), 1);
    assert_eq!(forwarded[0].name, "named");
    assert_eq!(forwarded[0].timestamp, 42);
    assert_eq!(forwarded[0].source.as_deref(), Some("src"));
    assert_eq!(forwarded[0].payload, vec![1, 2, 3]);
    // not identity-shaped, so it passes through unobfuscated
    assert_eq!(forwarded[0].user.as_deref(), Some("plain-user"));
}

#[test]
fn identity_shaped_user_is_obfuscated_in_forwarded_event() {
    let mut deduper = EventDeduper::new(60);
    let mut e = event(6, "presence");
    e.user = Some("2vxsx-fae".to_string());
    let forwarded = ingest(&mut deduper, SALT, vec![e], 0);
    assert_eq!(forwarded.len(), 1);
    let user = forwarded[0].user.as_deref().unwrap();
    assert_ne!(user, "2vxsx-fae");
    assert_eq!(user.len(), 32);
}

#[test]
fn duplicate_within_window_does_not_refresh_its_timestamp() {
    let mut deduper = EventDeduper::new(60);
    assert!(deduper.try_push(1, 100));
    // dropped as a duplicate, and the recorded time stays 100
    assert!(!deduper.try_push(1, 130));
    // 100 + 60 <= 165, so the key has expired even though it was seen at 130
    assert!(deduper.try_push(1, 165));
}

#[test]
fn eviction_forgets_only_expired_keys() {
    let mut deduper = EventDeduper::new(60);
    assert!(deduper.try_push(1, 0));
    assert!(deduper.try_push(2, 50));
    deduper.evict_expired(70);
    // key 1 expired at 60 and was evicted; key 2 is still within the window
    assert!(!deduper.try_push(2, 70));
    assert!(deduper.try_push(1, 70));
}
