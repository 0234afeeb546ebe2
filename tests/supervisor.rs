use redis_enrichment::supervisor::{decode_push, RETRY_AFTER_SECS};
use redis_enrichment::{Action, CacheRow, CacheStore, Event, Notice, Phase, PushKind, PushMessage, Supervisor};

fn keys(ks: &[&str]) -> Vec<String> {
    ks.iter().map(|k| k.to_string()).collect()
}

fn rec(fields: &[(&str, &str)]) -> Option<Vec<(String, String)>> {
    Some(fields.iter().map(|(k, v)| (k.to_string(), v.to_string())).collect())
}

#[test]
fn decode_disconnection() {
    let msg = PushMessage { kind: PushKind::Disconnection, data: vec![] };
    assert_eq!(decode_push(0, &msg), Notice::Disconnected);
}

#[test]
fn decode_keyspace_message() {
    let msg = PushMessage {
        kind: PushKind::PMessage,
        data: vec![None, Some("other".to_string()), Some("__keyspace@5__:app_map".to_string()), Some("__keyspace@5__:x".to_string())],
    };
    assert_eq!(decode_push(5, &msg), Notice::KeyChanged("app_map".to_string()));
    assert_eq!(decode_push(6, &msg), Notice::Ignored);
}

#[test]
fn decode_other_kinds_and_empty() {
    let msg = PushMessage { kind: PushKind::Other, data: vec![Some("__keyspace@0__:k".to_string())] };
    assert_eq!(decode_push(0, &msg), Notice::Ignored);
    let msg = PushMessage { kind: PushKind::PMessage, data: vec![] };
    assert_eq!(decode_push(0, &msg), Notice::Ignored);
}

#[test]
fn retries_until_ready() {
    let failures = 3;
    let mut cache = CacheStore::new();
    let (mut sup, mut action) = Supervisor::new(keys(&["a", "b"]), 1);
    let mut sleeps = 0;
    for _ in 0..failures {
        assert_eq!(action, Action::Connect);
        action = sup.step(&mut cache, Event::ConnectFailed);
        assert_eq!(action, Action::Sleep(RETRY_AFTER_SECS));
        sleeps += 1;
        action = sup.step(&mut cache, Event::DelayElapsed);
    }
    assert_eq!(action, Action::Connect);
    assert_eq!(sup.step(&mut cache, Event::Connected), Action::Fetch("a".to_string()));
    assert_eq!(sup.step(&mut cache, Event::Fetched(rec(&[("x", "1")]))), Action::Fetch("b".to_string()));
    assert_eq!(
        sup.step(&mut cache, Event::Fetched(rec(&[("y", "2")]))),
        Action::Subscribe("__keyspace@1__:a".to_string())
    );
    assert_eq!(sup.step(&mut cache, Event::Subscribed), Action::Subscribe("__keyspace@1__:b".to_string()));
    assert_eq!(sup.step(&mut cache, Event::Subscribed), Action::AwaitPush);
    assert_eq!(*sup.phase(), Phase::Streaming);
    assert!(sup.is_ready());
    assert_eq!(sleeps, failures);
    assert_eq!(cache.get(&"x".to_string()), Some(CacheRow { key: "a".to_string(), value: "1".to_string() }));
    assert_eq!(cache.get(&"y".to_string()), Some(CacheRow { key: "b".to_string(), value: "2".to_string() }));
}

#[test]
fn every_failure_waits_then_reconnects() {
    let failures = [Event::FetchFailed, Event::SubscribeFailed, Event::StreamEnded];
    for failure in failures {
        let mut cache = CacheStore::new();
        let (mut sup, _) = Supervisor::new(keys(&["a"]), 0);
        sup.step(&mut cache, Event::Connected);
        assert_eq!(sup.step(&mut cache, failure), Action::Sleep(5));
        assert_eq!(*sup.phase(), Phase::RetryWait);
        assert!(!sup.is_ready());
        assert_eq!(sup.step(&mut cache, Event::DelayElapsed), Action::Connect);
    }
}

#[test]
fn disconnect_while_streaming_retries() {
    let mut cache = CacheStore::new();
    let (mut sup, _) = Supervisor::new(keys(&["a"]), 0);
    sup.step(&mut cache, Event::Connected);
    sup.step(&mut cache, Event::Fetched(None));
    sup.step(&mut cache, Event::Subscribed);
    let ignored = Event::Push(PushMessage { kind: PushKind::Other, data: vec![] });
    assert_eq!(sup.step(&mut cache, ignored), Action::AwaitPush);
    let lost = Event::Push(PushMessage { kind: PushKind::Disconnection, data: vec![] });
    assert_eq!(sup.step(&mut cache, lost), Action::Sleep(5));
    assert_eq!(cache.len(), 0);
}

#[test]
fn refresh_failure_retries() {
    let mut cache = CacheStore::new();
    let (mut sup, _) = Supervisor::new(keys(&["a"]), 0);
    sup.step(&mut cache, Event::Connected);
    sup.step(&mut cache, Event::Fetched(rec(&[("f", "1")])));
    sup.step(&mut cache, Event::Subscribed);
    let note = Event::Push(PushMessage { kind: PushKind::PMessage, data: vec![Some("__keyspace@0__:a".to_string())] });
    assert_eq!(sup.step(&mut cache, note), Action::Fetch("a".to_string()));
    assert_eq!(*sup.phase(), Phase::Refreshing("a".to_string()));
    assert!(sup.is_ready());
    assert_eq!(sup.step(&mut cache, Event::FetchFailed), Action::Sleep(5));
    assert_eq!(cache.get(&"f".to_string()), Some(CacheRow { key: "a".to_string(), value: "1".to_string() }));
}

#[test]
fn unexpected_event_counts_as_failure() {
    let mut cache = CacheStore::new();
    let (mut sup, _) = Supervisor::new(keys(&["a"]), 0);
    assert_eq!(sup.step(&mut cache, Event::Subscribed), Action::Sleep(5));
    assert_eq!(sup.step(&mut cache, Event::Connected), Action::Sleep(5));
    assert_eq!(sup.step(&mut cache, Event::DelayElapsed), Action::Connect);
}

#[test]
fn notification_for_untracked_key_is_ignored() {
    let mut cache = CacheStore::new();
    let (mut sup, _) = Supervisor::new(keys(&["a", "b"]), 0);
    assert!(sup.tracks(&"b".to_string()));
    assert!(!sup.tracks(&"c".to_string()));
    sup.step(&mut cache, Event::Connected);
    sup.step(&mut cache, Event::Fetched(None));
    sup.step(&mut cache, Event::Fetched(None));
    sup.step(&mut cache, Event::Subscribed);
    sup.step(&mut cache, Event::Subscribed);
    let note = Event::Push(PushMessage { kind: PushKind::PMessage, data: vec![Some("__keyspace@0__:c".to_string())] });
    assert_eq!(sup.step(&mut cache, note), Action::AwaitPush);
    assert_eq!(*sup.phase(), Phase::Streaming);
    let note = Event::Push(PushMessage { kind: PushKind::PMessage, data: vec![Some("__keyspace@0__:b".to_string())] });
    assert_eq!(sup.step(&mut cache, note), Action::Fetch("b".to_string()));
}
