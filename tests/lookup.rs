use redis_enrichment::{Action, CacheRow, CacheStore, Case, Condition, Event, LookupError, PushKind, PushMessage, Redis, RedisConfig, Supervisor};

fn eq(field: &str, value: &str) -> Condition {
    Condition::Equals { field: field.to_string(), value: value.to_string() }
}

fn row(key: &str, value: &str) -> CacheRow {
    CacheRow { key: key.to_string(), value: value.to_string() }
}

fn filled() -> CacheStore {
    let mut c = CacheStore::new();
    c.materialize(
        &"app_map".to_string(),
        Some(vec![("svc-1".to_string(), "prod".to_string()), ("svc-2".to_string(), "staging".to_string())]),
    );
    c
}

#[test]
fn rejected_shapes_are_usage_errors() {
    let c = filled();
    assert_eq!(c.find_table_row(&[]), Err(LookupError::Rejected));
    assert_eq!(c.find_table_row(&[eq("field", "svc-1"), eq("field", "svc-2")]), Err(LookupError::Rejected));
    assert_eq!(
        c.find_table_row(&[Condition::BetweenDates { field: "field".to_string(), from: 0, to: 10 }]),
        Err(LookupError::Rejected)
    );
    assert_eq!(c.find_table_row(&[Condition::FromDate { field: "field".to_string(), from: 0 }]), Err(LookupError::Rejected));
    assert_eq!(c.find_table_row(&[Condition::ToDate { field: "field".to_string(), to: 0 }]), Err(LookupError::Rejected));
    assert_eq!(c.find_table_row(&[eq("name", "svc-1")]), Err(LookupError::Rejected));
    assert_eq!(c.find_table_row(&[eq("name", "svc-9")]), Err(LookupError::Rejected));
}

#[test]
fn hit_and_miss() {
    let c = filled();
    assert_eq!(c.find_table_row(&[eq("field", "svc-1")]), Ok(row("app_map", "prod")));
    assert_eq!(c.find_table_row(&[eq("field", "svc-9")]), Err(LookupError::NotFound));
}

#[test]
fn rows_are_zero_or_one() {
    let c = filled();
    assert_eq!(c.find_table_rows(&[eq("field", "svc-2")]), Ok(vec![row("app_map", "staging")]));
    assert_eq!(c.find_table_rows(&[eq("field", "svc-9")]), Ok(vec![]));
    assert_eq!(c.find_table_rows(&[]), Err(LookupError::Rejected));
}

#[test]
fn error_messages() {
    assert_eq!(LookupError::Rejected.message(), "Only equality condition is allowed");
    assert_eq!(LookupError::NotFound.message(), "No value found");
}

fn config(keys: &[&str]) -> RedisConfig {
    RedisConfig {
        host: "localhost:6379".to_string(),
        password: None,
        db: 0,
        keys: keys.iter().map(|k| k.to_string()).collect(),
        sentinel_master: None,
    }
}

fn notification(channel: &str) -> Event {
    Event::Push(PushMessage {
        kind: PushKind::PMessage,
        data: vec![Some(channel.to_string()), Some(channel.to_string()), Some("hset".to_string())],
    })
}

#[test]
fn bootstrap_then_notification_refreshes_row() {
    let mut table = Redis::new(config(&["app_map"])).unwrap();
    let (mut sup, first) = Supervisor::new(table.config().keys.clone(), table.config().db);
    assert_eq!(first, Action::Connect);
    assert_eq!(table.step(&mut sup, Event::Connected), Action::Fetch("app_map".to_string()));
    let rec = vec![("svc-1".to_string(), "prod".to_string()), ("svc-2".to_string(), "staging".to_string())];
    assert_eq!(
        table.step(&mut sup, Event::Fetched(Some(rec))),
        Action::Subscribe("__keyspace@0__:app_map".to_string())
    );
    assert_eq!(table.step(&mut sup, Event::Subscribed), Action::AwaitPush);
    assert!(sup.is_ready());
    assert_eq!(table.len(), 2);
    assert_eq!(
        table.find_table_rows(Case::Sensitive, &[eq("field", "svc-2")], None, None),
        Ok(vec![row("app_map", "staging")])
    );
    assert_eq!(table.find_table_rows(Case::Sensitive, &[eq("field", "svc-9")], None, None), Ok(vec![]));

    assert_eq!(table.find_table_row(Case::Sensitive, &[eq("field", "svc-1")], None, None), Ok(row("app_map", "prod")));
    assert_eq!(table.find_table_row(Case::Sensitive, &[eq("field", "svc-9")], None, None), Err(LookupError::NotFound));

    assert_eq!(table.step(&mut sup, notification("__keyspace@0__:app_map")), Action::Fetch("app_map".to_string()));
    let rec = vec![("svc-1".to_string(), "canary".to_string()), ("svc-2".to_string(), "staging".to_string())];
    assert_eq!(table.step(&mut sup, Event::Fetched(Some(rec))), Action::AwaitPush);
    assert_eq!(table.find_table_row(Case::Sensitive, &[eq("field", "svc-1")], None, None), Ok(row("app_map", "canary")));
    assert_eq!(table.lookup(&"svc-2".to_string()), Some(row("app_map", "staging")));
}

#[test]
fn table_facade() {
    let mut table = Redis::new(config(&["app_map"])).unwrap();
    assert_eq!(table.find_table_row(Case::Insensitive, &[], None, None), Err(LookupError::Rejected));
    assert_eq!(table.find_table_rows(Case::Sensitive, &[eq("field", "x")], None, None), Ok(vec![]));
    assert_eq!(table.find_table_rows(Case::Sensitive, &[eq("other", "x")], None, None), Err(LookupError::Rejected));
    assert_eq!(table.add_index(Case::Sensitive, &["field"]).unwrap().0, 0);
    assert!(table.index_fields().is_empty());
    assert!(!table.needs_reload());
}

#[test]
fn test_lookup() {
    let config = RedisConfig {
        host: "localhost:6379".to_string(),
        password: None,
        db: 9,
        keys: vec!["app_map".to_string()],
        sentinel_master: None,
    };
    let mut redis = Redis::new(config).unwrap();
    assert_eq!(redis.lookup(&"test".to_string()), None);
    let (mut sup, _) = Supervisor::new(redis.config().keys.clone(), redis.config().db);
    redis.step(&mut sup, Event::Connected);
    redis.step(&mut sup, Event::Fetched(Some(vec![("test".to_string(), "value".to_string())])));
    let result = redis.lookup(&"test".to_string());
    assert!(result.is_some());
    let obj_map = result.unwrap();
    assert_eq!(obj_map, row("app_map", "value"));
}
