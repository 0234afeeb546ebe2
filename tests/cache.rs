use redis_enrichment::{CacheRow, CacheStore};

fn record(fields: &[(&str, &str)]) -> Option<Vec<(String, String)>> {
    Some(fields.iter().map(|(k, v)| (k.to_string(), v.to_string())).collect())
}

fn row(key: &str, value: &str) -> CacheRow {
    CacheRow { key: key.to_string(), value: value.to_string() }
}

fn snapshot(c: &CacheStore, keys: &[&str]) -> Vec<Option<CacheRow>> {
    keys.iter().map(|k| c.get(&k.to_string())).collect()
}

#[test]
fn materialize_writes_each_field() {
    let mut c = CacheStore::new();
    c.materialize(&"app_map".to_string(), record(&[("svc-1", "prod"), ("svc-2", "staging")]));
    assert_eq!(c.len(), 2);
    assert_eq!(c.get(&"svc-1".to_string()), Some(row("app_map", "prod")));
    assert_eq!(c.get(&"svc-2".to_string()), Some(row("app_map", "staging")));
    assert_eq!(c.get(&"svc-3".to_string()), None);
}

#[test]
fn materialize_twice_is_materialize_once() {
    let rec = record(&[("a", "1"), ("b", "2")]);
    let mut once = CacheStore::new();
    once.materialize(&"k".to_string(), rec.clone());
    let mut twice = CacheStore::new();
    twice.materialize(&"k".to_string(), rec.clone());
    twice.materialize(&"k".to_string(), rec);
    assert_eq!(once.len(), twice.len());
    assert_eq!(snapshot(&once, &["a", "b"]), snapshot(&twice, &["a", "b"]));
}

#[test]
fn last_materialized_source_wins() {
    let mut c = CacheStore::new();
    c.materialize(&"A".to_string(), record(&[("f", "from-a")]));
    c.materialize(&"B".to_string(), record(&[("f", "from-b")]));
    assert_eq!(c.get(&"f".to_string()), Some(row("B", "from-b")));
    c.materialize(&"A".to_string(), record(&[("f", "from-a")]));
    assert_eq!(c.get(&"f".to_string()), Some(row("A", "from-a")));
    assert_eq!(c.len(), 1);
}

#[test]
fn removed_field_stays_cached() {
    let mut c = CacheStore::new();
    c.materialize(&"k".to_string(), record(&[("a", "1"), ("b", "2")]));
    c.materialize(&"k".to_string(), record(&[("a", "3")]));
    assert_eq!(c.get(&"a".to_string()), Some(row("k", "3")));
    assert_eq!(c.get(&"b".to_string()), Some(row("k", "2")));
}

#[test]
fn absent_record_changes_nothing() {
    let mut c = CacheStore::new();
    c.materialize(&"k".to_string(), record(&[("a", "1")]));
    c.materialize(&"k".to_string(), None);
    assert_eq!(c.len(), 1);
    assert_eq!(c.get(&"a".to_string()), Some(row("k", "1")));
}

#[test]
fn repeated_field_keeps_later_value() {
    let mut c = CacheStore::new();
    c.materialize(&"k".to_string(), record(&[("a", "1"), ("a", "2")]));
    assert_eq!(c.len(), 1);
    assert_eq!(c.get(&"a".to_string()), Some(row("k", "2")));
}

#[test]
fn upsert_replaces_row() {
    let mut c = CacheStore::new();
    c.upsert("a".to_string(), row("x", "1"));
    c.upsert("a".to_string(), row("y", "2"));
    assert_eq!(c.len(), 1);
    assert_eq!(c.get(&"a".to_string()), Some(row("y", "2")));
}
