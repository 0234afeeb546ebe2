use redis_enrichment::get_redis_url;
use redis_enrichment::config::split_hosts;
use redis_enrichment::naming::{channel_key, keyspace_channel, keyspace_prefix, push_decimal};

#[test]
fn url_without_password_or_db() {
    assert_eq!(
        get_redis_url("localhost:6379".to_string(), None, None),
        "redis://localhost:6379/?protocol=resp3"
    );
}

#[test]
fn url_with_db() {
    assert_eq!(
        get_redis_url("localhost:6379".to_string(), None, Some(9)),
        "redis://localhost:6379/9/?protocol=resp3"
    );
}

#[test]
fn url_with_password_and_db() {
    assert_eq!(
        get_redis_url("redis.local:6380".to_string(), Some("pw".to_string()), Some(255)),
        "redis://pw@redis.local:6380/255/?protocol=resp3"
    );
}

#[test]
fn decimal_digits() {
    for (n, text) in [(0u8, "0"), (7, "7"), (10, "10"), (99, "99"), (100, "100"), (255, "255")] {
        let mut s = "x".to_string();
        push_decimal(&mut s, n);
        assert_eq!(s, format!("x{}", text));
    }
}

#[test]
fn channel_names() {
    assert_eq!(keyspace_prefix(0), "__keyspace@0__:");
    assert_eq!(keyspace_channel(12, "app_map"), "__keyspace@12__:app_map");
}

#[test]
fn channel_key_strips_prefix() {
    assert_eq!(channel_key(3, "__keyspace@3__:app_map"), Some("app_map".to_string()));
    assert_eq!(channel_key(3, "__keyspace@3__:"), Some(String::new()));
    assert_eq!(channel_key(3, "__keyspace@4__:app_map"), None);
    assert_eq!(channel_key(3, "__keyspace@3_"), None);
    assert_eq!(channel_key(3, "hset"), None);
}

#[test]
fn split_hosts_on_commas() {
    assert_eq!(split_hosts("a:1,b:2,c:3"), vec!["a:1", "b:2", "c:3"]);
    assert_eq!(split_hosts("a:1"), vec!["a:1"]);
    assert_eq!(split_hosts("a,,b,"), vec!["a", "", "b", ""]);
    assert_eq!(split_hosts(""), vec![""]);
}
