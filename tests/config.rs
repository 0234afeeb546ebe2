use redis_enrichment::{ConfigError, Redis, RedisConfig, Topology};

fn config(host: &str, keys: &[&str], master: Option<&str>) -> RedisConfig {
    RedisConfig {
        host: host.to_string(),
        password: Some("pw".to_string()),
        db: 2,
        keys: keys.iter().map(|k| k.to_string()).collect(),
        sentinel_master: master.map(|m| m.to_string()),
    }
}

#[test]
fn empty_host_is_refused() {
    assert_eq!(config("", &["k"], None).topology(), Err(ConfigError::EmptyHost));
    assert_eq!(config("", &[], None).topology(), Err(ConfigError::EmptyHost));
    assert!(matches!(Redis::new(config("", &["k"], None)), Err(ConfigError::EmptyHost)));
    assert_eq!(ConfigError::EmptyHost.message(), "Redis host cannot be empty");
}

#[test]
fn empty_keys_are_refused() {
    assert_eq!(config("h:1", &[], None).topology(), Err(ConfigError::EmptyKeys));
    assert!(matches!(Redis::new(config("h:1", &[], None)), Err(ConfigError::EmptyKeys)));
    assert_eq!(ConfigError::EmptyKeys.message(), "Redis keys cannot be empty");
}

#[test]
fn direct_topology() {
    assert_eq!(
        config("h:1", &["k"], None).topology(),
        Ok(Topology::Direct { url: "redis://pw@h:1/2/?protocol=resp3".to_string() })
    );
}

#[test]
fn discovered_topology() {
    assert_eq!(
        config("s1:26379,s2:26379", &["k"], Some("mymaster")).topology(),
        Ok(Topology::Discovered {
            sentinels: vec![
                "redis://pw@s1:26379/?protocol=resp3".to_string(),
                "redis://pw@s2:26379/?protocol=resp3".to_string(),
            ],
            master: "mymaster".to_string(),
            db: 2,
            password: Some("pw".to_string()),
        })
    );
}

#[test]
fn generated_config() {
    let c = RedisConfig::generate_config();
    assert_eq!(c.host, "localhost:6379");
    assert_eq!(c.password, None);
    assert_eq!(c.db, 0);
    assert!(c.keys.is_empty());
    assert_eq!(c.sentinel_master, None);
}

#[test]
fn refused_address_is_an_error() {
    assert!(matches!(Redis::new(config("bad host:1", &["k"], None)), Err(ConfigError::InvalidAddress)));
    assert!(matches!(Redis::new(config("s1:26379,", &["k"], Some("m"))), Err(ConfigError::InvalidAddress)));
    assert_eq!(ConfigError::InvalidAddress.message(), "Redis URL did not parse");
}

#[test]
fn accepted_addresses_build_a_table() {
    let mut direct = Redis::new(config("h:1", &["k"], None)).unwrap();
    assert!(direct.take_connector().is_some());
    assert!(direct.take_connector().is_none());
    let mut discovered = Redis::new(config("s1:26379,s2:26379", &["k"], Some("m"))).unwrap();
    assert!(discovered.take_connector().is_some());
}
