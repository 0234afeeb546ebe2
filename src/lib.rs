//! A live-synchronized enrichment cache over a Redis-style key-value store.
//!
//! The library holds the verified logic: connection addresses and channel
//! names, the lookup table and how records are materialized into it, the
//! point-lookup facade, and the resync state machine that drives
//! connect, bootstrap and subscribe with retries.

pub mod naming;
pub mod cache;
pub mod lookup;
pub mod config;
pub mod supervisor;
pub mod connect;
pub mod table;
pub mod sink;

pub use cache::{CacheRow, CacheStore};
pub use config::{ConfigError, RedisConfig, Topology};
pub use lookup::{Case, Condition, IndexHandle, LookupError};
pub use naming::get_redis_url;
pub use sink::{MongoDbResponse, MongoDbRetryLogic, MongoDbSinkError};
pub use supervisor::{Action, Event, Notice, Phase, PushKind, PushMessage, Supervisor};
pub use table::Redis;
