//! Table configuration, its validation, and the connection topology it names.

use vstd::prelude::*;
use crate::naming::{get_redis_url, redis_url};

verus! {

/// Configuration of a Redis enrichment table.
#[derive(Clone, Debug, PartialEq, Eq)]
pub struct RedisConfig {
    /// The server address, or with `sentinel_master` a comma-separated list
    /// of sentinel addresses.
    pub host: String,
    /// The credential, if any.
    pub password: Option<String>,
    /// The database index.
    pub db: u8,
    /// The source keys whose hash records are tracked.
    pub keys: Vec<String>,
    /// The master name to resolve through the sentinels, if any.
    pub sentinel_master: Option<String>,
}

/// Why a configuration cannot build a table.
#[derive(Clone, Copy, Debug, PartialEq, Eq)]
pub enum ConfigError {
    EmptyHost,
    EmptyKeys,
    /// The client refused one of the addresses the configuration names.
    InvalidAddress,
}

impl ConfigError {
    /// The message reported for this error.
    pub fn message(&self) -> (r: String)
        ensures
            *self == ConfigError::EmptyHost ==> r@ == "Redis host cannot be empty"@,
            *self == ConfigError::EmptyKeys ==> r@ == "Redis keys cannot be empty"@,
            *self == ConfigError::InvalidAddress ==> r@ == "Redis URL did not parse"@,
    {
        match self {
            ConfigError::EmptyHost => String::from_str("Redis host cannot be empty"),
            ConfigError::EmptyKeys => String::from_str("Redis keys cannot be empty"),
            ConfigError::InvalidAddress => String::from_str("Redis URL did not parse"),
        }
    }
}

/// How connections to the store are obtained.
#[derive(Clone, Debug, PartialEq, Eq)]
pub enum Topology {
    /// One fixed endpoint.
    Direct { url: String },
    /// The master named `master`, resolved through the sentinels at `sentinels`.
    Discovered { sentinels: Vec<String>, master: String, db: u8, password: Option<String> },
}

/// The pieces of `s` between commas, in order (one piece when `s` holds no comma).
pub open spec fn split_commas(s: Seq<char>) -> Seq<Seq<char>>
    decreases s.len(),
{
    if s.len() == 0 {
        seq![Seq::empty()]
    } else {
        let init = split_commas(s.drop_last());
        if s.last() == ',' {
            init.push(Seq::empty())
        } else {
            init.update(init.len() - 1, init.last().push(s.last()))
        }
    }
}

/// The views of a vector of strings.
pub open spec fn views(v: Seq<String>) -> Seq<Seq<char>> {
    v.map_values(|s: String| s@)
}

/// Splits `s` at every comma.
pub fn split_hosts(s: &str) -> (r: Vec<String>)
    ensures
        views(r@) == split_commas(s@),
{
    let n = s.unicode_len();
    let mut parts: Vec<String> = Vec::new();
    let mut start: usize = 0;
    let mut i: usize = 0;
    assert(s@.take(0) =~= Seq::<char>::empty());
    while i < n
        invariant
            n == s@.len(),
            start <= i <= n,
            views(parts@).push(s@.subrange(start as int, i as int)) == split_commas(s@.take(i as int)),
        decreases n - i,
    {
        let c = s.get_char(i);
        let ghost before = views(parts@);
        let ghost piece = s@.subrange(start as int, i as int);
        proof {
            let t = s@.take(i as int + 1);
            assert(t.drop_last() =~= s@.take(i as int));
            assert(t.last() == c);
        }
        if c == ',' {
            parts.push(String::from_str(s.substring_char(start, i)));
            start = i + 1;
            proof {
                assert(views(parts@) =~= before.push(piece));
                assert(s@.subrange(start as int, i as int + 1) =~= Seq::<char>::empty());
                assert(split_commas(s@.take(i as int + 1)) =~= before.push(piece).push(Seq::empty()));
            }
        } else {
            proof {
                assert(s@.subrange(start as int, i as int + 1) =~= piece.push(c));
                assert(split_commas(s@.take(i as int + 1)) =~= before.push(piece.push(c)));
            }
        }
        i = i + 1;
    }
    let ghost before = views(parts@);
    parts.push(String::from_str(s.substring_char(start, n)));
    proof {
        assert(s@.take(n as int) =~= s@);
        assert(views(parts@) =~= before.push(s@.subrange(start as int, n as int)));
    }
    parts
}

/// The view of an optional string.
pub open spec fn opt_view(o: Option<String>) -> Option<Seq<char>> {
    match o {
        Some(s) => Some(s@),
        None => None,
    }
}

/// The addresses of the sentinels listed in `host`, each with the credential.
pub open spec fn sentinel_urls(host: Seq<char>, password: Option<String>) -> Seq<Seq<char>> {
    split_commas(host).map_values(|h: Seq<char>| redis_url(h, opt_view(password), None))
}

/// Whether `t` is the topology that `c` names.
pub open spec fn topology_of(c: RedisConfig, t: Topology) -> bool {
    match c.sentinel_master {
        Some(m) => match t {
            Topology::Discovered { sentinels, master, db, password } => {
                &&& views(sentinels@) == sentinel_urls(c.host@, c.password)
                &&& master@ == m@
                &&& db == c.db
                &&& opt_view(password) == opt_view(c.password)
            },
            Topology::Direct { .. } => false,
        },
        None => match t {
            Topology::Direct { url } => url@ == redis_url(
                c.host@,
                opt_view(c.password),
                Some(c.db as nat),
            ),
            Topology::Discovered { .. } => false,
        },
    }
}

fn copy_opt(o: &Option<String>) -> (r: Option<String>)
    ensures
        opt_view(r) == opt_view(*o),
{
    match o {
        Some(s) => Some(s.clone()),
        None => None,
    }
}

impl RedisConfig {
    /// The configuration written out as an example: a local server, database
    /// 0, no keys.
    pub fn generate_config() -> (r: RedisConfig)
        ensures
            r.host@ == "localhost:6379"@,
            r.password is None,
            r.db == 0,
            r.keys@.len() == 0,
            r.sentinel_master is None,
    {
        RedisConfig {
            host: String::from_str("localhost:6379"),
            password: None,
            db: 0,
            keys: Vec::new(),
            sentinel_master: None,
        }
    }

    /// Checks the configuration and returns the topology it names: an empty
    /// host or an empty key list is an error.
    pub fn topology(&self) -> (r: Result<Topology, ConfigError>)
        ensures
            match r {
                Ok(t) => self.host@.len() > 0 && self.keys@.len() > 0 && topology_of(*self, t),
                Err(e) => if self.host@.len() == 0 {
                    e == ConfigError::EmptyHost
                } else {
                    self.keys@.len() == 0 && e == ConfigError::EmptyKeys
                },
            },
    {
        if self.host.unicode_len() == 0 {
            return Err(ConfigError::EmptyHost);
        }
        if self.keys.len() == 0 {
            return Err(ConfigError::EmptyKeys);
        }
        match &self.sentinel_master {
            Some(m) => {
                let hosts = split_hosts(self.host.as_str());
                let mut sentinels: Vec<String> = Vec::new();
                let mut i: usize = 0;
                while i < hosts.len()
                    invariant
                        i <= hosts@.len(),
                        views(hosts@) == split_commas(self.host@),
                        sentinels@.len() == i,
                        forall|j: int|
                            0 <= j < i ==> #[trigger] sentinels@[j]@ == redis_url(
                                hosts@[j]@,
                                opt_view(self.password),
                                None,
                            ),
                    decreases hosts@.len() - i,
                {
                    let url = get_redis_url(hosts[i].clone(), copy_opt(&self.password), None);
                    sentinels.push(url);
                    i = i + 1;
                }
                assert(views(sentinels@) =~= sentinel_urls(self.host@, self.password));
                Ok(
                    Topology::Discovered {
                        sentinels,
                        master: m.clone(),
                        db: self.db,
                        password: copy_opt(&self.password),
                    },
                )
            },
            None => Ok(
                Topology::Direct {
                    url: get_redis_url(self.host.clone(), copy_opt(&self.password), Some(self.db)),
                },
            ),
        }
    }
}

} // verus!
