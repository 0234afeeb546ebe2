//! The enrichment table: its configuration, its cache, the point lookups
//! served from the cache, and the writes of the resync supervisor.

use vstd::prelude::*;
use crate::cache::{CacheRow, CacheStore, RowView};
use crate::connect::{open_connector, topology_accepted, Connector};
use crate::config::{views, ConfigError, RedisConfig, Topology, topology_of};
use crate::lookup::{lookup_outcome, rows_outcome, Case, Condition, IndexHandle, LookupError};
use crate::supervisor::{transition, write_of, written, Action, Event, Supervisor};

verus! {

proof fn lemma_topology_accepted_unique(c: RedisConfig, t1: Topology, t2: Topology)
    requires
        topology_of(c, t1),
        topology_of(c, t2),
    ensures
        topology_accepted(t1) == topology_accepted(t2),
{
    if let Topology::Discovered { sentinels: s1, .. } = t1 {
        if let Topology::Discovered { sentinels: s2, .. } = t2 {
            assert(s1@.len() == views(s1@).len());
            assert(s2@.len() == views(s2@).len());
            assert forall|i: int| 0 <= i < s1@.len() implies s1@[i]@ == s2@[i]@ by {
                assert(views(s1@)[i] == views(s2@)[i]);
            }
        }
    }
}

/// A Redis enrichment table: its configuration, the topology it names, the
/// cache that lookups read, and until the background task takes it, the
/// client through which that task connects. Lookups read the cache only;
/// the supervisor's writes come through [`Redis::step`].
pub struct Redis {
    config: RedisConfig,
    topology: Topology,
    cache: CacheStore,
    connector: Option<Connector>,
}

impl Redis {
    pub closed spec fn wf(&self) -> bool {
        &&& self.cache.wf()
        &&& topology_of(self.config, self.topology)
        &&& topology_accepted(self.topology)
    }

    /// What the cache holds: lookup key to (source key, value).
    pub closed spec fn cache_view(&self) -> Map<Seq<char>, RowView> {
        self.cache@
    }

    /// Whether the client has not been taken yet.
    pub closed spec fn has_connector(&self) -> bool {
        self.connector is Some
    }

    /// The configuration the table was built from.
    pub closed spec fn config_view(&self) -> RedisConfig {
        self.config
    }

    /// A table for `config` with an empty cache and the client for its
    /// topology. An empty host, an empty key list, or an address that the
    /// client refuses is an error.
    pub fn new(config: RedisConfig) -> (r: Result<Redis, ConfigError>)
        ensures
            match r {
                Ok(t) => {
                    &&& t.wf()
                    &&& t.has_connector()
                    &&& t.config_view() == config
                    &&& t.cache_view() == Map::<Seq<char>, RowView>::empty()
                    &&& forall|t2: Topology| topology_of(config, t2) ==> topology_accepted(t2)
                    &&& config.host@.len() > 0
                    &&& config.keys@.len() > 0
                },
                Err(e) => if config.host@.len() == 0 {
                    e == ConfigError::EmptyHost
                } else if config.keys@.len() == 0 {
                    e == ConfigError::EmptyKeys
                } else {
                    &&& e == ConfigError::InvalidAddress
                    &&& forall|t: Topology| topology_of(config, t) ==> !topology_accepted(t)
                },
            },
    {
        match config.topology() {
            Ok(topology) => match open_connector(&topology) {
                Some(c) => {
                    proof {
                        assert forall|t2: Topology| topology_of(config, t2) implies topology_accepted(t2) by {
                            lemma_topology_accepted_unique(config, topology, t2);
                        }
                    }
                    Ok(Redis { config, topology, cache: CacheStore::new(), connector: Some(c) })
                },
                None => {
                    proof {
                        assert forall|t: Topology| topology_of(config, t) implies !topology_accepted(t) by {
                            lemma_topology_accepted_unique(config, topology, t);
                        }
                    }
                    Err(ConfigError::InvalidAddress)
                },
            },
            Err(e) => Err(e),
        }
    }

    /// Hands over the client, once, to the background task.
    pub fn take_connector(&mut self) -> (r: Option<Connector>)
        requires
            old(self).wf(),
        ensures
            final(self).wf(),
            final(self).config_view() == old(self).config_view(),
            final(self).cache_view() == old(self).cache_view(),
            r is Some <==> old(self).has_connector(),
            !final(self).has_connector(),
    {
        self.connector.take()
    }

    /// The configuration the table was built from.
    pub fn config(&self) -> (r: &RedisConfig)
        ensures
            *r == self.config_view(),
    {
        &self.config
    }

    /// How connections are obtained.
    pub fn topology(&self) -> (r: &Topology)
        requires
            self.wf(),
        ensures
            topology_of(self.config_view(), *r),
    {
        &self.topology
    }

    /// Hands `event` to the supervisor: the supervisor's write, if any,
    /// lands in this table's cache, and its next action is returned.
    pub fn step(&mut self, supervisor: &mut Supervisor, event: Event) -> (a: Action)
        requires
            old(self).wf(),
            old(supervisor).wf(),
        ensures
            final(self).wf(),
            final(self).config_view() == old(self).config_view(),
            final(self).has_connector() == old(self).has_connector(),
            final(supervisor).wf(),
            final(supervisor).keys_view() == old(supervisor).keys_view(),
            final(supervisor).db_view() == old(supervisor).db_view(),
            (final(supervisor).stage(), a@) == transition(
                old(supervisor).keys_view(),
                old(supervisor).db_view(),
                old(supervisor).stage(),
                event,
            ),
            final(self).cache_view() == written(
                old(self).cache_view(),
                write_of(old(supervisor).keys_view(), old(supervisor).stage(), event),
            ),
    {
        supervisor.step(&mut self.cache, event)
    }

    /// The number of lookup keys held.
    pub fn len(&self) -> (n: usize)
        requires
            self.wf(),
        ensures
            n == self.cache_view().len(),
    {
        self.cache.len()
    }

    /// The row held for lookup key `field`, read from memory only.
    pub fn lookup(&self, field: &String) -> (r: Option<CacheRow>)
        requires
            self.wf(),
        ensures
            r matches Some(row) ==> self.cache_view().contains_key(field@) && row@
                == self.cache_view()[field@],
            r is None ==> !self.cache_view().contains_key(field@),
    {
        self.cache.get(field)
    }

    /// Looks up the row that `condition` asks for: one equality on `field`.
    /// The case, the selected fields and the index play no part.
    pub fn find_table_row(
        &self,
        case: Case,
        condition: &[Condition],
        select: Option<&[String]>,
        index: Option<IndexHandle>,
    ) -> (r: Result<CacheRow, LookupError>)
        requires
            self.wf(),
        ensures
            lookup_outcome(self.cache_view(), condition@, r),
    {
        self.cache.find_table_row(condition)
    }

    /// Looks up the rows that `condition` asks for: the row of a hit, none on
    /// a miss.
    pub fn find_table_rows(
        &self,
        case: Case,
        condition: &[Condition],
        select: Option<&[String]>,
        index: Option<IndexHandle>,
    ) -> (r: Result<Vec<CacheRow>, LookupError>)
        requires
            self.wf(),
        ensures
            rows_outcome(self.cache_view(), condition@, r),
    {
        self.cache.find_table_rows(condition)
    }

    /// Accepts any index request and returns the one handle: the table keeps
    /// no secondary index.
    pub fn add_index(&mut self, case: Case, fields: &[&str]) -> (r: Result<IndexHandle, String>)
        ensures
            r == Ok::<IndexHandle, String>(IndexHandle(0)),
            *final(self) == *old(self),
    {
        Ok(IndexHandle(0))
    }

    /// The indexes kept: none.
    pub fn index_fields(&self) -> (r: Vec<(Case, Vec<String>)>)
        ensures
            r@.len() == 0,
    {
        Vec::new()
    }

    /// Whether the table needs reloading from outside: never, it keeps
    /// itself in step.
    pub fn needs_reload(&self) -> (r: bool)
        ensures
            !r,
    {
        false
    }
}

} // verus!
