//! The clients through which connections are obtained: one server, or a
//! master resolved through sentinels. Building a client only checks the
//! addresses; connecting happens later, in the background task.

use vstd::prelude::*;
use crate::config::Topology;

verus! {

#[verifier::external_type_specification]
#[verifier::external_body]
pub struct ExClient(redis::Client);

#[verifier::external_type_specification]
#[verifier::external_body]
pub struct ExSentinelClient(redis::sentinel::SentinelClient);

#[verifier::external_type_specification]
#[verifier::external_body]
pub struct ExRedisError(redis::RedisError);

/// Whether redis accepts `url` as a connection address: the result of
/// `IntoConnectionInfo::into_connection_info` on a string being `Ok`.
pub uninterp spec fn accepts_url(url: Seq<char>) -> bool;

/// Relies on `redis::Client::open`: it parses the address with
/// `into_connection_info` and fails exactly when that fails.
#[verifier::external_body]
fn open_client(url: &String) -> (r: Result<redis::Client, redis::RedisError>)
    ensures
        r is Ok <==> accepts_url(url@),
{
    redis::Client::open(url.as_str())
}

/// Relies on `redis::sentinel::SentinelClient::build`: it fails exactly when
/// the sentinel list is empty or one of its addresses fails
/// `into_connection_info`. The master's connection carries the database
/// index and the credential, over plain TCP.
#[verifier::external_body]
fn build_sentinel_client(
    sentinels: &Vec<String>,
    master: &String,
    db: u8,
    password: &Option<String>,
) -> (r: Result<redis::sentinel::SentinelClient, redis::RedisError>)
    ensures
        r is Ok <==> (sentinels@.len() > 0 && forall|i: int|
            0 <= i < sentinels@.len() ==> accepts_url(#[trigger] sentinels@[i]@)),
{
    redis::sentinel::SentinelClient::build(
        sentinels.clone(),
        master.clone(),
        Some(redis::sentinel::SentinelNodeConnectionInfo {
            tls_mode: None,
            redis_connection_info: Some(redis::RedisConnectionInfo {
                db: db as i64,
                password: password.clone(),
                ..Default::default()
            }),
        }),
        redis::sentinel::SentinelServerType::Master,
    )
}

/// A client for the topology in use.
pub enum Connector {
    Direct(redis::Client),
    Discovered(redis::sentinel::SentinelClient),
}

/// Whether redis accepts every address that `t` names.
pub open spec fn topology_accepted(t: Topology) -> bool {
    match t {
        Topology::Direct { url } => accepts_url(url@),
        Topology::Discovered { sentinels, .. } => sentinels@.len() > 0 && forall|i: int|
            0 <= i < sentinels@.len() ==> accepts_url(#[trigger] sentinels@[i]@),
    }
}

/// Builds the client for `topology`; `None` when redis refuses one of its
/// addresses.
pub fn open_connector(topology: &Topology) -> (r: Option<Connector>)
    ensures
        r is Some <==> topology_accepted(*topology),
        r matches Some(c) ==> (c is Direct <==> topology is Direct),
{
    match topology {
        Topology::Direct { url } => match open_client(url) {
            Ok(client) => Some(Connector::Direct(client)),
            Err(_) => None,
        },
        Topology::Discovered { sentinels, master, db, password } => match build_sentinel_client(
            sentinels,
            master,
            *db,
            password,
        ) {
            Ok(client) => Some(Connector::Discovered(client)),
            Err(_) => None,
        },
    }
}

} // verus!
