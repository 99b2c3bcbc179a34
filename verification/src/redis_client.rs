//! Access to redis: which client, and what a connection may be used for.

use crate::text;
use crate::text::{i64_in, signed_decimal};
use vstd::prelude::*;

verus! {

/// A client of one redis node.
#[verifier::external_type_specification]
#[verifier::external_body]
pub struct ExClient(redis::Client);

/// A client of a redis cluster.
#[verifier::external_type_specification]
#[verifier::external_body]
pub struct ExClusterClient(redis::cluster::ClusterClient);

/// An error of redis.
#[verifier::external_type_specification]
#[verifier::external_body]
pub struct ExRedisError(redis::RedisError);

/// A connection to a redis node.
#[verifier::external_type_specification]
#[verifier::external_body]
pub struct ExMultiplexedConnection(redis::aio::MultiplexedConnection);

/// A connection to a redis cluster.
#[verifier::external_type_specification]
#[verifier::external_body]
#[verifier::reject_recursive_types(C)]
pub struct ExClusterConnection<C>(redis::cluster_async::ClusterConnection<C>);

/// The client of the node that a URL names.
pub uninterp spec fn client_of(url: Seq<char>) -> Option<redis::Client>;

/// `redis::Client::open`: a client of the node that a URL names; it connects to
/// nothing yet. Which URLs name one is named, not spelled out.
#[verifier::external_body]
pub(crate) fn open_client(url: &str) -> (r: Result<redis::Client, redis::RedisError>)
    ensures
        match r {
            Ok(client) => client_of(url@) == Some(client),
            Err(_) => client_of(url@) is None,
        },
{
    redis::Client::open(url)
}

/// The client of the cluster that a URL names.
pub uninterp spec fn cluster_client_of(url: Seq<char>) -> Option<redis::cluster::ClusterClient>;

/// `redis::cluster::ClusterClientBuilder::build`, on a single node: a client of the
/// cluster that a URL names; it connects to nothing yet. Which URLs name one is named,
/// not spelled out.
#[verifier::external_body]
fn open_cluster_client(url: &str) -> (r: Result<redis::cluster::ClusterClient, redis::RedisError>)
    ensures
        match r {
            Ok(client) => cluster_client_of(url@) == Some(client),
            Err(_) => cluster_client_of(url@) is None,
        },
{
    redis::cluster::ClusterClient::builder(vec![url.to_string()]).build()
}

/// A connection, to one node or to a cluster.
pub enum RedisAsyncConnection {
    Cluster(redis::cluster_async::ClusterConnection),
    Single(redis::aio::MultiplexedConnection),
}

/// A connection, and what it may be used for.
pub enum RedisOperations {
    Read(RedisAsyncConnection),
    ReadWrite(RedisAsyncConnection),
}

impl RedisOperations {
    /// The connection.
    pub open spec fn connection(self) -> RedisAsyncConnection {
        match self {
            RedisOperations::Read(c) => c,
            RedisOperations::ReadWrite(c) => c,
        }
    }

    /// The connection, if it may be written to.
    pub fn get_readwrite_conn(&mut self) -> (r: Option<&mut RedisAsyncConnection>)
        ensures
            r is Some <==> *old(self) is ReadWrite,
            match r {
                Some(c) => *c == old(self).connection() && *final(self)
                    == RedisOperations::ReadWrite(*final(c)),
                None => *final(self) == *old(self),
            },
    {
        match self {
            RedisOperations::Read(_) => None,
            RedisOperations::ReadWrite(c) => Some(c),
        }
    }

    /// The connection.
    pub fn get_conn(&mut self) -> (r: &mut RedisAsyncConnection)
        ensures
            *r == old(self).connection(),
            *final(self) == (match *old(self) {
                RedisOperations::Read(_) => RedisOperations::Read(*final(r)),
                RedisOperations::ReadWrite(_) => RedisOperations::ReadWrite(*final(r)),
            }),
    {
        match self {
            RedisOperations::Read(c) => c,
            RedisOperations::ReadWrite(c) => c,
        }
    }

    /// Whether nothing but the progress may be written.
    pub fn is_readonly(&self) -> (r: bool)
        ensures
            r == (*self is Read),
    {
        match self {
            RedisOperations::Read(_) => true,
            RedisOperations::ReadWrite(_) => false,
        }
    }
}

/// The client of a node or of a cluster.
pub enum ClientKind {
    Cluster(redis::cluster::ClusterClient),
    Single(redis::Client),
}

/// A client, and how its connections are made.
pub struct RedisClient {
    client: ClientKind,
    timeout_ms: u64,
    readonly: bool,
}

impl RedisClient {
    /// The client.
    pub closed spec fn kind(self) -> ClientKind {
        self.client
    }

    /// How long a connection waits. Zero stands for ever.
    pub closed spec fn waits_ms(self) -> u64 {
        self.timeout_ms
    }

    /// Whether its connections may only be read.
    pub closed spec fn reads_only(self) -> bool {
        self.readonly
    }

    /// The client.
    pub fn get_client(&self) -> (r: &ClientKind)
        ensures
            *r == self.kind(),
    {
        &self.client
    }

    /// How long a connection waits, if it does not wait for ever.
    pub fn connection_timeout_ms(&self) -> (r: Option<u64>)
        ensures
            r == (if self.waits_ms() > 0 {
                Some(self.waits_ms())
            } else {
                None
            }),
    {
        if self.timeout_ms > 0 {
            Some(self.timeout_ms)
        } else {
            None
        }
    }

    /// What a connection of this client may be used for.
    pub fn operations(&self, connection: RedisAsyncConnection) -> (r: RedisOperations)
        ensures
            r.connection() == connection,
            r is Read <==> self.reads_only(),
    {
        to_ops(connection, self.readonly)
    }

    /// Whether its connections may only be read.
    pub fn is_readonly(&self) -> (r: bool)
        ensures
            r == self.reads_only(),
    {
        self.readonly
    }
}

/// What a connection may be used for.
fn to_ops(connection: RedisAsyncConnection, readonly: bool) -> (r: RedisOperations)
    ensures
        r == (if readonly {
            RedisOperations::Read(connection)
        } else {
            RedisOperations::ReadWrite(connection)
        }),
{
    if readonly {
        RedisOperations::Read(connection)
    } else {
        RedisOperations::ReadWrite(connection)
    }
}

/// A client of the node or the cluster that a URL names.
pub fn build_redis_client(
    redis_url: &str,
    enable_cluster: bool,
    timeout_ms: u64,
    readonly: bool,
) -> (r: Result<RedisClient, redis::RedisError>)
    ensures
        r is Ok <==> if enable_cluster {
            cluster_client_of(redis_url@) is Some
        } else {
            client_of(redis_url@) is Some
        },
        r matches Ok(client) ==> client.waits_ms() == timeout_ms && client.reads_only() == readonly
            && client.kind() == (if enable_cluster {
            ClientKind::Cluster(cluster_client_of(redis_url@)->0)
        } else {
            ClientKind::Single(client_of(redis_url@)->0)
        }),
{
    let client = if enable_cluster {
        match open_cluster_client(redis_url) {
            Ok(client) => ClientKind::Cluster(client),
            Err(e) => return Err(e),
        }
    } else {
        match open_client(redis_url) {
            Ok(client) => ClientKind::Single(client),
            Err(e) => return Err(e),
        }
    };
    Ok(RedisClient { client, timeout_ms, readonly })
}

/// The progress that a stored text denotes. One that cannot be read is none.
pub fn read_watermark(stored: &Option<String>) -> (r: Option<i64>)
    ensures
        match stored {
            Some(s) => match i64_in(s@) {
                Some(n) => r matches Some(v) && v == n,
                None => r is None,
            },
            None => r is None,
        },
{
    match stored {
        Some(s) => match text::parse_i64(s.as_str()) {
            Ok(n) => Some(n),
            Err(_) => None,
        },
        None => None,
    }
}

/// The text under which a progress is stored.
pub fn write_watermark(progress: i64) -> (r: String)
    ensures
        r@ == signed_decimal(progress as int),
{
    text::signed_decimal_of(progress)
}

/// A progress that was stored is read back.
pub proof fn law_watermark_is_read_back(progress: i64)
    ensures
        i64_in(signed_decimal(progress as int)) == Some(progress as int),
{
    text::law_written_integers_are_read_back(progress as int);
}

} // verus!
