//! Clients of several applications, kept for reuse.

use std::sync::Arc;

use dashmap::DashMap;
use vstd::prelude::*;
use vstd::string::*;

use crate::client::executor_shuffle_client::ExecutorShuffleClient;
use crate::client::lifecycle::ShuffleModel;
use crate::config;
use crate::config::{CelebornConfig, CelebornConfigBuilder, CompressionCodec};
use crate::error::{CelebornError, Result};
use crate::tables;

verus! {

/// The clients that a map holds for each application.
pub uninterp spec fn clients_of(m: DashMap<String, Arc<ExecutorShuffleClient>>) -> Map<
    Seq<char>,
    Arc<ExecutorShuffleClient>,
>;

/// `DashMap::new`: a map without entries.
#[verifier::external_body]
fn map_new() -> (r: DashMap<String, Arc<ExecutorShuffleClient>>)
    ensures
        clients_of(r).dom() == Set::<Seq<char>>::empty(),
{
    DashMap::new()
}

/// `DashMap::get`: the value of a key, if it has one; here another handle on it.
#[verifier::external_body]
fn map_get(m: &DashMap<String, Arc<ExecutorShuffleClient>>, app_id: &str) -> (r: Option<
    Arc<ExecutorShuffleClient>,
>)
    ensures
        match r {
            Some(c) => clients_of(*m).dom().contains(app_id@) && c == clients_of(*m)[app_id@],
            None => !clients_of(*m).dom().contains(app_id@),
        },
{
    m.get(app_id).map(|c| Arc::clone(c.value()))
}

/// `DashMap::insert`: sets the value of a key, in place of one that it had.
#[verifier::external_body]
fn map_insert(
    m: &mut DashMap<String, Arc<ExecutorShuffleClient>>,
    app_id: String,
    client: Arc<ExecutorShuffleClient>,
)
    ensures
        clients_of(*final(m)) == clients_of(*old(m)).insert(app_id@, client),
{
    m.insert(app_id, client);
}

/// `DashMap::remove`: takes the entry of a key out and gives its value, if there is one.
#[verifier::external_body]
fn map_remove(m: &mut DashMap<String, Arc<ExecutorShuffleClient>>, app_id: &str) -> (r: Option<
    Arc<ExecutorShuffleClient>,
>)
    ensures
        clients_of(*final(m)) == clients_of(*old(m)).remove(app_id@),
        match r {
            Some(c) => clients_of(*old(m)).dom().contains(app_id@) && c == clients_of(
                *old(m),
            )[app_id@],
            None => !clients_of(*old(m)).dom().contains(app_id@),
        },
{
    m.remove(app_id).map(|(_, c)| c)
}

/// `DashMap::clear`: takes all entries out.
#[verifier::external_body]
fn map_clear(m: &mut DashMap<String, Arc<ExecutorShuffleClient>>)
    ensures
        clients_of(*final(m)).dom() == Set::<Seq<char>>::empty(),
{
    m.clear();
}

/// `DashMap::len`: how many entries there are.
#[verifier::external_body]
fn map_len(m: &DashMap<String, Arc<ExecutorShuffleClient>>) -> (r: usize)
    ensures
        r == clients_of(*m).dom().len(),
{
    m.len()
}

/// `DashMap::is_empty`: whether there are no entries.
#[verifier::external_body]
fn map_is_empty(m: &DashMap<String, Arc<ExecutorShuffleClient>>) -> (r: bool)
    ensures
        r == (clients_of(*m).dom() == Set::<Seq<char>>::empty()),
{
    m.is_empty()
}

/// `DashMap::iter`: walks over the entries, each once, in an order that is not described;
/// here their keys.
#[verifier::external_body]
fn map_keys(m: &DashMap<String, Arc<ExecutorShuffleClient>>) -> (r: Vec<String>)
    ensures
        tables::texts(r@).no_duplicates(),
        tables::texts(r@).to_set() == clients_of(*m).dom(),
{
    m.iter().map(|entry| entry.key().clone()).collect()
}

/// Client manager for reusing Celeborn connections.
///
/// This manager maintains a pool of clients, keyed by application ID. This allows multiple
/// shuffle operations within the same application to share connections.
pub struct ClientManager {
    /// Cached clients by app_id
    pub clients: DashMap<String, Arc<ExecutorShuffleClient>>,
}

impl ClientManager {
    /// The clients by application.
    pub open spec fn model(&self) -> Map<Seq<char>, Arc<ExecutorShuffleClient>> {
        clients_of(self.clients)
    }

    /// Create a new client manager.
    pub fn new() -> (r: Self)
        ensures
            r.model() == Map::<Seq<char>, Arc<ExecutorShuffleClient>>::empty(),
    {
        let r: ClientManager = ClientManager { clients: map_new() };
        assert(r.model() =~= Map::<Seq<char>, Arc<ExecutorShuffleClient>>::empty());
        r
    }

    /// Get an existing client by app_id.
    ///
    /// Returns `None` if no client exists for the given app_id.
    pub fn get_client(&self, app_id: &str) -> (r: Option<Arc<ExecutorShuffleClient>>)
        ensures
            match r {
                Some(c) => self.model().dom().contains(app_id@) && c == self.model()[app_id@],
                None => !self.model().dom().contains(app_id@),
            },
    {
        map_get(&self.clients, app_id)
    }

    /// Remove a client from the pool.
    ///
    /// This should be called when an application is done with shuffle operations.
    pub fn remove_client(&mut self, app_id: &str) -> (r: Option<Arc<ExecutorShuffleClient>>)
        ensures
            final(self).model() == old(self).model().remove(app_id@),
            match r {
                Some(c) => old(self).model().dom().contains(app_id@) && c == old(self).model()[app_id@],
                None => !old(self).model().dom().contains(app_id@),
            },
    {
        map_remove(&mut self.clients, app_id)
    }

    /// Clear all cached clients.
    ///
    /// This should be called during shutdown to release all resources.
    pub fn clear(&mut self)
        ensures
            final(self).model() == Map::<Seq<char>, Arc<ExecutorShuffleClient>>::empty(),
    {
        map_clear(&mut self.clients);
        assert(self.model() =~= Map::<Seq<char>, Arc<ExecutorShuffleClient>>::empty());
    }

    /// Get the number of cached clients.
    pub fn len(&self) -> (r: usize)
        ensures
            r == self.model().dom().len(),
    {
        map_len(&self.clients)
    }

    /// Check if the manager has no cached clients.
    pub fn is_empty(&self) -> (r: bool)
        ensures
            r == (self.model().dom() == Set::<Seq<char>>::empty()),
    {
        map_is_empty(&self.clients)
    }

    /// Get all cached app IDs, in some order.
    pub fn app_ids(&self) -> (r: Vec<String>)
        ensures
            tables::texts(r@).no_duplicates(),
            tables::texts(r@).to_set() == self.model().dom(),
    {
        map_keys(&self.clients)
    }
}

impl Default for ClientManager {
    fn default() -> (r: Self)
        ensures
            r.model() == Map::<Seq<char>, Arc<ExecutorShuffleClient>>::empty(),
    {
        ClientManager::new()
    }
}

/// Whether a builder has these settings and no others.
pub open spec fn sets_only(
    b: CelebornConfigBuilder,
    app_id: Seq<char>,
    master_endpoints: Vec<String>,
    compression_codec: Option<CompressionCodec>,
) -> bool {
    &&& b.app_id matches Some(id) && id@ == app_id
    &&& b.master_endpoints == master_endpoints
    &&& b.compression_codec == compression_codec
    &&& b.push_replicate_enabled is None
    &&& b.push_timeout is None
    &&& b.fetch_timeout is None
    &&& b.rpc_timeout is None
    &&& b.max_retries is None
    &&& b.retry_wait is None
    &&& b.partition_split_threshold is None
    &&& b.partition_split_mode is None
    &&& b.push_buffer_size is None
    &&& b.max_in_flight_requests is None
    &&& b.fetch_max_reqs_in_flight is None
    &&& b.max_fetch_retries is None
    &&& b.connection_pool_size is None
    &&& b.heartbeat_interval is None
    &&& b.user_identifier is None
    &&& b.available_storage_types is None
}

/// Whether `r` is the configuration of a client with these settings.
pub open spec fn client_configured(
    r: Result<CelebornConfig>,
    app_id: Seq<char>,
    master_endpoints: Vec<String>,
    compression_codec: Option<CompressionCodec>,
) -> bool {
    exists|b: CelebornConfigBuilder| #[trigger]
        sets_only(b, app_id, master_endpoints, compression_codec) && b.built(
            r,
            config::build_codecs(),
        )
}

/// The configuration of a client. Without a codec the default one is used.
pub fn client_config(
    app_id: &str,
    master_endpoints: Vec<String>,
    compression_codec: Option<CompressionCodec>,
) -> (r: Result<CelebornConfig>)
    ensures
        client_configured(r, app_id@, master_endpoints, compression_codec),
{
    let b: CelebornConfigBuilder = CelebornConfig::builder().app_id(app_id).master_endpoints(
        master_endpoints,
    );
    let b: CelebornConfigBuilder = match compression_codec {
        Some(codec) => b.compression_codec(codec),
        None => b,
    };
    assert(sets_only(b, app_id@, master_endpoints, compression_codec));
    b.build()
}

/// Whether a client was found or made.
pub open spec fn obtained(
    r: Result<Arc<ExecutorShuffleClient>>,
    before: Map<Seq<char>, Arc<ExecutorShuffleClient>>,
    after: Map<Seq<char>, Arc<ExecutorShuffleClient>>,
    app_id: Seq<char>,
    master_endpoints: Vec<String>,
    host: Seq<char>,
    port: i32,
    compression_codec: Option<CompressionCodec>,
) -> bool {
    if before.dom().contains(app_id) {
        &&& r matches Ok(c)
        &&& c == before[app_id]
        &&& after == before
    } else {
        match r {
            Ok(c) => {
                &&& client_configured(
                    Ok(c.config),
                    app_id,
                    master_endpoints,
                    compression_codec,
                )
                &&& c.app_unique_id@ == app_id
                &&& c.has_no_state()
                &&& c.initialized
                &&& c.refers_to(host, port)
                &&& after == before.insert(app_id, c)
            },
            Err(e) => client_configured(Err(e), app_id, master_endpoints, compression_codec) && after
                == before,
        }
    }
}

/// An application has one client: once one was found or made, the same one is found again,
/// whatever it is asked for with, and nothing more is made.
pub proof fn law_one_client_per_application(
    first: Arc<ExecutorShuffleClient>,
    again: Result<Arc<ExecutorShuffleClient>>,
    before: Map<Seq<char>, Arc<ExecutorShuffleClient>>,
    between: Map<Seq<char>, Arc<ExecutorShuffleClient>>,
    after: Map<Seq<char>, Arc<ExecutorShuffleClient>>,
    app_id: Seq<char>,
    endpoints: (Vec<String>, Vec<String>),
    hosts: (Seq<char>, Seq<char>),
    ports: (i32, i32),
    codecs: (Option<CompressionCodec>, Option<CompressionCodec>),
)
    requires
        obtained(Ok(first), before, between, app_id, endpoints.0, hosts.0, ports.0, codecs.0),
        obtained(again, between, after, app_id, endpoints.1, hosts.1, ports.1, codecs.1),
    ensures
        again == Ok::<Arc<ExecutorShuffleClient>, CelebornError>(first),
        after == between,
{
}

impl ClientManager {
    /// Get or create a client for the given configuration.
    ///
    /// If a client for the given `app_id` already exists, it is returned.
    /// Otherwise, a new client is created, connected to the LifecycleManager,
    /// and cached for future use.
    pub fn get_or_create_client(
        &mut self,
        app_id: &str,
        master_endpoints: Vec<String>,
        lifecycle_manager_host: &str,
        lifecycle_manager_port: i32,
    ) -> (r: Result<Arc<ExecutorShuffleClient>>)
        ensures
            obtained(
                r,
                old(self).model(),
                final(self).model(),
                app_id@,
                master_endpoints,
                lifecycle_manager_host@,
                lifecycle_manager_port,
                None,
            ),
    {
        self.obtain(
            app_id,
            master_endpoints,
            lifecycle_manager_host,
            lifecycle_manager_port,
            None,
        )
    }

    /// Get or create a client with custom compression settings.
    ///
    /// Similar to `get_or_create_client`, but allows specifying compression codec.
    pub fn get_or_create_client_with_compression(
        &mut self,
        app_id: &str,
        master_endpoints: Vec<String>,
        lifecycle_manager_host: &str,
        lifecycle_manager_port: i32,
        compression_codec: CompressionCodec,
    ) -> (r: Result<Arc<ExecutorShuffleClient>>)
        ensures
            obtained(
                r,
                old(self).model(),
                final(self).model(),
                app_id@,
                master_endpoints,
                lifecycle_manager_host@,
                lifecycle_manager_port,
                Some(compression_codec),
            ),
    {
        self.obtain(
            app_id,
            master_endpoints,
            lifecycle_manager_host,
            lifecycle_manager_port,
            Some(compression_codec),
        )
    }

    fn obtain(
        &mut self,
        app_id: &str,
        master_endpoints: Vec<String>,
        host: &str,
        port: i32,
        compression_codec: Option<CompressionCodec>,
    ) -> (r: Result<Arc<ExecutorShuffleClient>>)
        ensures
            obtained(
                r,
                old(self).model(),
                final(self).model(),
                app_id@,
                master_endpoints,
                host@,
                port,
                compression_codec,
            ),
    {
        match self.get_client(app_id) {
            Some(client) => {
                return Ok(client);
            },
            None => {},
        }
        let config: CelebornConfig = match client_config(app_id, master_endpoints, compression_codec) {
            Ok(c) => c,
            Err(e) => {
                return Err(e);
            },
        };
        let mut client: ExecutorShuffleClient = ExecutorShuffleClient::new(config);
        client.setup_lifecycle_manager_ref(host, port);
        assert(client.model() =~= Map::<i32, ShuffleModel>::empty());
        let client: Arc<ExecutorShuffleClient> = Arc::new(client);
        map_insert(&mut self.clients, app_id.to_owned(), Arc::clone(&client));
        Ok(client)
    }
}

} // verus!
