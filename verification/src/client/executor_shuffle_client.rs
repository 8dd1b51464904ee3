//! Executor-side ShuffleClient for Driver-Executor separation.
//!
//! The client runs in the executor and knows its shuffles, their partition locations and
//! the answers of the driver's LifecycleManager. The exchanges are left to the caller.

use std::collections::HashMap;

use bytes::Bytes;
use dashmap::DashMap;
use roaring::RoaringBitmap;
use vstd::prelude::*;
use vstd::string::*;

use crate::buffers;
use crate::client::compression;
use crate::client::input_stream;
use crate::client::input_stream::{
    CelebornInputStream, CelebornInputStreamConfig, ExcludedWorkers, PushFailedBatch,
};
use crate::client::lifecycle;
use crate::client::lifecycle::ShuffleModel;
use crate::client::lifecycle_client;
use crate::client::lifecycle_client::{
    MapperEndResponse, NettyLifecycleManagerClient, ReducerFileGroupResponse,
    RegisterShuffleResponse, RevivePartitionInfo, ReviveResponse,
};
use crate::client::locations;
use crate::client::locations::LocationTable;
use crate::client::push;
use crate::client::push::PushCall;
use crate::client::stream_read::CelebornInputStreamBuilder;
use crate::config::CelebornConfig;
use crate::error;
use crate::error::{CelebornError, Result, StatusCode};
use crate::network::codec::{Frame, FrameModel};
use crate::network::connection::{ConnectionPool, PoolEntry};
use crate::protocol;
use crate::protocol::transport::{
    PbGetShuffleId, PbMapperEnd, PbReportShuffleFetchFailure, PbRevive,
};
use crate::protocol::{LocationModel, PartitionLocation};
use crate::tables::BatchCounters;
use crate::text;

verus! {

broadcast use vstd::std_specs::hash::group_hash_axioms;

/// Shuffle state for tracking registration and partition locations.
pub struct ShuffleState {
    /// Number of mappers
    pub num_mappers: i32,
    /// Number of partitions
    pub num_partitions: i32,
    /// Partition locations (partition_id -> locations)
    pub partition_locations: LocationTable,
    /// Whether the shuffle is registered
    pub registered: bool,
    /// Batch ID counters per partition
    pub batch_id_counters: BatchCounters,
}

impl ShuffleState {
    /// What the state says.
    pub open spec fn model(&self) -> ShuffleModel {
        ShuffleModel {
            num_mappers: self.num_mappers,
            num_partitions: self.num_partitions,
            locations: locations::table(self.partition_locations@),
            registered: self.registered,
            committed: Set::<Seq<char>>::empty(),
            counters: self.batch_id_counters@,
        }
    }

    /// The state of a shuffle before its registration.
    pub fn new(num_mappers: i32, num_partitions: i32) -> (r: Self)
        ensures
            r.model() == lifecycle::fresh_shuffle(num_mappers, num_partitions),
    {
        let r: ShuffleState = ShuffleState {
            num_mappers,
            num_partitions,
            partition_locations: LocationTable::new(),
            registered: false,
            batch_id_counters: BatchCounters::new(),
        };
        assert(r.model() =~= lifecycle::fresh_shuffle(num_mappers, num_partitions));
        r
    }
}

/// The shuffles that a map holds by their ids.
pub uninterp spec fn shuffles_of(m: DashMap<i32, ShuffleState>) -> Map<i32, ShuffleState>;

/// `DashMap::new`: a map without entries.
#[verifier::external_body]
fn shuffles_new() -> (r: DashMap<i32, ShuffleState>)
    ensures
        shuffles_of(r).dom() == Set::<i32>::empty(),
{
    DashMap::new()
}

/// `DashMap::contains_key`: whether a key has a value.
#[verifier::external_body]
fn shuffles_contain(m: &DashMap<i32, ShuffleState>, id: i32) -> (r: bool)
    ensures
        r == shuffles_of(*m).dom().contains(id),
{
    m.contains_key(&id)
}

/// `DashMap::get`: the value of a key, if it has one; here what is read from it.
#[verifier::external_body]
fn shuffles_get<R, F: FnOnce(&ShuffleState) -> R>(
    m: &DashMap<i32, ShuffleState>,
    id: i32,
    read: F,
) -> (r: Option<R>)
    requires
        shuffles_of(*m).dom().contains(id) ==> read.requires((&shuffles_of(*m)[id],)),
    ensures
        match r {
            Some(v) => shuffles_of(*m).dom().contains(id) && read.ensures((&shuffles_of(*m)[id],), v),
            None => !shuffles_of(*m).dom().contains(id),
        },
{
    m.get(&id).map(|entry| read(entry.value()))
}

/// `DashMap::insert`: sets the value of a key, in place of one that it had.
#[verifier::external_body]
fn shuffles_insert(m: &mut DashMap<i32, ShuffleState>, id: i32, value: ShuffleState)
    ensures
        shuffles_of(*final(m)) == shuffles_of(*old(m)).insert(id, value),
{
    m.insert(id, value);
}

/// `DashMap::remove`: takes the entry of a key out and gives its value, if there is one.
#[verifier::external_body]
fn shuffles_remove(m: &mut DashMap<i32, ShuffleState>, id: i32) -> (r: Option<ShuffleState>)
    ensures
        shuffles_of(*final(m)) == shuffles_of(*old(m)).remove(id),
        match r {
            Some(v) => shuffles_of(*old(m)).dom().contains(id) && v == shuffles_of(*old(m))[id],
            None => !shuffles_of(*old(m)).dom().contains(id),
        },
{
    m.remove(&id).map(|(_, value)| value)
}

/// `DashMap::clear`: takes all entries out.
#[verifier::external_body]
fn shuffles_clear(m: &mut DashMap<i32, ShuffleState>)
    ensures
        shuffles_of(*final(m)).dom() == Set::<i32>::empty(),
{
    m.clear();
}

/// The shuffles that a client knows.
pub struct ShuffleTable {
    pub map: DashMap<i32, ShuffleState>,
}

impl View for ShuffleTable {
    type V = Map<i32, ShuffleState>;

    open spec fn view(&self) -> Map<i32, ShuffleState> {
        shuffles_of(self.map)
    }
}

impl ShuffleTable {
    /// An empty table.
    pub fn new() -> (r: Self)
        ensures
            r@ == Map::<i32, ShuffleState>::empty(),
    {
        let r: ShuffleTable = ShuffleTable { map: shuffles_new() };
        assert(r@ =~= Map::<i32, ShuffleState>::empty());
        r
    }

    /// Whether there is an entry for a shuffle.
    pub fn contains_key(&self, id: i32) -> (r: bool)
        ensures
            r == self@.dom().contains(id),
    {
        shuffles_contain(&self.map, id)
    }

    /// What is read from the entry of a shuffle, if there is one.
    pub fn read<R, F: FnOnce(&ShuffleState) -> R>(&self, id: i32, read: F) -> (r: Option<R>)
        requires
            self@.dom().contains(id) ==> read.requires((&self@[id],)),
        ensures
            match r {
                Some(v) => self@.dom().contains(id) && read.ensures((&self@[id],), v),
                None => !self@.dom().contains(id),
            },
    {
        shuffles_get(&self.map, id, read)
    }

    /// Sets the entry of a shuffle.
    pub fn insert(&mut self, id: i32, value: ShuffleState)
        ensures
            final(self)@ == old(self)@.insert(id, value),
    {
        shuffles_insert(&mut self.map, id, value)
    }

    /// Takes the entry of a shuffle out.
    pub fn remove(&mut self, id: i32) -> (r: Option<ShuffleState>)
        ensures
            final(self)@ == old(self)@.remove(id),
            match r {
                Some(v) => old(self)@.dom().contains(id) && v == old(self)@[id],
                None => !old(self)@.dom().contains(id),
            },
    {
        shuffles_remove(&mut self.map, id)
    }

    /// Takes all entries out.
    pub fn clear(&mut self)
        ensures
            final(self)@ == Map::<i32, ShuffleState>::empty(),
    {
        shuffles_clear(&mut self.map);
        assert(self@ =~= Map::<i32, ShuffleState>::empty());
    }
}

/// The file groups that a map holds for each shuffle.
pub uninterp spec fn groups_of(m: DashMap<i32, ReducerFileGroupResponse>) -> Map<i32, ReducerFileGroupResponse>;

/// `DashMap::new`: a map without entries.
#[verifier::external_body]
fn groups_new() -> (r: DashMap<i32, ReducerFileGroupResponse>)
    ensures
        groups_of(r).dom() == Set::<i32>::empty(),
{
    DashMap::new()
}

/// `DashMap::contains_key`: whether a key has a value.
#[verifier::external_body]
fn groups_contain(m: &DashMap<i32, ReducerFileGroupResponse>, id: i32) -> (r: bool)
    ensures
        r == groups_of(*m).dom().contains(id),
{
    m.contains_key(&id)
}

/// `DashMap::get`: the value of a key, if it has one; here what is read from it.
#[verifier::external_body]
fn groups_get<R, F: FnOnce(&ReducerFileGroupResponse) -> R>(
    m: &DashMap<i32, ReducerFileGroupResponse>,
    id: i32,
    read: F,
) -> (r: Option<R>)
    requires
        groups_of(*m).dom().contains(id) ==> read.requires((&groups_of(*m)[id],)),
    ensures
        match r {
            Some(v) => groups_of(*m).dom().contains(id) && read.ensures((&groups_of(*m)[id],), v),
            None => !groups_of(*m).dom().contains(id),
        },
{
    m.get(&id).map(|entry| read(entry.value()))
}

/// `DashMap::insert`: sets the value of a key, in place of one that it had.
#[verifier::external_body]
fn groups_insert(m: &mut DashMap<i32, ReducerFileGroupResponse>, id: i32, value: ReducerFileGroupResponse)
    ensures
        groups_of(*final(m)) == groups_of(*old(m)).insert(id, value),
{
    m.insert(id, value);
}

/// `DashMap::remove`: takes the entry of a key out and gives its value, if there is one.
#[verifier::external_body]
fn groups_remove(m: &mut DashMap<i32, ReducerFileGroupResponse>, id: i32) -> (r: Option<ReducerFileGroupResponse>)
    ensures
        groups_of(*final(m)) == groups_of(*old(m)).remove(id),
        match r {
            Some(v) => groups_of(*old(m)).dom().contains(id) && v == groups_of(*old(m))[id],
            None => !groups_of(*old(m)).dom().contains(id),
        },
{
    m.remove(&id).map(|(_, value)| value)
}

/// `DashMap::clear`: takes all entries out.
#[verifier::external_body]
fn groups_clear(m: &mut DashMap<i32, ReducerFileGroupResponse>)
    ensures
        groups_of(*final(m)).dom() == Set::<i32>::empty(),
{
    m.clear();
}

/// The file groups of shuffles.
pub struct FileGroupTable {
    pub map: DashMap<i32, ReducerFileGroupResponse>,
}

impl View for FileGroupTable {
    type V = Map<i32, ReducerFileGroupResponse>;

    open spec fn view(&self) -> Map<i32, ReducerFileGroupResponse> {
        groups_of(self.map)
    }
}

impl FileGroupTable {
    /// An empty table.
    pub fn new() -> (r: Self)
        ensures
            r@ == Map::<i32, ReducerFileGroupResponse>::empty(),
    {
        let r: FileGroupTable = FileGroupTable { map: groups_new() };
        assert(r@ =~= Map::<i32, ReducerFileGroupResponse>::empty());
        r
    }

    /// Whether there is an entry for a shuffle.
    pub fn contains_key(&self, id: i32) -> (r: bool)
        ensures
            r == self@.dom().contains(id),
    {
        groups_contain(&self.map, id)
    }

    /// What is read from the entry of a shuffle, if there is one.
    pub fn read<R, F: FnOnce(&ReducerFileGroupResponse) -> R>(&self, id: i32, read: F) -> (r: Option<R>)
        requires
            self@.dom().contains(id) ==> read.requires((&self@[id],)),
        ensures
            match r {
                Some(v) => self@.dom().contains(id) && read.ensures((&self@[id],), v),
                None => !self@.dom().contains(id),
            },
    {
        groups_get(&self.map, id, read)
    }

    /// Sets the entry of a shuffle.
    pub fn insert(&mut self, id: i32, value: ReducerFileGroupResponse)
        ensures
            final(self)@ == old(self)@.insert(id, value),
    {
        groups_insert(&mut self.map, id, value)
    }

    /// Takes the entry of a shuffle out.
    pub fn remove(&mut self, id: i32) -> (r: Option<ReducerFileGroupResponse>)
        ensures
            final(self)@ == old(self)@.remove(id),
            match r {
                Some(v) => old(self)@.dom().contains(id) && v == old(self)@[id],
                None => !old(self)@.dom().contains(id),
            },
    {
        groups_remove(&mut self.map, id)
    }

    /// Takes all entries out.
    pub fn clear(&mut self)
        ensures
            final(self)@ == Map::<i32, ReducerFileGroupResponse>::empty(),
    {
        groups_clear(&mut self.map);
        assert(self@ =~= Map::<i32, ReducerFileGroupResponse>::empty());
    }
}

/// The status in the answer to a push: the first byte of the body, else the byte behind the
/// request id and the body size of the message; success where there is neither.
pub open spec fn push_status(f: FrameModel) -> StatusCode {
    if f.body.len() > 0 {
        error::status_of(f.body[0] as i32)
    } else if f.message.len() > 12 {
        error::status_of(f.message[12] as i32)
    } else {
        StatusCode::Success
    }
}

/// Whether the status says that nothing needs to be pushed again.
pub open spec fn push_accepted(s: StatusCode) -> bool {
    s is Success || s is SoftSplit || s is MapEnded || s is PushDataSuccessPrimaryCongested
        || s is PushDataSuccessReplicaCongested
}

/// Whether `r` is the outcome of a push with a status.
pub open spec fn push_ends(r: Result<()>, status: StatusCode, unique_id: Seq<char>) -> bool {
    if push_accepted(status) {
        r == Ok::<(), CelebornError>(())
    } else {
        &&& r matches Err(CelebornError::ServerError { status: s, message })
        &&& s == status
        &&& message@ == if status is HardSplit {
            "HARD_SPLIT for partition "@ + unique_id + ", need to revive and retry"@
        } else {
            "PushData failed with status "@ + error::status_name(status) + " for partition "@
                + unique_id
        }
    }
}

/// Whether a registration may be used with this status.
pub open spec fn registration_accepted(s: StatusCode) -> bool {
    error::succeeded(s) || s is ShuffleAlreadyRegistered
}

/// How a registration starts.
pub enum ExecutorRegisterTurn {
    /// The shuffle is registered already
    Registered(i32),
    /// Ask the LifecycleManager
    Ask,
}

/// Where the file groups of a shuffle come from.
pub enum ReadTurn {
    /// They are known
    Cached,
    /// Ask the LifecycleManager
    Ask,
}

/// Executor-side ShuffleClient for Driver-Executor separation.
///
/// The client communicates with the Driver's LifecycleManager via RPC for:
/// - Shuffle registration
/// - Partition location management
/// - Mapper end signaling
/// - Reducer file group retrieval
///
/// Data push/fetch operations go directly to Celeborn Workers.
pub struct ExecutorShuffleClient {
    /// Configuration
    pub config: CelebornConfig,
    /// Application unique ID
    pub app_unique_id: String,
    /// LifecycleManager client (set via setup_lifecycle_manager_ref)
    pub lifecycle_client: Option<NettyLifecycleManagerClient>,
    /// Registered shuffles
    pub shuffles: ShuffleTable,
    /// Reducer file groups cache (shuffle_id -> file groups)
    pub reducer_file_groups: FileGroupTable,
    /// Excluded workers for fetch
    pub fetch_excluded_workers: ExcludedWorkers,
    /// Connection pool for push/fetch
    pub connection_pool: ConnectionPool,
    /// Whether the client is initialized
    pub initialized: bool,
}

/// The text for a client that was not set up.
pub open spec fn not_initialized_text() -> Seq<char> {
    "ExecutorShuffleClient not initialized. Call setup_lifecycle_manager_ref first."@
}

/// Whether `c` is the push of data to the first location of a partition.
pub open spec fn push_of(
    c: PushCall,
    app_id: Seq<char>,
    shuffle_id: i32,
    loc: LocationModel,
    map_id: i32,
    attempt_id: i32,
    batch_id: i32,
    packed: Seq<u8>,
) -> bool {
    &&& c@.shuffle_key == text::key_text(app_id, shuffle_id)
    &&& c@.partition_unique_id == protocol::unique_id_text(loc.id, loc.epoch)
    &&& c@.location == loc
    &&& c@.data == push::batch_body(map_id, attempt_id, batch_id, packed)
}

impl ExecutorShuffleClient {
    /// What the client knows of its shuffles.
    pub open spec fn model(&self) -> Map<i32, ShuffleModel> {
        Map::new(|id: i32| self.shuffles@.dom().contains(id), |id: i32| self.shuffles@[id].model())
    }

    /// Whether nothing but the shuffles differs from `other`.
    pub open spec fn same_rest(&self, other: &ExecutorShuffleClient) -> bool {
        &&& self.config == other.config
        &&& self.app_unique_id == other.app_unique_id
        &&& self.lifecycle_client == other.lifecycle_client
        &&& self.reducer_file_groups == other.reducer_file_groups
        &&& self.fetch_excluded_workers == other.fetch_excluded_workers
        &&& self.connection_pool == other.connection_pool
        &&& self.initialized == other.initialized
    }

    /// Whether nothing is known of any shuffle, no worker is excluded and no connection is
    /// open. The pool has the sizes of the configuration.
    pub open spec fn has_no_state(&self) -> bool {
        &&& self.model() == Map::<i32, ShuffleModel>::empty()
        &&& self.reducer_file_groups@ == Map::<i32, ReducerFileGroupResponse>::empty()
        &&& self.fetch_excluded_workers.workers@ == Map::<Seq<char>, u64>::empty()
        &&& self.connection_pool.pool_size == self.config.connection_pool_size
        &&& self.connection_pool.max_in_flight == self.config.max_in_flight_requests
        &&& self.connection_pool.entries() == Map::<Seq<char>, PoolEntry>::empty()
    }

    /// Whether the LifecycleManager is asked at this address, from the local one, with the
    /// timeout of the configuration.
    pub open spec fn refers_to(&self, host: Seq<char>, port: i32) -> bool {
        &&& self.lifecycle_client matches Some(c)
        &&& c.host@ == host
        &&& c.port == port
        &&& c.local_address.host@ == "localhost"@
        &&& c.local_address.port == 0
        &&& c.rpc_timeout == self.config.rpc_timeout
    }

    /// Create a new ExecutorShuffleClient.
    ///
    /// After creation, call `setup_lifecycle_manager_ref` to connect to the
    /// Driver's LifecycleManager before using shuffle operations.
    pub fn new(config: CelebornConfig) -> (r: Self)
        ensures
            r.config == config,
            r.app_unique_id@ == config.app_id@,
            r.lifecycle_client is None,
            r.has_no_state(),
            !r.initialized,
    {
        let app_unique_id: String = config.app_id.clone();
        let connection_pool: ConnectionPool = ConnectionPool::new(
            config.connection_pool_size,
            config.max_in_flight_requests,
        );
        let r: ExecutorShuffleClient = ExecutorShuffleClient {
            config,
            app_unique_id,
            lifecycle_client: None,
            shuffles: ShuffleTable::new(),
            reducer_file_groups: FileGroupTable::new(),
            fetch_excluded_workers: ExcludedWorkers::new(),
            connection_pool,
            initialized: false,
        };
        assert(r.model() =~= Map::<i32, ShuffleModel>::empty());
        r
    }

    /// Setup connection to LifecycleManager in Driver.
    ///
    /// This must be called before any shuffle operations.
    pub fn setup_lifecycle_manager_ref(&mut self, host: &str, port: i32)
        ensures
            final(self).refers_to(host@, port),
            *final(self) == (ExecutorShuffleClient {
                lifecycle_client: final(self).lifecycle_client,
                initialized: true,
                ..*old(self)
            }),
    {
        self.lifecycle_client = Some(
            NettyLifecycleManagerClient::new(&self.config, host.to_owned(), port),
        );
        self.initialized = true;
    }

    /// Check if the client is initialized.
    pub fn check_initialized(&self) -> (r: Result<()>)
        ensures
            if self.initialized {
                r == Ok::<(), CelebornError>(())
            } else {
                r matches Err(CelebornError::Internal(m)) && m@ == not_initialized_text()
            },
    {
        if !self.initialized {
            return Err(
                CelebornError::Internal(
                    "ExecutorShuffleClient not initialized. Call setup_lifecycle_manager_ref first.".to_owned(),
                ),
            );
        }
        Ok(())
    }

    /// Get the LifecycleManager client.
    pub fn get_lifecycle_client(&self) -> (r: Result<&NettyLifecycleManagerClient>)
        ensures
            if !self.initialized {
                r matches Err(CelebornError::Internal(m)) && m@ == not_initialized_text()
            } else {
                match self.lifecycle_client {
                    Some(c) => r matches Ok(x) && *x == c,
                    None => r matches Err(CelebornError::Internal(m)) && m@
                        == "LifecycleManager client not set"@,
                }
            },
    {
        match self.check_initialized() {
            Ok(_) => {},
            Err(e) => {
                return Err(e);
            },
        }
        match &self.lifecycle_client {
            Some(c) => Ok(c),
            None => Err(CelebornError::Internal("LifecycleManager client not set".to_owned())),
        }
    }

    /// Get the application ID.
    pub fn app_id(&self) -> (r: &str)
        ensures
            r@ == self.app_unique_id@,
    {
        self.app_unique_id.as_str()
    }

    /// How a registration is answered: at once where the shuffle is known, or by the manager.
    pub open spec fn registers(&self, shuffle_id: i32, r: Result<ExecutorRegisterTurn>) -> bool {
        if self.model().dom().contains(shuffle_id) {
            r == Ok::<ExecutorRegisterTurn, CelebornError>(
                ExecutorRegisterTurn::Registered(shuffle_id),
            )
        } else if !self.initialized {
            r matches Err(CelebornError::Internal(m)) && m@ == not_initialized_text()
        } else if self.lifecycle_client is None {
            r matches Err(CelebornError::Internal(m)) && m@ == "LifecycleManager client not set"@
        } else {
            r matches Ok(ExecutorRegisterTurn::Ask)
        }
    }

    /// Register a shuffle: whether the LifecycleManager is to be asked.
    pub fn register_shuffle(&self, shuffle_id: i32) -> (r: Result<ExecutorRegisterTurn>)
        ensures
            self.registers(shuffle_id, r),
    {
        if self.shuffles.contains_key(shuffle_id) {
            return Ok(ExecutorRegisterTurn::Registered(shuffle_id));
        }
        match self.get_lifecycle_client() {
            Ok(_) => Ok(ExecutorRegisterTurn::Ask),
            Err(e) => Err(e),
        }
    }

    /// What the answer to a registration leaves behind.
    pub open spec fn registered_as(
        &self,
        after: &ExecutorShuffleClient,
        shuffle_id: i32,
        num_mappers: i32,
        num_partitions: i32,
        response: RegisterShuffleResponse,
        r: Result<i32>,
    ) -> bool {
        if registration_accepted(response.status) {
            &&& r == Ok::<i32, CelebornError>(shuffle_id)
            &&& after.model() == lifecycle::registered(
                self.model(),
                shuffle_id,
                ShuffleModel {
                    locations: locations::table(response.partition_locations@),
                    ..lifecycle::fresh_shuffle(num_mappers, num_partitions)
                },
            )
        } else {
            &&& r matches Err(CelebornError::ServerError { status, message })
            &&& status == response.status
            &&& message@ == "Failed to register shuffle "@ + text::int_text(shuffle_id as int)
            &&& after.model() == self.model()
        }
    }

    /// Takes the answer to a registration in. A shuffle that was registered already counts
    /// as registered.
    pub fn shuffle_registered(
        &mut self,
        shuffle_id: i32,
        num_mappers: i32,
        num_partitions: i32,
        response: RegisterShuffleResponse,
    ) -> (r: Result<i32>)
        ensures
            final(self).same_rest(old(self)),
            old(self).registered_as(
                final(self),
                shuffle_id,
                num_mappers,
                num_partitions,
                response,
                r,
            ),
    {
        let already: bool = match response.status {
            StatusCode::ShuffleAlreadyRegistered => true,
            _ => false,
        };
        if !(response.status.is_success() || already) {
            let mut message: String = "Failed to register shuffle ".to_owned();
            text::append_i64(&mut message, shuffle_id as i64);
            return Err(CelebornError::ServerError { status: response.status, message });
        }
        let ghost table = locations::table(response.partition_locations@);
        let mut state: ShuffleState = ShuffleState::new(num_mappers, num_partitions);
        state.partition_locations = LocationTable::from_map(response.partition_locations);
        state.registered = true;
        let ghost stored = state;
        self.shuffles.insert(shuffle_id, state);
        proof {
            assert(stored.model() =~= (ShuffleModel {
                locations: table,
                registered: true,
                ..lifecycle::fresh_shuffle(num_mappers, num_partitions)
            }));
            assert(self.model() =~= lifecycle::registered(
                old(self).model(),
                shuffle_id,
                ShuffleModel {
                    locations: table,
                    ..lifecycle::fresh_shuffle(num_mappers, num_partitions)
                },
            ));
        }
        Ok(shuffle_id)
    }

    /// What a push of data comes to: the call that sends it, or why there is none.
    pub open spec fn pushes(
        &self,
        after: &ExecutorShuffleClient,
        shuffle_id: i32,
        map_id: i32,
        attempt_id: i32,
        partition_id: i32,
        data: &[u8],
        r: Result<PushCall>,
    ) -> bool {
        &&& r is Err ==> after.model() == self.model()
        &&& if !self.initialized {
            r matches Err(CelebornError::Internal(m)) && m@ == not_initialized_text()
        } else {
            match lifecycle::lookup(self.model(), shuffle_id, partition_id) {
                Err(lifecycle::Missing::Shuffle) => r == Err::<PushCall, CelebornError>(
                    CelebornError::ShuffleNotFound(shuffle_id),
                ),
                Err(lifecycle::Missing::Partition) => r == Err::<PushCall, CelebornError>(
                    CelebornError::PartitionNotFound { shuffle_id, partition_id },
                ),
                Ok(found) => if found.len() == 0 {
                    r == Err::<PushCall, CelebornError>(
                        CelebornError::PartitionNotFound { shuffle_id, partition_id },
                    )
                } else {
                    match r {
                        Ok(c) => {
                            &&& after.model() == lifecycle::counted(
                                self.model(),
                                shuffle_id,
                                partition_id,
                            )
                            &&& exists|packed: Seq<u8>| #[trigger]
                                compression::packs(
                                    self.config.compression_codec,
                                    data@,
                                    packed,
                                ) && push_of(
                                    c,
                                    self.app_unique_id@,
                                    shuffle_id,
                                    found[0],
                                    map_id,
                                    attempt_id,
                                    lifecycle::batch_counter(
                                        self.model(),
                                        shuffle_id,
                                        partition_id,
                                    ),
                                    packed,
                                )
                        },
                        Err(e) => compression::is_pack_error(
                            e,
                            self.config.compression_codec,
                            data@,
                        ),
                    }
                },
            }
        }
    }

    /// Push shuffle data: the push that is to be sent to the worker.
    pub fn push_data(
        &mut self,
        shuffle_id: i32,
        map_id: i32,
        attempt_id: i32,
        partition_id: i32,
        data: &[u8],
    ) -> (r: Result<PushCall>)
        requires
            compression::can_compress(old(self).config.compression_codec, data@.len()),
        ensures
            final(self).same_rest(old(self)),
            old(self).pushes(final(self), shuffle_id, map_id, attempt_id, partition_id, data, r),
    {
        match self.check_initialized() {
            Ok(_) => {},
            Err(e) => {
                return Err(e);
            },
        }
        let mut found: Vec<PartitionLocation> = match self.get_partition_location(
            shuffle_id,
            partition_id,
        ) {
            Ok(v) => v,
            Err(e) => {
                return Err(e);
            },
        };
        if found.len() == 0 {
            return Err(CelebornError::PartitionNotFound { shuffle_id, partition_id });
        }
        let location: PartitionLocation = found.remove(0);
        let shuffle_key: String = self.shuffle_key(shuffle_id);
        let partition_unique_id: String = location.unique_id();
        let packed: Vec<u8> = match self.compress_data(data) {
            Ok(v) => v,
            Err(e) => {
                return Err(e);
            },
        };
        let batch_id: i32 = self.next_batch_id(shuffle_id, partition_id);
        let body: Bytes = push::build_body(map_id, attempt_id, batch_id, packed.as_slice());
        assert(compression::packs(old(self).config.compression_codec, data@, packed@));
        Ok(PushCall { shuffle_key, partition_unique_id, location, data: body })
    }

    /// The status in the answer to a push.
    pub fn push_response_status(response: &Frame) -> (r: StatusCode)
        ensures
            r == push_status(response@),
    {
        if buffers::bytes_len(&response.body) > 0 {
            StatusCode::from(buffers::bytes_as_slice(&response.body)[0] as i32)
        } else if buffers::bytes_len(&response.message) > 12 {
            StatusCode::from(buffers::bytes_as_slice(&response.message)[12] as i32)
        } else {
            StatusCode::Success
        }
    }

    /// The outcome of a push, from the answer of the worker:
    /// - SUCCESS (0): Data was successfully written
    /// - SOFT_SPLIT (22): Data was written but partition needs revive
    /// - HARD_SPLIT (21): Data was not written, need to revive and retry
    /// - MAP_ENDED (15): Mapper has already ended
    /// - Other error codes indicate various failure conditions
    pub fn send_push_data(response: &Frame, partition_unique_id: &str) -> (r: Result<()>)
        ensures
            push_ends(r, push_status(response@), partition_unique_id@),
    {
        let status_code: StatusCode = Self::push_response_status(response);
        match status_code {
            StatusCode::Success | StatusCode::SoftSplit | StatusCode::MapEnded
            | StatusCode::PushDataSuccessPrimaryCongested
            | StatusCode::PushDataSuccessReplicaCongested => Ok(()),
            StatusCode::HardSplit => {
                let mut message: String = text::join("HARD_SPLIT for partition ", partition_unique_id);
                message.append(", need to revive and retry");
                Err(CelebornError::ServerError { status: status_code, message })
            },
            _ => {
                let mut message: String = text::join("PushData failed with status ", status_code.name());
                message.append(" for partition ");
                message.append(partition_unique_id);
                Err(CelebornError::ServerError { status: status_code, message })
            },
        }
    }

    /// Compress data using the configured codec.
    pub fn compress_data(&self, data: &[u8]) -> (r: Result<Vec<u8>>)
        requires
            compression::can_compress(self.config.compression_codec, data@.len()),
        ensures
            match r {
                Ok(v) => {
                    &&& compression::pack_fault(self.config.compression_codec, data@) is None
                    &&& compression::packs(self.config.compression_codec, data@, v@)
                },
                Err(e) => compression::is_pack_error(e, self.config.compression_codec, data@),
            },
    {
        compression::compress_data(self.config.compression_codec, data)
    }

    /// What the manager is told of a mapper that ended.
    pub open spec fn ends_mapper(
        &self,
        shuffle_id: i32,
        map_id: i32,
        attempt_id: i32,
        num_mappers: i32,
        r: Result<PbMapperEnd>,
    ) -> bool {
        if !self.initialized {
            r matches Err(CelebornError::Internal(m)) && m@ == not_initialized_text()
        } else if self.lifecycle_client is None {
            r matches Err(CelebornError::Internal(m)) && m@ == "LifecycleManager client not set"@
        } else {
            r == Ok::<PbMapperEnd, CelebornError>(
                PbMapperEnd {
                    shuffle_id,
                    map_id,
                    attempt_id,
                    num_mappers,
                    partition_id: (-1int) as i32,
                },
            )
        }
    }

    /// The request that reports the end of a mapper. Its partition, which names none, is -1.
    pub fn mapper_end(&self, shuffle_id: i32, map_id: i32, attempt_id: i32, num_mappers: i32) -> (r:
        Result<PbMapperEnd>)
        ensures
            self.ends_mapper(shuffle_id, map_id, attempt_id, num_mappers, r),
    {
        match self.get_lifecycle_client() {
            Ok(client) => Ok(
                client.mapper_end_request(shuffle_id, map_id, attempt_id, num_mappers, -1),
            ),
            Err(e) => Err(e),
        }
    }

    /// Whether the end of a mapper was accepted.
    pub fn mapper_ended(response: &MapperEndResponse) -> (r: bool)
        ensures
            r == error::succeeded(response.status),
    {
        response.status.is_success()
    }

    /// Whether the locations of a shuffle are at hand for its readers.
    pub open spec fn reads(&self, shuffle_id: i32, r: Result<ReadTurn>) -> bool {
        if !self.initialized {
            r matches Err(CelebornError::Internal(m)) && m@ == not_initialized_text()
        } else if self.lifecycle_client is None {
            r matches Err(CelebornError::Internal(m)) && m@ == "LifecycleManager client not set"@
        } else if self.reducer_file_groups@.dom().contains(shuffle_id) {
            r matches Ok(ReadTurn::Cached)
        } else {
            r matches Ok(ReadTurn::Ask)
        }
    }

    /// Whether the file groups of a shuffle are known.
    pub fn read_partition(&self, shuffle_id: i32) -> (r: Result<ReadTurn>)
        ensures
            self.reads(shuffle_id, r),
    {
        match self.get_lifecycle_client() {
            Ok(_) => {
                if self.reducer_file_groups.contains_key(shuffle_id) {
                    Ok(ReadTurn::Cached)
                } else {
                    Ok(ReadTurn::Ask)
                }
            },
            Err(e) => Err(e),
        }
    }

    /// What the answer about the file groups of a shuffle leaves behind.
    pub open spec fn keeps_groups(
        &self,
        after: &ExecutorShuffleClient,
        shuffle_id: i32,
        response: ReducerFileGroupResponse,
        r: Result<()>,
    ) -> bool {
        &&& if error::succeeded(response.status) {
            &&& r == Ok::<(), CelebornError>(())
            &&& after.reducer_file_groups@ == self.reducer_file_groups@.insert(
                shuffle_id,
                response,
            )
        } else {
            &&& group_failure(r, shuffle_id, response.status)
            &&& after.reducer_file_groups == self.reducer_file_groups
        }
        &&& *after == (ExecutorShuffleClient {
            reducer_file_groups: after.reducer_file_groups,
            ..*self
        })
    }

    /// Keeps the file groups of a shuffle, unless the answer is a failure.
    pub fn file_groups_received(&mut self, shuffle_id: i32, response: ReducerFileGroupResponse) -> (r:
        Result<()>)
        ensures
            old(self).keeps_groups(final(self), shuffle_id, response, r),
    {
        if !response.status.is_success() {
            return Err(file_group_error(shuffle_id, response.status));
        }
        self.reducer_file_groups.insert(shuffle_id, response);
        Ok(())
    }

    /// The locations of a partition that are at hand, and the attempts of its mappers.
    pub open spec fn has_cached(
        &self,
        shuffle_id: i32,
        partition_id: i32,
        r: (Vec<PartitionLocation>, Vec<i32>),
    ) -> bool {
        &&& locations::models(r.0@) == locations::held(
            locations::table(self.reducer_file_groups@[shuffle_id].file_groups@),
            partition_id,
        )
        &&& r.1@ == self.reducer_file_groups@[shuffle_id].attempts@
    }

    /// The known locations of a partition, and the attempts of the mappers.
    pub fn cached_partition(&self, shuffle_id: i32, partition_id: i32) -> (r: (
        Vec<PartitionLocation>,
        Vec<i32>,
    ))
        requires
            self.reducer_file_groups@.dom().contains(shuffle_id),
        ensures
            self.has_cached(shuffle_id, partition_id, r),
    {
        let read = |groups: &ReducerFileGroupResponse| -> (v: (Vec<PartitionLocation>, Vec<i32>))
            ensures
                locations::models(v.0@) == locations::held(
                    locations::table(groups.file_groups@),
                    partition_id,
                ),
                v.1@ == groups.attempts@,
        {
            partition_of(groups, partition_id)
        };
        let known: Option<(Vec<PartitionLocation>, Vec<i32>)> = self.reducer_file_groups.read(shuffle_id, read);
        match known {
            Some(found) => found,
            None => (Vec::new(), Vec::new()),
        }
    }

    /// The stream that reads the locations of a partition.
    pub open spec fn opens(
        &self,
        shuffle_id: i32,
        locations: Vec<PartitionLocation>,
        attempts: Vec<i32>,
        attempt_number: i32,
        start_map_index: i32,
        end_map_index: i32,
        r: Result<CelebornInputStream>,
    ) -> bool {
        r matches Ok(s) && s.wf() && if locations@.len() == 0 {
            s.is_empty_stream()
        } else {
            &&& s.is_fresh()
            &&& s.shuffle_key@ == text::key_text(self.app_unique_id@, shuffle_id)
            &&& input_stream::configured_by(s.config, self.config)
            &&& s.attempts == attempts
            &&& s.attempt_number == attempt_number
            &&& s.start_map_index == start_map_index
            &&& s.end_map_index == end_map_index
            &&& s.locations@.to_multiset() == locations@.to_multiset()
            &&& s.fetch_chunk_max_retry == input_stream::max_retry_of(s.config)
            &&& s.failed_batches@ =~= Map::<Seq<char>, Vec<PushFailedBatch>>::empty()
            &&& s.partition_location_to_chunk_range is None
            &&& s.map_id_bitmaps@ =~= Map::<Seq<char>, RoaringBitmap>::empty()
        }
    }

    /// Read partition data: the stream over the locations of a partition. Without a location
    /// the stream is empty.
    pub fn open_stream(
        &self,
        shuffle_id: i32,
        locations: Vec<PartitionLocation>,
        attempts: Vec<i32>,
        attempt_number: i32,
        start_map_index: i32,
        end_map_index: i32,
    ) -> (r: Result<CelebornInputStream>)
        requires
            self.config.push_replicate_enabled ==> self.config.max_fetch_retries * 2 <= u32::MAX,
        ensures
            self.opens(
                shuffle_id,
                locations,
                attempts,
                attempt_number,
                start_map_index,
                end_map_index,
                r,
            ),
    {
        if locations.len() == 0 {
            return Ok(CelebornInputStream::empty());
        }
        let config: CelebornInputStreamConfig = CelebornInputStreamConfig::from(&self.config);
        let shuffle_key: String = self.shuffle_key(shuffle_id);
        CelebornInputStreamBuilder::new().config(config).shuffle_key(shuffle_key.as_str()).locations(
            locations,
        ).attempts(attempts).attempt_number(attempt_number).start_map_index(
            start_map_index,
        ).end_map_index(end_map_index).build()
    }

    /// The locations in an answer with the file groups of a shuffle.
    pub fn get_reducer_file_group(shuffle_id: i32, response: ReducerFileGroupResponse) -> (r: Result<
        HashMap<i32, Vec<PartitionLocation>>,
    >)
        ensures
            if error::succeeded(response.status) {
                r matches Ok(m) && m == response.file_groups
            } else {
                group_failure(r, shuffle_id, response.status)
            },
    {
        if !response.status.is_success() {
            return Err(file_group_error(shuffle_id, response.status));
        }
        Ok(response.file_groups)
    }

    /// Cleanup shuffle state. The LifecycleManager does the cleanup; nothing is done here.
    pub fn cleanup(&self, shuffle_id: i32, map_id: i32, attempt_id: i32) {
    }

    /// What is left once a shuffle was cleaned up.
    pub open spec fn forgets(
        &self,
        after: &ExecutorShuffleClient,
        shuffle_id: i32,
        r: bool,
    ) -> bool {
        &&& r
        &&& after.model() == self.model().remove(shuffle_id)
        &&& after.reducer_file_groups@ == self.reducer_file_groups@.remove(shuffle_id)
        &&& *after == (ExecutorShuffleClient {
            shuffles: after.shuffles,
            reducer_file_groups: after.reducer_file_groups,
            ..*self
        })
    }

    /// Cleanup shuffle.
    pub fn cleanup_shuffle(&mut self, shuffle_id: i32) -> (r: bool)
        ensures
            old(self).forgets(final(self), shuffle_id, r),
    {
        self.shuffles.remove(shuffle_id);
        self.reducer_file_groups.remove(shuffle_id);
        assert(self.model() =~= old(self).model().remove(shuffle_id));
        true
    }

    /// What the manager is asked for the number of a shuffle.
    pub open spec fn asks_for_id(
        &self,
        app_shuffle_id: i32,
        app_shuffle_identifier: &str,
        is_writer: bool,
        r: Result<PbGetShuffleId>,
    ) -> bool {
        if !self.initialized {
            r matches Err(CelebornError::Internal(m)) && m@ == not_initialized_text()
        } else if self.lifecycle_client is None {
            r matches Err(CelebornError::Internal(m)) && m@ == "LifecycleManager client not set"@
        } else {
            r matches Ok(q) && q.app_shuffle_id == app_shuffle_id && q.app_shuffle_identifier@
                == app_shuffle_identifier@ && q.is_shuffle_writer == is_writer
        }
    }

    /// Get shuffle ID for app shuffle: the request that the LifecycleManager is to be sent.
    pub fn get_shuffle_id(
        &self,
        app_shuffle_id: i32,
        app_shuffle_identifier: &str,
        is_writer: bool,
    ) -> (r: Result<PbGetShuffleId>)
        ensures
            self.asks_for_id(app_shuffle_id, app_shuffle_identifier, is_writer, r),
    {
        match self.get_lifecycle_client() {
            Ok(client) => Ok(
                client.shuffle_id_request(app_shuffle_id, app_shuffle_identifier, is_writer),
            ),
            Err(e) => Err(e),
        }
    }

    /// What the manager is told of a failed fetch.
    pub open spec fn reports_failure(
        &self,
        app_shuffle_id: i32,
        shuffle_id: i32,
        failure_type: i32,
        r: Result<PbReportShuffleFetchFailure>,
    ) -> bool {
        if !self.initialized {
            r matches Err(CelebornError::Internal(m)) && m@ == not_initialized_text()
        } else if self.lifecycle_client is None {
            r matches Err(CelebornError::Internal(m)) && m@ == "LifecycleManager client not set"@
        } else {
            r == Ok::<PbReportShuffleFetchFailure, CelebornError>(
                PbReportShuffleFetchFailure { app_shuffle_id, shuffle_id, failure_type },
            )
        }
    }

    /// Report shuffle fetch failure: the report that the LifecycleManager is to be sent.
    pub fn report_shuffle_fetch_failure(
        &self,
        app_shuffle_id: i32,
        shuffle_id: i32,
        failure_type: i32,
    ) -> (r: Result<PbReportShuffleFetchFailure>)
        ensures
            self.reports_failure(app_shuffle_id, shuffle_id, failure_type, r),
    {
        match self.get_lifecycle_client() {
            Ok(client) => Ok(
                client.fetch_failure_request(app_shuffle_id, shuffle_id, failure_type),
            ),
            Err(e) => Err(e),
        }
    }

    /// Shutdown the client.
    pub fn shutdown(&mut self)
        ensures
            final(self).model() == Map::<i32, ShuffleModel>::empty(),
            final(self).reducer_file_groups@ == Map::<i32, ReducerFileGroupResponse>::empty(),
            final(self).fetch_excluded_workers.workers@ == Map::<Seq<char>, u64>::empty(),
            !final(self).initialized,
            final(self).config == old(self).config,
            final(self).app_unique_id == old(self).app_unique_id,
            final(self).lifecycle_client == old(self).lifecycle_client,
            final(self).connection_pool == old(self).connection_pool,
    {
        self.shuffles.clear();
        self.reducer_file_groups.clear();
        self.fetch_excluded_workers = ExcludedWorkers::new();
        self.initialized = false;
        assert(self.model() =~= Map::<i32, ShuffleModel>::empty());
    }

    /// Get partition location for a shuffle.
    pub fn get_partition_location(&self, shuffle_id: i32, partition_id: i32) -> (r: Result<
        Vec<PartitionLocation>,
    >)
        ensures
            match lifecycle::lookup(self.model(), shuffle_id, partition_id) {
                Ok(found) => r matches Ok(v) && locations::models(v@) == found,
                Err(lifecycle::Missing::Shuffle) => r == Err::<Vec<PartitionLocation>, CelebornError>(
                    CelebornError::ShuffleNotFound(shuffle_id),
                ),
                Err(lifecycle::Missing::Partition) => r == Err::<
                    Vec<PartitionLocation>,
                    CelebornError,
                >(CelebornError::PartitionNotFound { shuffle_id, partition_id }),
            },
    {
        let read = |state: &ShuffleState| -> (v: Option<Vec<PartitionLocation>>)
            ensures
                match v {
                    Some(list) => state.partition_locations@.dom().contains(partition_id)
                        && locations::models(list@) == locations::models(
                        state.partition_locations@[partition_id]@,
                    ),
                    None => !state.partition_locations@.dom().contains(partition_id),
                },
        {
            state.partition_locations.get(partition_id)
        };
        let found: Option<Option<Vec<PartitionLocation>>> = self.shuffles.read(shuffle_id, read);
        match found {
            None => Err(CelebornError::ShuffleNotFound(shuffle_id)),
            Some(None) => Err(CelebornError::PartitionNotFound { shuffle_id, partition_id }),
            Some(Some(v)) => Ok(v),
        }
    }

    /// Get the next batch ID for a partition.
    pub fn next_batch_id(&mut self, shuffle_id: i32, partition_id: i32) -> (r: i32)
        ensures
            final(self).same_rest(old(self)),
            r == lifecycle::batch_counter(old(self).model(), shuffle_id, partition_id),
            final(self).model() == lifecycle::counted(old(self).model(), shuffle_id, partition_id),
    {
        let ghost start = old(self).model();
        match self.shuffles.remove(shuffle_id) {
            Some(s) => {
                let ghost before = s.model();
                let mut state: ShuffleState = s;
                let id: i32 = state.batch_id_counters.count(partition_id);
                let ghost stored = state;
                self.shuffles.insert(shuffle_id, state);
                proof {
                    assert(id == lifecycle::batch_counter(start, shuffle_id, partition_id));
                    assert(stored.model() =~= (ShuffleModel {
                        counters: before.counters.insert(partition_id, lifecycle::after(id)),
                        ..before
                    }));
                    assert(self.model() =~= lifecycle::counted(start, shuffle_id, partition_id));
                }
                id
            },
            None => {
                assert(self.model() =~= start);
                0
            },
        }
    }

    /// Generate shuffle key.
    pub fn shuffle_key(&self, shuffle_id: i32) -> (r: String)
        ensures
            r@ == text::key_text(self.app_unique_id@, shuffle_id),
    {
        text::shuffle_key(self.app_unique_id.as_str(), shuffle_id)
    }
}

/// Whether `r` reports that the file groups of a shuffle could not be had.
pub open spec fn group_failure<T>(r: Result<T>, shuffle_id: i32, status: StatusCode) -> bool {
    r matches Err(CelebornError::ServerError { status: s, message }) && s == status && message@
        == "Failed to get reducer file group for shuffle "@ + text::int_text(shuffle_id as int)
}

/// The locations of a partition in file groups, and the attempts of the mappers.
fn partition_of(groups: &ReducerFileGroupResponse, partition_id: i32) -> (r: (
    Vec<PartitionLocation>,
    Vec<i32>,
))
    ensures
        locations::models(r.0@) == locations::held(
            locations::table(groups.file_groups@),
            partition_id,
        ),
        r.1@ == groups.attempts@,
{
    let attempts: Vec<i32> = groups.attempts.clone();
    assert(attempts@ =~= groups.attempts@);
    let found: Vec<PartitionLocation> = match groups.file_groups.get(&partition_id) {
        Some(v) => locations::clone_locations(v),
        None => {
            let none: Vec<PartitionLocation> = Vec::new();
            assert(locations::models(none@) =~= Seq::<LocationModel>::empty());
            none
        },
    };
    (found, attempts)
}

/// The error for file groups that could not be had.
fn file_group_error(shuffle_id: i32, status: StatusCode) -> (e: CelebornError)
    ensures
        e matches CelebornError::ServerError { status: s, message } && s == status && message@
            == "Failed to get reducer file group for shuffle "@ + text::int_text(shuffle_id as int),
{
    let mut message: String = "Failed to get reducer file group for shuffle ".to_owned();
    text::append_i64(&mut message, shuffle_id as i64);
    CelebornError::ServerError { status, message }
}

/// ReviveManager for Executor-side that uses LifecycleManagerClient for RPC.
///
/// This is separate from the base ReviveManager in revive.rs, as it communicates
/// with the remote LifecycleManager in the Driver process.
pub struct ExecutorReviveManager {
    /// Configuration
    pub config: CelebornConfig,
    /// LifecycleManager client
    pub lifecycle_client: NettyLifecycleManagerClient,
}

impl ExecutorReviveManager {
    /// Create a new ExecutorReviveManager.
    pub fn new(config: CelebornConfig, lifecycle_client: NettyLifecycleManagerClient) -> (r: Self)
        ensures
            r == (ExecutorReviveManager { config, lifecycle_client }),
    {
        ExecutorReviveManager { config, lifecycle_client }
    }

    /// What is asked for to revive a single partition.
    pub fn revive_info(
        partition_id: i32,
        epoch: i32,
        old_partition: Option<&PartitionLocation>,
        cause: StatusCode,
    ) -> (r: RevivePartitionInfo)
        ensures
            r.partition_id == partition_id,
            r.epoch == epoch,
            r.status == cause,
            match old_partition {
                Some(l) => r.old_partition matches Some(o) && o.model() == l.model(),
                None => r.old_partition is None,
            },
    {
        let old: Option<PartitionLocation> = match old_partition {
            Some(l) => Some(l.clone()),
            None => None,
        };
        RevivePartitionInfo { partition_id, epoch, old_partition: old, status: cause }
    }

    /// Revive multiple partitions: the request that the LifecycleManager is to be sent.
    pub fn revive_batch(
        &self,
        shuffle_id: i32,
        map_ids: Vec<i32>,
        partition_infos: &Vec<RevivePartitionInfo>,
    ) -> (r: PbRevive)
        ensures
            r.shuffle_id == shuffle_id,
            r.map_id == map_ids,
            r.partition_info@.len() == partition_infos@.len(),
            forall|i: int|
                0 <= i < partition_infos@.len() ==> lifecycle_client::asks_for(
                    #[trigger] r.partition_info@[i],
                    partition_infos@[i],
                ),
    {
        self.lifecycle_client.revive_request(shuffle_id, map_ids, partition_infos)
    }

    /// The new location of a partition that was revived, or why there is none.
    pub open spec fn revived_one(
        shuffle_id: i32,
        partition_id: i32,
        response: ReviveResponse,
        r: Result<PartitionLocation>,
    ) -> bool {
        if !error::succeeded(response.status) {
            r matches Err(CelebornError::ServerError { status, message }) && status
                == response.status && message@ == "Revive failed for partition "@
                + text::int_text(partition_id as int)
        } else if response.partition_locations@.len() > 0 {
            r == Ok::<PartitionLocation, CelebornError>(response.partition_locations@[0])
        } else {
            r == Err::<PartitionLocation, CelebornError>(
                CelebornError::PartitionNotFound { shuffle_id, partition_id },
            )
        }
    }

    /// Revive a single partition: the first location of the answer.
    pub fn revive_single(shuffle_id: i32, partition_id: i32, response: ReviveResponse) -> (r: Result<
        PartitionLocation,
    >)
        ensures
            Self::revived_one(shuffle_id, partition_id, response, r),
    {
        if !response.status.is_success() {
            let mut message: String = "Revive failed for partition ".to_owned();
            text::append_i64(&mut message, partition_id as i64);
            return Err(CelebornError::ServerError { status: response.status, message });
        }
        let mut found: Vec<PartitionLocation> = response.partition_locations;
        if found.len() > 0 {
            Ok(found.remove(0))
        } else {
            Err(CelebornError::PartitionNotFound { shuffle_id, partition_id })
        }
    }
}

} // verus!
