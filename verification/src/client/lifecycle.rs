//! Lifecycle manager for Celeborn client.
//!
//! Manages shuffle registration and partition locations. The exchanges with the master
//! and the workers are left to the caller: a method gives the request to send, another
//! takes the answer in.

use std::collections::{HashMap, HashSet};

use dashmap::DashMap;
use vstd::prelude::*;
use vstd::string::*;

use crate::client::locations;
use crate::client::locations::{LocationTable, WorkerGroup, WorkerGroups};
use crate::config::CelebornConfig;
use crate::error;
use crate::error::{CelebornError, Result, StatusCode};
use crate::protocol;
use crate::protocol::transport;
use crate::protocol::transport::{
    PbChangeLocationPartitionInfo, PbChangeLocationResponse, PbCommitFiles, PbCommitFilesResponse,
    PbFileGroup, PbGetReducerFileGroup, PbGetReducerFileGroupResponse, PbHeartbeatFromApplication,
    PbPartitionLocation, PbRequestSlots, PbRequestSlotsResponse, PbReserveSlots,
    PbReserveSlotsResponse, PbRevive, PbRevivePartitionInfo, PbUnregisterShuffle,
    PbUserIdentifier, PbWorkerResource,
};
use crate::protocol::{LocationModel, PartitionLocation, PartitionMode, WorkerInfo};
use crate::tables;
use crate::tables::{BatchCounters, NameSet, WorkerTable};
use crate::text;
use crate::time;
use crate::wire;

verus! {

broadcast use vstd::std_specs::hash::group_hash_axioms;

/// Shuffle state information.
pub struct ShuffleState {
    /// Number of mappers
    pub num_mappers: i32,
    /// Number of partitions
    pub num_partitions: i32,
    /// Partition locations (partition_id -> locations)
    pub partition_locations: LocationTable,
    /// Whether the shuffle is registered
    pub registered: bool,
    /// Committed partition IDs (unique_id)
    pub committed_ids: NameSet,
    /// Batch ID counters per partition (partition_id -> counter)
    pub batch_id_counters: BatchCounters,
}

/// What a `ShuffleState` says.
#[verifier::ext_equal]
pub struct ShuffleModel {
    pub num_mappers: i32,
    pub num_partitions: i32,
    pub locations: Map<i32, Seq<LocationModel>>,
    pub registered: bool,
    pub committed: Set<Seq<char>>,
    pub counters: Map<i32, i32>,
}

impl ShuffleState {
    /// What the state says.
    pub open spec fn model(&self) -> ShuffleModel {
        ShuffleModel {
            num_mappers: self.num_mappers,
            num_partitions: self.num_partitions,
            locations: locations::table(self.partition_locations@),
            registered: self.registered,
            committed: self.committed_ids@,
            counters: self.batch_id_counters@,
        }
    }

    /// The state of a shuffle before its registration.
    pub fn new(num_mappers: i32, num_partitions: i32) -> (r: Self)
        ensures
            r.model() == fresh_shuffle(num_mappers, num_partitions),
    {
        let r: ShuffleState = ShuffleState {
            num_mappers,
            num_partitions,
            partition_locations: LocationTable::new(),
            registered: false,
            committed_ids: NameSet::new(),
            batch_id_counters: BatchCounters::new(),
        };
        assert(r.model() =~= fresh_shuffle(num_mappers, num_partitions));
        r
    }
}

/// The shuffles that a map holds by their ids.
pub uninterp spec fn shuffles_of(m: DashMap<i32, ShuffleState>) -> Map<i32, ShuffleState>;

/// `DashMap::new`: a map without entries.
#[verifier::external_body]
fn shuffles_new() -> (r: DashMap<i32, ShuffleState>)
    ensures
        shuffles_of(r).dom() == Set::<i32>::empty(),
{
    DashMap::new()
}

/// `DashMap::contains_key`: whether a key has a value.
#[verifier::external_body]
fn shuffles_contain(m: &DashMap<i32, ShuffleState>, id: i32) -> (r: bool)
    ensures
        r == shuffles_of(*m).dom().contains(id),
{
    m.contains_key(&id)
}

/// `DashMap::get`: the value of a key, if it has one; here what is read from it.
#[verifier::external_body]
fn shuffles_get<R, F: FnOnce(&ShuffleState) -> R>(
    m: &DashMap<i32, ShuffleState>,
    id: i32,
    read: F,
) -> (r: Option<R>)
    requires
        shuffles_of(*m).dom().contains(id) ==> read.requires((&shuffles_of(*m)[id],)),
    ensures
        match r {
            Some(v) => shuffles_of(*m).dom().contains(id) && read.ensures((&shuffles_of(*m)[id],), v),
            None => !shuffles_of(*m).dom().contains(id),
        },
{
    m.get(&id).map(|entry| read(entry.value()))
}

/// `DashMap::insert`: sets the value of a key, in place of one that it had.
#[verifier::external_body]
fn shuffles_insert(m: &mut DashMap<i32, ShuffleState>, id: i32, value: ShuffleState)
    ensures
        shuffles_of(*final(m)) == shuffles_of(*old(m)).insert(id, value),
{
    m.insert(id, value);
}

/// `DashMap::remove`: takes the entry of a key out and gives its value, if there is one.
#[verifier::external_body]
fn shuffles_remove(m: &mut DashMap<i32, ShuffleState>, id: i32) -> (r: Option<ShuffleState>)
    ensures
        shuffles_of(*final(m)) == shuffles_of(*old(m)).remove(id),
        match r {
            Some(v) => shuffles_of(*old(m)).dom().contains(id) && v == shuffles_of(*old(m))[id],
            None => !shuffles_of(*old(m)).dom().contains(id),
        },
{
    m.remove(&id).map(|(_, value)| value)
}

/// `DashMap::iter`: walks over the entries, each once, in an order that is not described;
/// here their keys.
#[verifier::external_body]
fn shuffles_keys(m: &DashMap<i32, ShuffleState>) -> (r: Vec<i32>)
    ensures
        r@.no_duplicates(),
        r@.to_set() == shuffles_of(*m).dom(),
{
    m.iter().map(|entry| *entry.key()).collect()
}

/// The shuffles that a manager knows.
pub struct ShuffleTable {
    pub map: DashMap<i32, ShuffleState>,
}

impl View for ShuffleTable {
    type V = Map<i32, ShuffleState>;

    open spec fn view(&self) -> Map<i32, ShuffleState> {
        shuffles_of(self.map)
    }
}

impl ShuffleTable {
    /// An empty table.
    pub fn new() -> (r: Self)
        ensures
            r@ == Map::<i32, ShuffleState>::empty(),
    {
        let r: ShuffleTable = ShuffleTable { map: shuffles_new() };
        assert(r@ =~= Map::<i32, ShuffleState>::empty());
        r
    }

    /// Whether there is an entry for a shuffle.
    pub fn contains_key(&self, id: i32) -> (r: bool)
        ensures
            r == self@.dom().contains(id),
    {
        shuffles_contain(&self.map, id)
    }

    /// What is read from the entry of a shuffle, if there is one.
    pub fn read<R, F: FnOnce(&ShuffleState) -> R>(&self, id: i32, read: F) -> (r: Option<R>)
        requires
            self@.dom().contains(id) ==> read.requires((&self@[id],)),
        ensures
            match r {
                Some(v) => self@.dom().contains(id) && read.ensures((&self@[id],), v),
                None => !self@.dom().contains(id),
            },
    {
        shuffles_get(&self.map, id, read)
    }

    /// Sets the entry of a shuffle.
    pub fn insert(&mut self, id: i32, value: ShuffleState)
        ensures
            final(self)@ == old(self)@.insert(id, value),
    {
        shuffles_insert(&mut self.map, id, value)
    }

    /// Takes the entry of a shuffle out.
    pub fn remove(&mut self, id: i32) -> (r: Option<ShuffleState>)
        ensures
            final(self)@ == old(self)@.remove(id),
            match r {
                Some(v) => old(self)@.dom().contains(id) && v == old(self)@[id],
                None => !old(self)@.dom().contains(id),
            },
    {
        shuffles_remove(&mut self.map, id)
    }

    /// The shuffles with an entry, in some order.
    pub fn keys(&self) -> (r: Vec<i32>)
        ensures
            r@.no_duplicates(),
            r@.to_set() == self@.dom(),
    {
        shuffles_keys(&self.map)
    }
}

/// A shuffle before its registration: no locations, nothing committed, no batches.
pub open spec fn fresh_shuffle(num_mappers: i32, num_partitions: i32) -> ShuffleModel {
    ShuffleModel {
        num_mappers,
        num_partitions,
        locations: Map::<i32, Seq<LocationModel>>::empty(),
        registered: false,
        committed: Set::<Seq<char>>::empty(),
        counters: Map::<i32, i32>::empty(),
    }
}

/// A slot that the master allocated: a location and its role at the worker.
pub struct Slot {
    pub location: transport::PbLocationModel,
    pub primary: bool,
}

/// The slots of a list of locations.
pub open spec fn slots_of(list: Seq<PbPartitionLocation>, primary: bool) -> Seq<Slot> {
    Seq::new(list.len(), |i: int| Slot { location: list[i].model(), primary })
}

/// The slots of the workers, primaries before replicas at each of them.
pub open spec fn slots(workers: Seq<(String, PbWorkerResource)>) -> Seq<Slot>
    decreases workers.len(),
{
    if workers.len() == 0 {
        Seq::<Slot>::empty()
    } else {
        slots(workers.drop_last()) + slots_of(workers.last().1.primary_partitions@, true)
            + slots_of(workers.last().1.replica_partitions@, false)
    }
}

/// The locations among the slots, by partition.
pub open spec fn by_partition(s: Seq<Slot>) -> Map<i32, Seq<LocationModel>>
    decreases s.len(),
{
    if s.len() == 0 {
        Map::<i32, Seq<LocationModel>>::empty()
    } else {
        let before = by_partition(s.drop_last());
        let loc = locations::located(s.last().location);
        before.insert(loc.id, locations::held(before, loc.id).push(loc))
    }
}

/// The locations among the slots that a worker has in one role.
pub open spec fn at_worker(s: Seq<Slot>, host: Seq<char>, port: i32, primary: bool) -> Seq<
    transport::PbLocationModel,
>
    decreases s.len(),
{
    if s.len() == 0 {
        Seq::<transport::PbLocationModel>::empty()
    } else {
        let before = at_worker(s.drop_last(), host, port, primary);
        let l = s.last().location;
        if l.host == host && l.rpc_port == port && s.last().primary == primary {
            before.push(l)
        } else {
            before
        }
    }
}

/// Whether the worker has a slot.
pub open spec fn uses_worker(s: Seq<Slot>, host: Seq<char>, port: i32) -> bool
    decreases s.len(),
{
    s.len() > 0 && (uses_worker(s.drop_last(), host, port) || (s.last().location.host == host
        && s.last().location.rpc_port == port))
}

/// A request to reserve slots, and the worker that it goes to.
pub struct Reservation {
    pub host: String,
    pub rpc_port: i32,
    pub request: PbReserveSlots,
}

/// Whether a request asks for a slot of each partition of a shuffle.
pub open spec fn asks_for_slots(
    q: PbRequestSlots,
    app_id: Seq<char>,
    replicate: bool,
    shuffle_id: i32,
    num_partitions: i32,
) -> bool {
    &&& q.application_id@ == app_id
    &&& q.shuffle_id == shuffle_id
    &&& q.partition_id_list@ == Seq::new(
        (if num_partitions < 0 {
            0
        } else {
            num_partitions as int
        }) as nat,
        |i: int| i as i32,
    )
    &&& q.should_replicate == replicate
    &&& q.storage_type == 0
    &&& q.user_identifier matches Some(u) && default_user(u)
    &&& !q.should_rack_aware
    &&& q.max_workers == 0
    &&& q.available_storage_types == 2
}

/// Whether a user identifier is the default one.
pub open spec fn default_user(u: PbUserIdentifier) -> bool {
    u.tenant_id@ == "default"@ && u.name@ == "default"@
}

/// Whether a reservation asks a worker for its slots.
pub open spec fn reserves(
    r: Reservation,
    s: Seq<Slot>,
    app_id: Seq<char>,
    shuffle_id: i32,
    push_timeout: i64,
) -> bool {
    &&& uses_worker(s, r.host@, r.rpc_port)
    &&& locations::pb_models(r.request.primary_locations@) == at_worker(
        s,
        r.host@,
        r.rpc_port,
        true,
    )
    &&& locations::pb_models(r.request.replica_locations@) == at_worker(
        s,
        r.host@,
        r.rpc_port,
        false,
    )
    &&& r.request.application_id@ == app_id
    &&& r.request.shuffle_id == shuffle_id
    &&& r.request.split_threshold == 256 * 1024 * 1024
    &&& r.request.split_mode == 0
    &&& r.request.partition_type == 0
    &&& !r.request.range_read_filter
    &&& r.request.user_identifier matches Some(u) && default_user(u)
    &&& r.request.push_data_timeout == push_timeout
    &&& r.request.partition_split_enabled
    &&& r.request.available_storage_types == 2
}

/// Whether the reservations ask each worker once, for all its slots.
pub open spec fn reserves_all(
    rs: Seq<Reservation>,
    s: Seq<Slot>,
    app_id: Seq<char>,
    shuffle_id: i32,
    push_timeout: i64,
) -> bool {
    &&& forall|i: int|
        0 <= i < rs.len() ==> reserves(#[trigger] rs[i], s, app_id, shuffle_id, push_timeout)
    &&& forall|i: int, j: int|
        #![trigger rs[i], rs[j]]
        0 <= i < j < rs.len() ==> !(rs[i].host@ == rs[j].host@ && rs[i].rpc_port == rs[j].rpc_port)
    &&& forall|h: Seq<char>, p: i32| #[trigger]
        uses_worker(s, h, p) ==> exists|i: int|
            0 <= i < rs.len() && (#[trigger] rs[i]).host@ == h && rs[i].rpc_port == p
}

/// How a registration starts.
pub enum RegisterTurn {
    /// The shuffle is registered already
    Registered(i32),
    /// Ask the master for slots
    RequestSlots(PbRequestSlots),
}

/// What follows from the slots that the master allocated.
pub struct SlotPlan {
    /// The state of the shuffle
    pub state: ShuffleState,
    /// The requests to the workers
    pub reservations: Vec<Reservation>,
}

/// Why a worker did not reserve its slots.
pub struct ReserveFailure {
    pub host: String,
    pub rpc_port: i32,
    pub reason: String,
}

/// The answer of a worker to a reservation.
pub struct ReserveReply {
    pub host: String,
    pub rpc_port: i32,
    pub outcome: Result<PbReserveSlotsResponse>,
}

/// Why a reservation failed; `None` where it did not.
pub open spec fn reserve_reason(r: ReserveReply) -> Option<Seq<char>> {
    match r.outcome {
        Ok(response) => if error::succeeded(error::status_of(response.status)) {
            None
        } else {
            Some(response.reason@)
        },
        Err(e) => Some(error::error_text(e)),
    }
}

/// The failures among the answers, in their order.
pub open spec fn reserve_failures(rs: Seq<ReserveReply>) -> Seq<(Seq<char>, i32, Seq<char>)>
    decreases rs.len(),
{
    if rs.len() == 0 {
        Seq::<(Seq<char>, i32, Seq<char>)>::empty()
    } else {
        let before = reserve_failures(rs.drop_last());
        match reserve_reason(rs.last()) {
            Some(m) => before.push((rs.last().host@, rs.last().rpc_port, m)),
            None => before,
        }
    }
}

/// What a list of failures says.
pub open spec fn failure_models(fs: Seq<ReserveFailure>) -> Seq<(Seq<char>, i32, Seq<char>)> {
    Seq::new(fs.len(), |i: int| (fs[i].host@, fs[i].rpc_port, fs[i].reason@))
}

/// The locations of a table, partition by partition.
pub open spec fn walk(m: Map<i32, Seq<LocationModel>>, order: Seq<i32>) -> Seq<LocationModel>
    decreases order.len(),
{
    if order.len() == 0 {
        Seq::<LocationModel>::empty()
    } else {
        walk(m, order.drop_last()) + m[order.last()]
    }
}

/// Whether every partition of a table occurs once.
pub open spec fn orders(m: Map<i32, Seq<LocationModel>>, order: Seq<i32>) -> bool {
    order.no_duplicates() && order.to_set() == m.dom()
}

/// Whether data was pushed to the location.
pub open spec fn is_committed(l: LocationModel, committed: Set<Seq<char>>) -> bool {
    committed.contains(protocol::unique_id_text(l.id, l.epoch))
}

/// The ids of the locations with data that a worker has in one role.
pub open spec fn committed_at(
    s: Seq<LocationModel>,
    committed: Set<Seq<char>>,
    host: Seq<char>,
    port: i32,
    primary: bool,
) -> Seq<Seq<char>>
    decreases s.len(),
{
    if s.len() == 0 {
        Seq::<Seq<char>>::empty()
    } else {
        let before = committed_at(s.drop_last(), committed, host, port, primary);
        let l = s.last();
        if is_committed(l, committed) && l.host == host && l.rpc_port == port && (l.mode is Primary)
            == primary {
            before.push(protocol::unique_id_text(l.id, l.epoch))
        } else {
            before
        }
    }
}

/// Whether a worker has a location with data.
pub open spec fn commits_at(
    s: Seq<LocationModel>,
    committed: Set<Seq<char>>,
    host: Seq<char>,
    port: i32,
) -> bool
    decreases s.len(),
{
    s.len() > 0 && (commits_at(s.drop_last(), committed, host, port) || (is_committed(
        s.last(),
        committed,
    ) && s.last().host == host && s.last().rpc_port == port))
}

/// A request to commit files, and the worker that it goes to.
pub struct CommitRequest {
    pub host: String,
    pub rpc_port: i32,
    pub request: PbCommitFiles,
}

/// Whether a request names the locations with data at its worker.
pub open spec fn commits(
    r: CommitRequest,
    s: Seq<LocationModel>,
    committed: Set<Seq<char>>,
    app_id: Seq<char>,
    shuffle_id: i32,
    num_mappers: i32,
) -> bool {
    &&& commits_at(s, committed, r.host@, r.rpc_port)
    &&& tables::texts(r.request.primary_ids@) == committed_at(s, committed, r.host@, r.rpc_port, true)
    &&& tables::texts(r.request.replica_ids@) == committed_at(s, committed, r.host@, r.rpc_port, false)
    &&& r.request.application_id@ == app_id
    &&& r.request.shuffle_id == shuffle_id
    &&& r.request.map_attempts@ == Seq::new(num_mappers as nat, |i: int| 0i32)
    &&& r.request.epoch == 0
    &&& !r.request.mock_failure
}

/// Whether the requests ask each worker with data once, for all its locations with data.
pub open spec fn commits_all(
    rs: Seq<CommitRequest>,
    s: Seq<LocationModel>,
    committed: Set<Seq<char>>,
    app_id: Seq<char>,
    shuffle_id: i32,
    num_mappers: i32,
) -> bool {
    &&& forall|i: int|
        0 <= i < rs.len() ==> commits(
            #[trigger] rs[i],
            s,
            committed,
            app_id,
            shuffle_id,
            num_mappers,
        )
    &&& forall|i: int, j: int|
        #![trigger rs[i], rs[j]]
        0 <= i < j < rs.len() ==> !(rs[i].host@ == rs[j].host@ && rs[i].rpc_port == rs[j].rpc_port)
    &&& forall|h: Seq<char>, p: i32| #[trigger]
        commits_at(s, committed, h, p) ==> exists|i: int|
            0 <= i < rs.len() && (#[trigger] rs[i]).host@ == h && rs[i].rpc_port == p
}

/// The answers of the workers to the commit requests, taken together.
#[verifier::ext_equal]
pub struct CommitTotal {
    pub committed_primary_ids: Seq<String>,
    pub committed_replica_ids: Seq<String>,
    pub failed_primary_ids: Seq<String>,
    pub failed_replica_ids: Seq<String>,
    pub failures: nat,
}

/// The answers taken together, in their order.
pub open spec fn commit_total(rs: Seq<Result<PbCommitFilesResponse>>) -> CommitTotal
    decreases rs.len(),
{
    if rs.len() == 0 {
        CommitTotal {
            committed_primary_ids: Seq::<String>::empty(),
            committed_replica_ids: Seq::<String>::empty(),
            failed_primary_ids: Seq::<String>::empty(),
            failed_replica_ids: Seq::<String>::empty(),
            failures: 0,
        }
    } else {
        let t = commit_total(rs.drop_last());
        match rs.last() {
            Ok(r) => CommitTotal {
                committed_primary_ids: t.committed_primary_ids + r.committed_primary_ids@,
                committed_replica_ids: t.committed_replica_ids + r.committed_replica_ids@,
                failed_primary_ids: t.failed_primary_ids + r.failed_primary_ids@,
                failed_replica_ids: t.failed_replica_ids + r.failed_replica_ids@,
                failures: if error::succeeded(error::status_of(r.status)) {
                    t.failures
                } else {
                    t.failures + 1
                },
            },
            Err(e) => CommitTotal { failures: t.failures + 1, ..t },
        }
    }
}

/// The status of all commit requests together.
pub open spec fn commit_status(t: CommitTotal) -> StatusCode {
    if t.failures == 0 {
        StatusCode::Success
    } else if t.committed_primary_ids.len() == 0 && t.committed_replica_ids.len() == 0 {
        StatusCode::RequestFailed
    } else {
        StatusCode::PartialSuccess
    }
}

/// Whether `r` is what the answers of the workers come to.
pub open spec fn commit_reported(
    r: PbCommitFilesResponse,
    results: Seq<Result<PbCommitFilesResponse>>,
) -> bool {
    let t = commit_total(results);
    &&& r.status == error::status_code(commit_status(t))
    &&& r.committed_primary_ids@ == t.committed_primary_ids
    &&& r.committed_replica_ids@ == t.committed_replica_ids
    &&& r.failed_primary_ids@ == t.failed_primary_ids
    &&& r.failed_replica_ids@ == t.failed_replica_ids
}

/// The table that a list of file groups describes; a later group replaces an earlier one.
pub open spec fn file_groups(s: Seq<(i32, PbFileGroup)>) -> Map<i32, Seq<LocationModel>>
    decreases s.len(),
{
    if s.len() == 0 {
        Map::<i32, Seq<LocationModel>>::empty()
    } else {
        file_groups(s.drop_last()).insert(s.last().0, locations::all_located(s.last().1.locations@))
    }
}

/// Where the locations of a shuffle for its readers come from.
pub enum FileGroupTurn {
    /// The shuffle is known here
    Local(HashMap<i32, Vec<PartitionLocation>>),
    /// Ask the master
    Ask(PbGetReducerFileGroup),
}

/// Lifecycle manager for managing shuffle lifecycle.
pub struct LifecycleManager {
    /// Configuration
    pub config: CelebornConfig,
    /// Registered shuffles
    pub shuffles: ShuffleTable,
    /// Total bytes written
    pub total_written: i64,
    /// Total file count
    pub file_count: i64,
    /// Whether the manager is running
    pub running: bool,
    /// Excluded workers
    pub excluded_workers: WorkerTable,
    /// Mappers of which an attempt has finished, by shuffle
    pub ended_mappers: HashMap<i32, HashSet<i32>>,
}

/// Why a lookup finds nothing.
pub enum Missing {
    Shuffle,
    Partition,
}

/// The locations of a partition of a shuffle.
pub open spec fn lookup(
    m: Map<i32, ShuffleModel>,
    shuffle_id: i32,
    partition_id: i32,
) -> std::result::Result<Seq<LocationModel>, Missing> {
    if !m.dom().contains(shuffle_id) {
        Err(Missing::Shuffle)
    } else if !m[shuffle_id].locations.dom().contains(partition_id) {
        Err(Missing::Partition)
    } else {
        Ok(m[shuffle_id].locations[partition_id])
    }
}

/// The shuffles after a location was added to a partition. An unknown shuffle stays so.
pub open spec fn with_location(
    m: Map<i32, ShuffleModel>,
    shuffle_id: i32,
    partition_id: i32,
    location: LocationModel,
) -> Map<i32, ShuffleModel> {
    if m.dom().contains(shuffle_id) {
        let s = m[shuffle_id];
        m.insert(
            shuffle_id,
            ShuffleModel {
                locations: s.locations.insert(
                    partition_id,
                    locations::held(s.locations, partition_id).push(location),
                ),
                ..s
            },
        )
    } else {
        m
    }
}

/// The next batch id of a partition of a shuffle.
pub open spec fn batch_counter(m: Map<i32, ShuffleModel>, shuffle_id: i32, partition_id: i32) -> i32 {
    if m.dom().contains(shuffle_id) && m[shuffle_id].counters.dom().contains(partition_id) {
        m[shuffle_id].counters[partition_id]
    } else {
        0
    }
}

/// The number after `n`; the smallest one follows the largest.
pub open spec fn after(n: i32) -> i32 {
    if n == i32::MAX {
        i32::MIN
    } else {
        (n + 1) as i32
    }
}

/// The shuffles after a batch id was taken.
pub open spec fn counted(m: Map<i32, ShuffleModel>, shuffle_id: i32, partition_id: i32) -> Map<
    i32,
    ShuffleModel,
> {
    if m.dom().contains(shuffle_id) {
        let s = m[shuffle_id];
        m.insert(
            shuffle_id,
            ShuffleModel {
                counters: s.counters.insert(
                    partition_id,
                    after(batch_counter(m, shuffle_id, partition_id)),
                ),
                ..s
            },
        )
    } else {
        m
    }
}

/// A location that was added is found behind the earlier ones of its partition, and
/// nothing else changes.
pub proof fn law_added_location_is_found(
    m: Map<i32, ShuffleModel>,
    shuffle_id: i32,
    partition_id: i32,
    location: LocationModel,
)
    requires
        m.dom().contains(shuffle_id),
    ensures
        ({
            let after = with_location(m, shuffle_id, partition_id, location);
            &&& lookup(after, shuffle_id, partition_id) == Ok::<Seq<LocationModel>, Missing>(
                locations::held(m[shuffle_id].locations, partition_id).push(location),
            )
            &&& forall|s: i32, p: i32|
                #![trigger lookup(after, s, p)]
                s != shuffle_id || p != partition_id ==> lookup(after, s, p) == lookup(m, s, p)
        }),
{
}

/// Nothing is found in a shuffle that was removed; the other shuffles stay.
pub proof fn law_removed_shuffle_is_gone(m: Map<i32, ShuffleModel>, shuffle_id: i32)
    ensures
        forall|p: i32|
            (#[trigger] lookup(m.remove(shuffle_id), shuffle_id, p)) is Err && lookup(
                m.remove(shuffle_id),
                shuffle_id,
                p,
            )->Err_0 is Shuffle,
        forall|s: i32, p: i32|
            s != shuffle_id ==> #[trigger] lookup(m.remove(shuffle_id), s, p) == lookup(m, s, p),
{
}

/// The shuffles after a registration.
pub open spec fn registered(m: Map<i32, ShuffleModel>, shuffle_id: i32, state: ShuffleModel) -> Map<
    i32,
    ShuffleModel,
> {
    m.insert(shuffle_id, ShuffleModel { registered: true, ..state })
}

/// After a registration the locations of a partition are those of the slots that the
/// master allocated for it, in their order.
pub proof fn law_registered_locations_are_found(
    m: Map<i32, ShuffleModel>,
    shuffle_id: i32,
    state: ShuffleModel,
    s: Seq<Slot>,
    partition_id: i32,
)
    requires
        state.locations == by_partition(s),
    ensures
        match lookup(registered(m, shuffle_id, state), shuffle_id, partition_id) {
            Ok(found) => found == slots_for(s, partition_id) && found.len() > 0,
            Err(e) => e is Partition && slots_for(s, partition_id).len() == 0,
        },
{
    lemma_by_partition(s, partition_id);
}

/// The locations among the slots that belong to a partition.
pub open spec fn slots_for(s: Seq<Slot>, partition_id: i32) -> Seq<LocationModel>
    decreases s.len(),
{
    if s.len() == 0 {
        Seq::<LocationModel>::empty()
    } else {
        let before = slots_for(s.drop_last(), partition_id);
        if s.last().location.id == partition_id {
            before.push(locations::located(s.last().location))
        } else {
            before
        }
    }
}

proof fn lemma_by_partition(s: Seq<Slot>, partition_id: i32)
    ensures
        locations::held(by_partition(s), partition_id) == slots_for(s, partition_id),
        by_partition(s).dom().contains(partition_id) == (slots_for(s, partition_id).len() > 0),
    decreases s.len(),
{
    if s.len() > 0 {
        lemma_by_partition(s.drop_last(), partition_id);
    }
}

/// The batch ids of a partition count up by one, and those of the other partitions are
/// not touched.
pub proof fn law_batch_ids_count_up(m: Map<i32, ShuffleModel>, shuffle_id: i32, partition_id: i32)
    requires
        m.dom().contains(shuffle_id),
    ensures
        batch_counter(counted(m, shuffle_id, partition_id), shuffle_id, partition_id) == after(
            batch_counter(m, shuffle_id, partition_id),
        ),
        forall|s: i32, p: i32|
            s != shuffle_id || p != partition_id ==> #[trigger] batch_counter(
                counted(m, shuffle_id, partition_id),
                s,
                p,
            ) == batch_counter(m, s, p),
{
}

/// Whether the slots taken in so far are grouped by worker and by partition.
spec fn placed(
    groups: WorkerGroups<PbPartitionLocation>,
    state: ShuffleModel,
    s: Seq<Slot>,
) -> bool {
    &&& groups.wf()
    &&& forall|h: Seq<char>, p: i32| #[trigger] groups.knows(h, p) == uses_worker(s, h, p)
    &&& forall|h: Seq<char>, p: i32, b: bool|
        locations::pb_models(#[trigger] groups.items(h, p, b)) == at_worker(s, h, p, b)
    &&& state.locations == by_partition(s)
}

/// Takes one slot in.
fn place(
    groups: &mut WorkerGroups<PbPartitionLocation>,
    state: &mut ShuffleState,
    pb: &PbPartitionLocation,
    primary: bool,
    Ghost(s): Ghost<Seq<Slot>>,
)
    requires
        placed(*old(groups), old(state).model(), s),
    ensures
        placed(*final(groups), final(state).model(), s.push(Slot { location: pb.model(), primary })),
        final(state).model() == (ShuffleModel {
            locations: final(state).model().locations,
            ..old(state).model()
        }),
{
    let ghost t = s.push(Slot { location: pb.model(), primary });
    assert(t.drop_last() =~= s);
    let location: PartitionLocation = locations::convert_partition_location(pb);
    let host: String = location.host.clone();
    let id: i32 = location.id;
    let copy: PbPartitionLocation = pb.clone();
    groups.add_item(host.as_str(), location.rpc_port, primary, copy);
    state.partition_locations.add_location(id, location);
    proof {
        assert forall|h: Seq<char>, p: i32, b: bool|
            locations::pb_models(#[trigger] groups.items(h, p, b)) == at_worker(t, h, p, b) by {
            assert(locations::pb_models(old(groups).items(h, p, b)) == at_worker(s, h, p, b));
            assert(locations::pb_models(old(groups).items(h, p, b).push(copy)) =~= at_worker(
                s,
                h,
                p,
                b,
            ).push(pb.model()));
        }
        assert forall|h: Seq<char>, p: i32| #[trigger]
            groups.knows(h, p) == uses_worker(t, h, p) by {
            assert(old(groups).knows(h, p) == uses_worker(s, h, p));
        }
        assert(state.model().locations =~= by_partition(t));
        assert(state.model() =~= (ShuffleModel {
            locations: state.model().locations,
            ..old(state).model()
        }));
    }
}

/// Takes the slots of one list in.
fn place_all(
    groups: &mut WorkerGroups<PbPartitionLocation>,
    state: &mut ShuffleState,
    list: &Vec<PbPartitionLocation>,
    primary: bool,
    Ghost(s): Ghost<Seq<Slot>>,
)
    requires
        placed(*old(groups), old(state).model(), s),
    ensures
        placed(*final(groups), final(state).model(), s + slots_of(list@, primary)),
        final(state).model() == (ShuffleModel {
            locations: final(state).model().locations,
            ..old(state).model()
        }),
{
    let n: usize = list.len();
    let mut i: usize = 0;
    assert(s + slots_of(list@, primary).take(0) =~= s);
    while i < n
        invariant
            n == list@.len(),
            i <= n,
            placed(*groups, state.model(), s + slots_of(list@, primary).take(i as int)),
            state.model() == (ShuffleModel {
                locations: state.model().locations,
                ..old(state).model()
            }),
        decreases n - i,
    {
        let ghost t = s + slots_of(list@, primary).take(i as int);
        place(groups, state, &list[i], primary, Ghost(t));
        assert(t.push(slots_of(list@, primary)[i as int]) =~= s + slots_of(list@, primary).take(
            i + 1,
        ));
        i += 1;
    }
    assert(slots_of(list@, primary).take(n as int) =~= slots_of(list@, primary));
}

/// The user identifier that requests carry.
fn default_user_identifier() -> (r: PbUserIdentifier)
    ensures
        default_user(r),
{
    PbUserIdentifier { tenant_id: "default".to_owned(), name: "default".to_owned() }
}

/// Whether the committed ids of the locations taken in so far are grouped by worker.
spec fn gathered(
    groups: WorkerGroups<String>,
    s: Seq<LocationModel>,
    committed: Set<Seq<char>>,
) -> bool {
    &&& groups.wf()
    &&& forall|h: Seq<char>, p: i32| #[trigger]
        groups.knows(h, p) == commits_at(s, committed, h, p)
    &&& forall|h: Seq<char>, p: i32, b: bool|
        tables::texts(#[trigger] groups.items(h, p, b)) == committed_at(s, committed, h, p, b)
}

/// Takes the locations of one partition in.
fn gather(
    groups: &mut WorkerGroups<String>,
    list: &Vec<PartitionLocation>,
    committed_ids: &NameSet,
    Ghost(s): Ghost<Seq<LocationModel>>,
)
    requires
        gathered(*old(groups), s, committed_ids@),
    ensures
        gathered(*final(groups), s + locations::models(list@), committed_ids@),
{
    let ghost committed = committed_ids@;
    let n: usize = list.len();
    let mut i: usize = 0;
    assert(s + locations::models(list@).take(0) =~= s);
    while i < n
        invariant
            n == list@.len(),
            i <= n,
            committed == committed_ids@,
            gathered(*groups, s + locations::models(list@).take(i as int), committed),
        decreases n - i,
    {
        let ghost t = s + locations::models(list@).take(i as int);
        let ghost u = s + locations::models(list@).take(i + 1);
        let ghost before = *groups;
        let ghost l = list@[i as int].model();
        proof {
            assert(u =~= t.push(l));
            assert(u.drop_last() =~= t);
            assert forall|h: Seq<char>, p: i32| #[trigger]
                before.knows(h, p) == commits_at(t, committed, h, p) by {}
        }
        let loc: &PartitionLocation = &list[i];
        let unique_id: String = loc.unique_id();
        if committed_ids.contains(unique_id.as_str()) {
            let is_primary: bool = match loc.mode {
                PartitionMode::Primary => true,
                PartitionMode::Replica => false,
            };
            groups.add_item(loc.host.as_str(), loc.rpc_port, is_primary, unique_id);
            proof {
                assert forall|h: Seq<char>, p: i32, b: bool|
                    tables::texts(#[trigger] groups.items(h, p, b)) == committed_at(u, committed, h, p, b) by {
                    assert(tables::texts(before.items(h, p, b)) == committed_at(t, committed, h, p, b));
                    assert(tables::texts(before.items(h, p, b).push(unique_id)) =~= committed_at(
                        t,
                        committed,
                        h,
                        p,
                        b,
                    ).push(protocol::unique_id_text(l.id, l.epoch)));
                }
                assert forall|h: Seq<char>, p: i32| #[trigger]
                    groups.knows(h, p) == commits_at(u, committed, h, p) by {
                    assert(before.knows(h, p) == commits_at(t, committed, h, p));
                }
            }
        } else {
            proof {
                assert forall|h: Seq<char>, p: i32, b: bool|
                    tables::texts(#[trigger] groups.items(h, p, b)) == committed_at(u, committed, h, p, b) by {
                    assert(tables::texts(before.items(h, p, b)) == committed_at(t, committed, h, p, b));
                }
                assert forall|h: Seq<char>, p: i32| #[trigger]
                    groups.knows(h, p) == commits_at(u, committed, h, p) by {
                    assert(before.knows(h, p) == commits_at(t, committed, h, p));
                }
            }
        }
        i += 1;
    }
    assert(locations::models(list@).take(n as int) =~= locations::models(list@));
}

impl LifecycleManager {
    /// What the manager knows of its shuffles.
    pub open spec fn model(&self) -> Map<i32, ShuffleModel> {
        Map::new(|id: i32| self.shuffles@.dom().contains(id), |id: i32| self.shuffles@[id].model())
    }

    /// Whether nothing but the shuffles differs from `other`.
    pub open spec fn same_rest(&self, other: &LifecycleManager) -> bool {
        &&& self.config == other.config
        &&& self.total_written == other.total_written
        &&& self.file_count == other.file_count
        &&& self.running == other.running
        &&& self.excluded_workers == other.excluded_workers
        &&& self.ended_mappers == other.ended_mappers
    }

    /// Whether an attempt of a mapper has finished.
    pub open spec fn has_ended(&self, shuffle_id: i32, map_id: i32) -> bool {
        self.ended_mappers@.dom().contains(shuffle_id) && self.ended_mappers@[shuffle_id]@.contains(
            map_id,
        )
    }

    /// Create a new lifecycle manager.
    pub fn new(config: CelebornConfig) -> (r: Self)
        ensures
            r.model() == Map::<i32, ShuffleModel>::empty(),
            r.config == config,
            r.total_written == 0,
            r.file_count == 0,
            r.running,
            r.excluded_workers@ == Map::<Seq<char>, WorkerInfo>::empty(),
            forall|s: i32, m: i32| !#[trigger] r.has_ended(s, m),
    {
        let r: LifecycleManager = LifecycleManager {
            config,
            shuffles: ShuffleTable::new(),
            total_written: 0,
            file_count: 0,
            running: true,
            excluded_workers: WorkerTable::new(),
            ended_mappers: HashMap::new(),
        };
        assert(r.model() =~= Map::<i32, ShuffleModel>::empty());
        r
    }

    /// What the master is told of the application.
    pub open spec fn beats(
        &self,
        total_written: i64,
        file_count: i64,
        request_id: String,
        r: PbHeartbeatFromApplication,
    ) -> bool {
        &&& r.app_id@ == self.config.app_id@
        &&& r.total_written == total_written
        &&& r.file_count == file_count
        &&& r.request_id == request_id
        &&& r.need_checked_worker_list@.len() == 0
        &&& !r.should_response
    }

    /// The heartbeat message with the given totals.
    pub fn heartbeat_request(
        &self,
        total_written: i64,
        file_count: i64,
        request_id: String,
    ) -> (r: PbHeartbeatFromApplication)
        ensures
            self.beats(total_written, file_count, request_id, r),
    {
        PbHeartbeatFromApplication {
            app_id: self.config.app_id.clone(),
            total_written,
            file_count,
            request_id,
            need_checked_worker_list: Vec::new(),
            should_response: false,
        }
    }

    /// How a registration is answered: at once where the shuffle is known, or by asking for slots.
    pub open spec fn registers(
        &self,
        shuffle_id: i32,
        num_partitions: i32,
        hostname: String,
        request_id: String,
        r: RegisterTurn,
    ) -> bool {
        if self.model().dom().contains(shuffle_id) {
            r == RegisterTurn::Registered(shuffle_id)
        } else {
            &&& r matches RegisterTurn::RequestSlots(q)
            &&& asks_for_slots(
                q,
                self.config.app_id@,
                self.config.push_replicate_enabled,
                shuffle_id,
                num_partitions,
            )
            &&& q.hostname == hostname
            &&& q.request_id == request_id
        }
    }

    /// Register a new shuffle: the request for slots that the master is to be sent, unless
    /// the shuffle is registered already.
    pub fn register_shuffle(
        &self,
        shuffle_id: i32,
        num_partitions: i32,
        hostname: String,
        request_id: String,
    ) -> (r: RegisterTurn)
        ensures
            self.registers(shuffle_id, num_partitions, hostname, request_id, r),
    {
        if self.shuffles.contains_key(shuffle_id) {
            return RegisterTurn::Registered(shuffle_id);
        }
        let mut partition_id_list: Vec<i32> = Vec::new();
        let mut i: i32 = 0;
        while i < num_partitions
            invariant
                0 <= i,
                i <= num_partitions || (i == 0 && num_partitions < 0),
                partition_id_list@ =~= Seq::new(i as nat, |j: int| j as i32),
            decreases num_partitions - i,
        {
            partition_id_list.push(i);
            i += 1;
        }
        RegisterTurn::RequestSlots(
            PbRequestSlots {
                application_id: self.config.app_id.clone(),
                shuffle_id,
                partition_id_list,
                hostname,
                should_replicate: self.config.push_replicate_enabled,
                request_id,
                storage_type: 0,
                user_identifier: Some(default_user_identifier()),
                should_rack_aware: false,
                max_workers: 0,
                available_storage_types: 2,
            },
        )
    }

    /// What the slots of a shuffle come to: its locations and their reservations, or the error.
    pub open spec fn plans(
        &self,
        shuffle_id: i32,
        num_mappers: i32,
        num_partitions: i32,
        response: &PbRequestSlotsResponse,
        r: Result<SlotPlan>,
    ) -> bool {
        if error::succeeded(error::status_of(response.status)) {
            &&& r matches Ok(plan)
            &&& plan.state.model() == (ShuffleModel {
                locations: by_partition(slots(response.worker_resource@)),
                ..fresh_shuffle(num_mappers, num_partitions)
            })
            &&& reserves_all(
                plan.reservations@,
                slots(response.worker_resource@),
                self.config.app_id@,
                shuffle_id,
                wire::signed64(time::millis(self.config.push_timeout)),
            )
        } else {
            r matches Err(CelebornError::ServerError { status, message }) && status
                == error::status_of(response.status) && message@
                == "Failed to request slots for shuffle "@ + text::int_text(shuffle_id as int)
        }
    }

    /// Takes the slots in that the master allocated: groups the locations by partition for
    /// the state of the shuffle, and by worker for the requests to reserve them.
    pub fn slots_allocated(
        &self,
        shuffle_id: i32,
        num_mappers: i32,
        num_partitions: i32,
        response: &PbRequestSlotsResponse,
    ) -> (r: Result<SlotPlan>)
        ensures
            self.plans(shuffle_id, num_mappers, num_partitions, response, r),
    {
        let status: StatusCode = StatusCode::from(response.status);
        if !status.is_success() {
            let mut message: String = "Failed to request slots for shuffle ".to_owned();
            text::append_i64(&mut message, shuffle_id as i64);
            return Err(CelebornError::ServerError { status, message });
        }
        let mut state: ShuffleState = ShuffleState::new(num_mappers, num_partitions);
        let mut groups: WorkerGroups<PbPartitionLocation> = WorkerGroups::new();
        let workers: &Vec<(String, PbWorkerResource)> = &response.worker_resource;
        let n: usize = workers.len();
        let mut i: usize = 0;
        proof {
            assert(workers@.take(0) =~= Seq::<(String, PbWorkerResource)>::empty());
            assert(slots(workers@.take(0)) =~= Seq::<Slot>::empty());
            assert forall|h: Seq<char>, p: i32, b: bool|
                locations::pb_models(#[trigger] groups.items(h, p, b)) == at_worker(
                    Seq::<Slot>::empty(),
                    h,
                    p,
                    b,
                ) by {
                assert(!groups.knows(h, p));
                assert(locations::pb_models(groups.items(h, p, b)) =~= Seq::<
                    transport::PbLocationModel,
                >::empty());
            }
            assert(placed(groups, state.model(), Seq::<Slot>::empty()));
        }
        while i < n
            invariant
                n == workers@.len(),
                i <= n,
                placed(groups, state.model(), slots(workers@.take(i as int))),
                state.model() == (ShuffleModel {
                    locations: state.model().locations,
                    ..fresh_shuffle(num_mappers, num_partitions)
                }),
            decreases n - i,
        {
            let ghost s = slots(workers@.take(i as int));
            let worker: &PbWorkerResource = &workers[i].1;
            place_all(&mut groups, &mut state, &worker.primary_partitions, true, Ghost(s));
            place_all(
                &mut groups,
                &mut state,
                &worker.replica_partitions,
                false,
                Ghost(s + slots_of(worker.primary_partitions@, true)),
            );
            proof {
                let t = workers@.take(i + 1);
                assert(t.drop_last() =~= workers@.take(i as int));
                assert(t.last() == workers@[i as int]);
            }
            i += 1;
        }
        assert(workers@.take(n as int) =~= workers@);
        let reservations: Vec<Reservation> = self.reservations(
            shuffle_id,
            groups,
            Ghost(state.model()),
            Ghost(slots(workers@)),
        );
        Ok(SlotPlan { state, reservations })
    }

    /// The request to each worker that has a group.
    fn reservations(
        &self,
        shuffle_id: i32,
        groups: WorkerGroups<PbPartitionLocation>,
        Ghost(state): Ghost<ShuffleModel>,
        Ghost(s): Ghost<Seq<Slot>>,
    ) -> (r: Vec<Reservation>)
        requires
            placed(groups, state, s),
        ensures
            reserves_all(
                r@,
                s,
                self.config.app_id@,
                shuffle_id,
                wire::signed64(time::millis(self.config.push_timeout)),
            ),
    {
        let push_data_timeout: i64 = time::as_millis_i64(&self.config.push_timeout);
        let ghost all = groups.groups@;
        let ghost whole = groups;
        let mut rest: Vec<WorkerGroup<PbPartitionLocation>> = groups.groups;
        let mut out: Vec<Reservation> = Vec::new();
        while rest.len() > 0
            invariant
                placed(whole, state, s),
                whole.groups@ == all,
                rest@ == all.take(rest@.len() as int),
                rest@.len() + out@.len() == all.len(),
                push_data_timeout == wire::signed64(time::millis(self.config.push_timeout)),
                forall|k: int|
                    0 <= k < out@.len() ==> (#[trigger] out@[k]).host@ == all[all.len() - 1 - k].host@
                        && out@[k].rpc_port == all[all.len() - 1 - k].port && reserves(
                        out@[k],
                        s,
                        self.config.app_id@,
                        shuffle_id,
                        push_data_timeout,
                    ),
            decreases rest@.len(),
        {
            let ghost at = rest@.len() - 1;
            let last: Option<WorkerGroup<PbPartitionLocation>> = rest.pop();
            match last {
                Some(g) => {
                    proof {
                        assert(g == all[at]);
                        whole.lemma_group(at);
                        assert(whole.knows(g.host@, g.port) == uses_worker(s, g.host@, g.port));
                        assert(locations::pb_models(whole.items(g.host@, g.port, true))
                            == at_worker(s, g.host@, g.port, true));
                        assert(locations::pb_models(whole.items(g.host@, g.port, false))
                            == at_worker(s, g.host@, g.port, false));
                    }
                    let request: PbReserveSlots = PbReserveSlots {
                        application_id: self.config.app_id.clone(),
                        shuffle_id,
                        primary_locations: g.primary,
                        replica_locations: g.replica,
                        split_threshold: 256 * 1024 * 1024,
                        split_mode: 0,
                        partition_type: 0,
                        range_read_filter: false,
                        user_identifier: Some(default_user_identifier()),
                        push_data_timeout,
                        partition_split_enabled: true,
                        available_storage_types: 2,
                    };
                    out.push(Reservation { host: g.host, rpc_port: g.port, request });
                },
                None => {},
            }
        }
        proof {
            assert forall|i: int, j: int| #![trigger out@[i], out@[j]] 0 <= i < j < out@.len() implies !(
            out@[i].host@ == out@[j].host@ && out@[i].rpc_port == out@[j].rpc_port) by {
                let a = all.len() - 1 - j;
                let b = all.len() - 1 - i;
                assert(whole.groups@[a].host@ == out@[j].host@);
                assert(whole.groups@[b].host@ == out@[i].host@);
            }
            assert forall|h: Seq<char>, p: i32| #[trigger] uses_worker(s, h, p) implies exists|i: int|
                0 <= i < out@.len() && (#[trigger] out@[i]).host@ == h && out@[i].rpc_port == p by {
                assert(whole.knows(h, p));
                let k = choose|k: int| locations::group_at(whole.groups@, k, h, p);
                assert(out@[all.len() - 1 - k].host@ == h);
            }
        }
        out
    }

    /// The workers that did not reserve their slots, with the reason.
    pub fn reserve_failures(replies: Vec<ReserveReply>) -> (r: Vec<ReserveFailure>)
        ensures
            failure_models(r@) == reserve_failures(replies@),
    {
        let n: usize = replies.len();
        let mut out: Vec<ReserveFailure> = Vec::new();
        let mut i: usize = 0;
        assert(replies@.take(0) =~= Seq::<ReserveReply>::empty());
        assert(failure_models(out@) =~= reserve_failures(replies@.take(0)));
        while i < n
            invariant
                n == replies@.len(),
                i <= n,
                failure_models(out@) == reserve_failures(replies@.take(i as int)),
            decreases n - i,
        {
            let reply: &ReserveReply = &replies[i];
            let reason: Option<String> = match &reply.outcome {
                Ok(response) => {
                    if StatusCode::from(response.status).is_success() {
                        None
                    } else {
                        Some(response.reason.clone())
                    }
                },
                Err(e) => Some(e.to_string()),
            };
            let ghost before = out@;
            proof {
                let t = replies@.take(i + 1);
                assert(t.drop_last() =~= replies@.take(i as int));
                assert(t.last() == *reply);
            }
            match reason {
                Some(reason) => {
                    out.push(
                        ReserveFailure {
                            host: reply.host.clone(),
                            rpc_port: reply.rpc_port,
                            reason,
                        },
                    );
                    assert(failure_models(out@) =~= failure_models(before).push(
                        (reply.host@, reply.rpc_port, reason@),
                    ));
                },
                None => {},
            }
            i += 1;
        }
        assert(replies@.take(n as int) =~= replies@);
        out
    }

    /// Completes the registration of a shuffle, whatever the workers answered.
    pub fn slots_reserved(&mut self, shuffle_id: i32, state: ShuffleState) -> (r: i32)
        ensures
            final(self).same_rest(old(self)),
            final(self).model() == registered(old(self).model(), shuffle_id, state.model()),
            r == shuffle_id,
    {
        let ghost given = state.model();
        let mut state: ShuffleState = state;
        state.registered = true;
        let ghost stored = state;
        self.shuffles.insert(shuffle_id, state);
        proof {
            assert(stored.model() =~= (ShuffleModel { registered: true, ..given }));
            assert(self.model() =~= registered(old(self).model(), shuffle_id, given));
        }
        shuffle_id
    }

    /// Get partition location for a shuffle.
    pub fn get_partition_location(&self, shuffle_id: i32, partition_id: i32) -> (r: Result<
        Vec<PartitionLocation>,
    >)
        ensures
            match lookup(self.model(), shuffle_id, partition_id) {
                Ok(found) => r matches Ok(v) && locations::models(v@) == found,
                Err(Missing::Shuffle) => r == Err::<Vec<PartitionLocation>, CelebornError>(
                    CelebornError::ShuffleNotFound(shuffle_id),
                ),
                Err(Missing::Partition) => r == Err::<Vec<PartitionLocation>, CelebornError>(
                    CelebornError::PartitionNotFound { shuffle_id, partition_id },
                ),
            },
    {
        let read = |state: &ShuffleState| -> (v: Option<Vec<PartitionLocation>>)
            ensures
                match v {
                    Some(list) => state.partition_locations@.dom().contains(partition_id)
                        && locations::models(list@) == locations::models(
                        state.partition_locations@[partition_id]@,
                    ),
                    None => !state.partition_locations@.dom().contains(partition_id),
                },
        {
            state.partition_locations.get(partition_id)
        };
        let found: Option<Option<Vec<PartitionLocation>>> = self.shuffles.read(shuffle_id, read);
        match found {
            None => Err(CelebornError::ShuffleNotFound(shuffle_id)),
            Some(None) => Err(CelebornError::PartitionNotFound { shuffle_id, partition_id }),
            Some(Some(v)) => Ok(v),
        }
    }

    /// Update partition location.
    pub fn update_partition_location(
        &mut self,
        shuffle_id: i32,
        partition_id: i32,
        location: PartitionLocation,
    )
        ensures
            final(self).same_rest(old(self)),
            final(self).model() == with_location(
                old(self).model(),
                shuffle_id,
                partition_id,
                location.model(),
            ),
    {
        match self.shuffles.remove(shuffle_id) {
            Some(s) => {
                let ghost before = s.model();
                let mut state: ShuffleState = s;
                state.partition_locations.add_location(partition_id, location);
                let ghost stored = state;
                self.shuffles.insert(shuffle_id, state);
                proof {
                    assert(stored.model() =~= (ShuffleModel {
                        locations: before.locations.insert(
                            partition_id,
                            locations::held(before.locations, partition_id).push(location.model()),
                        ),
                        ..before
                    }));
                    assert(self.model() =~= with_location(
                        old(self).model(),
                        shuffle_id,
                        partition_id,
                        location.model(),
                    ));
                }
            },
            None => {
                assert(self.model() =~= old(self).model());
            },
        }
    }

    /// What is noted of a mapper that ended.
    pub open spec fn notes_end(
        &self,
        after: &LifecycleManager,
        shuffle_id: i32,
        map_id: i32,
        attempt_id: i32,
        num_mappers: i32,
        r: Result<bool>,
    ) -> bool {
        &&& r == Ok::<bool, CelebornError>(!self.has_ended(shuffle_id, map_id))
        &&& forall|s: i32, m: i32| #[trigger]
            after.has_ended(s, m) == (self.has_ended(s, m) || (s == shuffle_id && m
                == map_id))
        &&& *after == (LifecycleManager {
            ended_mappers: after.ended_mappers,
            ..*self
        })
    }

    /// Signal that a mapper has finished. Gives `true` if this is the first attempt of the
    /// mapper that did.
    pub fn mapper_end(
        &mut self,
        shuffle_id: i32,
        map_id: i32,
        attempt_id: i32,
        num_mappers: i32,
    ) -> (r: Result<bool>)
        ensures
            old(self).notes_end(final(self), shuffle_id, map_id, attempt_id, num_mappers, r),
    {
        let mut ended: HashSet<i32> = match self.ended_mappers.remove(&shuffle_id) {
            Some(e) => e,
            None => HashSet::new(),
        };
        let first: bool = ended.insert(map_id);
        self.ended_mappers.insert(shuffle_id, ended);
        Ok(first)
    }

    /// What is noted of data that was pushed.
    pub open spec fn notes_data(
        &self,
        after: &LifecycleManager,
        shuffle_id: i32,
        unique_id: &str,
    ) -> bool {
        after.model() == if self.model().dom().contains(shuffle_id) {
            let s = self.model()[shuffle_id];
            self.model().insert(
                shuffle_id,
                ShuffleModel { committed: s.committed.insert(unique_id@), ..s },
            )
        } else {
            self.model()
        }
    }

    /// Mark a partition as successfully pushed (written).
    pub fn add_partition_data_pushed(&mut self, shuffle_id: i32, unique_id: &str)
        ensures
            final(self).same_rest(old(self)),
            old(self).notes_data(final(self), shuffle_id, unique_id),
    {
        let ghost start = old(self).model();
        match self.shuffles.remove(shuffle_id) {
            Some(s) => {
                let ghost before = s.model();
                let mut state: ShuffleState = s;
                state.committed_ids.insert(unique_id.to_owned());
                let ghost stored = state;
                self.shuffles.insert(shuffle_id, state);
                proof {
                    assert(stored.model() =~= (ShuffleModel {
                        committed: before.committed.insert(unique_id@),
                        ..before
                    }));
                    assert(self.model() =~= start.insert(
                        shuffle_id,
                        ShuffleModel { committed: before.committed.insert(unique_id@), ..before },
                    ));
                }
            },
            None => {
                assert(self.model() =~= start);
            },
        }
    }

    /// Request Workers to commit files for a shuffle: the requests that the workers are to
    /// be sent. The ids stand in some order of the partitions.
    pub fn request_commit_files(&self, shuffle_id: i32) -> (r: Result<Vec<CommitRequest>>)
        requires
            self.model().dom().contains(shuffle_id) ==> self.model()[shuffle_id].num_mappers >= 0,
        ensures
            if self.model().dom().contains(shuffle_id) {
                r matches Ok(requests) && self.commits(
                    requests@,
                    shuffle_id,
                    self.model()[shuffle_id],
                )
            } else {
                r == Err::<Vec<CommitRequest>, CelebornError>(
                    CelebornError::ShuffleNotFound(shuffle_id),
                )
            },
    {
        let read = |state: &ShuffleState| -> (v: Vec<CommitRequest>)
            requires
                state.num_mappers >= 0,
            ensures
                self.commits(v@, shuffle_id, state.model()),
        {
            self.plan_commit(shuffle_id, state)
        };
        let planned: Option<Vec<CommitRequest>> = self.shuffles.read(shuffle_id, read);
        match planned {
            Some(requests) => Ok(requests),
            None => Err(CelebornError::ShuffleNotFound(shuffle_id)),
        }
    }

    /// Whether these are the requests that commit what a shuffle has pushed, with the ids in
    /// some order of its partitions.
    pub open spec fn commits(
        &self,
        requests: Seq<CommitRequest>,
        shuffle_id: i32,
        s: ShuffleModel,
    ) -> bool {
        exists|order: Seq<i32>| #[trigger]
            orders(s.locations, order) && commits_all(
                requests,
                walk(s.locations, order),
                s.committed,
                self.config.app_id@,
                shuffle_id,
                s.num_mappers,
            )
    }

    /// The requests that commit what a shuffle has pushed.
    fn plan_commit(&self, shuffle_id: i32, state: &ShuffleState) -> (r: Vec<CommitRequest>)
        requires
            state.num_mappers >= 0,
        ensures
            self.commits(r@, shuffle_id, state.model()),
    {
        let ghost m = state.model();
        let mut groups: WorkerGroups<String> = WorkerGroups::new();
        let order: Vec<i32> = state.partition_locations.keys();
        let n: usize = order.len();
        let mut i: usize = 0;
        proof {
            assert(m.locations.dom() =~= state.partition_locations@.dom());
            assert(order@.take(0) =~= Seq::<i32>::empty());
            assert(walk(m.locations, order@.take(0)) =~= Seq::<LocationModel>::empty());
            assert forall|h: Seq<char>, p: i32, b: bool|
                tables::texts(#[trigger] groups.items(h, p, b)) == committed_at(
                    Seq::<LocationModel>::empty(),
                    m.committed,
                    h,
                    p,
                    b,
                ) by {
                assert(!groups.knows(h, p));
                assert(tables::texts(groups.items(h, p, b)) =~= Seq::<Seq<char>>::empty());
            }
            assert(gathered(groups, Seq::<LocationModel>::empty(), m.committed));
        }
        while i < n
            invariant
                n == order@.len(),
                i <= n,
                m == state.model(),
                orders(m.locations, order@),
                gathered(groups, walk(m.locations, order@.take(i as int)), m.committed),
            decreases n - i,
        {
            let id: i32 = order[i];
            let ghost s = walk(m.locations, order@.take(i as int));
            assert(order@.to_set().contains(id));
            match state.partition_locations.get(id) {
                Some(list) => {
                    gather(&mut groups, &list, &state.committed_ids, Ghost(s));
                    assert(locations::models(list@) == m.locations[id]);
                },
                None => {},
            }
            proof {
                let t = order@.take(i + 1);
                assert(t.drop_last() =~= order@.take(i as int));
                assert(t.last() == id);
            }
            i += 1;
        }
        assert(order@.take(n as int) =~= order@);
        self.commit_requests(
            shuffle_id,
            state.num_mappers,
            groups,
            Ghost(m.committed),
            Ghost(walk(m.locations, order@)),
        )
    }

    /// The request to each worker that has a group.
    fn commit_requests(
        &self,
        shuffle_id: i32,
        num_mappers: i32,
        groups: WorkerGroups<String>,
        Ghost(committed): Ghost<Set<Seq<char>>>,
        Ghost(s): Ghost<Seq<LocationModel>>,
    ) -> (r: Vec<CommitRequest>)
        requires
            num_mappers >= 0,
            gathered(groups, s, committed),
        ensures
            commits_all(r@, s, committed, self.config.app_id@, shuffle_id, num_mappers),
    {
        let ghost all = groups.groups@;
        let ghost whole = groups;
        let mut rest: Vec<WorkerGroup<String>> = groups.groups;
        let mut out: Vec<CommitRequest> = Vec::new();
        while rest.len() > 0
            invariant
                num_mappers >= 0,
                gathered(whole, s, committed),
                whole.groups@ == all,
                rest@ == all.take(rest@.len() as int),
                rest@.len() + out@.len() == all.len(),
                forall|k: int|
                    0 <= k < out@.len() ==> (#[trigger] out@[k]).host@ == all[all.len() - 1 - k].host@
                        && out@[k].rpc_port == all[all.len() - 1 - k].port && commits(
                        out@[k],
                        s,
                        committed,
                        self.config.app_id@,
                        shuffle_id,
                        num_mappers,
                    ),
            decreases rest@.len(),
        {
            let ghost at = rest@.len() - 1;
            let last: Option<WorkerGroup<String>> = rest.pop();
            match last {
                Some(g) => {
                    proof {
                        assert(g == all[at]);
                        whole.lemma_group(at);
                        assert(whole.knows(g.host@, g.port) == commits_at(
                            s,
                            committed,
                            g.host@,
                            g.port,
                        ));
                        assert(tables::texts(whole.items(g.host@, g.port, true)) == committed_at(
                            s,
                            committed,
                            g.host@,
                            g.port,
                            true,
                        ));
                        assert(tables::texts(whole.items(g.host@, g.port, false)) == committed_at(
                            s,
                            committed,
                            g.host@,
                            g.port,
                            false,
                        ));
                    }
                    let request: PbCommitFiles = PbCommitFiles {
                        application_id: self.config.app_id.clone(),
                        shuffle_id,
                        primary_ids: g.primary,
                        replica_ids: g.replica,
                        map_attempts: first_attempts(num_mappers),
                        epoch: 0,
                        mock_failure: false,
                    };
                    out.push(CommitRequest { host: g.host, rpc_port: g.port, request });
                },
                None => {},
            }
        }
        proof {
            assert forall|i: int, j: int| #![trigger out@[i], out@[j]] 0 <= i < j < out@.len() implies !(
            out@[i].host@ == out@[j].host@ && out@[i].rpc_port == out@[j].rpc_port) by {
                let a = all.len() - 1 - j;
                let b = all.len() - 1 - i;
                assert(whole.groups@[a].host@ == out@[j].host@);
                assert(whole.groups@[b].host@ == out@[i].host@);
            }
            assert forall|h: Seq<char>, p: i32| #[trigger] commits_at(
                s,
                committed,
                h,
                p,
            ) implies exists|i: int|
                0 <= i < out@.len() && (#[trigger] out@[i]).host@ == h && out@[i].rpc_port == p by {
                assert(whole.knows(h, p));
                let k = choose|k: int| locations::group_at(whole.groups@, k, h, p);
                assert(out@[all.len() - 1 - k].host@ == h);
            }
        }
        out
    }

    /// The answers of the workers to the commit requests, taken together.
    pub fn files_committed(results: Vec<Result<PbCommitFilesResponse>>) -> (r: PbCommitFilesResponse)
        ensures
            commit_reported(r, results@),
            r.committed_primary_storage_infos@.len() == 0,
            r.committed_replica_storage_infos@.len() == 0,
            r.total_written == 0,
            r.file_count == 0,
    {
        let ghost all = results@;
        let mut response: PbCommitFilesResponse = PbCommitFilesResponse {
            status: StatusCode::Success.code(),
            committed_primary_ids: Vec::new(),
            committed_replica_ids: Vec::new(),
            failed_primary_ids: Vec::new(),
            failed_replica_ids: Vec::new(),
            committed_primary_storage_infos: Vec::new(),
            committed_replica_storage_infos: Vec::new(),
            total_written: 0,
            file_count: 0,
        };
        let mut failed: bool = false;
        let mut rest: Vec<Result<PbCommitFilesResponse>> = results;
        let n: usize = rest.len();
        let mut i: usize = 0;
        assert(all.take(0) =~= Seq::<Result<PbCommitFilesResponse>>::empty());
        while i < n
            invariant
                n == all.len(),
                i <= n,
                rest@ == all.skip(i as int),
                response.status == error::status_code(StatusCode::Success),
                response.committed_primary_ids@ == commit_total(all.take(i as int)).committed_primary_ids,
                response.committed_replica_ids@ == commit_total(all.take(i as int)).committed_replica_ids,
                response.failed_primary_ids@ == commit_total(all.take(i as int)).failed_primary_ids,
                response.failed_replica_ids@ == commit_total(all.take(i as int)).failed_replica_ids,
                failed == (commit_total(all.take(i as int)).failures > 0),
                response.committed_primary_storage_infos@.len() == 0,
                response.committed_replica_storage_infos@.len() == 0,
                response.total_written == 0,
                response.file_count == 0,
            decreases n - i,
        {
            let result: Result<PbCommitFilesResponse> = rest.remove(0);
            proof {
                let t = all.take(i + 1);
                assert(t.drop_last() =~= all.take(i as int));
                assert(t.last() == result);
                assert(rest@ =~= all.skip(i + 1));
            }
            match result {
                Ok(r) => {
                    let mut r: PbCommitFilesResponse = r;
                    if !StatusCode::from(r.status).is_success() {
                        failed = true;
                    }
                    response.committed_primary_ids.append(&mut r.committed_primary_ids);
                    response.committed_replica_ids.append(&mut r.committed_replica_ids);
                    response.failed_primary_ids.append(&mut r.failed_primary_ids);
                    response.failed_replica_ids.append(&mut r.failed_replica_ids);
                },
                Err(e) => {
                    failed = true;
                },
            }
            i += 1;
        }
        assert(all.take(n as int) =~= all);
        if failed {
            if response.committed_primary_ids.len() == 0 && response.committed_replica_ids.len() == 0 {
                response.status = StatusCode::RequestFailed.code();
            } else {
                response.status = StatusCode::PartialSuccess.code();
            }
        }
        response
    }

    /// Where the file groups of a shuffle come from.
    pub open spec fn finds_groups(&self, shuffle_id: i32, r: FileGroupTurn) -> bool {
        if self.model().dom().contains(shuffle_id) {
            r matches FileGroupTurn::Local(m) && locations::table(m@)
                == self.model()[shuffle_id].locations
        } else {
            r == FileGroupTurn::Ask(PbGetReducerFileGroup { shuffle_id })
        }
    }

    /// Get reducer file groups: the locations of a shuffle that is known here, else the
    /// request that the master is to be sent.
    pub fn get_reducer_file_group(&self, shuffle_id: i32) -> (r: FileGroupTurn)
        ensures
            self.finds_groups(shuffle_id, r),
    {
        let read = |state: &ShuffleState| -> (m: HashMap<i32, Vec<PartitionLocation>>)
            ensures
                locations::table(m@) == locations::table(state.partition_locations@),
        {
            state.partition_locations.to_map()
        };
        let known: Option<HashMap<i32, Vec<PartitionLocation>>> = self.shuffles.read(shuffle_id, read);
        match known {
            Some(groups) => FileGroupTurn::Local(groups),
            None => FileGroupTurn::Ask(PbGetReducerFileGroup { shuffle_id }),
        }
    }

    /// What the answer about file groups comes to.
    pub open spec fn groups_received(
        shuffle_id: i32,
        response: &PbGetReducerFileGroupResponse,
        r: Result<HashMap<i32, Vec<PartitionLocation>>>,
    ) -> bool {
        if error::succeeded(error::status_of(response.status)) {
            r matches Ok(m) && locations::table(m@) == file_groups(response.file_groups@)
        } else {
            r matches Err(CelebornError::ServerError { status, message }) && status
                == error::status_of(response.status) && message@
                == "Failed to get reducer file group for shuffle "@ + text::int_text(
                shuffle_id as int,
            )
        }
    }

    /// The locations in the answer of the master.
    pub fn file_group_received(shuffle_id: i32, response: &PbGetReducerFileGroupResponse) -> (r: Result<
        HashMap<i32, Vec<PartitionLocation>>,
    >)
        ensures
            Self::groups_received(shuffle_id, response, r),
    {
        let status: StatusCode = StatusCode::from(response.status);
        if !status.is_success() {
            let mut message: String = "Failed to get reducer file group for shuffle ".to_owned();
            text::append_i64(&mut message, shuffle_id as i64);
            return Err(CelebornError::ServerError { status, message });
        }
        Ok(collect_groups(&response.file_groups))
    }

    /// The request that unregisters a shuffle.
    pub fn unregister_shuffle(&self, shuffle_id: i32, request_id: String) -> (r: PbUnregisterShuffle)
        ensures
            r.app_id@ == self.config.app_id@,
            r.shuffle_id == shuffle_id,
            r.request_id == request_id,
    {
        PbUnregisterShuffle { app_id: self.config.app_id.clone(), shuffle_id, request_id }
    }

    /// What is left once a shuffle was unregistered.
    pub open spec fn forgets(&self, after: &LifecycleManager, shuffle_id: i32) -> bool {
        &&& after.model() == self.model().remove(shuffle_id)
        &&& forall|s: i32, m: i32| #[trigger]
            after.has_ended(s, m) == (self.has_ended(s, m) && s != shuffle_id)
        &&& *after == (LifecycleManager {
            shuffles: after.shuffles,
            ended_mappers: after.ended_mappers,
            ..*self
        })
    }

    /// Forgets a shuffle once the master has answered, whatever its status.
    pub fn shuffle_unregistered(&mut self, shuffle_id: i32)
        ensures
            old(self).forgets(final(self), shuffle_id),
    {
        self.shuffles.remove(shuffle_id);
        self.ended_mappers.remove(&shuffle_id);
        assert(self.model() =~= old(self).model().remove(shuffle_id));
    }

    /// What is asked for to revive a partition.
    pub open spec fn asks_to_revive(
        shuffle_id: i32,
        partition_id: i32,
        epoch: i32,
        old_location: Option<&PartitionLocation>,
        r: PbRevive,
    ) -> bool {
        &&& r.shuffle_id == shuffle_id
        &&& r.map_id@.len() == 0
        &&& r.partition_info@.len() == 1
        &&& r.partition_info@[0].partition_id == partition_id
        &&& r.partition_info@[0].epoch == epoch
        &&& r.partition_info@[0].status == error::status_code(StatusCode::Success)
        &&& match old_location {
            Some(loc) => r.partition_info@[0].partition matches Some(p) && p.model()
                == locations::described(loc.model()),
            None => r.partition_info@[0].partition is None,
        }
    }

    /// Revive a partition: the request for a new location after failure.
    pub fn revive_partition(
        shuffle_id: i32,
        partition_id: i32,
        epoch: i32,
        old_location: Option<&PartitionLocation>,
    ) -> (r: PbRevive)
        ensures
            Self::asks_to_revive(shuffle_id, partition_id, epoch, old_location, r),
    {
        let partition: Option<PbPartitionLocation> = match old_location {
            Some(loc) => Some(locations::convert_to_pb_location(loc)),
            None => None,
        };
        let mut partition_info: Vec<PbRevivePartitionInfo> = Vec::new();
        partition_info.push(
            PbRevivePartitionInfo {
                partition_id,
                epoch,
                partition,
                status: StatusCode::Success.code(),
            },
        );
        PbRevive { shuffle_id, map_id: Vec::new(), partition_info }
    }

    /// What the answer to a revival leaves behind.
    pub open spec fn notes_revival(
        &self,
        after: &LifecycleManager,
        shuffle_id: i32,
        partition_id: i32,
        response: &PbChangeLocationResponse,
        r: Result<PartitionLocation>,
    ) -> bool {
        match changed(response.partition_info@, partition_id) {
            Some(pb) => {
                &&& r matches Ok(loc)
                &&& loc.model() == locations::located(pb)
                &&& after.model() == with_location(
                    self.model(),
                    shuffle_id,
                    partition_id,
                    locations::located(pb),
                )
            },
            None => {
                &&& r == Err::<PartitionLocation, CelebornError>(
                    CelebornError::PartitionNotFound { shuffle_id, partition_id },
                )
                &&& after.model() == self.model()
            },
        }
    }

    /// Takes the new location of a partition in.
    pub fn partition_revived(
        &mut self,
        shuffle_id: i32,
        partition_id: i32,
        response: &PbChangeLocationResponse,
    ) -> (r: Result<PartitionLocation>)
        ensures
            final(self).same_rest(old(self)),
            old(self).notes_revival(final(self), shuffle_id, partition_id, response, r),
    {
        let infos: &Vec<PbChangeLocationPartitionInfo> = &response.partition_info;
        let n: usize = infos.len();
        let mut i: usize = 0;
        assert(infos@.skip(0) =~= infos@);
        while i < n
            invariant
                n == infos@.len(),
                i <= n,
                *self == *old(self),
                infos@ == response.partition_info@,
                changed(infos@.skip(i as int), partition_id) == changed(infos@, partition_id),
            decreases n - i,
        {
            assert(infos@.skip(i as int).drop_first() =~= infos@.skip(i + 1));
            let info: &PbChangeLocationPartitionInfo = &infos[i];
            if info.partition_id == partition_id {
                match &info.partition {
                    Some(pb) => {
                        let location: PartitionLocation = locations::convert_partition_location(pb);
                        self.update_partition_location(shuffle_id, partition_id, location.clone());
                        return Ok(location);
                    },
                    None => {},
                }
            }
            i += 1;
        }
        Err(CelebornError::PartitionNotFound { shuffle_id, partition_id })
    }

    /// Add bytes written.
    pub fn add_bytes_written(&mut self, bytes: i64)
        ensures
            *final(self) == (LifecycleManager {
                total_written: old(self).total_written.wrapping_add(bytes),
                ..*old(self)
            }),
    {
        self.total_written = self.total_written.wrapping_add(bytes);
    }

    /// Add file count.
    pub fn add_file_count(&mut self, count: i64)
        ensures
            *final(self) == (LifecycleManager {
                file_count: old(self).file_count.wrapping_add(count),
                ..*old(self)
            }),
    {
        self.file_count = self.file_count.wrapping_add(count);
    }

    /// Get the next batch ID for a partition.
    ///
    /// Each partition maintains its own batch ID counter that increments
    /// with each push operation. An unknown shuffle has no counters; its batches get 0.
    pub fn next_batch_id(&mut self, shuffle_id: i32, partition_id: i32) -> (r: i32)
        ensures
            final(self).same_rest(old(self)),
            r == batch_counter(old(self).model(), shuffle_id, partition_id),
            final(self).model() == counted(old(self).model(), shuffle_id, partition_id),
    {
        let ghost start = old(self).model();
        match self.shuffles.remove(shuffle_id) {
            Some(s) => {
                let ghost before = s.model();
                let mut state: ShuffleState = s;
                let id: i32 = state.batch_id_counters.count(partition_id);
                let ghost stored = state;
                self.shuffles.insert(shuffle_id, state);
                proof {
                    assert(id == batch_counter(start, shuffle_id, partition_id));
                    assert(stored.model() =~= (ShuffleModel {
                        counters: before.counters.insert(partition_id, after(id)),
                        ..before
                    }));
                    assert(self.model() =~= counted(start, shuffle_id, partition_id));
                }
                id
            },
            None => {
                assert(self.model() =~= start);
                0
            },
        }
    }

    /// Check if a worker is excluded.
    pub fn is_worker_excluded(&self, worker: &WorkerInfo) -> (r: bool)
        ensures
            r == self.excluded_workers@.dom().contains(protocol::worker_id_text(*worker)),
    {
        let id: String = worker.to_unique_id();
        self.excluded_workers.contains_key(id.as_str())
    }

    /// Stop the lifecycle manager. Gives the shuffles that are to be unregistered.
    pub fn stop(&mut self) -> (r: Vec<i32>)
        ensures
            *final(self) == (LifecycleManager { running: false, ..*old(self) }),
            r@.no_duplicates(),
            r@.to_set() == old(self).model().dom(),
    {
        self.running = false;
        let out: Vec<i32> = self.shuffles.keys();
        assert(old(self).model().dom() =~= self.shuffles@.dom());
        out
    }

    /// Get the shuffle key.
    pub fn shuffle_key(&self, shuffle_id: i32) -> (r: String)
        ensures
            r@ == text::key_text(self.config.app_id@, shuffle_id),
    {
        text::shuffle_key(self.config.app_id.as_str(), shuffle_id)
    }

    /// Get the configuration.
    pub fn config(&self) -> (r: &CelebornConfig)
        ensures
            *r == self.config,
    {
        &self.config
    }
}

/// The first location for a partition in a list of changes.
pub open spec fn changed(s: Seq<PbChangeLocationPartitionInfo>, partition_id: i32) -> Option<
    transport::PbLocationModel,
>
    decreases s.len(),
{
    if s.len() == 0 {
        None
    } else if s[0].partition_id == partition_id && s[0].partition is Some {
        Some(s[0].partition->0.model())
    } else {
        changed(s.drop_first(), partition_id)
    }
}

/// The attempt 0 for each mapper.
fn first_attempts(num_mappers: i32) -> (r: Vec<i32>)
    requires
        num_mappers >= 0,
    ensures
        r@ == Seq::new(num_mappers as nat, |i: int| 0i32),
{
    let mut out: Vec<i32> = Vec::new();
    let mut i: i32 = 0;
    while i < num_mappers
        invariant
            0 <= i <= num_mappers,
            out@ =~= Seq::new(i as nat, |j: int| 0i32),
        decreases num_mappers - i,
    {
        out.push(0);
        i += 1;
    }
    out
}

/// The table that a list of file groups describes.
fn collect_groups(groups: &Vec<(i32, PbFileGroup)>) -> (r: HashMap<i32, Vec<PartitionLocation>>)
    ensures
        locations::table(r@) == file_groups(groups@),
{
    let mut out: HashMap<i32, Vec<PartitionLocation>> = HashMap::new();
    let n: usize = groups.len();
    let mut i: usize = 0;
    assert(groups@.take(0) =~= Seq::<(i32, PbFileGroup)>::empty());
    assert(locations::table(out@) =~= file_groups(groups@.take(0)));
    while i < n
        invariant
            n == groups@.len(),
            i <= n,
            locations::table(out@) == file_groups(groups@.take(i as int)),
        decreases n - i,
    {
        let ghost before = out@;
        let id: i32 = groups[i].0;
        let list: Vec<PartitionLocation> = locations::convert_all(&groups[i].1.locations);
        let ghost found = locations::models(list@);
        out.insert(id, list);
        proof {
            let t = groups@.take(i + 1);
            assert(t.drop_last() =~= groups@.take(i as int));
            assert(t.last() == groups@[i as int]);
            assert(locations::table(out@) =~= locations::table(before).insert(id, found));
        }
        i += 1;
    }
    assert(groups@.take(n as int) =~= groups@);
    out
}

} // verus!
