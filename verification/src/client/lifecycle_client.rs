//! LifecycleManager client for Driver-Executor separation.
//!
//! The LifecycleManager runs in the driver process; an executor talks to it with the
//! requests and answers of this module. Sending them is left to the caller.

use std::collections::{HashMap, HashSet};
use std::time::Duration;

use bytes::{Bytes, BytesMut};
use vstd::prelude::*;
use vstd::string::*;

use crate::buffers;
use crate::client::lifecycle::{FileGroupTurn, LifecycleManager};
use crate::client::locations;
use crate::config::CelebornConfig;
use crate::error;
use crate::error::{CelebornError, Result, StatusCode};
use crate::network::master_rpc;
use crate::protocol;
use crate::protocol::java_serialization;
use crate::protocol::java_serialization::RpcAddress;
use crate::protocol::transport;
use crate::protocol::transport::{
    PbChangeLocationPartitionInfo, PbChangeLocationResponse, PbFileGroup, PbGetReducerFileGroup,
    PbGetReducerFileGroupResponse, PbGetShuffleId, PbMapperEnd, PbMapperEndResponse,
    PbPartitionLocation, PbRegisterShuffle, PbRegisterShuffleResponse,
    PbReportShuffleFetchFailure, PbRevive, PbRevivePartitionInfo, TransportMessageType,
};
use crate::protocol::{LocationModel, PartitionLocation, PartitionMode};
use crate::text;

verus! {

broadcast use vstd::std_specs::hash::group_hash_axioms;

/// Response from RegisterShuffle RPC.
pub struct RegisterShuffleResponse {
    /// Status code
    pub status: StatusCode,
    /// Partition locations (partition_id -> locations)
    pub partition_locations: HashMap<i32, Vec<PartitionLocation>>,
}

/// Response from MapperEnd RPC.
#[derive(Debug, Clone, Copy)]
pub struct MapperEndResponse {
    /// Status code
    pub status: StatusCode,
}

/// Response from GetReducerFileGroup RPC.
pub struct ReducerFileGroupResponse {
    /// Status code
    pub status: StatusCode,
    /// File groups (partition_id -> locations)
    pub file_groups: HashMap<i32, Vec<PartitionLocation>>,
    /// Map attempts (mapId -> attemptId)
    pub attempts: Vec<i32>,
    /// Partition IDs
    pub partition_ids: HashSet<i32>,
}

/// Response from Revive RPC.
pub struct ReviveResponse {
    /// Status code
    pub status: StatusCode,
    /// New partition locations
    pub partition_locations: Vec<PartitionLocation>,
}

/// Push failed batch information.
#[derive(Debug, Clone, Copy, PartialEq, Eq, Hash, Structural)]
pub struct PushFailedBatch {
    /// Map ID
    pub map_id: i32,
    /// Attempt ID
    pub attempt_id: i32,
    /// Batch ID
    pub batch_id: i32,
}

/// Partition info for revive request.
pub struct RevivePartitionInfo {
    /// Partition ID
    pub partition_id: i32,
    /// Current epoch
    pub epoch: i32,
    /// Old partition location (optional)
    pub old_partition: Option<PartitionLocation>,
    /// Status code indicating failure cause
    pub status: StatusCode,
}

/// A request to split a partition.
#[derive(Debug)]
pub struct PbPartitionSplit {
    pub shuffle_id: i32,
    pub partition_id: i32,
    pub epoch: i32,
    pub old_partition: Option<PbPartitionLocation>,
}

/// The location that a message form describes, without storage information. Any mode
/// number but 0 stands for a replica.
pub open spec fn plainly_located(pb: transport::PbLocationModel) -> LocationModel
    decreases pb,
{
    LocationModel {
        id: pb.id,
        epoch: pb.epoch,
        host: pb.host,
        rpc_port: pb.rpc_port,
        push_port: pb.push_port,
        fetch_port: pb.fetch_port,
        replicate_port: pb.replicate_port,
        mode: if pb.mode == 0 {
            PartitionMode::Primary
        } else {
            PartitionMode::Replica
        },
        peer: match pb.peer {
            Some(p) => Some(Box::new(plainly_located(*p))),
            None => None,
        },
        storage_info: None,
    }
}

/// The message form of a location, without storage information.
pub open spec fn plainly_described(loc: LocationModel) -> transport::PbLocationModel
    decreases loc,
{
    transport::PbLocationModel {
        mode: protocol::mode_code(loc.mode) as i32,
        id: loc.id,
        epoch: loc.epoch,
        host: loc.host,
        rpc_port: loc.rpc_port,
        push_port: loc.push_port,
        fetch_port: loc.fetch_port,
        replicate_port: loc.replicate_port,
        peer: match loc.peer {
            Some(p) => Some(Box::new(plainly_described(*p))),
            None => None,
        },
        storage_info: None,
        map_id_bitmap: Seq::<u8>::empty(),
    }
}

/// A location without its storage information and that of its peers.
pub open spec fn without_storage(loc: LocationModel) -> LocationModel
    decreases loc,
{
    LocationModel {
        peer: match loc.peer {
            Some(p) => Some(Box::new(without_storage(*p))),
            None => None,
        },
        storage_info: None,
        ..loc
    }
}

/// All of a location but its storage information survives the way into a message and back.
pub proof fn law_plain_location_round_trip(loc: LocationModel)
    ensures
        plainly_located(plainly_described(loc)) == without_storage(loc),
    decreases loc,
{
    match loc.peer {
        Some(p) => {
            law_plain_location_round_trip(*p);
        },
        None => {},
    }
}

/// The locations of a list, by partition.
pub open spec fn plainly_grouped(s: Seq<PbPartitionLocation>) -> Map<i32, Seq<LocationModel>>
    decreases s.len(),
{
    if s.len() == 0 {
        Map::<i32, Seq<LocationModel>>::empty()
    } else {
        let before = plainly_grouped(s.drop_last());
        let loc = plainly_located(s.last().model());
        before.insert(loc.id, locations::held(before, loc.id).push(loc))
    }
}

/// The locations that a list of message forms describes.
pub open spec fn all_plainly_located(s: Seq<PbPartitionLocation>) -> Seq<LocationModel> {
    Seq::new(s.len(), |i: int| plainly_located(s[i].model()))
}

/// The table that a list of file groups describes; a later group replaces an earlier one.
pub open spec fn plain_file_groups(s: Seq<(i32, PbFileGroup)>) -> Map<i32, Seq<LocationModel>>
    decreases s.len(),
{
    if s.len() == 0 {
        Map::<i32, Seq<LocationModel>>::empty()
    } else {
        plain_file_groups(s.drop_last()).insert(
            s.last().0,
            all_plainly_located(s.last().1.locations@),
        )
    }
}

/// The new locations in a list of changes.
pub open spec fn new_locations(s: Seq<PbChangeLocationPartitionInfo>) -> Seq<LocationModel>
    decreases s.len(),
{
    if s.len() == 0 {
        Seq::<LocationModel>::empty()
    } else {
        let before = new_locations(s.drop_last());
        match s.last().partition {
            Some(p) => before.push(plainly_located(p.model())),
            None => before,
        }
    }
}

/// Whether an entry of a revive request says what a `RevivePartitionInfo` says.
pub open spec fn asks_for(pb: PbRevivePartitionInfo, info: RevivePartitionInfo) -> bool {
    &&& pb.partition_id == info.partition_id
    &&& pb.epoch == info.epoch
    &&& pb.status == error::status_code(info.status)
    &&& match info.old_partition {
        Some(loc) => pb.partition matches Some(p) && p.model() == plainly_described(loc.model()),
        None => pb.partition is None,
    }
}

/// Netty RPC client for communicating with Java LifecycleManager.
pub struct NettyLifecycleManagerClient {
    /// LifecycleManager host
    pub host: String,
    /// LifecycleManager port
    pub port: i32,
    /// The address that requests name as their sender
    pub local_address: RpcAddress,
    /// RPC timeout
    pub rpc_timeout: Duration,
}

impl NettyLifecycleManagerClient {
    /// Create a new NettyLifecycleManagerClient.
    pub fn new(config: &CelebornConfig, host: String, port: i32) -> (r: Self)
        ensures
            r.host == host,
            r.port == port,
            r.local_address.host@ == "localhost"@,
            r.local_address.port == 0,
            r.rpc_timeout == config.rpc_timeout,
    {
        NettyLifecycleManagerClient {
            host,
            port,
            local_address: RpcAddress::new("localhost", 0),
            rpc_timeout: config.rpc_timeout,
        }
    }

    /// The address of the LifecycleManager as it is to be resolved.
    pub fn get_addr(&self) -> (r: String)
        ensures
            r@ == text::address_text(self.host@, self.port as int),
    {
        text::address(self.host.as_str(), self.port)
    }

    /// The body of a request to the LifecycleManager at an address.
    pub open spec fn request_body(
        &self,
        receiver: RpcAddress,
        message_type: TransportMessageType,
        payload: Seq<u8>,
    ) -> Seq<u8> {
        java_serialization::request_message(
            Some(&self.local_address),
            Some(&receiver),
            "LifecycleManagerEndpoint"@,
            transport::transport_code(message_type) as i32,
            payload,
        )
    }

    /// The frame of a request to the LifecycleManager at an address.
    pub fn encode_request(
        &self,
        receiver: &RpcAddress,
        message_type: TransportMessageType,
        payload: &[u8],
        request_id: u64,
    ) -> (r: BytesMut)
        requires
            256 + payload@.len() <= isize::MAX,
            self.request_body(*receiver, message_type, payload@).len() + 21 <= isize::MAX,
        ensures
            buffers::buffered(r) == master_rpc::request_frame(
                request_id,
                self.request_body(*receiver, message_type, payload@),
            ),
    {
        let body: Bytes = java_serialization::encode_request_message(
            Some(&self.local_address),
            Some(receiver),
            "LifecycleManagerEndpoint",
            message_type.code(),
            payload,
        );
        master_rpc::frame_request(&body, request_id)
    }

    /// Convert PbPartitionLocation to PartitionLocation.
    pub fn convert_partition_location(&self, pb: &PbPartitionLocation) -> (r: PartitionLocation)
        ensures
            r.model() == plainly_located(pb.model()),
        decreases pb,
    {
        let mode: PartitionMode = if pb.mode == 0 {
            PartitionMode::Primary
        } else {
            PartitionMode::Replica
        };
        let peer: Option<Box<PartitionLocation>> = match &pb.peer {
            Some(peer_pb) => Some(Box::new(self.convert_partition_location(&**peer_pb))),
            None => None,
        };
        proof {
            reveal_with_fuel(PartitionLocation::model, 2);
            reveal_with_fuel(PbPartitionLocation::model, 2);
            reveal_with_fuel(plainly_located, 2);
        }
        PartitionLocation {
            id: pb.id,
            epoch: pb.epoch,
            host: pb.host.clone(),
            rpc_port: pb.rpc_port,
            push_port: pb.push_port,
            fetch_port: pb.fetch_port,
            replicate_port: pb.replicate_port,
            mode,
            peer,
            storage_info: None,
        }
    }

    /// Convert PartitionLocation to PbPartitionLocation.
    pub fn convert_to_pb_location(&self, loc: &PartitionLocation) -> (r: PbPartitionLocation)
        ensures
            r.model() == plainly_described(loc.model()),
        decreases loc,
    {
        let peer: Option<Box<PbPartitionLocation>> = match &loc.peer {
            Some(p) => Some(Box::new(self.convert_to_pb_location(&**p))),
            None => None,
        };
        let map_id_bitmap: Vec<u8> = Vec::new();
        proof {
            assert(map_id_bitmap@ =~= Seq::<u8>::empty());
            reveal_with_fuel(PartitionLocation::model, 2);
            reveal_with_fuel(PbPartitionLocation::model, 2);
            reveal_with_fuel(plainly_described, 2);
        }
        PbPartitionLocation {
            mode: loc.mode.code(),
            id: loc.id,
            epoch: loc.epoch,
            host: loc.host.clone(),
            rpc_port: loc.rpc_port,
            push_port: loc.push_port,
            fetch_port: loc.fetch_port,
            replicate_port: loc.replicate_port,
            peer,
            storage_info: None,
            map_id_bitmap,
        }
    }

    /// The request that registers a shuffle.
    pub fn register_shuffle_request(
        &self,
        shuffle_id: i32,
        num_mappers: i32,
        num_partitions: i32,
    ) -> (r: PbRegisterShuffle)
        ensures
            r == (PbRegisterShuffle { shuffle_id, num_mappers, num_partitions }),
    {
        PbRegisterShuffle { shuffle_id, num_mappers, num_partitions }
    }

    /// What the answer to a registration is read as.
    pub open spec fn reads_registration(
        &self,
        response: &PbRegisterShuffleResponse,
        r: RegisterShuffleResponse,
    ) -> bool {
        &&& r.status == error::status_of(response.status)
        &&& locations::table(r.partition_locations@) == plainly_grouped(
            response.partition_locations@,
        )
    }

    /// What the answer to a registration says: its status, and the locations by partition.
    pub fn register_shuffle(&self, response: &PbRegisterShuffleResponse) -> (r:
        RegisterShuffleResponse)
        ensures
            self.reads_registration(response, r),
    {
        let list: &Vec<PbPartitionLocation> = &response.partition_locations;
        let mut partition_locations: HashMap<i32, Vec<PartitionLocation>> = HashMap::new();
        let n: usize = list.len();
        let mut i: usize = 0;
        assert(list@.take(0) =~= Seq::<PbPartitionLocation>::empty());
        assert(locations::table(partition_locations@) =~= plainly_grouped(list@.take(0)));
        while i < n
            invariant
                n == list@.len(),
                i <= n,
                locations::table(partition_locations@) == plainly_grouped(list@.take(i as int)),
            decreases n - i,
        {
            let loc: PartitionLocation = self.convert_partition_location(&list[i]);
            let id: i32 = loc.id;
            locations::add_location(&mut partition_locations, id, loc);
            proof {
                let t = list@.take(i + 1);
                assert(t.drop_last() =~= list@.take(i as int));
                assert(t.last() == list@[i as int]);
            }
            i += 1;
        }
        assert(list@.take(n as int) =~= list@);
        RegisterShuffleResponse { status: StatusCode::from(response.status), partition_locations }
    }

    /// The request that reports the end of a mapper. Batches whose push failed are not reported.
    pub fn mapper_end_request(
        &self,
        shuffle_id: i32,
        map_id: i32,
        attempt_id: i32,
        num_mappers: i32,
        partition_id: i32,
    ) -> (r: PbMapperEnd)
        ensures
            r == (PbMapperEnd { shuffle_id, map_id, attempt_id, num_mappers, partition_id }),
    {
        PbMapperEnd { shuffle_id, map_id, attempt_id, num_mappers, partition_id }
    }

    /// What the answer to the end of a mapper says.
    pub fn mapper_end(&self, response: &PbMapperEndResponse) -> (r: MapperEndResponse)
        ensures
            r.status == error::status_of(response.status),
    {
        MapperEndResponse { status: StatusCode::from(response.status) }
    }

    /// The request for the files of a shuffle.
    pub fn reducer_file_group_request(&self, shuffle_id: i32) -> (r: PbGetReducerFileGroup)
        ensures
            r == (PbGetReducerFileGroup { shuffle_id }),
    {
        PbGetReducerFileGroup { shuffle_id }
    }

    /// What the answer about file groups is read as.
    pub open spec fn reads_groups(
        &self,
        response: &PbGetReducerFileGroupResponse,
        r: ReducerFileGroupResponse,
    ) -> bool {
        &&& r.status == error::status_of(response.status)
        &&& locations::table(r.file_groups@) == plain_file_groups(response.file_groups@)
        &&& r.attempts@ == response.attempts@
        &&& r.partition_ids@ == response.partition_ids@.to_set()
    }

    /// What the answer to a request for file groups says.
    pub fn get_reducer_file_group(&self, response: &PbGetReducerFileGroupResponse) -> (r:
        ReducerFileGroupResponse)
        ensures
            self.reads_groups(response, r),
    {
        let groups: &Vec<(i32, PbFileGroup)> = &response.file_groups;
        let mut file_groups: HashMap<i32, Vec<PartitionLocation>> = HashMap::new();
        let n: usize = groups.len();
        let mut i: usize = 0;
        assert(groups@.take(0) =~= Seq::<(i32, PbFileGroup)>::empty());
        assert(locations::table(file_groups@) =~= plain_file_groups(groups@.take(0)));
        while i < n
            invariant
                n == groups@.len(),
                i <= n,
                locations::table(file_groups@) == plain_file_groups(groups@.take(i as int)),
            decreases n - i,
        {
            let ghost before = file_groups@;
            let id: i32 = groups[i].0;
            let list: Vec<PartitionLocation> = self.convert_all(&groups[i].1.locations);
            let ghost found = locations::models(list@);
            file_groups.insert(id, list);
            proof {
                let t = groups@.take(i + 1);
                assert(t.drop_last() =~= groups@.take(i as int));
                assert(t.last() == groups@[i as int]);
                assert(locations::table(file_groups@) =~= locations::table(before).insert(id, found));
            }
            i += 1;
        }
        assert(groups@.take(n as int) =~= groups@);
        let attempts: Vec<i32> = response.attempts.clone();
        assert(attempts@ =~= response.attempts@);
        ReducerFileGroupResponse {
            status: StatusCode::from(response.status),
            file_groups,
            attempts,
            partition_ids: id_set(&response.partition_ids),
        }
    }

    /// The locations that a list of message forms describes.
    fn convert_all(&self, v: &Vec<PbPartitionLocation>) -> (r: Vec<PartitionLocation>)
        ensures
            locations::models(r@) == all_plainly_located(v@),
    {
        let n: usize = v.len();
        let mut out: Vec<PartitionLocation> = Vec::new();
        let mut i: usize = 0;
        while i < n
            invariant
                n == v@.len(),
                i <= n,
                out@.len() == i,
                forall|j: int|
                    0 <= j < i ==> (#[trigger] out@[j]).model() == plainly_located(v@[j].model()),
            decreases n - i,
        {
            out.push(self.convert_partition_location(&v[i]));
            i += 1;
        }
        assert(locations::models(out@) =~= all_plainly_located(v@));
        out
    }

    /// What is asked for to revive partitions.
    pub open spec fn asks_to_revive(
        &self,
        shuffle_id: i32,
        map_ids: Vec<i32>,
        partition_infos: &Vec<RevivePartitionInfo>,
        r: PbRevive,
    ) -> bool {
        &&& r.shuffle_id == shuffle_id
        &&& r.map_id == map_ids
        &&& r.partition_info@.len() == partition_infos@.len()
        &&& forall|i: int|
            0 <= i < partition_infos@.len() ==> asks_for(
                #[trigger] r.partition_info@[i],
                partition_infos@[i],
            )
    }

    /// The request that revives partitions after push failure.
    pub fn revive_request(
        &self,
        shuffle_id: i32,
        map_ids: Vec<i32>,
        partition_infos: &Vec<RevivePartitionInfo>,
    ) -> (r: PbRevive)
        ensures
            self.asks_to_revive(shuffle_id, map_ids, partition_infos, r),
    {
        let n: usize = partition_infos.len();
        let mut out: Vec<PbRevivePartitionInfo> = Vec::new();
        let mut i: usize = 0;
        while i < n
            invariant
                n == partition_infos@.len(),
                i <= n,
                out@.len() == i,
                forall|j: int| 0 <= j < i ==> asks_for(#[trigger] out@[j], partition_infos@[j]),
            decreases n - i,
        {
            let info: &RevivePartitionInfo = &partition_infos[i];
            let partition: Option<PbPartitionLocation> = match &info.old_partition {
                Some(p) => Some(self.convert_to_pb_location(p)),
                None => None,
            };
            out.push(
                PbRevivePartitionInfo {
                    partition_id: info.partition_id,
                    epoch: info.epoch,
                    partition,
                    status: info.status.code(),
                },
            );
            i += 1;
        }
        PbRevive { shuffle_id, map_id: map_ids, partition_info: out }
    }

    /// What the answer to a revival is read as.
    pub open spec fn reads_revival(
        &self,
        response: &PbChangeLocationResponse,
        r: ReviveResponse,
    ) -> bool {
        &&& r.status == if response.partition_info@.len() == 0 {
            StatusCode::ReviveFailed
        } else {
            StatusCode::Success
        }
        &&& locations::models(r.partition_locations@) == new_locations(response.partition_info@)
    }

    /// What the answer to a revive request says. It has no status of its own; an answer
    /// without an entry is a failure.
    pub fn revive(&self, response: &PbChangeLocationResponse) -> (r: ReviveResponse)
        ensures
            self.reads_revival(response, r),
    {
        let infos: &Vec<PbChangeLocationPartitionInfo> = &response.partition_info;
        let status: StatusCode = if infos.len() == 0 {
            StatusCode::ReviveFailed
        } else {
            StatusCode::Success
        };
        let n: usize = infos.len();
        let mut out: Vec<PartitionLocation> = Vec::new();
        let mut i: usize = 0;
        assert(infos@.take(0) =~= Seq::<PbChangeLocationPartitionInfo>::empty());
        assert(locations::models(out@) =~= new_locations(infos@.take(0)));
        while i < n
            invariant
                n == infos@.len(),
                i <= n,
                locations::models(out@) == new_locations(infos@.take(i as int)),
            decreases n - i,
        {
            let ghost before = out@;
            proof {
                let t = infos@.take(i + 1);
                assert(t.drop_last() =~= infos@.take(i as int));
                assert(t.last() == infos@[i as int]);
            }
            match &infos[i].partition {
                Some(p) => {
                    let loc: PartitionLocation = self.convert_partition_location(p);
                    let ghost m = loc.model();
                    out.push(loc);
                    assert(locations::models(out@) =~= locations::models(before).push(m));
                },
                None => {},
            }
            i += 1;
        }
        assert(infos@.take(n as int) =~= infos@);
        ReviveResponse { status, partition_locations: out }
    }

    /// What is asked for to split a partition.
    pub open spec fn asks_to_split(
        &self,
        shuffle_id: i32,
        partition_id: i32,
        epoch: i32,
        old_partition: &PartitionLocation,
        r: PbPartitionSplit,
    ) -> bool {
        &&& r.shuffle_id == shuffle_id
        &&& r.partition_id == partition_id
        &&& r.epoch == epoch
        &&& r.old_partition matches Some(p) && p.model() == plainly_described(
            old_partition.model(),
        )
    }

    /// The request that splits a partition.
    pub fn partition_split_request(
        &self,
        shuffle_id: i32,
        partition_id: i32,
        epoch: i32,
        old_partition: &PartitionLocation,
    ) -> (r: PbPartitionSplit)
        ensures
            self.asks_to_split(shuffle_id, partition_id, epoch, old_partition, r),
    {
        PbPartitionSplit {
            shuffle_id,
            partition_id,
            epoch,
            old_partition: Some(self.convert_to_pb_location(old_partition)),
        }
    }

    /// The request for the shuffle id that an id of the application stands for.
    pub fn shuffle_id_request(
        &self,
        app_shuffle_id: i32,
        app_shuffle_identifier: &str,
        is_writer: bool,
    ) -> (r: PbGetShuffleId)
        ensures
            r.app_shuffle_id == app_shuffle_id,
            r.app_shuffle_identifier@ == app_shuffle_identifier@,
            r.is_shuffle_writer == is_writer,
    {
        PbGetShuffleId {
            app_shuffle_id,
            app_shuffle_identifier: app_shuffle_identifier.to_owned(),
            is_shuffle_writer: is_writer,
        }
    }

    /// The report of a shuffle whose data could not be fetched.
    pub fn fetch_failure_request(&self, app_shuffle_id: i32, shuffle_id: i32, failure_type: i32) -> (r:
        PbReportShuffleFetchFailure)
        ensures
            r == (PbReportShuffleFetchFailure { app_shuffle_id, shuffle_id, failure_type }),
    {
        PbReportShuffleFetchFailure { app_shuffle_id, shuffle_id, failure_type }
    }

    /// What the answer to a split is read as.
    pub open spec fn reads_split(
        &self,
        shuffle_id: i32,
        partition_id: i32,
        response: &PbChangeLocationResponse,
        r: Result<PartitionLocation>,
    ) -> bool {
        if response.partition_info@.len() > 0 && response.partition_info@[0].partition is Some {
            r matches Ok(loc) && loc.model() == plainly_located(
                response.partition_info@[0].partition->0.model(),
            )
        } else {
            r == Err::<PartitionLocation, CelebornError>(
                CelebornError::PartitionNotFound { shuffle_id, partition_id },
            )
        }
    }

    /// The new location in the answer to a split request: that of its first entry.
    pub fn partition_split(
        &self,
        shuffle_id: i32,
        partition_id: i32,
        response: &PbChangeLocationResponse,
    ) -> (r: Result<PartitionLocation>)
        ensures
            self.reads_split(shuffle_id, partition_id, response, r),
    {
        if response.partition_info.len() > 0 {
            match &response.partition_info[0].partition {
                Some(p) => {
                    return Ok(self.convert_partition_location(p));
                },
                None => {},
            }
        }
        Err(CelebornError::PartitionNotFound { shuffle_id, partition_id })
    }
}

/// The set of the numbers in a list.
fn id_set(ids: &Vec<i32>) -> (r: HashSet<i32>)
    ensures
        r@ == ids@.to_set(),
{
    let mut out: HashSet<i32> = HashSet::new();
    let n: usize = ids.len();
    let mut i: usize = 0;
    while i < n
        invariant
            n == ids@.len(),
            i <= n,
            forall|x: i32|
                #![trigger out@.contains(x)]
                out@.contains(x) == (exists|j: int| 0 <= j < i && ids@[j] == x),
        decreases n - i,
    {
        out.insert(ids[i]);
        i += 1;
    }
    assert(out@ =~= ids@.to_set());
    out
}

/// Local LifecycleManager client for single-process usage.
///
/// This client wraps the local LifecycleManager for cases where
/// Driver and Executor are in the same process.
pub struct LocalLifecycleManagerClient {
    /// The local LifecycleManager
    pub lifecycle_manager: LifecycleManager,
}

impl LocalLifecycleManagerClient {
    /// Create a new LocalLifecycleManagerClient.
    pub fn new(lifecycle_manager: LifecycleManager) -> (r: Self)
        ensures
            r.lifecycle_manager == lifecycle_manager,
    {
        LocalLifecycleManagerClient { lifecycle_manager }
    }

    /// The response to a registration that went well: the locations that were found for the
    /// shuffle, none where they could not be had.
    pub fn shuffle_registered(found: Result<HashMap<i32, Vec<PartitionLocation>>>) -> (r:
        RegisterShuffleResponse)
        ensures
            r.status == StatusCode::Success,
            match found {
                Ok(m) => r.partition_locations == m,
                Err(_) => r.partition_locations@ == Map::<i32, Vec<PartitionLocation>>::empty(),
            },
    {
        let partition_locations: HashMap<i32, Vec<PartitionLocation>> = match found {
            Ok(m) => m,
            Err(_) => HashMap::new(),
        };
        RegisterShuffleResponse { status: StatusCode::Success, partition_locations }
    }

    /// The response to a registration that went well: the locations that the manager knows.
    pub fn register_shuffle(&self, shuffle_id: i32) -> (r: RegisterShuffleResponse)
        requires
            self.lifecycle_manager.model().dom().contains(shuffle_id),
        ensures
            r.status == StatusCode::Success,
            locations::table(r.partition_locations@)
                == self.lifecycle_manager.model()[shuffle_id].locations,
    {
        let known: HashMap<i32, Vec<PartitionLocation>> =
            match self.lifecycle_manager.get_reducer_file_group(shuffle_id) {
            FileGroupTurn::Local(m) => m,
            FileGroupTurn::Ask(_) => HashMap::new(),
        };
        Self::shuffle_registered(Ok(known))
    }

    /// The response to the end of a mapper that the manager took note of.
    pub fn mapper_ended(noted: Result<bool>) -> (r: Result<MapperEndResponse>)
        ensures
            r == match noted {
                Ok(_) => Ok::<MapperEndResponse, CelebornError>(
                    MapperEndResponse { status: StatusCode::Success },
                ),
                Err(e) => Err(e),
            },
    {
        match noted {
            Ok(_) => Ok(MapperEndResponse { status: StatusCode::Success }),
            Err(e) => Err(e),
        }
    }

    /// The response with the locations that took the place of the failed ones.
    pub fn partitions_revived(partition_locations: Vec<PartitionLocation>) -> (r: ReviveResponse)
        ensures
            r == (ReviveResponse { status: StatusCode::Success, partition_locations }),
    {
        ReviveResponse { status: StatusCode::Success, partition_locations }
    }

    /// Takes note that a mapper has finished.
    pub fn mapper_end(
        &mut self,
        shuffle_id: i32,
        map_id: i32,
        attempt_id: i32,
        num_mappers: i32,
    ) -> (r: Result<MapperEndResponse>)
        ensures
            r == Ok::<MapperEndResponse, CelebornError>(
                MapperEndResponse { status: StatusCode::Success },
            ),
            final(self).lifecycle_manager.has_ended(shuffle_id, map_id),
            forall|s: i32, m: i32|
                s != shuffle_id || m != map_id ==> #[trigger] final(self).lifecycle_manager.has_ended(
                    s,
                    m,
                ) == old(self).lifecycle_manager.has_ended(s, m),
            final(self).lifecycle_manager == (LifecycleManager {
                ended_mappers: final(self).lifecycle_manager.ended_mappers,
                ..old(self).lifecycle_manager
            }),
    {
        let noted: Result<bool> = self.lifecycle_manager.mapper_end(
            shuffle_id,
            map_id,
            attempt_id,
            num_mappers,
        );
        Self::mapper_ended(noted)
    }

    /// The response with the locations that were found for a shuffle.
    pub fn get_reducer_file_group(file_groups: HashMap<i32, Vec<PartitionLocation>>) -> (r:
        ReducerFileGroupResponse)
        ensures
            r.status == StatusCode::Success,
            r.file_groups == file_groups,
            r.attempts@.len() == 0,
            r.partition_ids@ == Set::<i32>::empty(),
    {
        ReducerFileGroupResponse {
            status: StatusCode::Success,
            file_groups,
            attempts: Vec::new(),
            partition_ids: HashSet::new(),
        }
    }

    /// In local mode, app_shuffle_id is the same as shuffle_id.
    pub fn get_shuffle_id(
        &self,
        app_shuffle_id: i32,
        app_shuffle_identifier: &str,
        is_writer: bool,
    ) -> (r: Result<i32>)
        ensures
            r == Ok::<i32, CelebornError>(app_shuffle_id),
    {
        Ok(app_shuffle_id)
    }

    /// In local mode, just return success.
    pub fn report_shuffle_fetch_failure(
        &self,
        app_shuffle_id: i32,
        shuffle_id: i32,
        failure_type: i32,
    ) -> (r: Result<bool>)
        ensures
            r == Ok::<bool, CelebornError>(true),
    {
        Ok(true)
    }
}

} // verus!
