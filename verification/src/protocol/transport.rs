//! Transport message types for Celeborn RPC.
//!
//! These are the protobuf-based messages used for control plane communication.

use bytes::Bytes;
use vstd::prelude::*;
use vstd::string::*;

use crate::buffers;
use crate::error::{IoError, IoErrorKind};
use crate::protocol;
use crate::protocol::Outcome;
use crate::text;
use crate::wire;

verus! {

/// Transport message type identifiers.
#[derive(Debug, Clone, Copy, PartialEq, Eq, Structural)]
pub enum TransportMessageType {
    UnknownMessage,
    RegisterWorker,
    HeartbeatFromWorker,
    HeartbeatFromWorkerResponse,
    RegisterShuffle,
    RegisterShuffleResponse,
    RequestSlots,
    ReleaseSlots,
    ReleaseSlotsResponse,
    RequestSlotsResponse,
    ChangeLocation,
    ChangeLocationResponse,
    MapperEnd,
    MapperEndResponse,
    GetReducerFileGroup,
    GetReducerFileGroupResponse,
    UnregisterShuffle,
    UnregisterShuffleResponse,
    ApplicationLost,
    ApplicationLostResponse,
    HeartbeatFromApplication,
    CheckQuota,
    CheckQuotaResponse,
    ReportWorkerFailure,
    RegisterWorkerResponse,
    ReserveSlots,
    ReserveSlotsResponse,
    CommitFiles,
    CommitFilesResponse,
    Destroy,
    DestroyResponse,
    RemoveExpiredShuffle,
    OneWayMessageResponse,
    CheckWorkerTimeout,
    CheckApplicationTimeout,
    WorkerLost,
    WorkerLostResponse,
    StageEnd,
    StageEndResponse,
    PartitionSplit,
    RegisterMapPartitionTask,
    HeartbeatFromApplicationResponse,
    CheckForHdfsExpiredDirsTimeout,
    OpenStream,
    StreamHandler,
    CheckWorkersAvailable,
    CheckWorkersAvailableResponse,
    RemoveWorkersUnavailableInfo,
    PushDataHandShake,
    RegionStart,
    RegionFinish,
    BacklogAnnouncement,
    BufferStreamEnd,
    ReadAddCredit,
    StreamChunkSlice,
    ChunkFetchRequest,
    TransportableError,
    WorkerExclude,
    WorkerExcludeResponse,
    ReportShuffleFetchFailure,
    ReportShuffleFetchFailureResponse,
    GetShuffleId,
    GetShuffleIdResponse,
    SaslRequest,
}

/// The number of a transport message type on the wire.
pub open spec fn transport_code(t: TransportMessageType) -> int {
    match t {
        TransportMessageType::UnknownMessage => 0,
        TransportMessageType::RegisterWorker => 1,
        TransportMessageType::HeartbeatFromWorker => 2,
        TransportMessageType::HeartbeatFromWorkerResponse => 3,
        TransportMessageType::RegisterShuffle => 4,
        TransportMessageType::RegisterShuffleResponse => 5,
        TransportMessageType::RequestSlots => 6,
        TransportMessageType::ReleaseSlots => 7,
        TransportMessageType::ReleaseSlotsResponse => 8,
        TransportMessageType::RequestSlotsResponse => 9,
        TransportMessageType::ChangeLocation => 10,
        TransportMessageType::ChangeLocationResponse => 11,
        TransportMessageType::MapperEnd => 12,
        TransportMessageType::MapperEndResponse => 13,
        TransportMessageType::GetReducerFileGroup => 14,
        TransportMessageType::GetReducerFileGroupResponse => 15,
        TransportMessageType::UnregisterShuffle => 16,
        TransportMessageType::UnregisterShuffleResponse => 17,
        TransportMessageType::ApplicationLost => 18,
        TransportMessageType::ApplicationLostResponse => 19,
        TransportMessageType::HeartbeatFromApplication => 20,
        TransportMessageType::CheckQuota => 23,
        TransportMessageType::CheckQuotaResponse => 24,
        TransportMessageType::ReportWorkerFailure => 25,
        TransportMessageType::RegisterWorkerResponse => 26,
        TransportMessageType::ReserveSlots => 28,
        TransportMessageType::ReserveSlotsResponse => 29,
        TransportMessageType::CommitFiles => 30,
        TransportMessageType::CommitFilesResponse => 31,
        TransportMessageType::Destroy => 32,
        TransportMessageType::DestroyResponse => 33,
        TransportMessageType::RemoveExpiredShuffle => 39,
        TransportMessageType::OneWayMessageResponse => 40,
        TransportMessageType::CheckWorkerTimeout => 41,
        TransportMessageType::CheckApplicationTimeout => 42,
        TransportMessageType::WorkerLost => 43,
        TransportMessageType::WorkerLostResponse => 44,
        TransportMessageType::StageEnd => 45,
        TransportMessageType::StageEndResponse => 46,
        TransportMessageType::PartitionSplit => 47,
        TransportMessageType::RegisterMapPartitionTask => 48,
        TransportMessageType::HeartbeatFromApplicationResponse => 49,
        TransportMessageType::CheckForHdfsExpiredDirsTimeout => 50,
        TransportMessageType::OpenStream => 51,
        TransportMessageType::StreamHandler => 52,
        TransportMessageType::CheckWorkersAvailable => 53,
        TransportMessageType::CheckWorkersAvailableResponse => 54,
        TransportMessageType::RemoveWorkersUnavailableInfo => 55,
        TransportMessageType::PushDataHandShake => 56,
        TransportMessageType::RegionStart => 57,
        TransportMessageType::RegionFinish => 58,
        TransportMessageType::BacklogAnnouncement => 59,
        TransportMessageType::BufferStreamEnd => 60,
        TransportMessageType::ReadAddCredit => 61,
        TransportMessageType::StreamChunkSlice => 62,
        TransportMessageType::ChunkFetchRequest => 63,
        TransportMessageType::TransportableError => 64,
        TransportMessageType::WorkerExclude => 65,
        TransportMessageType::WorkerExcludeResponse => 66,
        TransportMessageType::ReportShuffleFetchFailure => 67,
        TransportMessageType::ReportShuffleFetchFailureResponse => 68,
        TransportMessageType::GetShuffleId => 69,
        TransportMessageType::GetShuffleIdResponse => 70,
        TransportMessageType::SaslRequest => 71,
    }
}

/// The transport message type that a number on the wire stands for; an unassigned
/// number is `UnknownMessage`.
pub open spec fn transport_type_of(value: i32) -> TransportMessageType {
    if value == 1 {
        TransportMessageType::RegisterWorker
    } else if value == 2 {
        TransportMessageType::HeartbeatFromWorker
    } else if value == 3 {
        TransportMessageType::HeartbeatFromWorkerResponse
    } else if value == 4 {
        TransportMessageType::RegisterShuffle
    } else if value == 5 {
        TransportMessageType::RegisterShuffleResponse
    } else if value == 6 {
        TransportMessageType::RequestSlots
    } else if value == 7 {
        TransportMessageType::ReleaseSlots
    } else if value == 8 {
        TransportMessageType::ReleaseSlotsResponse
    } else if value == 9 {
        TransportMessageType::RequestSlotsResponse
    } else if value == 10 {
        TransportMessageType::ChangeLocation
    } else if value == 11 {
        TransportMessageType::ChangeLocationResponse
    } else if value == 12 {
        TransportMessageType::MapperEnd
    } else if value == 13 {
        TransportMessageType::MapperEndResponse
    } else if value == 14 {
        TransportMessageType::GetReducerFileGroup
    } else if value == 15 {
        TransportMessageType::GetReducerFileGroupResponse
    } else if value == 16 {
        TransportMessageType::UnregisterShuffle
    } else if value == 17 {
        TransportMessageType::UnregisterShuffleResponse
    } else if value == 18 {
        TransportMessageType::ApplicationLost
    } else if value == 19 {
        TransportMessageType::ApplicationLostResponse
    } else if value == 20 {
        TransportMessageType::HeartbeatFromApplication
    } else if value == 23 {
        TransportMessageType::CheckQuota
    } else if value == 24 {
        TransportMessageType::CheckQuotaResponse
    } else if value == 25 {
        TransportMessageType::ReportWorkerFailure
    } else if value == 26 {
        TransportMessageType::RegisterWorkerResponse
    } else if value == 28 {
        TransportMessageType::ReserveSlots
    } else if value == 29 {
        TransportMessageType::ReserveSlotsResponse
    } else if value == 30 {
        TransportMessageType::CommitFiles
    } else if value == 31 {
        TransportMessageType::CommitFilesResponse
    } else if value == 32 {
        TransportMessageType::Destroy
    } else if value == 33 {
        TransportMessageType::DestroyResponse
    } else if value == 39 {
        TransportMessageType::RemoveExpiredShuffle
    } else if value == 40 {
        TransportMessageType::OneWayMessageResponse
    } else if value == 41 {
        TransportMessageType::CheckWorkerTimeout
    } else if value == 42 {
        TransportMessageType::CheckApplicationTimeout
    } else if value == 43 {
        TransportMessageType::WorkerLost
    } else if value == 44 {
        TransportMessageType::WorkerLostResponse
    } else if value == 45 {
        TransportMessageType::StageEnd
    } else if value == 46 {
        TransportMessageType::StageEndResponse
    } else if value == 47 {
        TransportMessageType::PartitionSplit
    } else if value == 48 {
        TransportMessageType::RegisterMapPartitionTask
    } else if value == 49 {
        TransportMessageType::HeartbeatFromApplicationResponse
    } else if value == 50 {
        TransportMessageType::CheckForHdfsExpiredDirsTimeout
    } else if value == 51 {
        TransportMessageType::OpenStream
    } else if value == 52 {
        TransportMessageType::StreamHandler
    } else if value == 53 {
        TransportMessageType::CheckWorkersAvailable
    } else if value == 54 {
        TransportMessageType::CheckWorkersAvailableResponse
    } else if value == 55 {
        TransportMessageType::RemoveWorkersUnavailableInfo
    } else if value == 56 {
        TransportMessageType::PushDataHandShake
    } else if value == 57 {
        TransportMessageType::RegionStart
    } else if value == 58 {
        TransportMessageType::RegionFinish
    } else if value == 59 {
        TransportMessageType::BacklogAnnouncement
    } else if value == 60 {
        TransportMessageType::BufferStreamEnd
    } else if value == 61 {
        TransportMessageType::ReadAddCredit
    } else if value == 62 {
        TransportMessageType::StreamChunkSlice
    } else if value == 63 {
        TransportMessageType::ChunkFetchRequest
    } else if value == 64 {
        TransportMessageType::TransportableError
    } else if value == 65 {
        TransportMessageType::WorkerExclude
    } else if value == 66 {
        TransportMessageType::WorkerExcludeResponse
    } else if value == 67 {
        TransportMessageType::ReportShuffleFetchFailure
    } else if value == 68 {
        TransportMessageType::ReportShuffleFetchFailureResponse
    } else if value == 69 {
        TransportMessageType::GetShuffleId
    } else if value == 70 {
        TransportMessageType::GetShuffleIdResponse
    } else if value == 71 {
        TransportMessageType::SaslRequest
    } else {
        TransportMessageType::UnknownMessage
    }
}

impl From<i32> for TransportMessageType {
    fn from(value: i32) -> (r: Self) {
        match value {
            1 => TransportMessageType::RegisterWorker,
            2 => TransportMessageType::HeartbeatFromWorker,
            3 => TransportMessageType::HeartbeatFromWorkerResponse,
            4 => TransportMessageType::RegisterShuffle,
            5 => TransportMessageType::RegisterShuffleResponse,
            6 => TransportMessageType::RequestSlots,
            7 => TransportMessageType::ReleaseSlots,
            8 => TransportMessageType::ReleaseSlotsResponse,
            9 => TransportMessageType::RequestSlotsResponse,
            10 => TransportMessageType::ChangeLocation,
            11 => TransportMessageType::ChangeLocationResponse,
            12 => TransportMessageType::MapperEnd,
            13 => TransportMessageType::MapperEndResponse,
            14 => TransportMessageType::GetReducerFileGroup,
            15 => TransportMessageType::GetReducerFileGroupResponse,
            16 => TransportMessageType::UnregisterShuffle,
            17 => TransportMessageType::UnregisterShuffleResponse,
            18 => TransportMessageType::ApplicationLost,
            19 => TransportMessageType::ApplicationLostResponse,
            20 => TransportMessageType::HeartbeatFromApplication,
            23 => TransportMessageType::CheckQuota,
            24 => TransportMessageType::CheckQuotaResponse,
            25 => TransportMessageType::ReportWorkerFailure,
            26 => TransportMessageType::RegisterWorkerResponse,
            28 => TransportMessageType::ReserveSlots,
            29 => TransportMessageType::ReserveSlotsResponse,
            30 => TransportMessageType::CommitFiles,
            31 => TransportMessageType::CommitFilesResponse,
            32 => TransportMessageType::Destroy,
            33 => TransportMessageType::DestroyResponse,
            39 => TransportMessageType::RemoveExpiredShuffle,
            40 => TransportMessageType::OneWayMessageResponse,
            41 => TransportMessageType::CheckWorkerTimeout,
            42 => TransportMessageType::CheckApplicationTimeout,
            43 => TransportMessageType::WorkerLost,
            44 => TransportMessageType::WorkerLostResponse,
            45 => TransportMessageType::StageEnd,
            46 => TransportMessageType::StageEndResponse,
            47 => TransportMessageType::PartitionSplit,
            48 => TransportMessageType::RegisterMapPartitionTask,
            49 => TransportMessageType::HeartbeatFromApplicationResponse,
            50 => TransportMessageType::CheckForHdfsExpiredDirsTimeout,
            51 => TransportMessageType::OpenStream,
            52 => TransportMessageType::StreamHandler,
            53 => TransportMessageType::CheckWorkersAvailable,
            54 => TransportMessageType::CheckWorkersAvailableResponse,
            55 => TransportMessageType::RemoveWorkersUnavailableInfo,
            56 => TransportMessageType::PushDataHandShake,
            57 => TransportMessageType::RegionStart,
            58 => TransportMessageType::RegionFinish,
            59 => TransportMessageType::BacklogAnnouncement,
            60 => TransportMessageType::BufferStreamEnd,
            61 => TransportMessageType::ReadAddCredit,
            62 => TransportMessageType::StreamChunkSlice,
            63 => TransportMessageType::ChunkFetchRequest,
            64 => TransportMessageType::TransportableError,
            65 => TransportMessageType::WorkerExclude,
            66 => TransportMessageType::WorkerExcludeResponse,
            67 => TransportMessageType::ReportShuffleFetchFailure,
            68 => TransportMessageType::ReportShuffleFetchFailureResponse,
            69 => TransportMessageType::GetShuffleId,
            70 => TransportMessageType::GetShuffleIdResponse,
            71 => TransportMessageType::SaslRequest,
            _ => TransportMessageType::UnknownMessage,
        }
    }
}

impl vstd::std_specs::convert::FromSpecImpl<i32> for TransportMessageType {
    open spec fn obeys_from_spec() -> bool {
        true
    }

    open spec fn from_spec(value: i32) -> Self {
        transport_type_of(value)
    }
}

impl TransportMessageType {
    /// The number of this message type on the wire.
    pub fn code(&self) -> (r: i32)
        ensures
            r == transport_code(*self),
    {
        match self {
            TransportMessageType::UnknownMessage => 0,
            TransportMessageType::RegisterWorker => 1,
            TransportMessageType::HeartbeatFromWorker => 2,
            TransportMessageType::HeartbeatFromWorkerResponse => 3,
            TransportMessageType::RegisterShuffle => 4,
            TransportMessageType::RegisterShuffleResponse => 5,
            TransportMessageType::RequestSlots => 6,
            TransportMessageType::ReleaseSlots => 7,
            TransportMessageType::ReleaseSlotsResponse => 8,
            TransportMessageType::RequestSlotsResponse => 9,
            TransportMessageType::ChangeLocation => 10,
            TransportMessageType::ChangeLocationResponse => 11,
            TransportMessageType::MapperEnd => 12,
            TransportMessageType::MapperEndResponse => 13,
            TransportMessageType::GetReducerFileGroup => 14,
            TransportMessageType::GetReducerFileGroupResponse => 15,
            TransportMessageType::UnregisterShuffle => 16,
            TransportMessageType::UnregisterShuffleResponse => 17,
            TransportMessageType::ApplicationLost => 18,
            TransportMessageType::ApplicationLostResponse => 19,
            TransportMessageType::HeartbeatFromApplication => 20,
            TransportMessageType::CheckQuota => 23,
            TransportMessageType::CheckQuotaResponse => 24,
            TransportMessageType::ReportWorkerFailure => 25,
            TransportMessageType::RegisterWorkerResponse => 26,
            TransportMessageType::ReserveSlots => 28,
            TransportMessageType::ReserveSlotsResponse => 29,
            TransportMessageType::CommitFiles => 30,
            TransportMessageType::CommitFilesResponse => 31,
            TransportMessageType::Destroy => 32,
            TransportMessageType::DestroyResponse => 33,
            TransportMessageType::RemoveExpiredShuffle => 39,
            TransportMessageType::OneWayMessageResponse => 40,
            TransportMessageType::CheckWorkerTimeout => 41,
            TransportMessageType::CheckApplicationTimeout => 42,
            TransportMessageType::WorkerLost => 43,
            TransportMessageType::WorkerLostResponse => 44,
            TransportMessageType::StageEnd => 45,
            TransportMessageType::StageEndResponse => 46,
            TransportMessageType::PartitionSplit => 47,
            TransportMessageType::RegisterMapPartitionTask => 48,
            TransportMessageType::HeartbeatFromApplicationResponse => 49,
            TransportMessageType::CheckForHdfsExpiredDirsTimeout => 50,
            TransportMessageType::OpenStream => 51,
            TransportMessageType::StreamHandler => 52,
            TransportMessageType::CheckWorkersAvailable => 53,
            TransportMessageType::CheckWorkersAvailableResponse => 54,
            TransportMessageType::RemoveWorkersUnavailableInfo => 55,
            TransportMessageType::PushDataHandShake => 56,
            TransportMessageType::RegionStart => 57,
            TransportMessageType::RegionFinish => 58,
            TransportMessageType::BacklogAnnouncement => 59,
            TransportMessageType::BufferStreamEnd => 60,
            TransportMessageType::ReadAddCredit => 61,
            TransportMessageType::StreamChunkSlice => 62,
            TransportMessageType::ChunkFetchRequest => 63,
            TransportMessageType::TransportableError => 64,
            TransportMessageType::WorkerExclude => 65,
            TransportMessageType::WorkerExcludeResponse => 66,
            TransportMessageType::ReportShuffleFetchFailure => 67,
            TransportMessageType::ReportShuffleFetchFailureResponse => 68,
            TransportMessageType::GetShuffleId => 69,
            TransportMessageType::GetShuffleIdResponse => 70,
            TransportMessageType::SaslRequest => 71,
        }
    }
}

/// Reading the number of a transport message type gives the type back.
pub proof fn law_transport_type_round_trip(t: TransportMessageType)
    ensures
        transport_type_of(transport_code(t) as i32) == t,
        0 <= transport_code(t) <= i32::MAX,
{
}

/// A number that is assigned to a transport message type stands for that type alone.
pub proof fn law_transport_type_numbers(value: i32)
    ensures
        transport_type_of(value) != TransportMessageType::UnknownMessage ==> transport_code(
            transport_type_of(value),
        ) == value,
{
}

/// A transport message wrapper that holds the message type.
#[derive(Debug)]
pub struct TransportMessage {
    /// Message type
    pub message_type: TransportMessageType,
    /// Serialized message payload
    pub payload: Bytes,
}

impl View for TransportMessage {
    type V = (TransportMessageType, Seq<u8>);

    open spec fn view(&self) -> (TransportMessageType, Seq<u8>) {
        (self.message_type, buffers::octets(self.payload))
    }
}

/// What the bytes `s` decode to. Bytes behind the payload are ignored.
pub open spec fn parse_transport_message(s: Seq<u8>) -> Outcome<(TransportMessageType, Seq<u8>)> {
    if s.len() < 8 {
        protocol::eof("Not enough bytes for transport message header"@)
    } else {
        let n = wire::i32_at(s.skip(4)) as int;
        if n < 0 || s.len() < 8 + n {
            protocol::eof(short_message_text(n, (s.len() - 8) as nat))
        } else {
            Outcome::Done((transport_type_of(wire::i32_at(s)), s.subrange(8, 8 + n)))
        }
    }
}

/// The text for a message with `have` bytes of payload where `need` were announced. A
/// negative announcement shows as the unsigned 64-bit number with the same bits.
pub open spec fn short_message_text(need: int, have: nat) -> Seq<char> {
    "Not enough bytes for payload: expected "@ + text::nat_text(
        if need < 0 {
            (need + 0x1_0000_0000_0000_0000) as nat
        } else {
            need as nat
        },
    ) + ", got "@ + text::nat_text(have)
}

/// Whether a message announces a length for which the end of the payload has no
/// position: a length from -8 to -1.
pub open spec fn length_unreadable(s: Seq<u8>) -> bool {
    s.len() >= 8 && -8 <= wire::i32_at(s.skip(4)) < 0
}

impl TransportMessage {
    /// Create a new transport message.
    pub fn new(message_type: TransportMessageType, payload: Bytes) -> (r: Self)
        ensures
            r == (TransportMessage { message_type, payload }),
    {
        TransportMessage { message_type, payload }
    }

    /// Encode the transport message to bytes.
    /// Format: messageTypeValue (4B) + payloadLen (4B) + payload
    pub fn encode(&self) -> (r: Bytes)
        requires
            8 + buffers::octets(self.payload).len() <= isize::MAX,
        ensures
            buffers::octets(r) == protocol::transport_frame(
                transport_code(self.message_type) as i32,
                buffers::octets(self.payload),
            ),
    {
        buffers::buffer_freeze(
            protocol::encode_transport_message(
                self.message_type.code(),
                buffers::bytes_as_slice(&self.payload),
            ),
        )
    }

    /// Decode a transport message from bytes.
    /// Format: messageTypeValue (4B) + payloadLen (4B) + payload
    pub fn decode(data: Bytes) -> (r: std::result::Result<Self, IoError>)
        requires
            !length_unreadable(buffers::octets(data)),
        ensures
            protocol::agrees(r, parse_transport_message(buffers::octets(data))),
    {
        let len: usize = buffers::bytes_len(&data);
        if len < 8 {
            return Err(protocol::eof_error("Not enough bytes for transport message header"));
        }
        let ghost s = buffers::octets(data);
        let head: &[u8] = buffers::bytes_as_slice(&data);
        let type_value: i32 = wire::read_i32(head, 0);
        let n: i32 = wire::read_i32(head, 4);
        assert(s.subrange(0, 4) =~= s.take(4));
        assert(s.subrange(4, 8) =~= s.skip(4).take(4));
        if n < 0 || len - 8 < n as usize {
            let need: u64 = if n < 0 {
                (n as i128 + 0x1_0000_0000_0000_0000) as u64
            } else {
                n as u64
            };
            let mut m: String = String::from_str("Not enough bytes for payload: expected ");
            text::append_u64(&mut m, need);
            m.append(", got ");
            text::append_u64(&mut m, (len - 8) as u64);
            return Err(IoError { kind: IoErrorKind::UnexpectedEof, message: m });
        }
        let payload: Bytes = buffers::bytes_slice(&data, 8, 8 + n as usize);
        Ok(TransportMessage { message_type: TransportMessageType::from(type_value), payload })
    }
}

/// An encoded message with a payload of less than 2^31 bytes decodes to itself.
pub proof fn law_transport_message_round_trip(m: TransportMessage)
    requires
        buffers::octets(m.payload).len() <= i32::MAX,
    ensures
        parse_transport_message(
            protocol::transport_frame(transport_code(m.message_type) as i32, buffers::octets(m.payload)),
        ) == Outcome::Done(m@),
        !length_unreadable(
            protocol::transport_frame(transport_code(m.message_type) as i32, buffers::octets(m.payload)),
        ),
{
    broadcast use wire::lemma_be_len;
    let payload = buffers::octets(m.payload);
    let code = transport_code(m.message_type) as i32;
    let n = wire::signed32(payload.len());
    let s = protocol::transport_frame(code, payload);
    assert(s =~= wire::be_i32(code) + (wire::be_i32(n) + payload));
    wire::lemma_i32_at(code, wire::be_i32(n) + payload);
    wire::lemma_i32_at(n, payload);
    assert(s.subrange(8, 8 + n) =~= payload);
}

/// User identifier for quota management.
#[derive(Debug, PartialEq)]
pub struct PbUserIdentifier {
    pub tenant_id: String,
    pub name: String,
}

/// Storage information.
#[derive(Debug, PartialEq)]
pub struct PbStorageInfo {
    pub storage_type: i32,
    pub mount_point: String,
    pub final_result: bool,
    pub file_path: String,
    pub available_storage_types: i32,
    pub file_size: i64,
    pub chunk_offsets: Vec<i64>,
}

/// Partition location.
#[derive(Debug, PartialEq)]
pub struct PbPartitionLocation {
    pub mode: i32,
    pub id: i32,
    pub epoch: i32,
    pub host: String,
    pub rpc_port: i32,
    pub push_port: i32,
    pub fetch_port: i32,
    pub replicate_port: i32,
    pub peer: Option<Box<PbPartitionLocation>>,
    pub storage_info: Option<PbStorageInfo>,
    pub map_id_bitmap: Vec<u8>,
}

/// Worker information.
#[derive(Debug, PartialEq)]
pub struct PbWorkerInfo {
    pub host: String,
    pub rpc_port: i32,
    pub push_port: i32,
    pub fetch_port: i32,
    pub replicate_port: i32,
}

/// Register shuffle request.
#[derive(Debug, PartialEq)]
pub struct PbRegisterShuffle {
    pub shuffle_id: i32,
    pub num_mappers: i32,
    pub num_partitions: i32,
}

/// Register shuffle response.
#[derive(Debug, PartialEq)]
pub struct PbRegisterShuffleResponse {
    pub status: i32,
    pub partition_locations: Vec<PbPartitionLocation>,
}

/// Request slots.
#[derive(Debug, PartialEq)]
pub struct PbRequestSlots {
    pub application_id: String,
    pub shuffle_id: i32,
    pub partition_id_list: Vec<i32>,
    pub hostname: String,
    pub should_replicate: bool,
    pub request_id: String,
    pub storage_type: i32,
    pub user_identifier: Option<PbUserIdentifier>,
    pub should_rack_aware: bool,
    pub max_workers: i32,
    pub available_storage_types: i32,
}

/// Worker resource.
#[derive(Debug, PartialEq)]
pub struct PbWorkerResource {
    pub primary_partitions: Vec<PbPartitionLocation>,
    pub replica_partitions: Vec<PbPartitionLocation>,
    pub network_location: String,
}

/// Request slots response.
#[derive(Debug, PartialEq)]
pub struct PbRequestSlotsResponse {
    pub status: i32,
    pub worker_resource: Vec<(String, PbWorkerResource)>,
}

/// Mapper end request.
#[derive(Debug, PartialEq)]
pub struct PbMapperEnd {
    pub shuffle_id: i32,
    pub map_id: i32,
    pub attempt_id: i32,
    pub num_mappers: i32,
    pub partition_id: i32,
}

/// Mapper end response.
#[derive(Debug, PartialEq)]
pub struct PbMapperEndResponse {
    pub status: i32,
}

/// Request for the shuffle id that an id of the application stands for.
#[derive(Debug, PartialEq)]
pub struct PbGetShuffleId {
    pub app_shuffle_id: i32,
    pub app_shuffle_identifier: String,
    pub is_shuffle_writer: bool,
}

/// Report of a shuffle whose data could not be fetched.
#[derive(Debug, PartialEq)]
pub struct PbReportShuffleFetchFailure {
    pub app_shuffle_id: i32,
    pub shuffle_id: i32,
    pub failure_type: i32,
}

/// Get reducer file group request.
#[derive(Debug, PartialEq)]
pub struct PbGetReducerFileGroup {
    pub shuffle_id: i32,
}

/// File group.
#[derive(Debug, PartialEq)]
pub struct PbFileGroup {
    pub locations: Vec<PbPartitionLocation>,
}

/// Get reducer file group response.
#[derive(Debug, PartialEq)]
pub struct PbGetReducerFileGroupResponse {
    pub status: i32,
    pub file_groups: Vec<(i32, PbFileGroup)>,
    pub attempts: Vec<i32>,
    pub partition_ids: Vec<i32>,
}

/// Unregister shuffle request.
#[derive(Debug, PartialEq)]
pub struct PbUnregisterShuffle {
    pub app_id: String,
    pub shuffle_id: i32,
    pub request_id: String,
}

/// Unregister shuffle response.
#[derive(Debug, PartialEq)]
pub struct PbUnregisterShuffleResponse {
    pub status: i32,
}

/// Heartbeat from application.
#[derive(Debug, PartialEq)]
pub struct PbHeartbeatFromApplication {
    pub app_id: String,
    pub total_written: i64,
    pub file_count: i64,
    pub request_id: String,
    pub need_checked_worker_list: Vec<PbWorkerInfo>,
    pub should_response: bool,
}

/// Heartbeat from application response.
#[derive(Debug, PartialEq)]
pub struct PbHeartbeatFromApplicationResponse {
    pub status: i32,
    pub excluded_workers: Vec<PbWorkerInfo>,
    pub unknown_workers: Vec<PbWorkerInfo>,
    pub shutting_workers: Vec<PbWorkerInfo>,
}

/// Reserve slots request.
#[derive(Debug, PartialEq)]
pub struct PbReserveSlots {
    pub application_id: String,
    pub shuffle_id: i32,
    pub primary_locations: Vec<PbPartitionLocation>,
    pub replica_locations: Vec<PbPartitionLocation>,
    pub split_threshold: i64,
    pub split_mode: i32,
    pub partition_type: i32,
    pub range_read_filter: bool,
    pub user_identifier: Option<PbUserIdentifier>,
    pub push_data_timeout: i64,
    pub partition_split_enabled: bool,
    pub available_storage_types: i32,
}

/// Reserve slots response.
#[derive(Debug, PartialEq)]
pub struct PbReserveSlotsResponse {
    pub status: i32,
    pub reason: String,
}

/// Commit files request.
#[derive(Debug, PartialEq)]
pub struct PbCommitFiles {
    pub application_id: String,
    pub shuffle_id: i32,
    pub primary_ids: Vec<String>,
    pub replica_ids: Vec<String>,
    pub map_attempts: Vec<i32>,
    pub epoch: i64,
    pub mock_failure: bool,
}

/// Commit files response.
#[derive(Debug, PartialEq)]
pub struct PbCommitFilesResponse {
    pub status: i32,
    pub committed_primary_ids: Vec<String>,
    pub committed_replica_ids: Vec<String>,
    pub failed_primary_ids: Vec<String>,
    pub failed_replica_ids: Vec<String>,
    pub committed_primary_storage_infos: Vec<(String, PbStorageInfo)>,
    pub committed_replica_storage_infos: Vec<(String, PbStorageInfo)>,
    pub total_written: i64,
    pub file_count: i32,
}

/// Check quota request.
#[derive(Debug, PartialEq)]
pub struct PbCheckQuota {
    pub user_identifier: Option<PbUserIdentifier>,
}

/// Check quota response.
#[derive(Debug, PartialEq)]
pub struct PbCheckQuotaResponse {
    pub available: bool,
    pub reason: String,
}

/// Stage end request.
#[derive(Debug, PartialEq)]
pub struct PbStageEnd {
    pub shuffle_id: i32,
}

/// Stage end response.
#[derive(Debug, PartialEq)]
pub struct PbStageEndResponse {
    pub status: i32,
}

/// Revive partition info.
#[derive(Debug, PartialEq)]
pub struct PbRevivePartitionInfo {
    pub partition_id: i32,
    pub epoch: i32,
    pub partition: Option<PbPartitionLocation>,
    pub status: i32,
}

/// Revive request (change location).
#[derive(Debug, PartialEq)]
pub struct PbRevive {
    pub shuffle_id: i32,
    pub map_id: Vec<i32>,
    pub partition_info: Vec<PbRevivePartitionInfo>,
}

/// Change location partition info.
#[derive(Debug, PartialEq)]
pub struct PbChangeLocationPartitionInfo {
    pub partition_id: i32,
    pub status: i32,
    pub partition: Option<PbPartitionLocation>,
    pub old_available: bool,
}

/// Change location response.
#[derive(Debug, PartialEq)]
pub struct PbChangeLocationResponse {
    pub ended_map_id: Vec<i32>,
    pub partition_info: Vec<PbChangeLocationPartitionInfo>,
}

/// What a `PbStorageInfo` says.
pub open spec fn pb_storage_model(s: PbStorageInfo) -> protocol::StorageModel {
    protocol::StorageModel {
        storage_type: s.storage_type,
        mount_point: s.mount_point@,
        final_result: s.final_result,
        file_path: s.file_path@,
        available_storage_types: s.available_storage_types,
        file_size: s.file_size,
        chunk_offsets: s.chunk_offsets@,
    }
}

/// What a `PbPartitionLocation` says.
pub struct PbLocationModel {
    pub mode: i32,
    pub id: i32,
    pub epoch: i32,
    pub host: Seq<char>,
    pub rpc_port: i32,
    pub push_port: i32,
    pub fetch_port: i32,
    pub replicate_port: i32,
    pub peer: Option<Box<PbLocationModel>>,
    pub storage_info: Option<protocol::StorageModel>,
    pub map_id_bitmap: Seq<u8>,
}

impl PbPartitionLocation {
    /// What the message says.
    pub open spec fn model(&self) -> PbLocationModel
        decreases self,
    {
        PbLocationModel {
            mode: self.mode,
            id: self.id,
            epoch: self.epoch,
            host: self.host@,
            rpc_port: self.rpc_port,
            push_port: self.push_port,
            fetch_port: self.fetch_port,
            replicate_port: self.replicate_port,
            peer: match self.peer {
                Some(p) => Some(Box::new(p.model())),
                None => None,
            },
            storage_info: match self.storage_info {
                Some(s) => Some(pb_storage_model(s)),
                None => None,
            },
            map_id_bitmap: self.map_id_bitmap@,
        }
    }
}

impl Clone for PbStorageInfo {
    fn clone(&self) -> (r: Self)
        ensures
            pb_storage_model(r) == pb_storage_model(*self),
    {
        let offsets: Vec<i64> = self.chunk_offsets.clone();
        assert(offsets@ =~= self.chunk_offsets@);
        PbStorageInfo {
            storage_type: self.storage_type,
            mount_point: self.mount_point.clone(),
            final_result: self.final_result,
            file_path: self.file_path.clone(),
            available_storage_types: self.available_storage_types,
            file_size: self.file_size,
            chunk_offsets: offsets,
        }
    }
}

impl Clone for PbPartitionLocation {
    fn clone(&self) -> (r: Self)
        ensures
            r.model() == self.model(),
        decreases self,
    {
        let bitmap: Vec<u8> = self.map_id_bitmap.clone();
        assert(bitmap@ =~= self.map_id_bitmap@);
        PbPartitionLocation {
            mode: self.mode,
            id: self.id,
            epoch: self.epoch,
            host: self.host.clone(),
            rpc_port: self.rpc_port,
            push_port: self.push_port,
            fetch_port: self.fetch_port,
            replicate_port: self.replicate_port,
            peer: match &self.peer {
                Some(p) => Some(Box::new((&**p).clone())),
                None => None,
            },
            storage_info: match &self.storage_info {
                Some(s) => Some(s.clone()),
                None => None,
            },
            map_id_bitmap: bitmap,
        }
    }
}

} // verus!
