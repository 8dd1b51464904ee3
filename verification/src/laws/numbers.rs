//! The numbers that statuses and types of messages have on the wire.

use vstd::prelude::*;

use crate::client::partition_split;
use crate::client::partition_split::SplitStatus;
use crate::error;
use crate::error::StatusCode;
use crate::protocol;
use crate::protocol::transport;
use crate::protocol::transport::TransportMessageType;
use crate::protocol::PartitionMode;

verus! {

/// Each status has its own number, and a number is read as the status that has it.
pub proof fn law_numbers_of_statuses(value: i32)
    ensures
        error::status_code(StatusCode::Success) == 0,
        error::status_code(StatusCode::PartialSuccess) == 1,
        error::status_code(StatusCode::RequestFailed) == 2,
        error::status_code(StatusCode::ShuffleAlreadyRegistered) == 3,
        error::status_code(StatusCode::ShuffleNotRegistered) == 4,
        error::status_code(StatusCode::ReserveSlotsFailed) == 5,
        error::status_code(StatusCode::SlotNotAvailable) == 6,
        error::status_code(StatusCode::WorkerNotFound) == 7,
        error::status_code(StatusCode::PartitionNotFound) == 8,
        error::status_code(StatusCode::ReplicaPartitionNotFound) == 9,
        error::status_code(StatusCode::DeleteFilesFailed) == 10,
        error::status_code(StatusCode::PartitionExists) == 11,
        error::status_code(StatusCode::ReviveFailed) == 12,
        error::status_code(StatusCode::ReplicateDataFailed) == 13,
        error::status_code(StatusCode::NumMapperZero) == 14,
        error::status_code(StatusCode::MapEnded) == 15,
        error::status_code(StatusCode::StageEnded) == 16,
        error::status_code(StatusCode::PushDataFailNonCriticalCause) == 17,
        error::status_code(StatusCode::PushDataWriteFailReplica) == 18,
        error::status_code(StatusCode::PushDataWriteFailPrimary) == 19,
        error::status_code(StatusCode::PushDataFailPartitionNotFound) == 20,
        error::status_code(StatusCode::HardSplit) == 21,
        error::status_code(StatusCode::SoftSplit) == 22,
        error::status_code(StatusCode::StageEndTimeOut) == 23,
        error::status_code(StatusCode::ShuffleDataLost) == 24,
        error::status_code(StatusCode::WorkerShutdown) == 25,
        error::status_code(StatusCode::NoAvailableWorkingDir) == 26,
        error::status_code(StatusCode::WorkerExcluded) == 27,
        error::status_code(StatusCode::WorkerUnknown) == 28,
        error::status_code(StatusCode::CommitFileException) == 29,
        error::status_code(StatusCode::PushDataSuccessPrimaryCongested) == 30,
        error::status_code(StatusCode::PushDataSuccessReplicaCongested) == 31,
        error::status_code(StatusCode::PushDataHandshakeFailReplica) == 32,
        error::status_code(StatusCode::PushDataHandshakeFailPrimary) == 33,
        error::status_code(StatusCode::RegionStartFailReplica) == 34,
        error::status_code(StatusCode::RegionStartFailPrimary) == 35,
        error::status_code(StatusCode::RegionFinishFailReplica) == 36,
        error::status_code(StatusCode::RegionFinishFailPrimary) == 37,
        error::status_code(StatusCode::PushDataCreateConnectionFailPrimary) == 38,
        error::status_code(StatusCode::PushDataCreateConnectionFailReplica) == 39,
        error::status_code(StatusCode::PushDataConnectionExceptionPrimary) == 40,
        error::status_code(StatusCode::PushDataConnectionExceptionReplica) == 41,
        error::status_code(StatusCode::PushDataTimeoutPrimary) == 42,
        error::status_code(StatusCode::PushDataTimeoutReplica) == 43,
        error::status_code(StatusCode::PushDataPrimaryWorkerExcluded) == 44,
        error::status_code(StatusCode::PushDataReplicaWorkerExcluded) == 45,
        error::status_code(StatusCode::FetchDataTimeout) == 46,
        error::status_code(StatusCode::ReviveInitialized) == 47,
        error::status_code(StatusCode::DestroySlotsMockFailure) == 48,
        error::status_code(StatusCode::CommitFilesMockFailure) == 49,
        error::status_code(StatusCode::NoSplit) == 54,
        error::status_code(StatusCode::Unknown) == -1,
        error::status_of(0) == StatusCode::Success,
        error::status_of(1) == StatusCode::PartialSuccess,
        error::status_of(2) == StatusCode::RequestFailed,
        error::status_of(3) == StatusCode::ShuffleAlreadyRegistered,
        error::status_of(4) == StatusCode::ShuffleNotRegistered,
        error::status_of(5) == StatusCode::ReserveSlotsFailed,
        error::status_of(6) == StatusCode::SlotNotAvailable,
        error::status_of(7) == StatusCode::WorkerNotFound,
        error::status_of(8) == StatusCode::PartitionNotFound,
        error::status_of(9) == StatusCode::ReplicaPartitionNotFound,
        error::status_of(10) == StatusCode::DeleteFilesFailed,
        error::status_of(11) == StatusCode::PartitionExists,
        error::status_of(12) == StatusCode::ReviveFailed,
        error::status_of(13) == StatusCode::ReplicateDataFailed,
        error::status_of(14) == StatusCode::NumMapperZero,
        error::status_of(15) == StatusCode::MapEnded,
        error::status_of(16) == StatusCode::StageEnded,
        error::status_of(17) == StatusCode::PushDataFailNonCriticalCause,
        error::status_of(18) == StatusCode::PushDataWriteFailReplica,
        error::status_of(19) == StatusCode::PushDataWriteFailPrimary,
        error::status_of(20) == StatusCode::PushDataFailPartitionNotFound,
        error::status_of(21) == StatusCode::HardSplit,
        error::status_of(22) == StatusCode::SoftSplit,
        error::status_of(23) == StatusCode::StageEndTimeOut,
        error::status_of(24) == StatusCode::ShuffleDataLost,
        error::status_of(25) == StatusCode::WorkerShutdown,
        error::status_of(26) == StatusCode::NoAvailableWorkingDir,
        error::status_of(27) == StatusCode::WorkerExcluded,
        error::status_of(28) == StatusCode::WorkerUnknown,
        error::status_of(29) == StatusCode::CommitFileException,
        error::status_of(30) == StatusCode::PushDataSuccessPrimaryCongested,
        error::status_of(31) == StatusCode::PushDataSuccessReplicaCongested,
        error::status_of(32) == StatusCode::PushDataHandshakeFailReplica,
        error::status_of(33) == StatusCode::PushDataHandshakeFailPrimary,
        error::status_of(34) == StatusCode::RegionStartFailReplica,
        error::status_of(35) == StatusCode::RegionStartFailPrimary,
        error::status_of(36) == StatusCode::RegionFinishFailReplica,
        error::status_of(37) == StatusCode::RegionFinishFailPrimary,
        error::status_of(38) == StatusCode::PushDataCreateConnectionFailPrimary,
        error::status_of(39) == StatusCode::PushDataCreateConnectionFailReplica,
        error::status_of(40) == StatusCode::PushDataConnectionExceptionPrimary,
        error::status_of(41) == StatusCode::PushDataConnectionExceptionReplica,
        error::status_of(42) == StatusCode::PushDataTimeoutPrimary,
        error::status_of(43) == StatusCode::PushDataTimeoutReplica,
        error::status_of(44) == StatusCode::PushDataPrimaryWorkerExcluded,
        error::status_of(45) == StatusCode::PushDataReplicaWorkerExcluded,
        error::status_of(46) == StatusCode::FetchDataTimeout,
        error::status_of(47) == StatusCode::ReviveInitialized,
        error::status_of(48) == StatusCode::DestroySlotsMockFailure,
        error::status_of(49) == StatusCode::CommitFilesMockFailure,
        error::status_of(54) == StatusCode::NoSplit,
        error::status_of(value) == StatusCode::Unknown <==> !(0 <= value <= 49 || value == 54),
{
}

/// A success is a full or a partial one.
pub proof fn law_successes_are_full_or_partial(value: i32)
    ensures
        error::succeeded(error::status_of(value)) <==> value == 0 || value == 1,
{
}

/// Each type of message for an endpoint has its own number, and a number is read as the type
/// that has it.
pub proof fn law_numbers_of_transport_types(t: TransportMessageType)
    ensures
        transport::transport_code(TransportMessageType::UnknownMessage) == 0,
        transport::transport_code(TransportMessageType::RegisterWorker) == 1,
        transport::transport_code(TransportMessageType::HeartbeatFromWorker) == 2,
        transport::transport_code(TransportMessageType::HeartbeatFromWorkerResponse) == 3,
        transport::transport_code(TransportMessageType::RegisterShuffle) == 4,
        transport::transport_code(TransportMessageType::RegisterShuffleResponse) == 5,
        transport::transport_code(TransportMessageType::RequestSlots) == 6,
        transport::transport_code(TransportMessageType::ReleaseSlots) == 7,
        transport::transport_code(TransportMessageType::ReleaseSlotsResponse) == 8,
        transport::transport_code(TransportMessageType::RequestSlotsResponse) == 9,
        transport::transport_code(TransportMessageType::ChangeLocation) == 10,
        transport::transport_code(TransportMessageType::ChangeLocationResponse) == 11,
        transport::transport_code(TransportMessageType::MapperEnd) == 12,
        transport::transport_code(TransportMessageType::MapperEndResponse) == 13,
        transport::transport_code(TransportMessageType::GetReducerFileGroup) == 14,
        transport::transport_code(TransportMessageType::GetReducerFileGroupResponse) == 15,
        transport::transport_code(TransportMessageType::UnregisterShuffle) == 16,
        transport::transport_code(TransportMessageType::UnregisterShuffleResponse) == 17,
        transport::transport_code(TransportMessageType::ApplicationLost) == 18,
        transport::transport_code(TransportMessageType::ApplicationLostResponse) == 19,
        transport::transport_code(TransportMessageType::HeartbeatFromApplication) == 20,
        transport::transport_code(TransportMessageType::CheckQuota) == 23,
        transport::transport_code(TransportMessageType::CheckQuotaResponse) == 24,
        transport::transport_code(TransportMessageType::ReportWorkerFailure) == 25,
        transport::transport_code(TransportMessageType::RegisterWorkerResponse) == 26,
        transport::transport_code(TransportMessageType::ReserveSlots) == 28,
        transport::transport_code(TransportMessageType::ReserveSlotsResponse) == 29,
        transport::transport_code(TransportMessageType::CommitFiles) == 30,
        transport::transport_code(TransportMessageType::CommitFilesResponse) == 31,
        transport::transport_code(TransportMessageType::Destroy) == 32,
        transport::transport_code(TransportMessageType::DestroyResponse) == 33,
        transport::transport_code(TransportMessageType::RemoveExpiredShuffle) == 39,
        transport::transport_code(TransportMessageType::OneWayMessageResponse) == 40,
        transport::transport_code(TransportMessageType::CheckWorkerTimeout) == 41,
        transport::transport_code(TransportMessageType::CheckApplicationTimeout) == 42,
        transport::transport_code(TransportMessageType::WorkerLost) == 43,
        transport::transport_code(TransportMessageType::WorkerLostResponse) == 44,
        transport::transport_code(TransportMessageType::StageEnd) == 45,
        transport::transport_code(TransportMessageType::StageEndResponse) == 46,
        transport::transport_code(TransportMessageType::PartitionSplit) == 47,
        transport::transport_code(TransportMessageType::RegisterMapPartitionTask) == 48,
        transport::transport_code(TransportMessageType::HeartbeatFromApplicationResponse) == 49,
        transport::transport_code(TransportMessageType::CheckForHdfsExpiredDirsTimeout) == 50,
        transport::transport_code(TransportMessageType::OpenStream) == 51,
        transport::transport_code(TransportMessageType::StreamHandler) == 52,
        transport::transport_code(TransportMessageType::CheckWorkersAvailable) == 53,
        transport::transport_code(TransportMessageType::CheckWorkersAvailableResponse) == 54,
        transport::transport_code(TransportMessageType::RemoveWorkersUnavailableInfo) == 55,
        transport::transport_code(TransportMessageType::PushDataHandShake) == 56,
        transport::transport_code(TransportMessageType::RegionStart) == 57,
        transport::transport_code(TransportMessageType::RegionFinish) == 58,
        transport::transport_code(TransportMessageType::BacklogAnnouncement) == 59,
        transport::transport_code(TransportMessageType::BufferStreamEnd) == 60,
        transport::transport_code(TransportMessageType::ReadAddCredit) == 61,
        transport::transport_code(TransportMessageType::StreamChunkSlice) == 62,
        transport::transport_code(TransportMessageType::ChunkFetchRequest) == 63,
        transport::transport_code(TransportMessageType::TransportableError) == 64,
        transport::transport_code(TransportMessageType::WorkerExclude) == 65,
        transport::transport_code(TransportMessageType::WorkerExcludeResponse) == 66,
        transport::transport_code(TransportMessageType::ReportShuffleFetchFailure) == 67,
        transport::transport_code(TransportMessageType::ReportShuffleFetchFailureResponse) == 68,
        transport::transport_code(TransportMessageType::GetShuffleId) == 69,
        transport::transport_code(TransportMessageType::GetShuffleIdResponse) == 70,
        transport::transport_code(TransportMessageType::SaslRequest) == 71,
        transport::transport_type_of(transport::transport_code(t) as i32) == t,
{
}

/// A worker asks for a hard split with 21 and for a soft one with 22; no other number asks for
/// a split.
pub proof fn law_numbers_of_splits(value: u8)
    ensures
        partition_split::split_of(value) == Some(SplitStatus::HardSplit) <==> value == 21,
        partition_split::split_of(value) == Some(SplitStatus::SoftSplit) <==> value == 22,
        partition_split::split_of(value) is None <==> value != 21 && value != 22,
        partition_split::split_code(SplitStatus::HardSplit) == 21,
        partition_split::split_code(SplitStatus::SoftSplit) == 22,
{
}

/// A primary has the mode 0 and a replica the mode 1; what is not a replica is read as a
/// primary.
pub proof fn law_numbers_of_modes(value: i32)
    ensures
        protocol::mode_code(PartitionMode::Primary) == 0,
        protocol::mode_code(PartitionMode::Replica) == 1,
        protocol::mode_of(value) == PartitionMode::Replica <==> value == 1,
{
}

} // verus!
