//! Error types for the Celeborn client.

use vstd::prelude::*;
use vstd::string::*;

use crate::text;

verus! {

/// Result type alias for Celeborn operations.
pub type Result<T> = std::result::Result<T, CelebornError>;

/// What went wrong while bytes were read.
#[derive(Debug, Clone, Copy, PartialEq, Eq, Structural)]
pub enum IoErrorKind {
    /// The input ended too early.
    UnexpectedEof,
    /// The input does not have the form it must have.
    InvalidData,
    /// Any other failure of the operating system.
    Other,
}

/// An input or output failure.
#[derive(Debug)]
pub struct IoError {
    pub kind: IoErrorKind,
    pub message: String,
}

impl IoError {
    pub fn new(kind: IoErrorKind, message: &str) -> (r: Self)
        ensures
            r.kind == kind,
            r.message@ == message@,
    {
        IoError { kind, message: message.to_owned() }
    }
}

/// Errors that can occur during Celeborn client operations.
#[derive(Debug)]
pub enum CelebornError {
    /// Network I/O error
    Io(IoError),
    /// Connection error
    Connection(String),
    /// Protocol error (invalid message format, etc.)
    Protocol(String),
    /// RPC timeout
    Timeout(u64),
    /// Server returned an error status
    ServerError { status: StatusCode, message: String },
    /// Shuffle not found
    ShuffleNotFound(i32),
    /// Partition not found
    PartitionNotFound { shuffle_id: i32, partition_id: i32 },
    /// Worker unavailable
    WorkerUnavailable { host: String, port: i32 },
    /// Configuration error
    Config(String),
    /// Serialization/deserialization error
    Serialization(String),
    /// Compression error
    Compression(String),
    /// Push data failed
    PushFailed(String),
    /// Fetch data failed
    FetchFailed(String),
    /// Quota exceeded
    QuotaExceeded(String),
    /// Revive failed
    ReviveFailed { shuffle_id: i32, partition_id: i32, status: StatusCode },
    /// Stage ended
    StageEnded(i32),
    /// Max retries exceeded
    MaxRetriesExceeded { max_retries: u32, message: String },
    /// Internal error
    Internal(String),
    /// Decompression failed
    DecompressionFailed(String),
    /// Invalid configuration
    InvalidConfig(String),
}

/// The text of an error.
pub open spec fn error_text(e: CelebornError) -> Seq<char> {
    match e {
        CelebornError::Io(io) => "Network I/O error: "@ + io.message@,
        CelebornError::Connection(m) => "Connection error: "@ + m@,
        CelebornError::Protocol(m) => "Protocol error: "@ + m@,
        CelebornError::Timeout(ms) => "RPC timeout after "@ + text::nat_text(ms as nat) + "ms"@,
        CelebornError::ServerError { status, message } => "Server error: "@ + status_name(status) + " - "@
            + message@,
        CelebornError::ShuffleNotFound(id) => "Shuffle "@ + text::int_text(id as int) + " not found"@,
        CelebornError::PartitionNotFound { shuffle_id, partition_id } => "Partition "@ + text::int_text(
            partition_id as int,
        ) + " not found in shuffle "@ + text::int_text(shuffle_id as int),
        CelebornError::WorkerUnavailable { host, port } => "Worker "@ + text::address_text(
            host@,
            port as int,
        ) + " is unavailable"@,
        CelebornError::Config(m) => "Configuration error: "@ + m@,
        CelebornError::Serialization(m) => "Serialization error: "@ + m@,
        CelebornError::Compression(m) => "Compression error: "@ + m@,
        CelebornError::PushFailed(m) => "Push data failed: "@ + m@,
        CelebornError::FetchFailed(m) => "Fetch data failed: "@ + m@,
        CelebornError::QuotaExceeded(m) => "Quota exceeded: "@ + m@,
        CelebornError::ReviveFailed { shuffle_id, partition_id, status } => "Revive failed for shuffle "@
            + text::int_text(shuffle_id as int) + " partition "@ + text::int_text(partition_id as int)
            + ": "@ + status_name(status),
        CelebornError::StageEnded(id) => "Stage ended for shuffle "@ + text::int_text(id as int),
        CelebornError::MaxRetriesExceeded { max_retries, message } => "Max retries ("@ + text::nat_text(
            max_retries as nat,
        ) + ") exceeded: "@ + message@,
        CelebornError::Internal(m) => "Internal error: "@ + m@,
        CelebornError::DecompressionFailed(m) => "Decompression failed: "@ + m@,
        CelebornError::InvalidConfig(m) => "Invalid configuration: "@ + m@,
    }
}

impl CelebornError {
    /// The error in words.
    pub fn to_string(&self) -> (r: String)
        ensures
            r@ == error_text(*self),
    {
        match self {
            CelebornError::Io(io) => text::join("Network I/O error: ", io.message.as_str()),
            CelebornError::Connection(m) => text::join("Connection error: ", m.as_str()),
            CelebornError::Protocol(m) => text::join("Protocol error: ", m.as_str()),
            CelebornError::Timeout(ms) => {
                let mut out: String = String::from_str("RPC timeout after ");
                text::append_u64(&mut out, *ms);
                out.append("ms");
                out
            },
            CelebornError::ServerError { status, message } => {
                let mut out: String = text::join("Server error: ", status.name());
                out.append(" - ");
                out.append(message.as_str());
                out
            },
            CelebornError::ShuffleNotFound(id) => {
                let mut out: String = String::from_str("Shuffle ");
                text::append_i64(&mut out, *id as i64);
                out.append(" not found");
                out
            },
            CelebornError::PartitionNotFound { shuffle_id, partition_id } => {
                let mut out: String = String::from_str("Partition ");
                text::append_i64(&mut out, *partition_id as i64);
                out.append(" not found in shuffle ");
                text::append_i64(&mut out, *shuffle_id as i64);
                out
            },
            CelebornError::WorkerUnavailable { host, port } => {
                let mut out: String = text::join("Worker ", text::address(host.as_str(), *port).as_str());
                out.append(" is unavailable");
                out
            },
            CelebornError::Config(m) => text::join("Configuration error: ", m.as_str()),
            CelebornError::Serialization(m) => text::join("Serialization error: ", m.as_str()),
            CelebornError::Compression(m) => text::join("Compression error: ", m.as_str()),
            CelebornError::PushFailed(m) => text::join("Push data failed: ", m.as_str()),
            CelebornError::FetchFailed(m) => text::join("Fetch data failed: ", m.as_str()),
            CelebornError::QuotaExceeded(m) => text::join("Quota exceeded: ", m.as_str()),
            CelebornError::ReviveFailed { shuffle_id, partition_id, status } => {
                let mut out: String = String::from_str("Revive failed for shuffle ");
                text::append_i64(&mut out, *shuffle_id as i64);
                out.append(" partition ");
                text::append_i64(&mut out, *partition_id as i64);
                out.append(": ");
                out.append(status.name());
                out
            },
            CelebornError::StageEnded(id) => {
                let mut out: String = String::from_str("Stage ended for shuffle ");
                text::append_i64(&mut out, *id as i64);
                out
            },
            CelebornError::MaxRetriesExceeded { max_retries, message } => {
                let mut out: String = String::from_str("Max retries (");
                text::append_u64(&mut out, *max_retries as u64);
                out.append(") exceeded: ");
                out.append(message.as_str());
                out
            },
            CelebornError::Internal(m) => text::join("Internal error: ", m.as_str()),
            CelebornError::DecompressionFailed(m) => text::join("Decompression failed: ", m.as_str()),
            CelebornError::InvalidConfig(m) => text::join("Invalid configuration: ", m.as_str()),
        }
    }
}

/// Status codes returned by Celeborn server.
#[derive(Debug, Clone, Copy, PartialEq, Eq, Structural)]
pub enum StatusCode {
    Success,
    PartialSuccess,
    RequestFailed,
    ShuffleAlreadyRegistered,
    ShuffleNotRegistered,
    ReserveSlotsFailed,
    SlotNotAvailable,
    WorkerNotFound,
    PartitionNotFound,
    ReplicaPartitionNotFound,
    DeleteFilesFailed,
    PartitionExists,
    ReviveFailed,
    ReplicateDataFailed,
    NumMapperZero,
    MapEnded,
    StageEnded,
    PushDataFailNonCriticalCause,
    PushDataWriteFailReplica,
    PushDataWriteFailPrimary,
    PushDataFailPartitionNotFound,
    HardSplit,
    SoftSplit,
    StageEndTimeOut,
    ShuffleDataLost,
    WorkerShutdown,
    NoAvailableWorkingDir,
    WorkerExcluded,
    WorkerUnknown,
    CommitFileException,
    PushDataSuccessPrimaryCongested,
    PushDataSuccessReplicaCongested,
    PushDataHandshakeFailReplica,
    PushDataHandshakeFailPrimary,
    RegionStartFailReplica,
    RegionStartFailPrimary,
    RegionFinishFailReplica,
    RegionFinishFailPrimary,
    PushDataCreateConnectionFailPrimary,
    PushDataCreateConnectionFailReplica,
    PushDataConnectionExceptionPrimary,
    PushDataConnectionExceptionReplica,
    PushDataTimeoutPrimary,
    PushDataTimeoutReplica,
    PushDataPrimaryWorkerExcluded,
    PushDataReplicaWorkerExcluded,
    FetchDataTimeout,
    ReviveInitialized,
    DestroySlotsMockFailure,
    CommitFilesMockFailure,
    NoSplit,
    Unknown,
}

/// The number that stands for a status on the wire.
pub open spec fn status_code(s: StatusCode) -> int {
    match s {
        StatusCode::Success => 0,
        StatusCode::PartialSuccess => 1,
        StatusCode::RequestFailed => 2,
        StatusCode::ShuffleAlreadyRegistered => 3,
        StatusCode::ShuffleNotRegistered => 4,
        StatusCode::ReserveSlotsFailed => 5,
        StatusCode::SlotNotAvailable => 6,
        StatusCode::WorkerNotFound => 7,
        StatusCode::PartitionNotFound => 8,
        StatusCode::ReplicaPartitionNotFound => 9,
        StatusCode::DeleteFilesFailed => 10,
        StatusCode::PartitionExists => 11,
        StatusCode::ReviveFailed => 12,
        StatusCode::ReplicateDataFailed => 13,
        StatusCode::NumMapperZero => 14,
        StatusCode::MapEnded => 15,
        StatusCode::StageEnded => 16,
        StatusCode::PushDataFailNonCriticalCause => 17,
        StatusCode::PushDataWriteFailReplica => 18,
        StatusCode::PushDataWriteFailPrimary => 19,
        StatusCode::PushDataFailPartitionNotFound => 20,
        StatusCode::HardSplit => 21,
        StatusCode::SoftSplit => 22,
        StatusCode::StageEndTimeOut => 23,
        StatusCode::ShuffleDataLost => 24,
        StatusCode::WorkerShutdown => 25,
        StatusCode::NoAvailableWorkingDir => 26,
        StatusCode::WorkerExcluded => 27,
        StatusCode::WorkerUnknown => 28,
        StatusCode::CommitFileException => 29,
        StatusCode::PushDataSuccessPrimaryCongested => 30,
        StatusCode::PushDataSuccessReplicaCongested => 31,
        StatusCode::PushDataHandshakeFailReplica => 32,
        StatusCode::PushDataHandshakeFailPrimary => 33,
        StatusCode::RegionStartFailReplica => 34,
        StatusCode::RegionStartFailPrimary => 35,
        StatusCode::RegionFinishFailReplica => 36,
        StatusCode::RegionFinishFailPrimary => 37,
        StatusCode::PushDataCreateConnectionFailPrimary => 38,
        StatusCode::PushDataCreateConnectionFailReplica => 39,
        StatusCode::PushDataConnectionExceptionPrimary => 40,
        StatusCode::PushDataConnectionExceptionReplica => 41,
        StatusCode::PushDataTimeoutPrimary => 42,
        StatusCode::PushDataTimeoutReplica => 43,
        StatusCode::PushDataPrimaryWorkerExcluded => 44,
        StatusCode::PushDataReplicaWorkerExcluded => 45,
        StatusCode::FetchDataTimeout => 46,
        StatusCode::ReviveInitialized => 47,
        StatusCode::DestroySlotsMockFailure => 48,
        StatusCode::CommitFilesMockFailure => 49,
        StatusCode::NoSplit => 54,
        StatusCode::Unknown => -1,
    }
}

/// The status that a number on the wire stands for; an unassigned number is `Unknown`.
pub open spec fn status_of(value: i32) -> StatusCode {
    if value == 0 {
        StatusCode::Success
    } else if value == 1 {
        StatusCode::PartialSuccess
    } else if value == 2 {
        StatusCode::RequestFailed
    } else if value == 3 {
        StatusCode::ShuffleAlreadyRegistered
    } else if value == 4 {
        StatusCode::ShuffleNotRegistered
    } else if value == 5 {
        StatusCode::ReserveSlotsFailed
    } else if value == 6 {
        StatusCode::SlotNotAvailable
    } else if value == 7 {
        StatusCode::WorkerNotFound
    } else if value == 8 {
        StatusCode::PartitionNotFound
    } else if value == 9 {
        StatusCode::ReplicaPartitionNotFound
    } else if value == 10 {
        StatusCode::DeleteFilesFailed
    } else if value == 11 {
        StatusCode::PartitionExists
    } else if value == 12 {
        StatusCode::ReviveFailed
    } else if value == 13 {
        StatusCode::ReplicateDataFailed
    } else if value == 14 {
        StatusCode::NumMapperZero
    } else if value == 15 {
        StatusCode::MapEnded
    } else if value == 16 {
        StatusCode::StageEnded
    } else if value == 17 {
        StatusCode::PushDataFailNonCriticalCause
    } else if value == 18 {
        StatusCode::PushDataWriteFailReplica
    } else if value == 19 {
        StatusCode::PushDataWriteFailPrimary
    } else if value == 20 {
        StatusCode::PushDataFailPartitionNotFound
    } else if value == 21 {
        StatusCode::HardSplit
    } else if value == 22 {
        StatusCode::SoftSplit
    } else if value == 23 {
        StatusCode::StageEndTimeOut
    } else if value == 24 {
        StatusCode::ShuffleDataLost
    } else if value == 25 {
        StatusCode::WorkerShutdown
    } else if value == 26 {
        StatusCode::NoAvailableWorkingDir
    } else if value == 27 {
        StatusCode::WorkerExcluded
    } else if value == 28 {
        StatusCode::WorkerUnknown
    } else if value == 29 {
        StatusCode::CommitFileException
    } else if value == 30 {
        StatusCode::PushDataSuccessPrimaryCongested
    } else if value == 31 {
        StatusCode::PushDataSuccessReplicaCongested
    } else if value == 32 {
        StatusCode::PushDataHandshakeFailReplica
    } else if value == 33 {
        StatusCode::PushDataHandshakeFailPrimary
    } else if value == 34 {
        StatusCode::RegionStartFailReplica
    } else if value == 35 {
        StatusCode::RegionStartFailPrimary
    } else if value == 36 {
        StatusCode::RegionFinishFailReplica
    } else if value == 37 {
        StatusCode::RegionFinishFailPrimary
    } else if value == 38 {
        StatusCode::PushDataCreateConnectionFailPrimary
    } else if value == 39 {
        StatusCode::PushDataCreateConnectionFailReplica
    } else if value == 40 {
        StatusCode::PushDataConnectionExceptionPrimary
    } else if value == 41 {
        StatusCode::PushDataConnectionExceptionReplica
    } else if value == 42 {
        StatusCode::PushDataTimeoutPrimary
    } else if value == 43 {
        StatusCode::PushDataTimeoutReplica
    } else if value == 44 {
        StatusCode::PushDataPrimaryWorkerExcluded
    } else if value == 45 {
        StatusCode::PushDataReplicaWorkerExcluded
    } else if value == 46 {
        StatusCode::FetchDataTimeout
    } else if value == 47 {
        StatusCode::ReviveInitialized
    } else if value == 48 {
        StatusCode::DestroySlotsMockFailure
    } else if value == 49 {
        StatusCode::CommitFilesMockFailure
    } else if value == 54 {
        StatusCode::NoSplit
    } else {
        StatusCode::Unknown
    }
}

/// The name of a status.
pub open spec fn status_name(s: StatusCode) -> Seq<char> {
    match s {
        StatusCode::Success => "Success"@,
        StatusCode::PartialSuccess => "PartialSuccess"@,
        StatusCode::RequestFailed => "RequestFailed"@,
        StatusCode::ShuffleAlreadyRegistered => "ShuffleAlreadyRegistered"@,
        StatusCode::ShuffleNotRegistered => "ShuffleNotRegistered"@,
        StatusCode::ReserveSlotsFailed => "ReserveSlotsFailed"@,
        StatusCode::SlotNotAvailable => "SlotNotAvailable"@,
        StatusCode::WorkerNotFound => "WorkerNotFound"@,
        StatusCode::PartitionNotFound => "PartitionNotFound"@,
        StatusCode::ReplicaPartitionNotFound => "ReplicaPartitionNotFound"@,
        StatusCode::DeleteFilesFailed => "DeleteFilesFailed"@,
        StatusCode::PartitionExists => "PartitionExists"@,
        StatusCode::ReviveFailed => "ReviveFailed"@,
        StatusCode::ReplicateDataFailed => "ReplicateDataFailed"@,
        StatusCode::NumMapperZero => "NumMapperZero"@,
        StatusCode::MapEnded => "MapEnded"@,
        StatusCode::StageEnded => "StageEnded"@,
        StatusCode::PushDataFailNonCriticalCause => "PushDataFailNonCriticalCause"@,
        StatusCode::PushDataWriteFailReplica => "PushDataWriteFailReplica"@,
        StatusCode::PushDataWriteFailPrimary => "PushDataWriteFailPrimary"@,
        StatusCode::PushDataFailPartitionNotFound => "PushDataFailPartitionNotFound"@,
        StatusCode::HardSplit => "HardSplit"@,
        StatusCode::SoftSplit => "SoftSplit"@,
        StatusCode::StageEndTimeOut => "StageEndTimeOut"@,
        StatusCode::ShuffleDataLost => "ShuffleDataLost"@,
        StatusCode::WorkerShutdown => "WorkerShutdown"@,
        StatusCode::NoAvailableWorkingDir => "NoAvailableWorkingDir"@,
        StatusCode::WorkerExcluded => "WorkerExcluded"@,
        StatusCode::WorkerUnknown => "WorkerUnknown"@,
        StatusCode::CommitFileException => "CommitFileException"@,
        StatusCode::PushDataSuccessPrimaryCongested => "PushDataSuccessPrimaryCongested"@,
        StatusCode::PushDataSuccessReplicaCongested => "PushDataSuccessReplicaCongested"@,
        StatusCode::PushDataHandshakeFailReplica => "PushDataHandshakeFailReplica"@,
        StatusCode::PushDataHandshakeFailPrimary => "PushDataHandshakeFailPrimary"@,
        StatusCode::RegionStartFailReplica => "RegionStartFailReplica"@,
        StatusCode::RegionStartFailPrimary => "RegionStartFailPrimary"@,
        StatusCode::RegionFinishFailReplica => "RegionFinishFailReplica"@,
        StatusCode::RegionFinishFailPrimary => "RegionFinishFailPrimary"@,
        StatusCode::PushDataCreateConnectionFailPrimary => "PushDataCreateConnectionFailPrimary"@,
        StatusCode::PushDataCreateConnectionFailReplica => "PushDataCreateConnectionFailReplica"@,
        StatusCode::PushDataConnectionExceptionPrimary => "PushDataConnectionExceptionPrimary"@,
        StatusCode::PushDataConnectionExceptionReplica => "PushDataConnectionExceptionReplica"@,
        StatusCode::PushDataTimeoutPrimary => "PushDataTimeoutPrimary"@,
        StatusCode::PushDataTimeoutReplica => "PushDataTimeoutReplica"@,
        StatusCode::PushDataPrimaryWorkerExcluded => "PushDataPrimaryWorkerExcluded"@,
        StatusCode::PushDataReplicaWorkerExcluded => "PushDataReplicaWorkerExcluded"@,
        StatusCode::FetchDataTimeout => "FetchDataTimeout"@,
        StatusCode::ReviveInitialized => "ReviveInitialized"@,
        StatusCode::DestroySlotsMockFailure => "DestroySlotsMockFailure"@,
        StatusCode::CommitFilesMockFailure => "CommitFilesMockFailure"@,
        StatusCode::NoSplit => "NoSplit"@,
        StatusCode::Unknown => "Unknown"@,
    }
}

impl From<i32> for StatusCode {
    fn from(value: i32) -> (r: Self) {
        match value {
            0 => StatusCode::Success,
            1 => StatusCode::PartialSuccess,
            2 => StatusCode::RequestFailed,
            3 => StatusCode::ShuffleAlreadyRegistered,
            4 => StatusCode::ShuffleNotRegistered,
            5 => StatusCode::ReserveSlotsFailed,
            6 => StatusCode::SlotNotAvailable,
            7 => StatusCode::WorkerNotFound,
            8 => StatusCode::PartitionNotFound,
            9 => StatusCode::ReplicaPartitionNotFound,
            10 => StatusCode::DeleteFilesFailed,
            11 => StatusCode::PartitionExists,
            12 => StatusCode::ReviveFailed,
            13 => StatusCode::ReplicateDataFailed,
            14 => StatusCode::NumMapperZero,
            15 => StatusCode::MapEnded,
            16 => StatusCode::StageEnded,
            17 => StatusCode::PushDataFailNonCriticalCause,
            18 => StatusCode::PushDataWriteFailReplica,
            19 => StatusCode::PushDataWriteFailPrimary,
            20 => StatusCode::PushDataFailPartitionNotFound,
            21 => StatusCode::HardSplit,
            22 => StatusCode::SoftSplit,
            23 => StatusCode::StageEndTimeOut,
            24 => StatusCode::ShuffleDataLost,
            25 => StatusCode::WorkerShutdown,
            26 => StatusCode::NoAvailableWorkingDir,
            27 => StatusCode::WorkerExcluded,
            28 => StatusCode::WorkerUnknown,
            29 => StatusCode::CommitFileException,
            30 => StatusCode::PushDataSuccessPrimaryCongested,
            31 => StatusCode::PushDataSuccessReplicaCongested,
            32 => StatusCode::PushDataHandshakeFailReplica,
            33 => StatusCode::PushDataHandshakeFailPrimary,
            34 => StatusCode::RegionStartFailReplica,
            35 => StatusCode::RegionStartFailPrimary,
            36 => StatusCode::RegionFinishFailReplica,
            37 => StatusCode::RegionFinishFailPrimary,
            38 => StatusCode::PushDataCreateConnectionFailPrimary,
            39 => StatusCode::PushDataCreateConnectionFailReplica,
            40 => StatusCode::PushDataConnectionExceptionPrimary,
            41 => StatusCode::PushDataConnectionExceptionReplica,
            42 => StatusCode::PushDataTimeoutPrimary,
            43 => StatusCode::PushDataTimeoutReplica,
            44 => StatusCode::PushDataPrimaryWorkerExcluded,
            45 => StatusCode::PushDataReplicaWorkerExcluded,
            46 => StatusCode::FetchDataTimeout,
            47 => StatusCode::ReviveInitialized,
            48 => StatusCode::DestroySlotsMockFailure,
            49 => StatusCode::CommitFilesMockFailure,
            54 => StatusCode::NoSplit,
            _ => StatusCode::Unknown,
        }
    }
}

impl vstd::std_specs::convert::FromSpecImpl<i32> for StatusCode {
    open spec fn obeys_from_spec() -> bool {
        true
    }

    open spec fn from_spec(value: i32) -> Self {
        status_of(value)
    }
}

/// Whether a status stands for success, in full or in part.
pub open spec fn succeeded(s: StatusCode) -> bool {
    s is Success || s is PartialSuccess
}

impl StatusCode {
    /// The status of a push that the primary worker could not write.
    #[allow(non_upper_case_globals)]
    pub const PushDataFailPrimary: StatusCode = StatusCode::PushDataWriteFailPrimary;

    /// The status of a push that the replica worker could not write.
    #[allow(non_upper_case_globals)]
    pub const PushDataFailReplica: StatusCode = StatusCode::PushDataWriteFailReplica;

    /// The status of a call that the server answered with a failure.
    #[allow(non_upper_case_globals)]
    pub const RpcFailed: StatusCode = StatusCode::RequestFailed;

    /// The number that stands for this status on the wire.
    pub fn code(&self) -> (r: i32)
        ensures
            r == status_code(*self),
    {
        match self {
            StatusCode::Success => 0,
            StatusCode::PartialSuccess => 1,
            StatusCode::RequestFailed => 2,
            StatusCode::ShuffleAlreadyRegistered => 3,
            StatusCode::ShuffleNotRegistered => 4,
            StatusCode::ReserveSlotsFailed => 5,
            StatusCode::SlotNotAvailable => 6,
            StatusCode::WorkerNotFound => 7,
            StatusCode::PartitionNotFound => 8,
            StatusCode::ReplicaPartitionNotFound => 9,
            StatusCode::DeleteFilesFailed => 10,
            StatusCode::PartitionExists => 11,
            StatusCode::ReviveFailed => 12,
            StatusCode::ReplicateDataFailed => 13,
            StatusCode::NumMapperZero => 14,
            StatusCode::MapEnded => 15,
            StatusCode::StageEnded => 16,
            StatusCode::PushDataFailNonCriticalCause => 17,
            StatusCode::PushDataWriteFailReplica => 18,
            StatusCode::PushDataWriteFailPrimary => 19,
            StatusCode::PushDataFailPartitionNotFound => 20,
            StatusCode::HardSplit => 21,
            StatusCode::SoftSplit => 22,
            StatusCode::StageEndTimeOut => 23,
            StatusCode::ShuffleDataLost => 24,
            StatusCode::WorkerShutdown => 25,
            StatusCode::NoAvailableWorkingDir => 26,
            StatusCode::WorkerExcluded => 27,
            StatusCode::WorkerUnknown => 28,
            StatusCode::CommitFileException => 29,
            StatusCode::PushDataSuccessPrimaryCongested => 30,
            StatusCode::PushDataSuccessReplicaCongested => 31,
            StatusCode::PushDataHandshakeFailReplica => 32,
            StatusCode::PushDataHandshakeFailPrimary => 33,
            StatusCode::RegionStartFailReplica => 34,
            StatusCode::RegionStartFailPrimary => 35,
            StatusCode::RegionFinishFailReplica => 36,
            StatusCode::RegionFinishFailPrimary => 37,
            StatusCode::PushDataCreateConnectionFailPrimary => 38,
            StatusCode::PushDataCreateConnectionFailReplica => 39,
            StatusCode::PushDataConnectionExceptionPrimary => 40,
            StatusCode::PushDataConnectionExceptionReplica => 41,
            StatusCode::PushDataTimeoutPrimary => 42,
            StatusCode::PushDataTimeoutReplica => 43,
            StatusCode::PushDataPrimaryWorkerExcluded => 44,
            StatusCode::PushDataReplicaWorkerExcluded => 45,
            StatusCode::FetchDataTimeout => 46,
            StatusCode::ReviveInitialized => 47,
            StatusCode::DestroySlotsMockFailure => 48,
            StatusCode::CommitFilesMockFailure => 49,
            StatusCode::NoSplit => 54,
            StatusCode::Unknown => -1,
        }
    }

    /// The name of this status.
    pub fn name(&self) -> (r: &'static str)
        ensures
            r@ == status_name(*self),
    {
        match self {
            StatusCode::Success => "Success",
            StatusCode::PartialSuccess => "PartialSuccess",
            StatusCode::RequestFailed => "RequestFailed",
            StatusCode::ShuffleAlreadyRegistered => "ShuffleAlreadyRegistered",
            StatusCode::ShuffleNotRegistered => "ShuffleNotRegistered",
            StatusCode::ReserveSlotsFailed => "ReserveSlotsFailed",
            StatusCode::SlotNotAvailable => "SlotNotAvailable",
            StatusCode::WorkerNotFound => "WorkerNotFound",
            StatusCode::PartitionNotFound => "PartitionNotFound",
            StatusCode::ReplicaPartitionNotFound => "ReplicaPartitionNotFound",
            StatusCode::DeleteFilesFailed => "DeleteFilesFailed",
            StatusCode::PartitionExists => "PartitionExists",
            StatusCode::ReviveFailed => "ReviveFailed",
            StatusCode::ReplicateDataFailed => "ReplicateDataFailed",
            StatusCode::NumMapperZero => "NumMapperZero",
            StatusCode::MapEnded => "MapEnded",
            StatusCode::StageEnded => "StageEnded",
            StatusCode::PushDataFailNonCriticalCause => "PushDataFailNonCriticalCause",
            StatusCode::PushDataWriteFailReplica => "PushDataWriteFailReplica",
            StatusCode::PushDataWriteFailPrimary => "PushDataWriteFailPrimary",
            StatusCode::PushDataFailPartitionNotFound => "PushDataFailPartitionNotFound",
            StatusCode::HardSplit => "HardSplit",
            StatusCode::SoftSplit => "SoftSplit",
            StatusCode::StageEndTimeOut => "StageEndTimeOut",
            StatusCode::ShuffleDataLost => "ShuffleDataLost",
            StatusCode::WorkerShutdown => "WorkerShutdown",
            StatusCode::NoAvailableWorkingDir => "NoAvailableWorkingDir",
            StatusCode::WorkerExcluded => "WorkerExcluded",
            StatusCode::WorkerUnknown => "WorkerUnknown",
            StatusCode::CommitFileException => "CommitFileException",
            StatusCode::PushDataSuccessPrimaryCongested => "PushDataSuccessPrimaryCongested",
            StatusCode::PushDataSuccessReplicaCongested => "PushDataSuccessReplicaCongested",
            StatusCode::PushDataHandshakeFailReplica => "PushDataHandshakeFailReplica",
            StatusCode::PushDataHandshakeFailPrimary => "PushDataHandshakeFailPrimary",
            StatusCode::RegionStartFailReplica => "RegionStartFailReplica",
            StatusCode::RegionStartFailPrimary => "RegionStartFailPrimary",
            StatusCode::RegionFinishFailReplica => "RegionFinishFailReplica",
            StatusCode::RegionFinishFailPrimary => "RegionFinishFailPrimary",
            StatusCode::PushDataCreateConnectionFailPrimary => "PushDataCreateConnectionFailPrimary",
            StatusCode::PushDataCreateConnectionFailReplica => "PushDataCreateConnectionFailReplica",
            StatusCode::PushDataConnectionExceptionPrimary => "PushDataConnectionExceptionPrimary",
            StatusCode::PushDataConnectionExceptionReplica => "PushDataConnectionExceptionReplica",
            StatusCode::PushDataTimeoutPrimary => "PushDataTimeoutPrimary",
            StatusCode::PushDataTimeoutReplica => "PushDataTimeoutReplica",
            StatusCode::PushDataPrimaryWorkerExcluded => "PushDataPrimaryWorkerExcluded",
            StatusCode::PushDataReplicaWorkerExcluded => "PushDataReplicaWorkerExcluded",
            StatusCode::FetchDataTimeout => "FetchDataTimeout",
            StatusCode::ReviveInitialized => "ReviveInitialized",
            StatusCode::DestroySlotsMockFailure => "DestroySlotsMockFailure",
            StatusCode::CommitFilesMockFailure => "CommitFilesMockFailure",
            StatusCode::NoSplit => "NoSplit",
            StatusCode::Unknown => "Unknown",
        }
    }

    /// Check if the status indicates success.
    pub fn is_success(&self) -> (r: bool)
        ensures
            r == succeeded(*self),
    {
        matches!(self, StatusCode::Success | StatusCode::PartialSuccess)
    }

    /// Check if the status indicates a retriable error.
    pub fn is_retriable(&self) -> (r: bool)
        ensures
            r == (self is PushDataTimeoutPrimary || self is PushDataTimeoutReplica
                || self is FetchDataTimeout || self is WorkerShutdown || self is WorkerExcluded
                || self is PushDataCreateConnectionFailPrimary
                || self is PushDataCreateConnectionFailReplica),
    {
        matches!(
            self,
            StatusCode::PushDataTimeoutPrimary
                | StatusCode::PushDataTimeoutReplica
                | StatusCode::FetchDataTimeout
                | StatusCode::WorkerShutdown
                | StatusCode::WorkerExcluded
                | StatusCode::PushDataCreateConnectionFailPrimary
                | StatusCode::PushDataCreateConnectionFailReplica
        )
    }
}

/// Reading the number that stands for a status gives the status back.
pub proof fn law_status_round_trip(s: StatusCode)
    ensures
        status_of(status_code(s) as i32) == s,
        i32::MIN <= status_code(s) <= i32::MAX,
{
}

/// A number that is assigned to a status stands for that status alone; every other
/// number reads as `Unknown`.
pub proof fn law_status_numbers(value: i32)
    ensures
        status_of(value) != StatusCode::Unknown ==> status_code(status_of(value)) == value,
{
}

} // verus!
