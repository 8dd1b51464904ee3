//! Message types for the Celeborn wire protocol.

use bytes::{Bytes, BytesMut};
use vstd::prelude::*;
use vstd::string::*;
use vstd::utf8;

use crate::buffers;
use crate::error::IoError;
use crate::protocol;
use crate::protocol::{Decodable, Encodable, Outcome};
use crate::wire;

verus! {

broadcast use wire::lemma_be_len;

/// Message type identifiers.
#[derive(Debug, Clone, Copy, PartialEq, Eq, Structural)]
pub enum MessageType {
    UnknownType,
    ChunkFetchRequest,
    ChunkFetchSuccess,
    ChunkFetchFailure,
    RpcRequest,
    RpcResponse,
    RpcFailure,
    OpenStream,
    StreamHandle,
    OneWayMessage,
    PushData,
    PushMergedData,
    RegionStart,
    RegionFinish,
    PushDataHandShake,
    ReadAddCredit,
    ReadData,
    OpenStreamWithCredit,
    BacklogAnnouncement,
    TransportableError,
    BufferStreamEnd,
    Heartbeat,
}

/// The number of a message type on the wire.
pub open spec fn type_code(t: MessageType) -> u8 {
    match t {
        MessageType::UnknownType => 255,
        MessageType::ChunkFetchRequest => 0,
        MessageType::ChunkFetchSuccess => 1,
        MessageType::ChunkFetchFailure => 2,
        MessageType::RpcRequest => 3,
        MessageType::RpcResponse => 4,
        MessageType::RpcFailure => 5,
        MessageType::OpenStream => 6,
        MessageType::StreamHandle => 7,
        MessageType::OneWayMessage => 9,
        MessageType::PushData => 11,
        MessageType::PushMergedData => 12,
        MessageType::RegionStart => 13,
        MessageType::RegionFinish => 14,
        MessageType::PushDataHandShake => 15,
        MessageType::ReadAddCredit => 16,
        MessageType::ReadData => 17,
        MessageType::OpenStreamWithCredit => 18,
        MessageType::BacklogAnnouncement => 19,
        MessageType::TransportableError => 20,
        MessageType::BufferStreamEnd => 21,
        MessageType::Heartbeat => 22,
    }
}

/// The message type that a number on the wire stands for; an unassigned number is
/// `UnknownType`.
pub open spec fn type_of(value: u8) -> MessageType {
    if value == 0 {
        MessageType::ChunkFetchRequest
    } else if value == 1 {
        MessageType::ChunkFetchSuccess
    } else if value == 2 {
        MessageType::ChunkFetchFailure
    } else if value == 3 {
        MessageType::RpcRequest
    } else if value == 4 {
        MessageType::RpcResponse
    } else if value == 5 {
        MessageType::RpcFailure
    } else if value == 6 {
        MessageType::OpenStream
    } else if value == 7 {
        MessageType::StreamHandle
    } else if value == 9 {
        MessageType::OneWayMessage
    } else if value == 11 {
        MessageType::PushData
    } else if value == 12 {
        MessageType::PushMergedData
    } else if value == 13 {
        MessageType::RegionStart
    } else if value == 14 {
        MessageType::RegionFinish
    } else if value == 15 {
        MessageType::PushDataHandShake
    } else if value == 16 {
        MessageType::ReadAddCredit
    } else if value == 17 {
        MessageType::ReadData
    } else if value == 18 {
        MessageType::OpenStreamWithCredit
    } else if value == 19 {
        MessageType::BacklogAnnouncement
    } else if value == 20 {
        MessageType::TransportableError
    } else if value == 21 {
        MessageType::BufferStreamEnd
    } else if value == 22 {
        MessageType::Heartbeat
    } else {
        MessageType::UnknownType
    }
}

/// The name of a message type.
pub open spec fn type_label(t: MessageType) -> Seq<char> {
    match t {
        MessageType::UnknownType => "UnknownType"@,
        MessageType::ChunkFetchRequest => "ChunkFetchRequest"@,
        MessageType::ChunkFetchSuccess => "ChunkFetchSuccess"@,
        MessageType::ChunkFetchFailure => "ChunkFetchFailure"@,
        MessageType::RpcRequest => "RpcRequest"@,
        MessageType::RpcResponse => "RpcResponse"@,
        MessageType::RpcFailure => "RpcFailure"@,
        MessageType::OpenStream => "OpenStream"@,
        MessageType::StreamHandle => "StreamHandle"@,
        MessageType::OneWayMessage => "OneWayMessage"@,
        MessageType::PushData => "PushData"@,
        MessageType::PushMergedData => "PushMergedData"@,
        MessageType::RegionStart => "RegionStart"@,
        MessageType::RegionFinish => "RegionFinish"@,
        MessageType::PushDataHandShake => "PushDataHandShake"@,
        MessageType::ReadAddCredit => "ReadAddCredit"@,
        MessageType::ReadData => "ReadData"@,
        MessageType::OpenStreamWithCredit => "OpenStreamWithCredit"@,
        MessageType::BacklogAnnouncement => "BacklogAnnouncement"@,
        MessageType::TransportableError => "TransportableError"@,
        MessageType::BufferStreamEnd => "BufferStreamEnd"@,
        MessageType::Heartbeat => "Heartbeat"@,
    }
}

impl From<u8> for MessageType {
    fn from(value: u8) -> (r: Self) {
        match value {
            0 => MessageType::ChunkFetchRequest,
            1 => MessageType::ChunkFetchSuccess,
            2 => MessageType::ChunkFetchFailure,
            3 => MessageType::RpcRequest,
            4 => MessageType::RpcResponse,
            5 => MessageType::RpcFailure,
            6 => MessageType::OpenStream,
            7 => MessageType::StreamHandle,
            9 => MessageType::OneWayMessage,
            11 => MessageType::PushData,
            12 => MessageType::PushMergedData,
            13 => MessageType::RegionStart,
            14 => MessageType::RegionFinish,
            15 => MessageType::PushDataHandShake,
            16 => MessageType::ReadAddCredit,
            17 => MessageType::ReadData,
            18 => MessageType::OpenStreamWithCredit,
            19 => MessageType::BacklogAnnouncement,
            20 => MessageType::TransportableError,
            21 => MessageType::BufferStreamEnd,
            22 => MessageType::Heartbeat,
            _ => MessageType::UnknownType,
        }
    }
}

impl vstd::std_specs::convert::FromSpecImpl<u8> for MessageType {
    open spec fn obeys_from_spec() -> bool {
        true
    }

    open spec fn from_spec(value: u8) -> Self {
        type_of(value)
    }
}

impl MessageType {
    /// The number of this message type on the wire.
    pub fn code(&self) -> (r: u8)
        ensures
            r == type_code(*self),
    {
        match self {
            MessageType::UnknownType => 255,
            MessageType::ChunkFetchRequest => 0,
            MessageType::ChunkFetchSuccess => 1,
            MessageType::ChunkFetchFailure => 2,
            MessageType::RpcRequest => 3,
            MessageType::RpcResponse => 4,
            MessageType::RpcFailure => 5,
            MessageType::OpenStream => 6,
            MessageType::StreamHandle => 7,
            MessageType::OneWayMessage => 9,
            MessageType::PushData => 11,
            MessageType::PushMergedData => 12,
            MessageType::RegionStart => 13,
            MessageType::RegionFinish => 14,
            MessageType::PushDataHandShake => 15,
            MessageType::ReadAddCredit => 16,
            MessageType::ReadData => 17,
            MessageType::OpenStreamWithCredit => 18,
            MessageType::BacklogAnnouncement => 19,
            MessageType::TransportableError => 20,
            MessageType::BufferStreamEnd => 21,
            MessageType::Heartbeat => 22,
        }
    }

    /// The name of this message type.
    pub fn name(&self) -> (r: &'static str)
        ensures
            r@ == type_label(*self),
    {
        match self {
            MessageType::UnknownType => "UnknownType",
            MessageType::ChunkFetchRequest => "ChunkFetchRequest",
            MessageType::ChunkFetchSuccess => "ChunkFetchSuccess",
            MessageType::ChunkFetchFailure => "ChunkFetchFailure",
            MessageType::RpcRequest => "RpcRequest",
            MessageType::RpcResponse => "RpcResponse",
            MessageType::RpcFailure => "RpcFailure",
            MessageType::OpenStream => "OpenStream",
            MessageType::StreamHandle => "StreamHandle",
            MessageType::OneWayMessage => "OneWayMessage",
            MessageType::PushData => "PushData",
            MessageType::PushMergedData => "PushMergedData",
            MessageType::RegionStart => "RegionStart",
            MessageType::RegionFinish => "RegionFinish",
            MessageType::PushDataHandShake => "PushDataHandShake",
            MessageType::ReadAddCredit => "ReadAddCredit",
            MessageType::ReadData => "ReadData",
            MessageType::OpenStreamWithCredit => "OpenStreamWithCredit",
            MessageType::BacklogAnnouncement => "BacklogAnnouncement",
            MessageType::TransportableError => "TransportableError",
            MessageType::BufferStreamEnd => "BufferStreamEnd",
            MessageType::Heartbeat => "Heartbeat",
        }
    }
}

/// Reading the number of a message type gives the type back.
pub proof fn law_type_round_trip(t: MessageType)
    ensures
        type_of(type_code(t)) == t,
{
}

/// A number that is assigned to a message type stands for that type alone.
pub proof fn law_type_numbers(value: u8)
    ensures
        type_of(value) != MessageType::UnknownType ==> type_code(type_of(value)) == value,
{
}

/// Base trait for all messages.
pub trait Message: Encodable {
    /// The type of the message.
    spec fn kind(&self) -> MessageType;

    /// The bytes of the body, where the message has one.
    spec fn payload(&self) -> Option<Seq<u8>>;

    /// Get the message type.
    fn message_type(&self) -> (r: MessageType)
        ensures
            r == self.kind(),
    ;

    /// Get the optional body of the message.
    fn body(&self) -> (r: Option<&Bytes>)
        ensures
            match r {
                Some(b) => self.payload() == Some(buffers::octets(*b)),
                None => self.payload() is None,
            },
    ;
}

/// A body behind its length in four bytes. The length is taken modulo 2^32.
pub open spec fn sized_body(body: Seq<u8>) -> Seq<u8> {
    wire::be_i32(wire::signed32(body.len())) + body
}

/// The body in the first `n` bytes of `s`, and the bytes behind it.
pub open spec fn parse_body(s: Seq<u8>, n: int, message: Seq<char>) -> (Outcome<Seq<u8>>, Seq<u8>) {
    if n < 0 || s.len() < n {
        (protocol::eof(message), s)
    } else {
        (Outcome::Done(s.take(n)), s.skip(n))
    }
}

/// Reads a body of `n` bytes off the buffer.
fn decode_body(buf: &mut Bytes, n: i32, message: &str) -> (r: std::result::Result<Bytes, IoError>)
    ensures
        match parse_body(buffers::octets(*old(buf)), n as int, message@).0 {
            Outcome::Done(v) => r matches Ok(b) && buffers::octets(b) == v,
            Outcome::Fault(k, m) => r matches Err(e) && e.kind == k && e.message@ == m,
        },
        buffers::octets(*final(buf)) == parse_body(buffers::octets(*old(buf)), n as int, message@).1,
{
    if n < 0 || buffers::bytes_len(buf) < n as usize {
        return Err(protocol::eof_error(message));
    }
    Ok(buffers::copy_to_bytes(buf, n as usize))
}

/// Appends a body behind its length.
fn encode_body(buf: &mut BytesMut, body: &Bytes)
    requires
        buffers::has_room(
            buffers::buffered(*old(buf)),
            sized_body(buffers::octets(*body)).len() as int,
        ),
    ensures
        buffers::buffered(*final(buf)) == buffers::buffered(*old(buf)) + sized_body(
            buffers::octets(*body),
        ),
{
    buffers::put_i32(buf, wire::wire_len(buffers::bytes_len(body)));
    buffers::put_slice(buf, buffers::bytes_as_slice(body));
    assert(buffers::buffered(*buf) =~= buffers::buffered(*old(buf)) + sized_body(
        buffers::octets(*body),
    ));
}

/// A body of less than 2^31 bytes comes back behind its length.
proof fn lemma_body(body: Seq<u8>, tail: Seq<u8>, message: Seq<char>)
    requires
        body.len() <= i32::MAX,
    ensures
        wire::i32_at(sized_body(body) + tail) == body.len(),
        (sized_body(body) + tail).skip(4) == body + tail,
        parse_body(body + tail, body.len() as int, message) == (Outcome::<Seq<u8>>::Done(body), tail),
{
    wire::lemma_i32_at(wire::signed32(body.len()), body + tail);
    assert(sized_body(body) + tail =~= wire::be_i32(wire::signed32(body.len())) + (body + tail));
    assert((body + tail).take(body.len() as int) =~= body);
    assert((body + tail).skip(body.len() as int) =~= tail);
}

/// RPC request message.
#[derive(Debug)]
pub struct RpcRequest {
    /// Unique request ID
    pub request_id: i64,
    /// Request body
    pub body: Bytes,
}

impl View for RpcRequest {
    type V = (i64, Seq<u8>);

    open spec fn view(&self) -> (i64, Seq<u8>) {
        (self.request_id, buffers::octets(self.body))
    }
}

impl RpcRequest {
    pub fn new(request_id: i64, body: Bytes) -> (r: Self)
        ensures
            r == (RpcRequest { request_id, body }),
    {
        RpcRequest { request_id, body }
    }
}

impl Encodable for RpcRequest {
    open spec fn wire(&self) -> Seq<u8> {
        seq![type_code(MessageType::RpcRequest)] + wire::be_i64(self.request_id) + sized_body(
            buffers::octets(self.body),
        )
    }

    fn encoded_length(&self) -> usize {
        1 + 8 + 4 + buffers::bytes_len(&self.body)
    }

    fn encode(&self, buf: &mut BytesMut) {
        buffers::put_u8(buf, MessageType::RpcRequest.code());
        buffers::put_i64(buf, self.request_id);
        encode_body(buf, &self.body);
        assert(buffers::buffered(*buf) =~= buffers::buffered(*old(buf)) + self.wire());
    }
}

/// The encoded length of an RPC request: the byte that names the message, the number of the
/// request, the length of the body and the body.
pub proof fn law_rpc_request_length(m: RpcRequest)
    ensures
        m.wire().len() == 1 + 8 + 4 + buffers::octets(m.body).len(),
{
    broadcast use wire::lemma_be_len;
}

impl Decodable for RpcRequest {
    open spec fn parse(s: Seq<u8>) -> (Outcome<(i64, Seq<u8>)>, Seq<u8>) {
        if s.len() < 12 {
            (protocol::eof("Not enough bytes for RpcRequest"@), s)
        } else {
            let (b, rest) = parse_body(
                s.skip(12),
                wire::i32_at(s.skip(8)) as int,
                "Not enough bytes for RpcRequest body"@,
            );
            match b {
                Outcome::Done(body) => (Outcome::Done((wire::i64_at(s), body)), rest),
                Outcome::Fault(k, m) => (Outcome::Fault(k, m), rest),
            }
        }
    }

    fn decode(buf: &mut Bytes) -> std::result::Result<Self, IoError> {
        if buffers::bytes_len(buf) < 12 {
            return Err(protocol::eof_error("Not enough bytes for RpcRequest"));
        }
        let request_id: i64 = buffers::get_i64(buf);
        let body_len: i32 = buffers::get_i32(buf);
        assert(buffers::octets(*buf) =~= buffers::octets(*old(buf)).skip(12));
        match decode_body(buf, body_len, "Not enough bytes for RpcRequest body") {
            Ok(body) => Ok(RpcRequest { request_id, body }),
            Err(e) => Err(e),
        }
    }
}

impl Message for RpcRequest {
    open spec fn kind(&self) -> MessageType {
        MessageType::RpcRequest
    }

    open spec fn payload(&self) -> Option<Seq<u8>> {
        Some(buffers::octets(self.body))
    }

    fn message_type(&self) -> MessageType {
        MessageType::RpcRequest
    }

    fn body(&self) -> Option<&Bytes> {
        Some(&self.body)
    }
}

/// What stands behind the type byte of an encoded message decodes to the message, as
/// long as its body has less than 2^31 bytes; what follows is left over.
pub proof fn law_rpc_request_round_trip(m: RpcRequest, tail: Seq<u8>)
    requires
        buffers::octets(m.body).len() <= i32::MAX,
    ensures
        RpcRequest::parse(m.wire().skip(1) + tail) == (Outcome::<(i64, Seq<u8>)>::Done(m@), tail),
        m.wire()[0] == type_code(m.kind()),
{
    let body = buffers::octets(m.body);
    let all = m.wire().skip(1) + tail;
    assert(all =~= wire::be_i64(m.request_id) + (sized_body(body) + tail));
    wire::lemma_i64_at(m.request_id, sized_body(body) + tail);
    lemma_body(body, tail, "Not enough bytes for RpcRequest body"@);
    assert(all.skip(12) =~= all.skip(8).skip(4));
}

/// RPC response message.
#[derive(Debug)]
pub struct RpcResponse {
    /// Request ID this is responding to
    pub request_id: i64,
    /// Response body
    pub body: Bytes,
}

impl View for RpcResponse {
    type V = (i64, Seq<u8>);

    open spec fn view(&self) -> (i64, Seq<u8>) {
        (self.request_id, buffers::octets(self.body))
    }
}

impl RpcResponse {
    pub fn new(request_id: i64, body: Bytes) -> (r: Self)
        ensures
            r == (RpcResponse { request_id, body }),
    {
        RpcResponse { request_id, body }
    }
}

impl Encodable for RpcResponse {
    open spec fn wire(&self) -> Seq<u8> {
        seq![type_code(MessageType::RpcResponse)] + wire::be_i64(self.request_id) + sized_body(
            buffers::octets(self.body),
        )
    }

    fn encoded_length(&self) -> usize {
        1 + 8 + 4 + buffers::bytes_len(&self.body)
    }

    fn encode(&self, buf: &mut BytesMut) {
        buffers::put_u8(buf, MessageType::RpcResponse.code());
        buffers::put_i64(buf, self.request_id);
        encode_body(buf, &self.body);
        assert(buffers::buffered(*buf) =~= buffers::buffered(*old(buf)) + self.wire());
    }
}

impl Decodable for RpcResponse {
    open spec fn parse(s: Seq<u8>) -> (Outcome<(i64, Seq<u8>)>, Seq<u8>) {
        if s.len() < 12 {
            (protocol::eof("Not enough bytes for RpcResponse"@), s)
        } else {
            let (b, rest) = parse_body(
                s.skip(12),
                wire::i32_at(s.skip(8)) as int,
                "Not enough bytes for RpcResponse body"@,
            );
            match b {
                Outcome::Done(body) => (Outcome::Done((wire::i64_at(s), body)), rest),
                Outcome::Fault(k, m) => (Outcome::Fault(k, m), rest),
            }
        }
    }

    fn decode(buf: &mut Bytes) -> std::result::Result<Self, IoError> {
        if buffers::bytes_len(buf) < 12 {
            return Err(protocol::eof_error("Not enough bytes for RpcResponse"));
        }
        let request_id: i64 = buffers::get_i64(buf);
        let body_len: i32 = buffers::get_i32(buf);
        assert(buffers::octets(*buf) =~= buffers::octets(*old(buf)).skip(12));
        match decode_body(buf, body_len, "Not enough bytes for RpcResponse body") {
            Ok(body) => Ok(RpcResponse { request_id, body }),
            Err(e) => Err(e),
        }
    }
}

impl Message for RpcResponse {
    open spec fn kind(&self) -> MessageType {
        MessageType::RpcResponse
    }

    open spec fn payload(&self) -> Option<Seq<u8>> {
        Some(buffers::octets(self.body))
    }

    fn message_type(&self) -> MessageType {
        MessageType::RpcResponse
    }

    fn body(&self) -> Option<&Bytes> {
        Some(&self.body)
    }
}

/// What stands behind the type byte of an encoded message decodes to the message, as
/// long as its body has less than 2^31 bytes; what follows is left over.
pub proof fn law_rpc_response_round_trip(m: RpcResponse, tail: Seq<u8>)
    requires
        buffers::octets(m.body).len() <= i32::MAX,
    ensures
        RpcResponse::parse(m.wire().skip(1) + tail) == (Outcome::<(i64, Seq<u8>)>::Done(m@), tail),
        m.wire()[0] == type_code(m.kind()),
{
    let body = buffers::octets(m.body);
    let all = m.wire().skip(1) + tail;
    assert(all =~= wire::be_i64(m.request_id) + (sized_body(body) + tail));
    wire::lemma_i64_at(m.request_id, sized_body(body) + tail);
    lemma_body(body, tail, "Not enough bytes for RpcResponse body"@);
    assert(all.skip(12) =~= all.skip(8).skip(4));
}

/// RPC failure message.
#[derive(Debug)]
pub struct RpcFailure {
    /// Request ID this is responding to
    pub request_id: i64,
    /// Error message
    pub error_message: String,
}

impl View for RpcFailure {
    type V = (i64, Seq<char>);

    open spec fn view(&self) -> (i64, Seq<char>) {
        (self.request_id, self.error_message@)
    }
}

impl Encodable for RpcFailure {
    open spec fn wire(&self) -> Seq<u8> {
        seq![type_code(MessageType::RpcFailure)] + wire::be_i64(self.request_id)
            + protocol::short_string(self.error_message@)
    }

    fn encoded_length(&self) -> usize {
        1 + 8 + protocol::string_encoded_length(self.error_message.as_str())
    }

    fn encode(&self, buf: &mut BytesMut) {
        buffers::put_u8(buf, MessageType::RpcFailure.code());
        buffers::put_i64(buf, self.request_id);
        protocol::encode_string(buf, self.error_message.as_str());
        assert(buffers::buffered(*buf) =~= buffers::buffered(*old(buf)) + self.wire());
    }
}

impl Decodable for RpcFailure {
    open spec fn parse(s: Seq<u8>) -> (Outcome<(i64, Seq<char>)>, Seq<u8>) {
        if s.len() < 8 {
            (protocol::eof("Not enough bytes for RpcFailure"@), s)
        } else {
            let (t, rest) = protocol::parse_string(s.skip(8));
            match t {
                Outcome::Done(message) => (Outcome::Done((wire::i64_at(s), message)), rest),
                Outcome::Fault(k, m) => (Outcome::Fault(k, m), rest),
            }
        }
    }

    fn decode(buf: &mut Bytes) -> std::result::Result<Self, IoError> {
        if buffers::bytes_len(buf) < 8 {
            return Err(protocol::eof_error("Not enough bytes for RpcFailure"));
        }
        let request_id: i64 = buffers::get_i64(buf);
        match protocol::decode_string(buf) {
            Ok(error_message) => Ok(RpcFailure { request_id, error_message }),
            Err(e) => Err(e),
        }
    }
}

/// What stands behind the type byte of an encoded message decodes to the message, as
/// long as its text has less than 2^16 bytes; what follows is left over.
pub proof fn law_rpc_failure_round_trip(m: RpcFailure, tail: Seq<u8>)
    requires
        utf8::encode_utf8(m.error_message@).len() < 0x1_0000,
    ensures
        RpcFailure::parse(m.wire().skip(1) + tail) == (Outcome::<(i64, Seq<char>)>::Done(m@), tail),
        m.wire()[0] == type_code(m.kind()),
{
    let all = m.wire().skip(1) + tail;
    let rest = protocol::short_string(m.error_message@) + tail;
    assert(all =~= wire::be_i64(m.request_id) + rest);
    wire::lemma_i64_at(m.request_id, rest);
    protocol::law_string_round_trip(m.error_message@, tail);
}

/// Push data message.
#[derive(Debug)]
pub struct PushData {
    /// Request ID
    pub request_id: i64,
    /// Mode (0 for primary, 1 for replica)
    pub mode: u8,
    /// Shuffle key (appId-shuffleId)
    pub shuffle_key: String,
    /// Partition unique ID (partitionId-epoch)
    pub partition_unique_id: String,
    /// Data body
    pub body: Bytes,
}

/// What a `PushData` says.
pub struct PushDataModel {
    pub request_id: i64,
    pub mode: u8,
    pub shuffle_key: Seq<char>,
    pub partition_unique_id: Seq<char>,
    pub body: Seq<u8>,
}

impl View for PushData {
    type V = PushDataModel;

    open spec fn view(&self) -> PushDataModel {
        PushDataModel {
            request_id: self.request_id,
            mode: self.mode,
            shuffle_key: self.shuffle_key@,
            partition_unique_id: self.partition_unique_id@,
            body: buffers::octets(self.body),
        }
    }
}

impl PushData {
    pub fn new(
        request_id: i64,
        mode: u8,
        shuffle_key: String,
        partition_unique_id: String,
        body: Bytes,
    ) -> (r: Self)
        ensures
            r == (PushData { request_id, mode, shuffle_key, partition_unique_id, body }),
    {
        PushData { request_id, mode, shuffle_key, partition_unique_id, body }
    }
}

impl Encodable for PushData {
    open spec fn wire(&self) -> Seq<u8> {
        seq![type_code(MessageType::PushData)] + wire::be_i64(self.request_id) + seq![self.mode]
            + protocol::short_string(self.shuffle_key@) + protocol::short_string(
            self.partition_unique_id@,
        ) + sized_body(buffers::octets(self.body))
    }

    fn encoded_length(&self) -> usize {
        1 + 8 + 1 + protocol::string_encoded_length(self.shuffle_key.as_str())
            + protocol::string_encoded_length(self.partition_unique_id.as_str()) + 4
            + buffers::bytes_len(&self.body)
    }

    fn encode(&self, buf: &mut BytesMut) {
        buffers::put_u8(buf, MessageType::PushData.code());
        buffers::put_i64(buf, self.request_id);
        buffers::put_u8(buf, self.mode);
        protocol::encode_string(buf, self.shuffle_key.as_str());
        protocol::encode_string(buf, self.partition_unique_id.as_str());
        encode_body(buf, &self.body);
        assert(buffers::buffered(*buf) =~= buffers::buffered(*old(buf)) + self.wire());
    }
}

impl Decodable for PushData {
    open spec fn parse(s: Seq<u8>) -> (Outcome<PushDataModel>, Seq<u8>) {
        if s.len() < 9 {
            (protocol::eof("Not enough bytes for PushData header"@), s)
        } else {
            match protocol::parse_string(s.skip(9)) {
                (Outcome::Fault(k, m), r1) => (Outcome::Fault(k, m), r1),
                (Outcome::Done(shuffle_key), r1) => match protocol::parse_string(r1) {
                    (Outcome::Fault(k, m), r2) => (Outcome::Fault(k, m), r2),
                    (Outcome::Done(partition_unique_id), r2) => {
                        if r2.len() < 4 {
                            (protocol::eof("Not enough bytes for PushData body length"@), r2)
                        } else {
                            match parse_body(
                                r2.skip(4),
                                wire::i32_at(r2) as int,
                                "Not enough bytes for PushData body"@,
                            ) {
                                (Outcome::Fault(k, m), r3) => (Outcome::Fault(k, m), r3),
                                (Outcome::Done(body), r3) => (
                                    Outcome::Done(
                                        PushDataModel {
                                            request_id: wire::i64_at(s),
                                            mode: s[8],
                                            shuffle_key,
                                            partition_unique_id,
                                            body,
                                        },
                                    ),
                                    r3,
                                ),
                            }
                        }
                    },
                },
            }
        }
    }

    fn decode(buf: &mut Bytes) -> std::result::Result<Self, IoError> {
        if buffers::bytes_len(buf) < 9 {
            return Err(protocol::eof_error("Not enough bytes for PushData header"));
        }
        let request_id: i64 = buffers::get_i64(buf);
        let mode: u8 = buffers::get_u8(buf);
        assert(buffers::octets(*buf) =~= buffers::octets(*old(buf)).skip(9));
        let shuffle_key: String = match protocol::decode_string(buf) {
            Ok(s) => s,
            Err(e) => {
                return Err(e);
            },
        };
        let partition_unique_id: String = match protocol::decode_string(buf) {
            Ok(s) => s,
            Err(e) => {
                return Err(e);
            },
        };
        if buffers::bytes_len(buf) < 4 {
            return Err(protocol::eof_error("Not enough bytes for PushData body length"));
        }
        let body_len: i32 = buffers::get_i32(buf);
        match decode_body(buf, body_len, "Not enough bytes for PushData body") {
            Ok(body) => Ok(PushData { request_id, mode, shuffle_key, partition_unique_id, body }),
            Err(e) => Err(e),
        }
    }
}

/// What stands behind the type byte of an encoded message decodes to the message, as
/// long as its strings have less than 2^16 bytes and its body less than 2^31; what
/// follows is left over.
pub proof fn law_push_data_round_trip(m: PushData, tail: Seq<u8>)
    requires
        utf8::encode_utf8(m.shuffle_key@).len() < 0x1_0000,
        utf8::encode_utf8(m.partition_unique_id@).len() < 0x1_0000,
        buffers::octets(m.body).len() <= i32::MAX,
    ensures
        PushData::parse(m.wire().skip(1) + tail) == (Outcome::<PushDataModel>::Done(m@), tail),
        m.wire()[0] == type_code(m.kind()),
{
    let body = buffers::octets(m.body);
    let all = m.wire().skip(1) + tail;
    let r2 = sized_body(body) + tail;
    let r1 = protocol::short_string(m.partition_unique_id@) + r2;
    let r0 = protocol::short_string(m.shuffle_key@) + r1;
    assert(all =~= wire::be_i64(m.request_id) + (seq![m.mode] + r0));
    wire::lemma_i64_at(m.request_id, seq![m.mode] + r0);
    assert(all.skip(9) =~= r0);
    assert(all[8] == m.mode);
    protocol::law_string_round_trip(m.shuffle_key@, r1);
    protocol::law_string_round_trip(m.partition_unique_id@, r2);
    lemma_body(body, tail, "Not enough bytes for PushData body"@);
}

/// Push merged data message (for multiple partitions).
#[derive(Debug)]
pub struct PushMergedData {
    /// Request ID
    pub request_id: i64,
    /// Mode (0 for primary, 1 for replica)
    pub mode: u8,
    /// Shuffle key
    pub shuffle_key: String,
    /// Partition unique IDs
    pub partition_unique_ids: Vec<String>,
    /// Batch offsets (cumulative offsets for each partition's data)
    pub batch_offsets: Vec<i32>,
    /// Combined data body
    pub body: Bytes,
}

/// The strings one after the other, each behind its length.
pub open spec fn strings_wire(ids: Seq<String>) -> Seq<u8>
    decreases ids.len(),
{
    if ids.len() == 0 {
        Seq::<u8>::empty()
    } else {
        strings_wire(ids.drop_last()) + protocol::short_string(ids.last()@)
    }
}

/// The integers one after the other.
pub open spec fn ints_wire(v: Seq<i32>) -> Seq<u8>
    decreases v.len(),
{
    if v.len() == 0 {
        Seq::<u8>::empty()
    } else {
        ints_wire(v.drop_last()) + wire::be_i32(v.last())
    }
}

proof fn lemma_strings_wire_prefix(ids: Seq<String>, i: int)
    requires
        0 <= i < ids.len(),
    ensures
        strings_wire(ids.take(i + 1)) == strings_wire(ids.take(i)) + protocol::short_string(ids[i]@),
        strings_wire(ids.take(i + 1)).len() <= strings_wire(ids).len(),
    decreases ids.len(),
{
    assert(ids.take(i + 1).drop_last() =~= ids.take(i));
    if i + 1 < ids.len() {
        let d = ids.drop_last();
        lemma_strings_wire_prefix(d, i);
        assert(d.take(i + 1) =~= ids.take(i + 1));
    } else {
        assert(ids.take(i + 1) =~= ids);
    }
}

proof fn lemma_ints_wire_prefix(v: Seq<i32>, i: int)
    requires
        0 <= i < v.len(),
    ensures
        ints_wire(v.take(i + 1)) == ints_wire(v.take(i)) + wire::be_i32(v[i]),
{
    assert(v.take(i + 1).drop_last() =~= v.take(i));
}

proof fn lemma_ints_wire_len(v: Seq<i32>)
    ensures
        ints_wire(v).len() == 4 * v.len(),
    decreases v.len(),
{
    if v.len() > 0 {
        lemma_ints_wire_len(v.drop_last());
    }
}

impl PushMergedData {
    /// The partition ids behind their number.
    pub open spec fn ids_wire(&self) -> Seq<u8> {
        wire::be_i32(wire::signed32(self.partition_unique_ids@.len())) + strings_wire(
            self.partition_unique_ids@,
        )
    }

    /// The offsets behind their number.
    pub open spec fn offsets_wire(&self) -> Seq<u8> {
        wire::be_i32(wire::signed32(self.batch_offsets@.len())) + ints_wire(self.batch_offsets@)
    }
}

impl Encodable for PushMergedData {
    open spec fn wire(&self) -> Seq<u8> {
        seq![type_code(MessageType::PushMergedData)] + wire::be_i64(self.request_id) + seq![self.mode]
            + protocol::short_string(self.shuffle_key@) + self.ids_wire() + self.offsets_wire()
            + sized_body(buffers::octets(self.body))
    }

    fn encoded_length(&self) -> usize {
        proof {
            lemma_ints_wire_len(self.batch_offsets@);
        }
        let mut len: usize = 1 + 8 + 1;
        len += protocol::string_encoded_length(self.shuffle_key.as_str());
        len += 4;
        assert(self.partition_unique_ids@.take(0) =~= Seq::<String>::empty());
        let ghost fixed = 10 + protocol::short_string(self.shuffle_key@).len() + 4;
        let mut i: usize = 0;
        while i < self.partition_unique_ids.len()
            invariant
                i <= self.partition_unique_ids@.len(),
                fixed == 14 + protocol::short_string(self.shuffle_key@).len(),
                len == fixed + strings_wire(self.partition_unique_ids@.take(i as int)).len(),
                fixed + strings_wire(self.partition_unique_ids@).len() + 4 + 4 * self.batch_offsets@.len()
                    + 4 + buffers::octets(self.body).len() == self.wire().len(),
                self.wire().len() <= usize::MAX,
            decreases self.partition_unique_ids@.len() - i,
        {
            proof {
                lemma_strings_wire_prefix(self.partition_unique_ids@, i as int);
            }
            len += protocol::string_encoded_length(self.partition_unique_ids[i].as_str());
            i += 1;
        }
        assert(self.partition_unique_ids@.take(i as int) =~= self.partition_unique_ids@);
        len += 4 + self.batch_offsets.len() * 4;
        len += 4 + buffers::bytes_len(&self.body);
        len
    }

    fn encode(&self, buf: &mut BytesMut) {
        proof {
            lemma_ints_wire_len(self.batch_offsets@);
        }
        let ghost start = buffers::buffered(*buf);
        buffers::put_u8(buf, MessageType::PushMergedData.code());
        buffers::put_i64(buf, self.request_id);
        buffers::put_u8(buf, self.mode);
        protocol::encode_string(buf, self.shuffle_key.as_str());
        buffers::put_i32(buf, wire::wire_len(self.partition_unique_ids.len()));
        let ghost head = seq![type_code(MessageType::PushMergedData)] + wire::be_i64(self.request_id)
            + seq![self.mode] + protocol::short_string(self.shuffle_key@) + wire::be_i32(
            wire::signed32(self.partition_unique_ids@.len()),
        );
        assert(buffers::buffered(*buf) =~= start + head);
        assert(self.partition_unique_ids@.take(0) =~= Seq::<String>::empty());
        assert(buffers::buffered(*buf) =~= start + head + strings_wire(
            self.partition_unique_ids@.take(0),
        ));
        let mut i: usize = 0;
        while i < self.partition_unique_ids.len()
            invariant
                i <= self.partition_unique_ids@.len(),
                buffers::buffered(*buf) == start + head + strings_wire(
                    self.partition_unique_ids@.take(i as int),
                ),
                start.len() + head.len() + strings_wire(self.partition_unique_ids@).len() <= isize::MAX,
            decreases self.partition_unique_ids@.len() - i,
        {
            proof {
                lemma_strings_wire_prefix(self.partition_unique_ids@, i as int);
            }
            protocol::encode_string(buf, self.partition_unique_ids[i].as_str());
            i += 1;
            assert(buffers::buffered(*buf) =~= start + head + strings_wire(
                self.partition_unique_ids@.take(i as int),
            ));
        }
        assert(self.partition_unique_ids@.take(i as int) =~= self.partition_unique_ids@);
        buffers::put_i32(buf, wire::wire_len(self.batch_offsets.len()));
        let ghost mid = head + strings_wire(self.partition_unique_ids@) + wire::be_i32(
            wire::signed32(self.batch_offsets@.len()),
        );
        assert(self.batch_offsets@.take(0) =~= Seq::<i32>::empty());
        assert(buffers::buffered(*buf) =~= start + mid + ints_wire(self.batch_offsets@.take(0)));
        let mut k: usize = 0;
        while k < self.batch_offsets.len()
            invariant
                k <= self.batch_offsets@.len(),
                buffers::buffered(*buf) == start + mid + ints_wire(self.batch_offsets@.take(k as int)),
                start.len() + mid.len() + 4 * self.batch_offsets@.len() <= isize::MAX,
            decreases self.batch_offsets@.len() - k,
        {
            proof {
                lemma_ints_wire_prefix(self.batch_offsets@, k as int);
                lemma_ints_wire_len(self.batch_offsets@.take(k as int));
            }
            buffers::put_i32(buf, self.batch_offsets[k]);
            k += 1;
            assert(buffers::buffered(*buf) =~= start + mid + ints_wire(
                self.batch_offsets@.take(k as int),
            ));
        }
        assert(self.batch_offsets@.take(k as int) =~= self.batch_offsets@);
        encode_body(buf, &self.body);
        assert(buffers::buffered(*buf) =~= start + self.wire());
    }
}

/// Open stream request.
#[derive(Debug)]
pub struct OpenStream {
    /// Shuffle key
    pub shuffle_key: String,
    /// File name
    pub file_name: String,
    /// Start chunk index
    pub start_index: i32,
    /// End chunk index
    pub end_index: i32,
}

/// What an `OpenStream` says.
pub struct OpenStreamModel {
    pub shuffle_key: Seq<char>,
    pub file_name: Seq<char>,
    pub start_index: i32,
    pub end_index: i32,
}

impl View for OpenStream {
    type V = OpenStreamModel;

    open spec fn view(&self) -> OpenStreamModel {
        OpenStreamModel {
            shuffle_key: self.shuffle_key@,
            file_name: self.file_name@,
            start_index: self.start_index,
            end_index: self.end_index,
        }
    }
}

impl Encodable for OpenStream {
    open spec fn wire(&self) -> Seq<u8> {
        seq![type_code(MessageType::OpenStream)] + protocol::short_string(self.shuffle_key@)
            + protocol::short_string(self.file_name@) + wire::be_i32(self.start_index)
            + wire::be_i32(self.end_index)
    }

    fn encoded_length(&self) -> usize {
        1 + protocol::string_encoded_length(self.shuffle_key.as_str())
            + protocol::string_encoded_length(self.file_name.as_str()) + 4 + 4
    }

    fn encode(&self, buf: &mut BytesMut) {
        buffers::put_u8(buf, MessageType::OpenStream.code());
        protocol::encode_string(buf, self.shuffle_key.as_str());
        protocol::encode_string(buf, self.file_name.as_str());
        buffers::put_i32(buf, self.start_index);
        buffers::put_i32(buf, self.end_index);
        assert(buffers::buffered(*buf) =~= buffers::buffered(*old(buf)) + self.wire());
    }
}

impl Decodable for OpenStream {
    open spec fn parse(s: Seq<u8>) -> (Outcome<OpenStreamModel>, Seq<u8>) {
        match protocol::parse_string(s) {
            (Outcome::Fault(k, m), r1) => (Outcome::Fault(k, m), r1),
            (Outcome::Done(shuffle_key), r1) => match protocol::parse_string(r1) {
                (Outcome::Fault(k, m), r2) => (Outcome::Fault(k, m), r2),
                (Outcome::Done(file_name), r2) => {
                    if r2.len() < 8 {
                        (protocol::eof("Not enough bytes for OpenStream indices"@), r2)
                    } else {
                        (
                            Outcome::Done(
                                OpenStreamModel {
                                    shuffle_key,
                                    file_name,
                                    start_index: wire::i32_at(r2),
                                    end_index: wire::i32_at(r2.skip(4)),
                                },
                            ),
                            r2.skip(8),
                        )
                    }
                },
            },
        }
    }

    fn decode(buf: &mut Bytes) -> std::result::Result<Self, IoError> {
        let shuffle_key: String = match protocol::decode_string(buf) {
            Ok(s) => s,
            Err(e) => {
                return Err(e);
            },
        };
        let file_name: String = match protocol::decode_string(buf) {
            Ok(s) => s,
            Err(e) => {
                return Err(e);
            },
        };
        if buffers::bytes_len(buf) < 8 {
            return Err(protocol::eof_error("Not enough bytes for OpenStream indices"));
        }
        let ghost r2 = buffers::octets(*buf);
        let start_index: i32 = buffers::get_i32(buf);
        let end_index: i32 = buffers::get_i32(buf);
        assert(buffers::octets(*buf) =~= r2.skip(8));
        Ok(OpenStream { shuffle_key, file_name, start_index, end_index })
    }
}

/// What stands behind the type byte of an encoded message decodes to the message, as
/// long as its strings have less than 2^16 bytes; what follows is left over.
pub proof fn law_open_stream_round_trip(m: OpenStream, tail: Seq<u8>)
    requires
        utf8::encode_utf8(m.shuffle_key@).len() < 0x1_0000,
        utf8::encode_utf8(m.file_name@).len() < 0x1_0000,
    ensures
        OpenStream::parse(m.wire().skip(1) + tail) == (Outcome::<OpenStreamModel>::Done(m@), tail),
        m.wire()[0] == type_code(m.kind()),
{
    let all = m.wire().skip(1) + tail;
    let r3 = wire::be_i32(m.end_index) + tail;
    let r2 = wire::be_i32(m.start_index) + r3;
    let r1 = protocol::short_string(m.file_name@) + r2;
    assert(all =~= protocol::short_string(m.shuffle_key@) + r1);
    protocol::law_string_round_trip(m.shuffle_key@, r1);
    protocol::law_string_round_trip(m.file_name@, r2);
    wire::lemma_i32_at(m.start_index, r3);
    wire::lemma_i32_at(m.end_index, tail);
    assert(r2.skip(8) =~= tail);
}

/// Stream handle response.
#[derive(Debug)]
pub struct StreamHandle {
    /// Stream ID
    pub stream_id: i64,
    /// Number of chunks
    pub num_chunks: i32,
}

impl View for StreamHandle {
    type V = StreamHandle;

    open spec fn view(&self) -> StreamHandle {
        *self
    }
}

impl Encodable for StreamHandle {
    open spec fn wire(&self) -> Seq<u8> {
        seq![type_code(MessageType::StreamHandle)] + wire::be_i64(self.stream_id) + wire::be_i32(
            self.num_chunks,
        )
    }

    fn encoded_length(&self) -> usize {
        1 + 8 + 4
    }

    fn encode(&self, buf: &mut BytesMut) {
        buffers::put_u8(buf, MessageType::StreamHandle.code());
        buffers::put_i64(buf, self.stream_id);
        buffers::put_i32(buf, self.num_chunks);
        assert(buffers::buffered(*buf) =~= buffers::buffered(*old(buf)) + self.wire());
    }
}

impl Decodable for StreamHandle {
    open spec fn parse(s: Seq<u8>) -> (Outcome<StreamHandle>, Seq<u8>) {
        if s.len() < 12 {
            (protocol::eof("Not enough bytes for StreamHandle"@), s)
        } else {
            (
                Outcome::Done(
                    StreamHandle {
                        stream_id: wire::i64_at(s),
                        num_chunks: wire::i32_at(s.skip(8)),
                    },
                ),
                s.skip(12),
            )
        }
    }

    fn decode(buf: &mut Bytes) -> std::result::Result<Self, IoError> {
        if buffers::bytes_len(buf) < 12 {
            return Err(protocol::eof_error("Not enough bytes for StreamHandle"));
        }
        let stream_id: i64 = buffers::get_i64(buf);
        let num_chunks: i32 = buffers::get_i32(buf);
        assert(buffers::octets(*buf) =~= buffers::octets(*old(buf)).skip(12));
        Ok(StreamHandle { stream_id, num_chunks })
    }
}

/// What stands behind the type byte of an encoded message decodes to the message; what
/// follows is left over.
pub proof fn law_stream_handle_round_trip(m: StreamHandle, tail: Seq<u8>)
    ensures
        StreamHandle::parse(m.wire().skip(1) + tail) == (Outcome::<StreamHandle>::Done(m), tail),
        m.wire()[0] == type_code(m.kind()),
{
    let all = m.wire().skip(1) + tail;
    let r1 = wire::be_i32(m.num_chunks) + tail;
    assert(all =~= wire::be_i64(m.stream_id) + r1);
    wire::lemma_i64_at(m.stream_id, r1);
    wire::lemma_i32_at(m.num_chunks, tail);
    assert(all.skip(12) =~= tail);
}

/// Chunk fetch request.
#[derive(Debug)]
pub struct ChunkFetchRequest {
    /// Stream ID
    pub stream_id: i64,
    /// Chunk index
    pub chunk_index: i32,
    /// Offset within chunk
    pub offset: i32,
    /// Length to read
    pub len: i32,
}

impl View for ChunkFetchRequest {
    type V = ChunkFetchRequest;

    open spec fn view(&self) -> ChunkFetchRequest {
        *self
    }
}

impl Encodable for ChunkFetchRequest {
    open spec fn wire(&self) -> Seq<u8> {
        seq![type_code(MessageType::ChunkFetchRequest)] + wire::be_i64(self.stream_id) + wire::be_i32(
            self.chunk_index,
        ) + wire::be_i32(self.offset) + wire::be_i32(self.len)
    }

    fn encoded_length(&self) -> usize {
        1 + 8 + 4 + 4 + 4
    }

    fn encode(&self, buf: &mut BytesMut) {
        buffers::put_u8(buf, MessageType::ChunkFetchRequest.code());
        buffers::put_i64(buf, self.stream_id);
        buffers::put_i32(buf, self.chunk_index);
        buffers::put_i32(buf, self.offset);
        buffers::put_i32(buf, self.len);
        assert(buffers::buffered(*buf) =~= buffers::buffered(*old(buf)) + self.wire());
    }
}

impl Decodable for ChunkFetchRequest {
    open spec fn parse(s: Seq<u8>) -> (Outcome<ChunkFetchRequest>, Seq<u8>) {
        if s.len() < 20 {
            (protocol::eof("Not enough bytes for ChunkFetchRequest"@), s)
        } else {
            (
                Outcome::Done(
                    ChunkFetchRequest {
                        stream_id: wire::i64_at(s),
                        chunk_index: wire::i32_at(s.skip(8)),
                        offset: wire::i32_at(s.skip(12)),
                        len: wire::i32_at(s.skip(16)),
                    },
                ),
                s.skip(20),
            )
        }
    }

    fn decode(buf: &mut Bytes) -> std::result::Result<Self, IoError> {
        if buffers::bytes_len(buf) < 20 {
            return Err(protocol::eof_error("Not enough bytes for ChunkFetchRequest"));
        }
        let ghost s = buffers::octets(*buf);
        let stream_id: i64 = buffers::get_i64(buf);
        let chunk_index: i32 = buffers::get_i32(buf);
        assert(buffers::octets(*buf) =~= s.skip(12));
        let offset: i32 = buffers::get_i32(buf);
        assert(buffers::octets(*buf) =~= s.skip(16));
        let len: i32 = buffers::get_i32(buf);
        assert(buffers::octets(*buf) =~= s.skip(20));
        Ok(ChunkFetchRequest { stream_id, chunk_index, offset, len })
    }
}

/// What stands behind the type byte of an encoded message decodes to the message; what
/// follows is left over.
pub proof fn law_chunk_fetch_request_round_trip(m: ChunkFetchRequest, tail: Seq<u8>)
    ensures
        ChunkFetchRequest::parse(m.wire().skip(1) + tail) == (
            Outcome::<ChunkFetchRequest>::Done(m),
            tail,
        ),
        m.wire()[0] == type_code(m.kind()),
{
    let all = m.wire().skip(1) + tail;
    let r3 = wire::be_i32(m.len) + tail;
    let r2 = wire::be_i32(m.offset) + r3;
    let r1 = wire::be_i32(m.chunk_index) + r2;
    assert(all =~= wire::be_i64(m.stream_id) + r1);
    wire::lemma_i64_at(m.stream_id, r1);
    wire::lemma_i32_at(m.chunk_index, r2);
    wire::lemma_i32_at(m.offset, r3);
    wire::lemma_i32_at(m.len, tail);
    assert(all.skip(12) =~= r2);
    assert(all.skip(16) =~= r3);
    assert(all.skip(20) =~= tail);
}

/// Chunk fetch success response.
#[derive(Debug)]
pub struct ChunkFetchSuccess {
    /// Stream ID
    pub stream_id: i64,
    /// Chunk index
    pub chunk_index: i32,
    /// Chunk data
    pub body: Bytes,
}

impl View for ChunkFetchSuccess {
    type V = (i64, i32, Seq<u8>);

    open spec fn view(&self) -> (i64, i32, Seq<u8>) {
        (self.stream_id, self.chunk_index, buffers::octets(self.body))
    }
}

impl Encodable for ChunkFetchSuccess {
    open spec fn wire(&self) -> Seq<u8> {
        seq![type_code(MessageType::ChunkFetchSuccess)] + wire::be_i64(self.stream_id) + wire::be_i32(
            self.chunk_index,
        ) + sized_body(buffers::octets(self.body))
    }

    fn encoded_length(&self) -> usize {
        1 + 8 + 4 + 4 + buffers::bytes_len(&self.body)
    }

    fn encode(&self, buf: &mut BytesMut) {
        buffers::put_u8(buf, MessageType::ChunkFetchSuccess.code());
        buffers::put_i64(buf, self.stream_id);
        buffers::put_i32(buf, self.chunk_index);
        encode_body(buf, &self.body);
        assert(buffers::buffered(*buf) =~= buffers::buffered(*old(buf)) + self.wire());
    }
}

impl Decodable for ChunkFetchSuccess {
    open spec fn parse(s: Seq<u8>) -> (Outcome<(i64, i32, Seq<u8>)>, Seq<u8>) {
        if s.len() < 16 {
            (protocol::eof("Not enough bytes for ChunkFetchSuccess header"@), s)
        } else {
            match parse_body(
                s.skip(16),
                wire::i32_at(s.skip(12)) as int,
                "Not enough bytes for ChunkFetchSuccess body"@,
            ) {
                (Outcome::Done(body), rest) => (
                    Outcome::Done((wire::i64_at(s), wire::i32_at(s.skip(8)), body)),
                    rest,
                ),
                (Outcome::Fault(k, m), rest) => (Outcome::Fault(k, m), rest),
            }
        }
    }

    fn decode(buf: &mut Bytes) -> std::result::Result<Self, IoError> {
        if buffers::bytes_len(buf) < 16 {
            return Err(protocol::eof_error("Not enough bytes for ChunkFetchSuccess header"));
        }
        let ghost s = buffers::octets(*buf);
        let stream_id: i64 = buffers::get_i64(buf);
        let chunk_index: i32 = buffers::get_i32(buf);
        assert(buffers::octets(*buf) =~= s.skip(12));
        let body_len: i32 = buffers::get_i32(buf);
        assert(buffers::octets(*buf) =~= s.skip(16));
        match decode_body(buf, body_len, "Not enough bytes for ChunkFetchSuccess body") {
            Ok(body) => Ok(ChunkFetchSuccess { stream_id, chunk_index, body }),
            Err(e) => Err(e),
        }
    }
}

/// What stands behind the type byte of an encoded message decodes to the message, as
/// long as its body has less than 2^31 bytes; what follows is left over.
pub proof fn law_chunk_fetch_success_round_trip(m: ChunkFetchSuccess, tail: Seq<u8>)
    requires
        buffers::octets(m.body).len() <= i32::MAX,
    ensures
        ChunkFetchSuccess::parse(m.wire().skip(1) + tail) == (
            Outcome::<(i64, i32, Seq<u8>)>::Done(m@),
            tail,
        ),
        m.wire()[0] == type_code(m.kind()),
{
    let body = buffers::octets(m.body);
    let all = m.wire().skip(1) + tail;
    let r2 = sized_body(body) + tail;
    let r1 = wire::be_i32(m.chunk_index) + r2;
    assert(all =~= wire::be_i64(m.stream_id) + r1);
    wire::lemma_i64_at(m.stream_id, r1);
    wire::lemma_i32_at(m.chunk_index, r2);
    lemma_body(body, tail, "Not enough bytes for ChunkFetchSuccess body"@);
    assert(all.skip(12) =~= r2);
    assert(all.skip(16) =~= r2.skip(4));
}

/// Chunk fetch failure response.
#[derive(Debug)]
pub struct ChunkFetchFailure {
    /// Stream ID
    pub stream_id: i64,
    /// Chunk index
    pub chunk_index: i32,
    /// Error message
    pub error_message: String,
}

impl View for ChunkFetchFailure {
    type V = (i64, i32, Seq<char>);

    open spec fn view(&self) -> (i64, i32, Seq<char>) {
        (self.stream_id, self.chunk_index, self.error_message@)
    }
}

impl Encodable for ChunkFetchFailure {
    open spec fn wire(&self) -> Seq<u8> {
        seq![type_code(MessageType::ChunkFetchFailure)] + wire::be_i64(self.stream_id) + wire::be_i32(
            self.chunk_index,
        ) + protocol::short_string(self.error_message@)
    }

    fn encoded_length(&self) -> usize {
        1 + 8 + 4 + protocol::string_encoded_length(self.error_message.as_str())
    }

    fn encode(&self, buf: &mut BytesMut) {
        buffers::put_u8(buf, MessageType::ChunkFetchFailure.code());
        buffers::put_i64(buf, self.stream_id);
        buffers::put_i32(buf, self.chunk_index);
        protocol::encode_string(buf, self.error_message.as_str());
        assert(buffers::buffered(*buf) =~= buffers::buffered(*old(buf)) + self.wire());
    }
}

impl Decodable for ChunkFetchFailure {
    open spec fn parse(s: Seq<u8>) -> (Outcome<(i64, i32, Seq<char>)>, Seq<u8>) {
        if s.len() < 12 {
            (protocol::eof("Not enough bytes for ChunkFetchFailure header"@), s)
        } else {
            match protocol::parse_string(s.skip(12)) {
                (Outcome::Done(message), rest) => (
                    Outcome::Done((wire::i64_at(s), wire::i32_at(s.skip(8)), message)),
                    rest,
                ),
                (Outcome::Fault(k, m), rest) => (Outcome::Fault(k, m), rest),
            }
        }
    }

    fn decode(buf: &mut Bytes) -> std::result::Result<Self, IoError> {
        if buffers::bytes_len(buf) < 12 {
            return Err(protocol::eof_error("Not enough bytes for ChunkFetchFailure header"));
        }
        let ghost s = buffers::octets(*buf);
        let stream_id: i64 = buffers::get_i64(buf);
        let chunk_index: i32 = buffers::get_i32(buf);
        assert(buffers::octets(*buf) =~= s.skip(12));
        match protocol::decode_string(buf) {
            Ok(error_message) => Ok(ChunkFetchFailure { stream_id, chunk_index, error_message }),
            Err(e) => Err(e),
        }
    }
}

/// What stands behind the type byte of an encoded message decodes to the message, as
/// long as its text has less than 2^16 bytes; what follows is left over.
pub proof fn law_chunk_fetch_failure_round_trip(m: ChunkFetchFailure, tail: Seq<u8>)
    requires
        utf8::encode_utf8(m.error_message@).len() < 0x1_0000,
    ensures
        ChunkFetchFailure::parse(m.wire().skip(1) + tail) == (
            Outcome::<(i64, i32, Seq<char>)>::Done(m@),
            tail,
        ),
        m.wire()[0] == type_code(m.kind()),
{
    let all = m.wire().skip(1) + tail;
    let r2 = protocol::short_string(m.error_message@) + tail;
    let r1 = wire::be_i32(m.chunk_index) + r2;
    assert(all =~= wire::be_i64(m.stream_id) + r1);
    wire::lemma_i64_at(m.stream_id, r1);
    wire::lemma_i32_at(m.chunk_index, r2);
    assert(all.skip(12) =~= r2);
    protocol::law_string_round_trip(m.error_message@, tail);
}

/// Push data handshake message.
#[derive(Debug)]
pub struct PushDataHandShake {
    /// Mode (0 for primary, 1 for replica)
    pub mode: u8,
    /// Shuffle key
    pub shuffle_key: String,
    /// Partition unique ID
    pub partition_unique_id: String,
    /// Attempt ID
    pub attempt_id: i32,
    /// Number of partitions
    pub num_partitions: i32,
    /// Buffer size
    pub buffer_size: i32,
}

impl Encodable for PushDataHandShake {
    open spec fn wire(&self) -> Seq<u8> {
        seq![type_code(MessageType::PushDataHandShake)] + seq![self.mode] + protocol::short_string(
            self.shuffle_key@,
        ) + protocol::short_string(self.partition_unique_id@) + wire::be_i32(self.attempt_id) + wire::be_i32(
            self.num_partitions,
        ) + wire::be_i32(self.buffer_size)
    }

    fn encoded_length(&self) -> usize {
        1 + 1 + protocol::string_encoded_length(self.shuffle_key.as_str())
            + protocol::string_encoded_length(self.partition_unique_id.as_str()) + 4 + 4 + 4
    }

    fn encode(&self, buf: &mut BytesMut) {
        buffers::put_u8(buf, MessageType::PushDataHandShake.code());
        buffers::put_u8(buf, self.mode);
        protocol::encode_string(buf, self.shuffle_key.as_str());
        protocol::encode_string(buf, self.partition_unique_id.as_str());
        buffers::put_i32(buf, self.attempt_id);
        buffers::put_i32(buf, self.num_partitions);
        buffers::put_i32(buf, self.buffer_size);
        assert(buffers::buffered(*buf) =~= buffers::buffered(*old(buf)) + self.wire());
    }
}

/// Region start message.
#[derive(Debug)]
pub struct RegionStart {
    /// Mode (0 for primary, 1 for replica)
    pub mode: u8,
    /// Shuffle key
    pub shuffle_key: String,
    /// Partition unique ID
    pub partition_unique_id: String,
    /// Attempt ID
    pub attempt_id: i32,
    /// Current region index
    pub current_region_index: i32,
    /// Whether this is a broadcast
    pub is_broadcast: bool,
}

impl Encodable for RegionStart {
    open spec fn wire(&self) -> Seq<u8> {
        seq![type_code(MessageType::RegionStart)] + seq![self.mode] + protocol::short_string(
            self.shuffle_key@,
        ) + protocol::short_string(self.partition_unique_id@) + wire::be_i32(self.attempt_id) + wire::be_i32(
            self.current_region_index,
        ) + seq![if self.is_broadcast { 1u8 } else { 0u8 }]
    }

    fn encoded_length(&self) -> usize {
        1 + 1 + protocol::string_encoded_length(self.shuffle_key.as_str())
            + protocol::string_encoded_length(self.partition_unique_id.as_str()) + 4 + 4 + 1
    }

    fn encode(&self, buf: &mut BytesMut) {
        buffers::put_u8(buf, MessageType::RegionStart.code());
        buffers::put_u8(buf, self.mode);
        protocol::encode_string(buf, self.shuffle_key.as_str());
        protocol::encode_string(buf, self.partition_unique_id.as_str());
        buffers::put_i32(buf, self.attempt_id);
        buffers::put_i32(buf, self.current_region_index);
        let flag: u8 = if self.is_broadcast { 1 } else { 0 };
        buffers::put_u8(buf, flag);
        assert(buffers::buffered(*buf) =~= buffers::buffered(*old(buf)) + self.wire());
    }
}

/// Region finish message.
#[derive(Debug)]
pub struct RegionFinish {
    /// Mode (0 for primary, 1 for replica)
    pub mode: u8,
    /// Shuffle key
    pub shuffle_key: String,
    /// Partition unique ID
    pub partition_unique_id: String,
    /// Attempt ID
    pub attempt_id: i32,
}

impl Encodable for RegionFinish {
    open spec fn wire(&self) -> Seq<u8> {
        seq![type_code(MessageType::RegionFinish)] + seq![self.mode] + protocol::short_string(
            self.shuffle_key@,
        ) + protocol::short_string(self.partition_unique_id@) + wire::be_i32(self.attempt_id)
    }

    fn encoded_length(&self) -> usize {
        1 + 1 + protocol::string_encoded_length(self.shuffle_key.as_str())
            + protocol::string_encoded_length(self.partition_unique_id.as_str()) + 4
    }

    fn encode(&self, buf: &mut BytesMut) {
        buffers::put_u8(buf, MessageType::RegionFinish.code());
        buffers::put_u8(buf, self.mode);
        protocol::encode_string(buf, self.shuffle_key.as_str());
        protocol::encode_string(buf, self.partition_unique_id.as_str());
        buffers::put_i32(buf, self.attempt_id);
        assert(buffers::buffered(*buf) =~= buffers::buffered(*old(buf)) + self.wire());
    }
}

/// Heartbeat message.
#[derive(Debug, Clone, Copy)]
pub struct Heartbeat;

impl Default for Heartbeat {
    fn default() -> (r: Self)
        ensures
            r == Heartbeat,
    {
        Heartbeat
    }
}

impl View for Heartbeat {
    type V = Heartbeat;

    open spec fn view(&self) -> Heartbeat {
        *self
    }
}

impl Encodable for Heartbeat {
    open spec fn wire(&self) -> Seq<u8> {
        seq![type_code(MessageType::Heartbeat)]
    }

    fn encoded_length(&self) -> usize {
        1
    }

    fn encode(&self, buf: &mut BytesMut) {
        buffers::put_u8(buf, MessageType::Heartbeat.code());
        assert(buffers::buffered(*buf) =~= buffers::buffered(*old(buf)) + self.wire());
    }
}

impl Decodable for Heartbeat {
    open spec fn parse(s: Seq<u8>) -> (Outcome<Heartbeat>, Seq<u8>) {
        (Outcome::Done(Heartbeat), s)
    }

    fn decode(buf: &mut Bytes) -> std::result::Result<Self, IoError> {
        Ok(Heartbeat)
    }
}

/// One-way message (no response expected).
#[derive(Debug)]
pub struct OneWayMessage {
    /// Message body
    pub body: Bytes,
}

impl View for OneWayMessage {
    type V = Seq<u8>;

    open spec fn view(&self) -> Seq<u8> {
        buffers::octets(self.body)
    }
}

impl Encodable for OneWayMessage {
    open spec fn wire(&self) -> Seq<u8> {
        seq![type_code(MessageType::OneWayMessage)] + sized_body(buffers::octets(self.body))
    }

    fn encoded_length(&self) -> usize {
        1 + 4 + buffers::bytes_len(&self.body)
    }

    fn encode(&self, buf: &mut BytesMut) {
        buffers::put_u8(buf, MessageType::OneWayMessage.code());
        encode_body(buf, &self.body);
        assert(buffers::buffered(*buf) =~= buffers::buffered(*old(buf)) + self.wire());
    }
}

impl Decodable for OneWayMessage {
    open spec fn parse(s: Seq<u8>) -> (Outcome<Seq<u8>>, Seq<u8>) {
        if s.len() < 4 {
            (protocol::eof("Not enough bytes for OneWayMessage"@), s)
        } else {
            parse_body(s.skip(4), wire::i32_at(s) as int, "Not enough bytes for OneWayMessage body"@)
        }
    }

    fn decode(buf: &mut Bytes) -> std::result::Result<Self, IoError> {
        if buffers::bytes_len(buf) < 4 {
            return Err(protocol::eof_error("Not enough bytes for OneWayMessage"));
        }
        let body_len: i32 = buffers::get_i32(buf);
        match decode_body(buf, body_len, "Not enough bytes for OneWayMessage body") {
            Ok(body) => Ok(OneWayMessage { body }),
            Err(e) => Err(e),
        }
    }
}

/// What stands behind the type byte of an encoded message decodes to the message, as
/// long as its body has less than 2^31 bytes; what follows is left over.
pub proof fn law_one_way_round_trip(m: OneWayMessage, tail: Seq<u8>)
    requires
        buffers::octets(m.body).len() <= i32::MAX,
    ensures
        OneWayMessage::parse(m.wire().skip(1) + tail) == (Outcome::<Seq<u8>>::Done(m@), tail),
        m.wire()[0] == type_code(m.kind()),
{
    let body = buffers::octets(m.body);
    assert(m.wire().skip(1) + tail =~= sized_body(body) + tail);
    lemma_body(body, tail, "Not enough bytes for OneWayMessage body"@);
}

impl Message for RpcFailure {
    open spec fn kind(&self) -> MessageType {
        MessageType::RpcFailure
    }

    open spec fn payload(&self) -> Option<Seq<u8>> {
        None
    }

    fn message_type(&self) -> MessageType {
        MessageType::RpcFailure
    }

    fn body(&self) -> Option<&Bytes> {
        None
    }
}

impl Message for PushData {
    open spec fn kind(&self) -> MessageType {
        MessageType::PushData
    }

    open spec fn payload(&self) -> Option<Seq<u8>> {
        Some(buffers::octets(self.body))
    }

    fn message_type(&self) -> MessageType {
        MessageType::PushData
    }

    fn body(&self) -> Option<&Bytes> {
        Some(&self.body)
    }
}

impl Message for PushMergedData {
    open spec fn kind(&self) -> MessageType {
        MessageType::PushMergedData
    }

    open spec fn payload(&self) -> Option<Seq<u8>> {
        Some(buffers::octets(self.body))
    }

    fn message_type(&self) -> MessageType {
        MessageType::PushMergedData
    }

    fn body(&self) -> Option<&Bytes> {
        Some(&self.body)
    }
}

impl Message for OpenStream {
    open spec fn kind(&self) -> MessageType {
        MessageType::OpenStream
    }

    open spec fn payload(&self) -> Option<Seq<u8>> {
        None
    }

    fn message_type(&self) -> MessageType {
        MessageType::OpenStream
    }

    fn body(&self) -> Option<&Bytes> {
        None
    }
}

impl Message for StreamHandle {
    open spec fn kind(&self) -> MessageType {
        MessageType::StreamHandle
    }

    open spec fn payload(&self) -> Option<Seq<u8>> {
        None
    }

    fn message_type(&self) -> MessageType {
        MessageType::StreamHandle
    }

    fn body(&self) -> Option<&Bytes> {
        None
    }
}

impl Message for ChunkFetchRequest {
    open spec fn kind(&self) -> MessageType {
        MessageType::ChunkFetchRequest
    }

    open spec fn payload(&self) -> Option<Seq<u8>> {
        None
    }

    fn message_type(&self) -> MessageType {
        MessageType::ChunkFetchRequest
    }

    fn body(&self) -> Option<&Bytes> {
        None
    }
}

impl Message for ChunkFetchSuccess {
    open spec fn kind(&self) -> MessageType {
        MessageType::ChunkFetchSuccess
    }

    open spec fn payload(&self) -> Option<Seq<u8>> {
        Some(buffers::octets(self.body))
    }

    fn message_type(&self) -> MessageType {
        MessageType::ChunkFetchSuccess
    }

    fn body(&self) -> Option<&Bytes> {
        Some(&self.body)
    }
}

impl Message for ChunkFetchFailure {
    open spec fn kind(&self) -> MessageType {
        MessageType::ChunkFetchFailure
    }

    open spec fn payload(&self) -> Option<Seq<u8>> {
        None
    }

    fn message_type(&self) -> MessageType {
        MessageType::ChunkFetchFailure
    }

    fn body(&self) -> Option<&Bytes> {
        None
    }
}

impl Message for PushDataHandShake {
    open spec fn kind(&self) -> MessageType {
        MessageType::PushDataHandShake
    }

    open spec fn payload(&self) -> Option<Seq<u8>> {
        None
    }

    fn message_type(&self) -> MessageType {
        MessageType::PushDataHandShake
    }

    fn body(&self) -> Option<&Bytes> {
        None
    }
}

impl Message for RegionStart {
    open spec fn kind(&self) -> MessageType {
        MessageType::RegionStart
    }

    open spec fn payload(&self) -> Option<Seq<u8>> {
        None
    }

    fn message_type(&self) -> MessageType {
        MessageType::RegionStart
    }

    fn body(&self) -> Option<&Bytes> {
        None
    }
}

impl Message for RegionFinish {
    open spec fn kind(&self) -> MessageType {
        MessageType::RegionFinish
    }

    open spec fn payload(&self) -> Option<Seq<u8>> {
        None
    }

    fn message_type(&self) -> MessageType {
        MessageType::RegionFinish
    }

    fn body(&self) -> Option<&Bytes> {
        None
    }
}

impl Message for Heartbeat {
    open spec fn kind(&self) -> MessageType {
        MessageType::Heartbeat
    }

    open spec fn payload(&self) -> Option<Seq<u8>> {
        None
    }

    fn message_type(&self) -> MessageType {
        MessageType::Heartbeat
    }

    fn body(&self) -> Option<&Bytes> {
        None
    }
}

impl Message for OneWayMessage {
    open spec fn kind(&self) -> MessageType {
        MessageType::OneWayMessage
    }

    open spec fn payload(&self) -> Option<Seq<u8>> {
        Some(buffers::octets(self.body))
    }

    fn message_type(&self) -> MessageType {
        MessageType::OneWayMessage
    }

    fn body(&self) -> Option<&Bytes> {
        Some(&self.body)
    }
}

} // verus!
