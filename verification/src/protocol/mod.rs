//! Protocol definitions for Celeborn communication.
//!
//! This module contains the message types and encoding/decoding logic
//! for the Celeborn wire protocol.

pub mod batch_header;
pub mod java_serialization;
pub mod message;
pub mod pb_partition_location;
pub mod transport;

pub use batch_header::{AttemptFilteredBatchIterator, BatchHeader, BatchIterator};

use bytes::{Bytes, BytesMut};
use vstd::prelude::*;
use vstd::string::*;
use vstd::utf8;

use crate::buffers;
use crate::error::{IoError, IoErrorKind};
use crate::text;
use crate::wire;

verus! {

/// Partition location information.
#[derive(Debug, PartialEq, Eq)]
pub struct PartitionLocation {
    /// Partition ID
    pub id: i32,
    /// Epoch (version) of this partition location
    pub epoch: i32,
    /// Worker host
    pub host: String,
    /// RPC port
    pub rpc_port: i32,
    /// Push port
    pub push_port: i32,
    /// Fetch port
    pub fetch_port: i32,
    /// Replicate port
    pub replicate_port: i32,
    /// Partition mode (Primary or Replica)
    pub mode: PartitionMode,
    /// Peer location (for replication)
    pub peer: Option<Box<PartitionLocation>>,
    /// Storage information
    pub storage_info: Option<StorageInfo>,
}

/// What a `PartitionLocation` says.
pub struct LocationModel {
    pub id: i32,
    pub epoch: i32,
    pub host: Seq<char>,
    pub rpc_port: i32,
    pub push_port: i32,
    pub fetch_port: i32,
    pub replicate_port: i32,
    pub mode: PartitionMode,
    pub peer: Option<Box<LocationModel>>,
    pub storage_info: Option<StorageModel>,
}

/// What a `StorageInfo` says.
pub struct StorageModel {
    pub storage_type: i32,
    pub mount_point: Seq<char>,
    pub final_result: bool,
    pub file_path: Seq<char>,
    pub available_storage_types: i32,
    pub file_size: i64,
    pub chunk_offsets: Seq<i64>,
}

impl PartitionLocation {
    /// What the location says.
    pub open spec fn model(&self) -> LocationModel
        decreases self,
    {
        LocationModel {
            id: self.id,
            epoch: self.epoch,
            host: self.host@,
            rpc_port: self.rpc_port,
            push_port: self.push_port,
            fetch_port: self.fetch_port,
            replicate_port: self.replicate_port,
            mode: self.mode,
            peer: match self.peer {
                Some(p) => Some(Box::new(p.model())),
                None => None,
            },
            storage_info: match self.storage_info {
                Some(s) => Some(s.model()),
                None => None,
            },
        }
    }

    /// Create a new partition location.
    pub fn new(
        id: i32,
        epoch: i32,
        host: String,
        rpc_port: i32,
        push_port: i32,
        fetch_port: i32,
        replicate_port: i32,
    ) -> (r: Self)
        ensures
            r == (PartitionLocation {
                id,
                epoch,
                host,
                rpc_port,
                push_port,
                fetch_port,
                replicate_port,
                mode: PartitionMode::Primary,
                peer: None,
                storage_info: None,
            }),
    {
        PartitionLocation {
            id,
            epoch,
            host,
            rpc_port,
            push_port,
            fetch_port,
            replicate_port,
            mode: PartitionMode::Primary,
            peer: None,
            storage_info: None,
        }
    }

    /// Get the unique identifier for this partition.
    pub fn unique_id(&self) -> (r: String)
        ensures
            r@ == unique_id_text(self.id, self.epoch),
    {
        let mut out: String = String::new();
        text::append_i64(&mut out, self.id as i64);
        proof {
            reveal_strlit("-");
        }
        out.append("-");
        text::append_i64(&mut out, self.epoch as i64);
        assert(out@ =~= unique_id_text(self.id, self.epoch));
        out
    }

    /// Get the file name for this partition (used for fetch operations).
    /// Format: {id}-{epoch}-{mode} where mode is 0 (PRIMARY) or 1 (REPLICA)
    pub fn get_file_name(&self) -> (r: String)
        ensures
            r@ == file_name_text(self.id, self.epoch, self.mode),
    {
        let mut out: String = self.unique_id();
        proof {
            reveal_strlit("-");
        }
        out.append("-");
        text::append_i64(&mut out, self.mode.code() as i64);
        assert(out@ =~= file_name_text(self.id, self.epoch, self.mode));
        out
    }

    /// Get the worker address for push operations.
    pub fn push_address(&self) -> (r: String)
        ensures
            r@ == text::address_text(self.host@, self.push_port as int),
    {
        text::address(self.host.as_str(), self.push_port)
    }

    /// Get the worker address for fetch operations.
    pub fn fetch_address(&self) -> (r: String)
        ensures
            r@ == text::address_text(self.host@, self.fetch_port as int),
    {
        text::address(self.host.as_str(), self.fetch_port)
    }
}

impl Clone for PartitionLocation {
    fn clone(&self) -> (r: Self)
        ensures
            r.model() == self.model(),
        decreases self,
    {
        PartitionLocation {
            id: self.id,
            epoch: self.epoch,
            host: self.host.clone(),
            rpc_port: self.rpc_port,
            push_port: self.push_port,
            fetch_port: self.fetch_port,
            replicate_port: self.replicate_port,
            mode: self.mode,
            peer: match &self.peer {
                Some(p) => Some(Box::new((&**p).clone())),
                None => None,
            },
            storage_info: match &self.storage_info {
                Some(s) => Some(s.clone()),
                None => None,
            },
        }
    }
}

/// `{id}-{epoch}`.
pub open spec fn unique_id_text(id: i32, epoch: i32) -> Seq<char> {
    text::int_text(id as int) + seq!['-'] + text::int_text(epoch as int)
}

/// `{id}-{epoch}-{mode}`.
pub open spec fn file_name_text(id: i32, epoch: i32, mode: PartitionMode) -> Seq<char> {
    unique_id_text(id, epoch) + seq!['-'] + text::int_text(mode_code(mode))
}

/// Partition mode (Primary or Replica).
#[derive(Debug, Clone, Copy, PartialEq, Eq, Structural)]
pub enum PartitionMode {
    Primary,
    Replica,
}

/// The number of a partition mode.
pub open spec fn mode_code(m: PartitionMode) -> int {
    match m {
        PartitionMode::Primary => 0,
        PartitionMode::Replica => 1,
    }
}

/// The partition mode with a number; other numbers stand for the primary.
pub open spec fn mode_of(value: i32) -> PartitionMode {
    if value == 1 {
        PartitionMode::Replica
    } else {
        PartitionMode::Primary
    }
}

impl PartitionMode {
    /// The number of the mode.
    pub fn code(&self) -> (r: i32)
        ensures
            r == mode_code(*self),
    {
        match self {
            PartitionMode::Primary => 0,
            PartitionMode::Replica => 1,
        }
    }
}

impl From<i32> for PartitionMode {
    fn from(value: i32) -> (r: Self) {
        match value {
            0 => PartitionMode::Primary,
            1 => PartitionMode::Replica,
            _ => PartitionMode::Primary,
        }
    }
}

impl vstd::std_specs::convert::FromSpecImpl<i32> for PartitionMode {
    open spec fn obeys_from_spec() -> bool {
        true
    }

    open spec fn from_spec(value: i32) -> Self {
        mode_of(value)
    }
}

/// Storage information for a partition.
#[derive(Debug, PartialEq, Eq)]
pub struct StorageInfo {
    /// Storage type
    pub storage_type: i32,
    /// Mount point
    pub mount_point: String,
    /// Whether this is the final result
    pub final_result: bool,
    /// File path
    pub file_path: String,
    /// Available storage types
    pub available_storage_types: i32,
    /// File size
    pub file_size: i64,
    /// Chunk offsets
    pub chunk_offsets: Vec<i64>,
}

impl StorageInfo {
    /// What the storage information says.
    pub open spec fn model(&self) -> StorageModel {
        StorageModel {
            storage_type: self.storage_type,
            mount_point: self.mount_point@,
            final_result: self.final_result,
            file_path: self.file_path@,
            available_storage_types: self.available_storage_types,
            file_size: self.file_size,
            chunk_offsets: self.chunk_offsets@,
        }
    }
}

impl Clone for StorageInfo {
    fn clone(&self) -> (r: Self)
        ensures
            r.model() == self.model(),
    {
        let offsets: Vec<i64> = self.chunk_offsets.clone();
        assert(offsets@ =~= self.chunk_offsets@);
        StorageInfo {
            storage_type: self.storage_type,
            mount_point: self.mount_point.clone(),
            final_result: self.final_result,
            file_path: self.file_path.clone(),
            available_storage_types: self.available_storage_types,
            file_size: self.file_size,
            chunk_offsets: offsets,
        }
    }
}

/// Worker information.
#[derive(Debug, PartialEq, Eq, Hash)]
pub struct WorkerInfo {
    /// Worker host
    pub host: String,
    /// RPC port
    pub rpc_port: i32,
    /// Push port
    pub push_port: i32,
    /// Fetch port
    pub fetch_port: i32,
    /// Replicate port
    pub replicate_port: i32,
}

impl Clone for WorkerInfo {
    fn clone(&self) -> (r: Self)
        ensures
            r == *self,
    {
        WorkerInfo {
            host: self.host.clone(),
            rpc_port: self.rpc_port,
            push_port: self.push_port,
            fetch_port: self.fetch_port,
            replicate_port: self.replicate_port,
        }
    }
}

/// `{host}-{rpc_port}-{push_port}-{fetch_port}-{replicate_port}`.
pub open spec fn worker_id_text(w: WorkerInfo) -> Seq<char> {
    w.host@ + seq!['-'] + text::int_text(w.rpc_port as int) + seq!['-'] + text::int_text(
        w.push_port as int,
    ) + seq!['-'] + text::int_text(w.fetch_port as int) + seq!['-'] + text::int_text(
        w.replicate_port as int,
    )
}

impl WorkerInfo {
    /// Create a new worker info.
    pub fn new(
        host: String,
        rpc_port: i32,
        push_port: i32,
        fetch_port: i32,
        replicate_port: i32,
    ) -> (r: Self)
        ensures
            r == (WorkerInfo { host, rpc_port, push_port, fetch_port, replicate_port }),
    {
        WorkerInfo { host, rpc_port, push_port, fetch_port, replicate_port }
    }

    /// Get the unique identifier for this worker.
    pub fn to_unique_id(&self) -> (r: String)
        ensures
            r@ == worker_id_text(*self),
    {
        proof {
            reveal_strlit("-");
        }
        let mut out: String = text::join(self.host.as_str(), "-");
        text::append_i64(&mut out, self.rpc_port as i64);
        out.append("-");
        text::append_i64(&mut out, self.push_port as i64);
        out.append("-");
        text::append_i64(&mut out, self.fetch_port as i64);
        out.append("-");
        text::append_i64(&mut out, self.replicate_port as i64);
        assert(out@ =~= worker_id_text(*self));
        out
    }
}

/// How reading a value from bytes ends: with the value, or with a fault.
pub enum Outcome<V> {
    Done(V),
    Fault(IoErrorKind, Seq<char>),
}

/// Whether `r` is the result that `o` describes.
pub open spec fn agrees<M: View>(r: std::result::Result<M, IoError>, o: Outcome<M::V>) -> bool {
    match o {
        Outcome::Done(v) => r matches Ok(m) && m@ == v,
        Outcome::Fault(kind, message) => r matches Err(e) && e.kind == kind && e.message@ == message,
    }
}

/// A fault because the input ended too early.
pub open spec fn eof<V>(message: Seq<char>) -> Outcome<V> {
    Outcome::Fault(IoErrorKind::UnexpectedEof, message)
}

/// The error for an input that ended too early.
pub fn eof_error(message: &str) -> (e: IoError)
    ensures
        e.kind is UnexpectedEof,
        e.message@ == message@,
{
    IoError::new(IoErrorKind::UnexpectedEof, message)
}

/// Trait for encoding messages to bytes.
pub trait Encodable {
    /// The bytes that `encode` appends.
    spec fn wire(&self) -> Seq<u8>;

    /// Get the encoded length of this message.
    fn encoded_length(&self) -> (n: usize)
        requires
            self.wire().len() <= usize::MAX,
        ensures
            n == self.wire().len(),
    ;

    /// Encode this message to the buffer.
    fn encode(&self, buf: &mut BytesMut)
        requires
            buffers::has_room(buffers::buffered(*old(buf)), self.wire().len() as int),
        ensures
            buffers::buffered(*final(buf)) == buffers::buffered(*old(buf)) + self.wire(),
    ;

    /// Encode this message to a new BytesMut.
    fn encode_to_bytes(&self) -> (r: BytesMut)
        requires
            self.wire().len() <= isize::MAX,
        ensures
            buffers::buffered(r) == self.wire(),
    {
        let mut buf: BytesMut = buffers::buffer_with_capacity(self.encoded_length());
        self.encode(&mut buf);
        assert(buffers::buffered(buf) =~= self.wire());
        buf
    }
}

/// The encoded length of a message is the number of bytes that encoding it appends, whatever
/// the buffer held before.
pub proof fn law_encoded_length<M: Encodable>(m: &M, n: usize, held: Seq<u8>, after: Seq<u8>)
    requires
        n == m.wire().len(),
        after == held + m.wire(),
    ensures
        n == after.len() - held.len(),
{
}

/// Trait for decoding messages from bytes.
pub trait Decodable: Sized + View {
    /// What the bytes `s` decode to, and which bytes are left over.
    spec fn parse(s: Seq<u8>) -> (Outcome<Self::V>, Seq<u8>);

    /// Decode a message from the buffer.
    fn decode(buf: &mut Bytes) -> (r: std::result::Result<Self, IoError>)
        ensures
            agrees(r, Self::parse(buffers::octets(*old(buf))).0),
            buffers::octets(*final(buf)) == Self::parse(buffers::octets(*old(buf))).1,
    ;
}

/// The text of the error that `String::from_utf8` gives for bytes that are not UTF-8.
pub uninterp spec fn utf8_fault(bytes: Seq<u8>) -> Seq<char>;

/// `String::from_utf8`: the string that the bytes encode in UTF-8, or the text of the
/// error when they encode none.
#[verifier::external_body]
pub(crate) fn string_from_utf8(bytes: Vec<u8>) -> (r: std::result::Result<String, String>)
    ensures
        match r {
            Ok(s) => utf8::valid_utf8(bytes@) && s@ == utf8::decode_utf8(bytes@),
            Err(m) => !utf8::valid_utf8(bytes@) && m@ == utf8_fault(bytes@),
        },
{
    String::from_utf8(bytes).map_err(|e| e.to_string())
}

/// A string with a length prefix of two bytes. The prefix holds the byte length
/// modulo 2^16.
pub open spec fn short_string(s: Seq<char>) -> Seq<u8> {
    wire::be(utf8::encode_utf8(s).len() % 0x1_0000, 2) + utf8::encode_utf8(s)
}

/// A string with a length prefix of four bytes. The prefix holds the byte length
/// modulo 2^32.
pub open spec fn java_string(s: Seq<char>) -> Seq<u8> {
    wire::be_i32(wire::signed32(utf8::encode_utf8(s).len())) + utf8::encode_utf8(s)
}

/// The string in the first `n` bytes of `s`, and the bytes behind it.
pub open spec fn parse_text(s: Seq<u8>, n: int) -> (Outcome<Seq<char>>, Seq<u8>) {
    if n < 0 || s.len() < n {
        (eof("Not enough bytes for string content"@), s)
    } else if utf8::valid_utf8(s.take(n)) {
        (Outcome::Done(utf8::decode_utf8(s.take(n))), s.skip(n))
    } else {
        (Outcome::Fault(IoErrorKind::InvalidData, utf8_fault(s.take(n))), s.skip(n))
    }
}

/// Reading a string with a length prefix of two bytes.
pub open spec fn parse_string(s: Seq<u8>) -> (Outcome<Seq<char>>, Seq<u8>) {
    if s.len() < 2 {
        (eof("Not enough bytes for string length"@), s)
    } else {
        parse_text(s.skip(2), wire::u16_at(s) as int)
    }
}

/// Reading a string with a length prefix of four bytes.
pub open spec fn parse_string_java(s: Seq<u8>) -> (Outcome<Seq<char>>, Seq<u8>) {
    if s.len() < 4 {
        (eof("Not enough bytes for string length"@), s)
    } else {
        parse_text(s.skip(4), wire::i32_at(s) as int)
    }
}

/// Encode a string to the buffer (length-prefixed).
pub fn encode_string(buf: &mut BytesMut, s: &str)
    requires
        buffers::has_room(buffers::buffered(*old(buf)), short_string(s@).len() as int),
    ensures
        buffers::buffered(*final(buf)) == buffers::buffered(*old(buf)) + short_string(s@),
{
    broadcast use wire::lemma_be_len;
    let bytes: &[u8] = s.as_bytes();
    let n: usize = bytes.len();
    buffers::put_u16(buf, (n % 0x1_0000) as u16);
    buffers::put_slice(buf, bytes);
    assert(buffers::buffered(*buf) =~= buffers::buffered(*old(buf)) + short_string(s@));
}

/// Reads a string of `n` bytes off the buffer.
fn decode_text(buf: &mut Bytes, n: usize) -> (r: std::result::Result<String, IoError>)
    ensures
        agrees(r, parse_text(buffers::octets(*old(buf)), n as int).0),
        buffers::octets(*final(buf)) == parse_text(buffers::octets(*old(buf)), n as int).1,
{
    if buffers::bytes_len(buf) < n {
        return Err(eof_error("Not enough bytes for string content"));
    }
    let bytes: Bytes = buffers::copy_to_bytes(buf, n);
    let copy: Vec<u8> = vstd::slice::slice_to_vec(buffers::bytes_as_slice(&bytes));
    match string_from_utf8(copy) {
        Ok(s) => Ok(s),
        Err(m) => Err(IoError { kind: IoErrorKind::InvalidData, message: m }),
    }
}

/// Decode a string from the buffer (length-prefixed).
pub fn decode_string(buf: &mut Bytes) -> (r: std::result::Result<String, IoError>)
    ensures
        agrees(r, parse_string(buffers::octets(*old(buf))).0),
        buffers::octets(*final(buf)) == parse_string(buffers::octets(*old(buf))).1,
{
    if buffers::bytes_len(buf) < 2 {
        return Err(eof_error("Not enough bytes for string length"));
    }
    let n: usize = buffers::get_u16(buf) as usize;
    decode_text(buf, n)
}

/// Get the encoded length of a string.
pub fn string_encoded_length(s: &str) -> (n: usize)
    requires
        2 + utf8::encode_utf8(s@).len() <= usize::MAX,
    ensures
        n == 2 + utf8::encode_utf8(s@).len(),
        n == short_string(s@).len(),
{
    broadcast use wire::lemma_be_len;
    2 + s.as_bytes().len()
}

/// Encode a string to the buffer with 4-byte length prefix (Java compatible).
pub fn encode_string_java(buf: &mut BytesMut, s: &str)
    requires
        buffers::has_room(buffers::buffered(*old(buf)), java_string(s@).len() as int),
    ensures
        buffers::buffered(*final(buf)) == buffers::buffered(*old(buf)) + java_string(s@),
{
    broadcast use wire::lemma_be_len;
    let bytes: &[u8] = s.as_bytes();
    buffers::put_i32(buf, wire::wire_len(bytes.len()));
    buffers::put_slice(buf, bytes);
    assert(buffers::buffered(*buf) =~= buffers::buffered(*old(buf)) + java_string(s@));
}

/// Decode a string from the buffer with 4-byte length prefix (Java compatible).
pub fn decode_string_java(buf: &mut Bytes) -> (r: std::result::Result<String, IoError>)
    ensures
        agrees(r, parse_string_java(buffers::octets(*old(buf))).0),
        buffers::octets(*final(buf)) == parse_string_java(buffers::octets(*old(buf))).1,
{
    if buffers::bytes_len(buf) < 4 {
        return Err(eof_error("Not enough bytes for string length"));
    }
    let n: i32 = buffers::get_i32(buf);
    if n < 0 {
        return Err(eof_error("Not enough bytes for string content"));
    }
    decode_text(buf, n as usize)
}

/// Get the encoded length of a string with 4-byte length prefix (Java compatible).
pub fn string_encoded_length_java(s: &str) -> (n: usize)
    requires
        4 + utf8::encode_utf8(s@).len() <= usize::MAX,
    ensures
        n == 4 + utf8::encode_utf8(s@).len(),
        n == java_string(s@).len(),
{
    broadcast use wire::lemma_be_len;
    4 + s.as_bytes().len()
}

/// A string appends to a buffer two bytes, or with the longer prefix four, more than it has in
/// UTF-8: its encoded length, either way, is the number of bytes appended.
pub proof fn law_string_lengths(s: Seq<char>, held: Seq<u8>)
    ensures
        (held + short_string(s)).len() - held.len() == 2 + utf8::encode_utf8(s).len(),
        (held + java_string(s)).len() - held.len() == 4 + utf8::encode_utf8(s).len(),
        java_string(s).len() == short_string(s).len() + 2,
{
    broadcast use wire::lemma_be_len;
}

/// A string of less than 2^16 bytes comes back as it was written, and what stands
/// behind it is left over.
pub proof fn law_string_round_trip(s: Seq<char>, tail: Seq<u8>)
    requires
        utf8::encode_utf8(s).len() < 0x1_0000,
    ensures
        parse_string(short_string(s) + tail) == (Outcome::<Seq<char>>::Done(s), tail),
{
    broadcast use {utf8::encode_utf8_valid_utf8, utf8::encode_utf8_decode_utf8};
    let e = utf8::encode_utf8(s);
    let all = short_string(s) + tail;
    wire::lemma_limits();
    wire::lemma_be_round_trip(e.len(), 2);
    assert(all.take(2) =~= wire::be(e.len(), 2));
    assert(all.skip(2) =~= e + tail);
    assert((e + tail).take(e.len() as int) =~= e);
    assert((e + tail).skip(e.len() as int) =~= tail);
}

/// A string of less than 2^31 bytes comes back as it was written, and what stands
/// behind it is left over.
pub proof fn law_java_string_round_trip(s: Seq<char>, tail: Seq<u8>)
    requires
        utf8::encode_utf8(s).len() <= i32::MAX,
    ensures
        parse_string_java(java_string(s) + tail) == (Outcome::<Seq<char>>::Done(s), tail),
{
    broadcast use {utf8::encode_utf8_valid_utf8, utf8::encode_utf8_decode_utf8};
    let e = utf8::encode_utf8(s);
    let n = wire::signed32(e.len());
    assert(n == e.len());
    wire::lemma_i32_at(n, e + tail);
    assert(java_string(s) + tail =~= wire::be_i32(n) + (e + tail));
    assert((e + tail).take(e.len() as int) =~= e);
    assert((e + tail).skip(e.len() as int) =~= tail);
}

/// A protobuf payload behind its message type and its length.
pub open spec fn transport_frame(message_type: i32, payload: Seq<u8>) -> Seq<u8> {
    wire::be_i32(message_type) + wire::be_i32(wire::signed32(payload.len())) + payload
}

/// The text for a payload of `have` bytes where `need` were announced. A negative
/// announcement shows as the unsigned 64-bit number with the same bits.
pub open spec fn short_payload_text(need: int, have: nat) -> Seq<char> {
    "Not enough bytes for TransportMessage payload: need "@ + text::nat_text(
        if need < 0 {
            (need + 0x1_0000_0000_0000_0000) as nat
        } else {
            need as nat
        },
    ) + ", have "@ + text::nat_text(have)
}

/// Reading a transport message: its type, its payload, and the bytes behind it.
pub open spec fn parse_transport_frame(s: Seq<u8>) -> (Outcome<(i32, Seq<u8>)>, Seq<u8>) {
    if s.len() < 8 {
        (eof("Not enough bytes for TransportMessage header"@), s)
    } else {
        let n = wire::i32_at(s.skip(4)) as int;
        let t = s.skip(8);
        if n < 0 || t.len() < n {
            (eof(short_payload_text(n, t.len())), t)
        } else {
            (Outcome::Done((wire::i32_at(s), t.take(n))), t.skip(n))
        }
    }
}

/// Encode a TransportMessage to bytes.
///
/// TransportMessage wraps a Protobuf message with a type header.
/// Format: messageTypeValue (4 bytes) + payloadLen (4 bytes) + payload (protobuf)
pub fn encode_transport_message(message_type: i32, payload: &[u8]) -> (r: BytesMut)
    requires
        8 + payload@.len() <= isize::MAX,
    ensures
        buffers::buffered(r) == transport_frame(message_type, payload@),
{
    broadcast use wire::lemma_be_len;
    let mut buf: BytesMut = buffers::buffer_with_capacity(8 + payload.len());
    buffers::put_i32(&mut buf, message_type);
    buffers::put_i32(&mut buf, wire::wire_len(payload.len()));
    buffers::put_slice(&mut buf, payload);
    assert(buffers::buffered(buf) =~= transport_frame(message_type, payload@));
    buf
}

/// Decode a TransportMessage from bytes.
///
/// Returns (message_type, payload_bytes).
pub fn decode_transport_message(buf: &mut Bytes) -> (r: std::result::Result<(i32, Bytes), IoError>)
    ensures
        match parse_transport_frame(buffers::octets(*old(buf))).0 {
            Outcome::Done(v) => r matches Ok(p) && p.0 == v.0 && buffers::octets(p.1) == v.1,
            Outcome::Fault(kind, message) => r matches Err(e) && e.kind == kind && e.message@ == message,
        },
        buffers::octets(*final(buf)) == parse_transport_frame(buffers::octets(*old(buf))).1,
{
    if buffers::bytes_len(buf) < 8 {
        return Err(eof_error("Not enough bytes for TransportMessage header"));
    }
    let message_type: i32 = buffers::get_i32(buf);
    let n: i32 = buffers::get_i32(buf);
    assert(buffers::octets(*buf) =~= buffers::octets(*old(buf)).skip(8));
    let have: usize = buffers::bytes_len(buf);
    if n < 0 || have < n as usize {
        let need: u64 = if n < 0 {
            (n as i128 + 0x1_0000_0000_0000_0000) as u64
        } else {
            n as u64
        };
        let mut m: String = String::from_str("Not enough bytes for TransportMessage payload: need ");
        text::append_u64(&mut m, need);
        m.append(", have ");
        text::append_u64(&mut m, have as u64);
        return Err(IoError { kind: IoErrorKind::UnexpectedEof, message: m });
    }
    let payload: Bytes = buffers::copy_to_bytes(buf, n as usize);
    Ok((message_type, payload))
}

/// A payload of less than 2^31 bytes comes back with its type, and what stands behind
/// the frame is left over.
pub proof fn law_transport_frame_round_trip(message_type: i32, payload: Seq<u8>, tail: Seq<u8>)
    requires
        payload.len() <= i32::MAX,
    ensures
        parse_transport_frame(transport_frame(message_type, payload) + tail) == (
            Outcome::<(i32, Seq<u8>)>::Done((message_type, payload)),
            tail,
        ),
{
    let n = wire::signed32(payload.len());
    let rest = payload + tail;
    let all = transport_frame(message_type, payload) + tail;
    wire::lemma_i32_at(n, rest);
    wire::lemma_i32_at(message_type, wire::be_i32(n) + rest);
    assert(all =~= wire::be_i32(message_type) + (wire::be_i32(n) + rest));
    assert(all.skip(8) =~= rest);
    assert(rest.take(payload.len() as int) =~= payload);
    assert(rest.skip(payload.len() as int) =~= tail);
}

} // verus!
