//! Java ObjectOutputStream serialization format implementation.
//!
//! This module implements a subset of Java's ObjectOutputStream format
//! sufficient to serialize TransportMessage objects for Celeborn Master RPC.
//!
//! Java Serialization Stream Format:
//! - Magic: 0xACED
//! - Version: 0x0005
//! - Content: sequence of objects

use bytes::{Bytes, BytesMut};
use vstd::prelude::*;
use vstd::string::*;
use vstd::utf8;

use crate::buffers;
use crate::wire;

verus! {

broadcast use wire::lemma_be_len;

/// Java serialization stream magic number
pub const STREAM_MAGIC: u16 = 0xACED;

/// Java serialization stream version
pub const STREAM_VERSION: u16 = 0x0005;

pub const TC_NULL: u8 = 0x70;

pub const TC_REFERENCE: u8 = 0x71;

pub const TC_CLASSDESC: u8 = 0x72;

pub const TC_OBJECT: u8 = 0x73;

pub const TC_STRING: u8 = 0x74;

pub const TC_ARRAY: u8 = 0x75;

pub const TC_ENDBLOCKDATA: u8 = 0x78;

pub const TC_LONGSTRING: u8 = 0x7C;

/// Class descriptor flag of a serializable class
pub const SC_SERIALIZABLE: u8 = 0x02;

/// Field type code of an `int`
pub const FIELD_INTEGER: u8 = 0x49;

/// Field type code of an array
pub const FIELD_ARRAY: u8 = 0x5B;

/// Base handle for object references
pub const BASE_WIRE_HANDLE: u32 = 0x7E0000;

/// serialVersionUID of `byte[]`
pub const BYTE_ARRAY_UID: i64 = -5984413125824719648;

/// serialVersionUID of `TransportMessage`
pub const TRANSPORT_MESSAGE_UID: i64 = -3259000920699629773;

/// Three bytes that carry sixteen bits: four, six and six of them.
pub open spec fn three_bytes(code: nat) -> Seq<u8> {
    seq![
        (0xE0 + code / 0x1000) as u8,
        (0x80 + code / 0x40 % 0x40) as u8,
        (0x80 + code % 0x40) as u8,
    ]
}

/// A character in modified UTF-8: NUL takes two bytes, and a character beyond the
/// sixteen-bit range is written as a pair of surrogates of three bytes each.
pub open spec fn modified_char(c: char) -> Seq<u8> {
    let code = c as nat;
    if code == 0 {
        seq![0xC0u8, 0x80u8]
    } else if code <= 0x7F {
        seq![code as u8]
    } else if code <= 0x7FF {
        seq![(0xC0 + code / 0x40) as u8, (0x80 + code % 0x40) as u8]
    } else if code <= 0xFFFF {
        three_bytes(code)
    } else {
        three_bytes(((code - 0x10000) / 0x400 + 0xD800) as nat) + three_bytes(
            ((code - 0x10000) % 0x400 + 0xDC00) as nat,
        )
    }
}

/// A string in modified UTF-8.
pub open spec fn modified_utf8(s: Seq<char>) -> Seq<u8>
    decreases s.len(),
{
    if s.len() == 0 {
        Seq::<u8>::empty()
    } else {
        modified_utf8(s.drop_last()) + modified_char(s.last())
    }
}

proof fn lemma_modified_utf8_step(s: Seq<char>, i: int)
    requires
        0 <= i < s.len(),
    ensures
        modified_utf8(s.take(i + 1)) == modified_utf8(s.take(i)) + modified_char(s[i]),
        modified_utf8(s.take(i + 1)).len() <= modified_utf8(s).len(),
    decreases s.len(),
{
    assert(s.take(i + 1).drop_last() =~= s.take(i));
    if i + 1 < s.len() {
        lemma_modified_utf8_step(s.drop_last(), i);
        assert(s.drop_last().take(i + 1) =~= s.take(i + 1));
    } else {
        assert(s.take(i + 1) =~= s);
    }
}

/// How many bytes a character takes in modified UTF-8.
fn modified_char_len(c: char) -> (n: usize)
    ensures
        n == modified_char(c).len(),
{
    let code: u32 = c as u32;
    if code == 0 {
        2
    } else if code <= 0x7F {
        1
    } else if code <= 0x7FF {
        2
    } else if code <= 0xFFFF {
        3
    } else {
        6
    }
}

/// Calculate the length of a string in modified UTF-8 encoding.
pub fn modified_utf8_len(s: &str) -> (n: usize)
    requires
        modified_utf8(s@).len() <= usize::MAX,
    ensures
        n == modified_utf8(s@).len(),
{
    let mut len: usize = 0;
    assert(s@.take(0) =~= Seq::<char>::empty());
    for c in it: s.chars()
        invariant
            it.seq() == s@,
            len == modified_utf8(s@.take(it.index() as int)).len(),
            modified_utf8(s@).len() <= usize::MAX,
    {
        proof {
            lemma_modified_utf8_step(s@, it.index() as int);
        }
        assert(c == s@[it.index() as int]);
        len += modified_char_len(c);
    }
    assert(s@.take(s@.len() as int) =~= s@);
    len
}

/// Appends the three bytes that carry sixteen bits.
fn put_three_bytes(buf: &mut BytesMut, code: u32)
    requires
        code <= 0xFFFF,
        buffers::has_room(buffers::buffered(*old(buf)), 3),
    ensures
        buffers::buffered(*final(buf)) == buffers::buffered(*old(buf)) + three_bytes(code as nat),
{
    buffers::put_u8(buf, (0xE0 + code / 0x1000) as u8);
    buffers::put_u8(buf, (0x80 + code / 0x40 % 0x40) as u8);
    buffers::put_u8(buf, (0x80 + code % 0x40) as u8);
    assert(buffers::buffered(*buf) =~= buffers::buffered(*old(buf)) + three_bytes(code as nat));
}

/// Appends a character in modified UTF-8.
fn put_modified_char(buf: &mut BytesMut, c: char)
    requires
        buffers::has_room(buffers::buffered(*old(buf)), modified_char(c).len() as int),
    ensures
        buffers::buffered(*final(buf)) == buffers::buffered(*old(buf)) + modified_char(c),
{
    let code: u32 = c as u32;
    if code == 0 {
        buffers::put_u8(buf, 0xC0);
        buffers::put_u8(buf, 0x80);
    } else if code <= 0x7F {
        buffers::put_u8(buf, code as u8);
    } else if code <= 0x7FF {
        buffers::put_u8(buf, (0xC0 + code / 0x40) as u8);
        buffers::put_u8(buf, (0x80 + code % 0x40) as u8);
    } else if code <= 0xFFFF {
        put_three_bytes(buf, code);
    } else {
        put_three_bytes(buf, (code - 0x10000) / 0x400 + 0xD800);
        put_three_bytes(buf, (code - 0x10000) % 0x400 + 0xDC00);
    }
    assert(buffers::buffered(*buf) =~= buffers::buffered(*old(buf)) + modified_char(c));
}

/// Write a string in modified UTF-8 encoding.
pub fn write_modified_utf8(buf: &mut BytesMut, s: &str)
    requires
        buffers::has_room(buffers::buffered(*old(buf)), modified_utf8(s@).len() as int),
    ensures
        buffers::buffered(*final(buf)) == buffers::buffered(*old(buf)) + modified_utf8(s@),
{
    let ghost start = buffers::buffered(*buf);
    assert(s@.take(0) =~= Seq::<char>::empty());
    assert(start =~= start + modified_utf8(s@.take(0)));
    for c in it: s.chars()
        invariant
            it.seq() == s@,
            buffers::buffered(*buf) == start + modified_utf8(s@.take(it.index() as int)),
            buffers::has_room(start, modified_utf8(s@).len() as int),
    {
        proof {
            lemma_modified_utf8_step(s@, it.index() as int);
        }
        assert(c == s@[it.index() as int]);
        put_modified_char(buf, c);
        assert(buffers::buffered(*buf) =~= start + modified_utf8(s@.take(it.index() + 1)));
    }
    assert(s@.take(s@.len() as int) =~= s@);
}

/// A string behind its length in modified UTF-8 in two bytes. The length is taken
/// modulo 2^16.
pub open spec fn data_output_utf(s: Seq<char>) -> Seq<u8> {
    wire::be(modified_utf8(s).len() % 0x1_0000, 2) + modified_utf8(s)
}

/// Write a string in DataOutputStream.writeUTF format.
/// Format: 2-byte length (modified UTF-8 length) + modified UTF-8 bytes
pub fn write_data_output_utf(buf: &mut BytesMut, s: &str)
    requires
        buffers::has_room(buffers::buffered(*old(buf)), data_output_utf(s@).len() as int),
    ensures
        buffers::buffered(*final(buf)) == buffers::buffered(*old(buf)) + data_output_utf(s@),
{
    let utf_len: usize = modified_utf8_len(s);
    buffers::put_u16(buf, (utf_len % 0x1_0000) as u16);
    write_modified_utf8(buf, s);
    assert(buffers::buffered(*buf) =~= buffers::buffered(*old(buf)) + data_output_utf(s@));
}

/// What an object stream holds: the bytes written, the next free handle, and the
/// handles of the two class descriptors once they were written.
pub struct StreamModel {
    pub bytes: Seq<u8>,
    pub next: int,
    pub byte_array: Option<u32>,
    pub transport_message: Option<u32>,
}

impl StreamModel {
    /// With `more` appended and `handles` further handles given out.
    pub open spec fn then_bytes(self, more: Seq<u8>, handles: int) -> StreamModel {
        StreamModel { bytes: self.bytes + more, next: self.next + handles, ..self }
    }

    /// After a string.
    pub open spec fn then_utf(self, s: Seq<char>) -> StreamModel {
        let m = modified_utf8(s);
        if m.len() <= 65535 {
            self.then_bytes(seq![TC_STRING] + wire::be(m.len(), 2) + m, 1)
        } else {
            self.then_bytes(seq![TC_LONGSTRING] + wire::be(m.len(), 8) + m, 1)
        }
    }

    /// After the class descriptor of `byte[]`: a reference when it was written before.
    pub open spec fn then_byte_array_class(self) -> StreamModel {
        match self.byte_array {
            Some(handle) => self.then_bytes(seq![TC_REFERENCE] + wire::be(handle as nat, 4), 0),
            None => StreamModel {
                byte_array: Some(self.next as u32),
                ..self.then_bytes(byte_array_class(), 1)
            },
        }
    }

    /// After a byte array.
    pub open spec fn then_byte_array(self, data: Seq<u8>) -> StreamModel {
        self.then_bytes(seq![TC_ARRAY], 0).then_byte_array_class().then_bytes(
            wire::be_i32(wire::signed32(data.len())) + data,
            0,
        )
    }

    /// After the class descriptor of `TransportMessage`: a reference when it was
    /// written before.
    pub open spec fn then_transport_message_class(self) -> StreamModel {
        match self.transport_message {
            Some(handle) => self.then_bytes(seq![TC_REFERENCE] + wire::be(handle as nat, 4), 0),
            None => StreamModel {
                transport_message: Some(self.next as u32),
                ..self.then_bytes(transport_message_class(), 2)
            },
        }
    }

    /// After a `TransportMessage`.
    pub open spec fn then_transport_message(self, message_type: i32, payload: Seq<u8>) -> StreamModel {
        let head = self.then_bytes(seq![TC_OBJECT], 0).then_transport_message_class().then_bytes(
            wire::be_i32(message_type),
            1,
        );
        if payload.len() == 0 {
            head.then_bytes(seq![TC_NULL], 0)
        } else {
            head.then_byte_array(payload)
        }
    }
}

/// A marker byte, and a name behind its length in two bytes. The length is taken
/// modulo 2^16.
pub open spec fn tagged_name(tag: u8, name: Seq<char>) -> Seq<u8> {
    seq![tag] + wire::be(utf8::encode_utf8(name).len() % 0x1_0000, 2) + utf8::encode_utf8(name)
}

/// Appends a marker byte and a name behind its length.
fn put_tagged_name(buf: &mut BytesMut, tag: u8, name: &str)
    requires
        buffers::has_room(buffers::buffered(*old(buf)), tagged_name(tag, name@).len() as int),
    ensures
        buffers::buffered(*final(buf)) == buffers::buffered(*old(buf)) + tagged_name(tag, name@),
{
    let bytes: &[u8] = name.as_bytes();
    buffers::put_u8(buf, tag);
    buffers::put_u16(buf, (bytes.len() % 0x1_0000) as u16);
    buffers::put_slice(buf, bytes);
    assert(buffers::buffered(*buf) =~= buffers::buffered(*old(buf)) + tagged_name(tag, name@));
}

/// The class descriptor of `byte[]`.
pub open spec fn byte_array_class() -> Seq<u8> {
    tagged_name(TC_CLASSDESC, "[B"@) + wire::be_i64(BYTE_ARRAY_UID) + seq![SC_SERIALIZABLE]
        + wire::be(0, 2) + seq![TC_ENDBLOCKDATA] + seq![TC_NULL]
}

/// The two fields of `TransportMessage`: an `int` and a `byte[]`.
pub open spec fn transport_message_fields() -> Seq<u8> {
    wire::be(2, 2) + tagged_name(FIELD_INTEGER, "messageTypeValue"@) + tagged_name(
        FIELD_ARRAY,
        "payload"@,
    ) + tagged_name(TC_STRING, "[B"@)
}

/// The class descriptor of `TransportMessage`.
pub open spec fn transport_message_class() -> Seq<u8> {
    tagged_name(
        TC_CLASSDESC,
        "org.apache.celeborn.common.network.protocol.TransportMessage"@,
    ) + wire::be_i64(TRANSPORT_MESSAGE_UID) + seq![SC_SERIALIZABLE] + transport_message_fields()
        + seq![TC_ENDBLOCKDATA] + seq![TC_NULL]
}

/// A stream with nothing but its header.
pub open spec fn fresh_stream() -> StreamModel {
    StreamModel {
        bytes: wire::be(STREAM_MAGIC as nat, 2) + wire::be(STREAM_VERSION as nat, 2),
        next: BASE_WIRE_HANDLE as int,
        byte_array: None,
        transport_message: None,
    }
}

/// Java ObjectOutputStream writer for Celeborn protocol.
pub struct JavaObjectOutputStream {
    pub buffer: BytesMut,
    /// Handle counter for object references
    pub next_handle: u32,
    /// Handle of the class descriptor of `byte[]`, once written
    pub byte_array_handle: Option<u32>,
    /// Handle of the class descriptor of `TransportMessage`, once written
    pub transport_message_handle: Option<u32>,
}

impl View for JavaObjectOutputStream {
    type V = StreamModel;

    open spec fn view(&self) -> StreamModel {
        StreamModel {
            bytes: buffers::buffered(self.buffer),
            next: self.next_handle as int,
            byte_array: self.byte_array_handle,
            transport_message: self.transport_message_handle,
        }
    }
}

/// Whether a stream can go from one state to a later one: the bytes fit in memory and
/// the handles in their counter.
pub open spec fn reachable(after: StreamModel) -> bool {
    after.bytes.len() <= isize::MAX && after.next <= u32::MAX
}

impl JavaObjectOutputStream {
    /// Create a new Java object output stream.
    pub fn new() -> (r: Self)
        ensures
            r@ == fresh_stream(),
    {
        let mut buffer: BytesMut = buffers::buffer_with_capacity(1024);
        buffers::put_u16(&mut buffer, STREAM_MAGIC);
        buffers::put_u16(&mut buffer, STREAM_VERSION);
        assert(buffers::buffered(buffer) =~= fresh_stream().bytes);
        JavaObjectOutputStream {
            buffer,
            next_handle: BASE_WIRE_HANDLE,
            byte_array_handle: None,
            transport_message_handle: None,
        }
    }

    /// Get the serialized bytes.
    pub fn into_bytes(self) -> (r: Bytes)
        ensures
            buffers::octets(r) == self@.bytes,
    {
        buffers::buffer_freeze(self.buffer)
    }

    /// Get the current buffer length.
    pub fn len(&self) -> (r: usize)
        ensures
            r == self@.bytes.len(),
    {
        buffers::buffer_len(&self.buffer)
    }

    /// Allocate a new handle and return it.
    fn new_handle(&mut self) -> (r: u32)
        requires
            old(self).next_handle < u32::MAX,
        ensures
            r == old(self).next_handle,
            final(self)@ == (StreamModel { next: old(self)@.next + 1, ..old(self)@ }),
    {
        let handle: u32 = self.next_handle;
        self.next_handle = handle + 1;
        handle
    }

    /// Write a null reference.
    pub fn write_null(&mut self)
        requires
            buffers::has_room(old(self)@.bytes, 1),
        ensures
            final(self)@ == old(self)@.then_bytes(seq![TC_NULL], 0),
    {
        buffers::put_u8(&mut self.buffer, TC_NULL);
        assert(self@.bytes =~= old(self)@.bytes + seq![TC_NULL]);
    }

    /// Write a UTF-8 string (short form, max 65535 bytes).
    pub fn write_utf(&mut self, s: &str)
        requires
            reachable(old(self)@.then_utf(s@)),
        ensures
            final(self)@ == old(self)@.then_utf(s@),
    {
        let ghost start = self@.bytes;
        let utf_len: usize = modified_utf8_len(s);
        if utf_len <= 65535 {
            buffers::put_u8(&mut self.buffer, TC_STRING);
            buffers::put_u16(&mut self.buffer, utf_len as u16);
        } else {
            buffers::put_u8(&mut self.buffer, TC_LONGSTRING);
            buffers::put_u64(&mut self.buffer, utf_len as u64);
        }
        write_modified_utf8(&mut self.buffer, s);
        assert(self@.bytes =~= old(self)@.then_utf(s@).bytes);
        self.new_handle();
    }

    /// Write a byte array.
    pub fn write_byte_array(&mut self, data: &[u8])
        requires
            reachable(old(self)@.then_byte_array(data@)),
        ensures
            final(self)@ == old(self)@.then_byte_array(data@),
    {
        buffers::put_u8(&mut self.buffer, TC_ARRAY);
        assert(self@.bytes =~= old(self)@.bytes + seq![TC_ARRAY]);
        self.write_class_desc_for_byte_array();
        let ghost mid = self@;
        buffers::put_i32(&mut self.buffer, wire::wire_len(data.len()));
        buffers::put_slice(&mut self.buffer, data);
        assert(self@.bytes =~= mid.bytes + (wire::be_i32(wire::signed32(data@.len())) + data@));
    }

    /// Write class descriptor for byte array [B
    fn write_class_desc_for_byte_array(&mut self)
        requires
            reachable(old(self)@.then_byte_array_class()),
        ensures
            final(self)@ == old(self)@.then_byte_array_class(),
    {
        let ghost start = self@;
        match self.byte_array_handle {
            Some(handle) => {
                buffers::put_u8(&mut self.buffer, TC_REFERENCE);
                buffers::put_u32(&mut self.buffer, handle);
                assert(self@.bytes =~= start.bytes + (seq![TC_REFERENCE] + wire::be(handle as nat, 4)));
            },
            None => {
                put_tagged_name(&mut self.buffer, TC_CLASSDESC, "[B");
                buffers::put_i64(&mut self.buffer, BYTE_ARRAY_UID);
                let handle: u32 = self.new_handle();
                self.byte_array_handle = Some(handle);
                buffers::put_u8(&mut self.buffer, SC_SERIALIZABLE);
                buffers::put_u16(&mut self.buffer, 0);
                buffers::put_u8(&mut self.buffer, TC_ENDBLOCKDATA);
                buffers::put_u8(&mut self.buffer, TC_NULL);
                assert(self@.bytes =~= start.bytes + byte_array_class());
            },
        }
    }

    /// Write a TransportMessage object.
    ///
    /// TransportMessage has:
    /// - int messageTypeValue
    /// - byte[] payload
    pub fn write_transport_message(&mut self, message_type: i32, payload: &[u8])
        requires
            reachable(old(self)@.then_transport_message(message_type, payload@)),
        ensures
            final(self)@ == old(self)@.then_transport_message(message_type, payload@),
    {
        buffers::put_u8(&mut self.buffer, TC_OBJECT);
        assert(self@.bytes =~= old(self)@.bytes + seq![TC_OBJECT]);
        self.write_transport_message_class_desc();
        let ghost mid = self@;
        self.new_handle();
        buffers::put_i32(&mut self.buffer, message_type);
        assert(self@.bytes =~= mid.bytes + wire::be_i32(message_type));
        if payload.len() == 0 {
            self.write_null();
        } else {
            self.write_byte_array(payload);
        }
    }

    /// Write TransportMessage class descriptor.
    fn write_transport_message_class_desc(&mut self)
        requires
            reachable(old(self)@.then_transport_message_class()),
        ensures
            final(self)@ == old(self)@.then_transport_message_class(),
    {
        let ghost start = self@;
        match self.transport_message_handle {
            Some(handle) => {
                buffers::put_u8(&mut self.buffer, TC_REFERENCE);
                buffers::put_u32(&mut self.buffer, handle);
                assert(self@.bytes =~= start.bytes + (seq![TC_REFERENCE] + wire::be(handle as nat, 4)));
            },
            None => {
                put_tagged_name(
                    &mut self.buffer,
                    TC_CLASSDESC,
                    "org.apache.celeborn.common.network.protocol.TransportMessage",
                );
                buffers::put_i64(&mut self.buffer, TRANSPORT_MESSAGE_UID);
                let handle: u32 = self.new_handle();
                self.transport_message_handle = Some(handle);
                buffers::put_u8(&mut self.buffer, SC_SERIALIZABLE);
                let ghost mid = self@.bytes;
                buffers::put_u16(&mut self.buffer, 2);
                put_tagged_name(&mut self.buffer, FIELD_INTEGER, "messageTypeValue");
                put_tagged_name(&mut self.buffer, FIELD_ARRAY, "payload");
                put_tagged_name(&mut self.buffer, TC_STRING, "[B");
                assert(self@.bytes =~= mid + transport_message_fields());
                self.new_handle();
                buffers::put_u8(&mut self.buffer, TC_ENDBLOCKDATA);
                buffers::put_u8(&mut self.buffer, TC_NULL);
                assert(self@.bytes =~= start.bytes + transport_message_class());
            },
        }
    }
}

impl Default for JavaObjectOutputStream {
    fn default() -> (r: Self)
        ensures
            r@ == fresh_stream(),
    {
        JavaObjectOutputStream::new()
    }
}

/// RPC address for Celeborn communication.
#[derive(Debug, PartialEq, Eq)]
pub struct RpcAddress {
    pub host: String,
    pub port: i32,
}

impl Clone for RpcAddress {
    fn clone(&self) -> (r: Self)
        ensures
            r == *self,
    {
        RpcAddress { host: self.host.clone(), port: self.port }
    }
}

impl RpcAddress {
    pub fn new(host: &str, port: i32) -> (r: Self)
        ensures
            r.host@ == host@,
            r.port == port,
    {
        RpcAddress { host: host.to_owned(), port }
    }
}

/// An optional address: a flag byte, then the host and the port where there is one.
pub open spec fn address_wire(addr: Option<&RpcAddress>) -> Seq<u8> {
    match addr {
        None => seq![0u8],
        Some(a) => seq![1u8] + data_output_utf(a.host@) + wire::be_i32(a.port),
    }
}

/// A request to an endpoint: the two addresses, the name of the endpoint, and the
/// message as a Java object stream.
pub open spec fn request_message(
    sender: Option<&RpcAddress>,
    receiver: Option<&RpcAddress>,
    receiver_name: Seq<char>,
    message_type: i32,
    payload: Seq<u8>,
) -> Seq<u8> {
    address_wire(sender) + address_wire(receiver) + data_output_utf(receiver_name)
        + fresh_stream().then_transport_message(message_type, payload).bytes
}

/// Encode a RequestMessage for Celeborn Master RPC.
///
/// Format:
/// 1. senderAddress: boolean + (UTF host + int port)?
/// 2. receiverAddress: boolean + (UTF host + int port)?
/// 3. receiverName: UTF string (endpoint name)
/// 4. content: Java serialized TransportMessage
pub fn encode_request_message(
    sender_address: Option<&RpcAddress>,
    receiver_address: Option<&RpcAddress>,
    receiver_name: &str,
    message_type: i32,
    payload: &[u8],
) -> (r: Bytes)
    requires
        256 + payload@.len() <= isize::MAX,
        request_message(
            sender_address,
            receiver_address,
            receiver_name@,
            message_type,
            payload@,
        ).len() <= isize::MAX,
    ensures
        buffers::octets(r) == request_message(
            sender_address,
            receiver_address,
            receiver_name@,
            message_type,
            payload@,
        ),
{
    let ghost stream = fresh_stream().then_transport_message(message_type, payload@);
    let mut buf: BytesMut = buffers::buffer_with_capacity(256 + payload.len());
    write_rpc_address(&mut buf, sender_address);
    write_rpc_address(&mut buf, receiver_address);
    write_data_output_utf(&mut buf, receiver_name);
    let mut java_stream: JavaObjectOutputStream = JavaObjectOutputStream::new();
    java_stream.write_transport_message(message_type, payload);
    let content: Bytes = java_stream.into_bytes();
    buffers::put_slice(&mut buf, buffers::bytes_as_slice(&content));
    assert(buffers::buffered(buf) =~= request_message(
        sender_address,
        receiver_address,
        receiver_name@,
        message_type,
        payload@,
    ));
    buffers::buffer_freeze(buf)
}

/// Write an RPC address in DataOutputStream format.
pub fn write_rpc_address(buf: &mut BytesMut, addr: Option<&RpcAddress>)
    requires
        buffers::has_room(buffers::buffered(*old(buf)), address_wire(addr).len() as int),
    ensures
        buffers::buffered(*final(buf)) == buffers::buffered(*old(buf)) + address_wire(addr),
{
    match addr {
        None => {
            buffers::put_u8(buf, 0);
        },
        Some(a) => {
            buffers::put_u8(buf, 1);
            write_data_output_utf(buf, a.host.as_str());
            buffers::put_i32(buf, a.port);
        },
    }
    assert(buffers::buffered(*buf) =~= buffers::buffered(*old(buf)) + address_wire(addr));
}

} // verus!
