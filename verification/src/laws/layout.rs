//! Where each value stands in the bytes of a message, a frame or a batch.
//!
//! Numbers are read here digit by digit, so that a law fixes both the place and the order of
//! the bytes.

use vstd::prelude::*;
use vstd::utf8;

use crate::buffers;
use crate::network::codec;
use crate::network::codec::FrameModel;
use crate::protocol;
use crate::protocol::batch_header;
use crate::protocol::batch_header::BatchHeader;
use crate::protocol::message;
use crate::protocol::message::{
    ChunkFetchFailure, ChunkFetchRequest, ChunkFetchSuccess, Heartbeat, MessageType,
    OneWayMessage, OpenStream, PushData, PushDataHandShake, PushMergedData, RegionFinish,
    RegionStart, RpcFailure, RpcRequest, RpcResponse, StreamHandle,
};
use crate::protocol::Encodable;
use crate::wire;

verus! {

/// The number in two bytes, the high one first.
pub open spec fn big16(s: Seq<u8>, at: int) -> int {
    s[at] * 0x100 + s[at + 1]
}

/// The number in four bytes, the highest first.
pub open spec fn big32(s: Seq<u8>, at: int) -> int {
    s[at] * 0x100_0000 + s[at + 1] * 0x1_0000 + s[at + 2] * 0x100 + s[at + 3]
}

/// The number in four bytes, the lowest first.
pub open spec fn little32(s: Seq<u8>, at: int) -> int {
    s[at] + s[at + 1] * 0x100 + s[at + 2] * 0x1_0000 + s[at + 3] * 0x100_0000
}

/// The number in eight bytes, the highest first.
pub open spec fn big64(s: Seq<u8>, at: int) -> int {
    big32(s, at) * 0x1_0000_0000 + big32(s, at + 4)
}

/// A number of 32 bits, read with a sign.
pub open spec fn with_sign32(n: int) -> int {
    if n < 0x8000_0000 {
        n
    } else {
        n - 0x1_0000_0000
    }
}

/// A number of 64 bits, read with a sign.
pub open spec fn with_sign64(n: int) -> int {
    if n < 0x8000_0000_0000_0000 {
        n
    } else {
        n - 0x1_0000_0000_0000_0000
    }
}

/// The bytes of a string.
pub open spec fn bytes_of(s: Seq<char>) -> Seq<u8> {
    utf8::encode_utf8(s)
}

/// Whether a string stands at a place, behind its length in two bytes.
pub open spec fn string_at(w: Seq<u8>, at: int, s: Seq<char>) -> bool {
    let b = bytes_of(s);
    &&& at + 2 + b.len() <= w.len()
    &&& big16(w, at) == b.len() % 0x1_0000
    &&& w.subrange(at + 2, at + 2 + b.len() as int) == b
}

/// Whether a body stands at a place, behind its length in four bytes, and ends the message.
pub open spec fn body_at(w: Seq<u8>, at: int, body: Seq<u8>) -> bool {
    &&& w.len() == at + 4 + body.len()
    &&& big32(w, at) == body.len() % 0x1_0000_0000
    &&& w.skip(at + 4) == body
}

pub(crate) proof fn lemma_be32(s: Seq<u8>, at: int, n: nat)
    requires
        0 <= at,
        at + 4 <= s.len(),
        n < 0x1_0000_0000,
        s.subrange(at, at + 4) == wire::be(n, 4),
    ensures
        big32(s, at) == n,
{
    let t = s.subrange(at, at + 4);
    wire::lemma_limits();
    wire::lemma_be_round_trip(n, 4);
    wire::lemma_be_nat_4(t);
}

pub(crate) proof fn lemma_i32(s: Seq<u8>, at: int, v: i32)
    requires
        0 <= at,
        at + 4 <= s.len(),
        s.subrange(at, at + 4) == wire::be_i32(v),
    ensures
        with_sign32(big32(s, at)) == v,
{
    lemma_be32(s, at, wire::unsigned32(v));
}

proof fn lemma_le_i32(s: Seq<u8>, at: int, v: i32)
    requires
        0 <= at,
        at + 4 <= s.len(),
        s.subrange(at, at + 4) == wire::le_i32(v),
    ensures
        with_sign32(little32(s, at)) == v,
{
    let t = s.subrange(at, at + 4);
    let n = wire::unsigned32(v);
    wire::lemma_be_len(n, 4);
    let b = t.reverse();
    assert(b =~= wire::be(n, 4));
    wire::lemma_limits();
    wire::lemma_be_round_trip(n, 4);
    wire::lemma_be_nat_4(b);
}

pub(crate) proof fn lemma_i64(s: Seq<u8>, at: int, v: i64)
    requires
        0 <= at,
        at + 8 <= s.len(),
        s.subrange(at, at + 8) == wire::be_i64(v),
    ensures
        with_sign64(big64(s, at)) == v,
{
    let t = s.subrange(at, at + 8);
    wire::lemma_limits();
    wire::lemma_be_round_trip(wire::unsigned64(v), 8);
    wire::lemma_be_nat_8(t);
    wire::lemma_be_nat_4(t.take(4));
    wire::lemma_be_nat_4(t.skip(4));
}

proof fn lemma_string(w: Seq<u8>, at: int, s: Seq<char>)
    requires
        0 <= at,
        at + protocol::short_string(s).len() <= w.len(),
        w.subrange(at, at + protocol::short_string(s).len() as int) == protocol::short_string(s),
    ensures
        protocol::short_string(s).len() == 2 + bytes_of(s).len(),
        string_at(w, at, s),
{
    let b = bytes_of(s);
    let t = protocol::short_string(s);
    wire::lemma_be_2(b.len() % 0x1_0000);
    assert(t.len() == 2 + b.len());
    assert(w[at] == w.subrange(at, at + t.len())[0]);
    assert(w[at + 1] == w.subrange(at, at + t.len())[1]);
    assert(w.subrange(at + 2, at + 2 + b.len() as int) =~= w.subrange(at, at + t.len()).skip(2));
    assert(t.skip(2) =~= b);
}

pub(crate) proof fn lemma_body(w: Seq<u8>, at: int, body: Seq<u8>)
    requires
        0 <= at <= w.len(),
        w.skip(at) == message::sized_body(body),
    ensures
        body_at(w, at, body),
{
    let t = message::sized_body(body);
    let v = wire::signed32(body.len());
    wire::lemma_i32_round_trip(v);
    assert(w.subrange(at, at + 4) =~= w.skip(at).take(4));
    assert(t.take(4) =~= wire::be_i32(v));
    lemma_be32(w, at, wire::unsigned32(v));
    assert(w.skip(at + 4) =~= w.skip(at).skip(4));
    assert(t.skip(4) =~= body);
}

/// A string is written behind its length in two bytes, or in four, the high byte first.
pub proof fn law_strings_follow_their_length(s: Seq<char>)
    ensures
        string_at(protocol::short_string(s), 0, s),
        body_at(protocol::java_string(s), 0, bytes_of(s)),
{
    let t = protocol::short_string(s);
    assert(t.subrange(0, t.len() as int) =~= t);
    lemma_string(t, 0, s);
    let j = protocol::java_string(s);
    assert(j.skip(0) =~= message::sized_body(bytes_of(s)));
    lemma_body(j, 0, bytes_of(s));
}

/// A request is its type, its number in eight bytes, and its body behind the length.
pub proof fn law_rpc_request_layout(m: RpcRequest)
    ensures
        m.wire()[0] == 3,
        with_sign64(big64(m.wire(), 1)) == m.request_id,
        body_at(m.wire(), 9, buffers::octets(m.body)),
{
    let w = m.wire();
    wire::lemma_i64_round_trip(m.request_id);
    assert(w.subrange(1, 9) =~= wire::be_i64(m.request_id));
    lemma_i64(w, 1, m.request_id);
    assert(w.skip(9) =~= message::sized_body(buffers::octets(m.body)));
    lemma_body(w, 9, buffers::octets(m.body));
}

/// An answer is its type, the number of its request, and its body behind the length.
pub proof fn law_rpc_response_layout(m: RpcResponse)
    ensures
        m.wire()[0] == 4,
        with_sign64(big64(m.wire(), 1)) == m.request_id,
        body_at(m.wire(), 9, buffers::octets(m.body)),
{
    let w = m.wire();
    wire::lemma_i64_round_trip(m.request_id);
    assert(w.subrange(1, 9) =~= wire::be_i64(m.request_id));
    lemma_i64(w, 1, m.request_id);
    assert(w.skip(9) =~= message::sized_body(buffers::octets(m.body)));
    lemma_body(w, 9, buffers::octets(m.body));
}

/// A failure is its type, the number of its request, and its text.
pub proof fn law_rpc_failure_layout(m: RpcFailure)
    ensures
        m.wire()[0] == 5,
        with_sign64(big64(m.wire(), 1)) == m.request_id,
        string_at(m.wire(), 9, m.error_message@),
{
    let w = m.wire();
    let t = protocol::short_string(m.error_message@);
    wire::lemma_i64_round_trip(m.request_id);
    assert(w.subrange(1, 9) =~= wire::be_i64(m.request_id));
    lemma_i64(w, 1, m.request_id);
    assert(w.subrange(9, 9 + t.len() as int) =~= t);
    lemma_string(w, 9, m.error_message@);
}

/// A push is its type, its number, the mode, the key of the shuffle, the id of the partition,
/// and the data behind its length.
pub proof fn law_push_data_layout(m: PushData)
    ensures
        ({
            let w = m.wire();
            let k = bytes_of(m.shuffle_key@).len() as int;
            let p = bytes_of(m.partition_unique_id@).len() as int;
            &&& w[0] == 11
            &&& with_sign64(big64(w, 1)) == m.request_id
            &&& w[9] == m.mode
            &&& string_at(w, 10, m.shuffle_key@)
            &&& string_at(w, 12 + k, m.partition_unique_id@)
            &&& body_at(w, 14 + k + p, buffers::octets(m.body))
        }),
{
    broadcast use wire::lemma_be_len;

    let w = m.wire();
    let key = protocol::short_string(m.shuffle_key@);
    let id = protocol::short_string(m.partition_unique_id@);
    let k = bytes_of(m.shuffle_key@).len() as int;
    let p = bytes_of(m.partition_unique_id@).len() as int;
    assert(key.len() == 2 + k);
    assert(id.len() == 2 + p);
    assert(w.subrange(1, 9) =~= wire::be_i64(m.request_id));
    lemma_i64(w, 1, m.request_id);
    assert(w.subrange(10, 10 + key.len() as int) =~= key);
    lemma_string(w, 10, m.shuffle_key@);
    assert(w.subrange(12 + k, 12 + k + id.len() as int) =~= id);
    lemma_string(w, 12 + k, m.partition_unique_id@);
    assert(w.skip(14 + k + p) =~= message::sized_body(buffers::octets(m.body)));
    lemma_body(w, 14 + k + p, buffers::octets(m.body));
}

/// A merged push is its type, its number, the mode, the key of the shuffle, how many
/// partitions it is for, and in the end their data behind its length.
pub proof fn law_push_merged_data_layout(m: PushMergedData)
    ensures
        ({
            let w = m.wire();
            let k = bytes_of(m.shuffle_key@).len() as int;
            let data = buffers::octets(m.body);
            &&& w[0] == 12
            &&& with_sign64(big64(w, 1)) == m.request_id
            &&& w[9] == m.mode
            &&& string_at(w, 10, m.shuffle_key@)
            &&& big32(w, 12 + k) == m.partition_unique_ids@.len() % 0x1_0000_0000
            &&& m.partition_unique_ids@.len() > 0 ==> string_at(
                w,
                16 + k,
                m.partition_unique_ids@[0]@,
            )
            &&& body_at(w, w.len() - 4 - data.len(), data)
        }),
{
    broadcast use wire::lemma_be_len;

    let w = m.wire();
    let key = protocol::short_string(m.shuffle_key@);
    let k = bytes_of(m.shuffle_key@).len() as int;
    let data = buffers::octets(m.body);
    let ids = m.ids_wire();
    let offsets = m.offsets_wire();
    let n = wire::signed32(m.partition_unique_ids@.len());
    assert(w.subrange(1, 9) =~= wire::be_i64(m.request_id));
    lemma_i64(w, 1, m.request_id);
    assert(w.subrange(10, 10 + key.len() as int) =~= key);
    lemma_string(w, 10, m.shuffle_key@);
    assert(w.subrange(12 + k, 16 + k) =~= wire::be_i32(n));
    lemma_be32(w, 12 + k, wire::unsigned32(n));
    if m.partition_unique_ids@.len() > 0 {
        lemma_first_string(m.partition_unique_ids@);
        let first = protocol::short_string(m.partition_unique_ids@[0]@);
        let all = message::strings_wire(m.partition_unique_ids@);
        assert(ids.skip(4) =~= all);
        assert(w.subrange(16 + k, 16 + k + first.len() as int) =~= all.take(first.len() as int));
        lemma_string(w, 16 + k, m.partition_unique_ids@[0]@);
    }
    let at = w.len() - 4 - data.len();
    assert(w.skip(at) =~= message::sized_body(data));
    lemma_body(w, at, data);
}

proof fn lemma_first_string(ids: Seq<String>)
    requires
        ids.len() > 0,
    ensures
        ({
            let first = protocol::short_string(ids[0]@);
            let all = message::strings_wire(ids);
            first.len() <= all.len() && all.take(first.len() as int) == first
        }),
    decreases ids.len(),
{
    let first = protocol::short_string(ids[0]@);
    let all = message::strings_wire(ids);
    let before = ids.drop_last();
    if ids.len() == 1 {
        assert(before =~= Seq::<String>::empty());
        assert(all =~= first);
        assert(all.take(first.len() as int) =~= first);
    } else {
        lemma_first_string(before);
        assert(all.take(first.len() as int) =~= message::strings_wire(before).take(
            first.len() as int,
        ));
    }
}

/// Opening a stream names the key of the shuffle and the file, and then the first and the last
/// of the mappers.
pub proof fn law_open_stream_layout(m: OpenStream)
    ensures
        ({
            let w = m.wire();
            let k = bytes_of(m.shuffle_key@).len() as int;
            let f = bytes_of(m.file_name@).len() as int;
            &&& w[0] == 6
            &&& string_at(w, 1, m.shuffle_key@)
            &&& string_at(w, 3 + k, m.file_name@)
            &&& with_sign32(big32(w, 5 + k + f)) == m.start_index
            &&& with_sign32(big32(w, 9 + k + f)) == m.end_index
            &&& w.len() == 13 + k + f
        }),
{
    broadcast use wire::lemma_be_len;

    let w = m.wire();
    let key = protocol::short_string(m.shuffle_key@);
    let file = protocol::short_string(m.file_name@);
    let k = bytes_of(m.shuffle_key@).len() as int;
    let f = bytes_of(m.file_name@).len() as int;
    assert(w.subrange(1, 1 + key.len() as int) =~= key);
    lemma_string(w, 1, m.shuffle_key@);
    assert(w.subrange(3 + k, 3 + k + file.len() as int) =~= file);
    lemma_string(w, 3 + k, m.file_name@);
    assert(w.subrange(5 + k + f, 9 + k + f) =~= wire::be_i32(m.start_index));
    lemma_i32(w, 5 + k + f, m.start_index);
    assert(w.subrange(9 + k + f, 13 + k + f) =~= wire::be_i32(m.end_index));
    lemma_i32(w, 9 + k + f, m.end_index);
}

/// A handle on a stream is its type, the number of the stream, and how many chunks it has.
pub proof fn law_stream_handle_layout(m: StreamHandle)
    ensures
        m.wire().len() == 13,
        m.wire()[0] == 7,
        with_sign64(big64(m.wire(), 1)) == m.stream_id,
        with_sign32(big32(m.wire(), 9)) == m.num_chunks,
{
    broadcast use wire::lemma_be_len;

    let w = m.wire();
    assert(w.subrange(1, 9) =~= wire::be_i64(m.stream_id));
    lemma_i64(w, 1, m.stream_id);
    assert(w.subrange(9, 13) =~= wire::be_i32(m.num_chunks));
    lemma_i32(w, 9, m.num_chunks);
}

/// A request for a chunk is its type, the number of the stream, that of the chunk, and which
/// part of it is asked for.
pub proof fn law_chunk_fetch_request_layout(m: ChunkFetchRequest)
    ensures
        m.wire().len() == 21,
        m.wire()[0] == 0,
        with_sign64(big64(m.wire(), 1)) == m.stream_id,
        with_sign32(big32(m.wire(), 9)) == m.chunk_index,
        with_sign32(big32(m.wire(), 13)) == m.offset,
        with_sign32(big32(m.wire(), 17)) == m.len,
{
    broadcast use wire::lemma_be_len;

    let w = m.wire();
    assert(w.subrange(1, 9) =~= wire::be_i64(m.stream_id));
    lemma_i64(w, 1, m.stream_id);
    assert(w.subrange(9, 13) =~= wire::be_i32(m.chunk_index));
    lemma_i32(w, 9, m.chunk_index);
    assert(w.subrange(13, 17) =~= wire::be_i32(m.offset));
    lemma_i32(w, 13, m.offset);
    assert(w.subrange(17, 21) =~= wire::be_i32(m.len));
    lemma_i32(w, 17, m.len);
}

/// A chunk is its type, the number of the stream, its own, and its data behind the length.
pub proof fn law_chunk_fetch_success_layout(m: ChunkFetchSuccess)
    ensures
        m.wire()[0] == 1,
        with_sign64(big64(m.wire(), 1)) == m.stream_id,
        with_sign32(big32(m.wire(), 9)) == m.chunk_index,
        body_at(m.wire(), 13, buffers::octets(m.body)),
{
    broadcast use wire::lemma_be_len;

    let w = m.wire();
    assert(w.subrange(1, 9) =~= wire::be_i64(m.stream_id));
    lemma_i64(w, 1, m.stream_id);
    assert(w.subrange(9, 13) =~= wire::be_i32(m.chunk_index));
    lemma_i32(w, 9, m.chunk_index);
    assert(w.skip(13) =~= message::sized_body(buffers::octets(m.body)));
    lemma_body(w, 13, buffers::octets(m.body));
}

/// A chunk that could not be fetched is its type, the number of the stream, that of the chunk,
/// and a text.
pub proof fn law_chunk_fetch_failure_layout(m: ChunkFetchFailure)
    ensures
        m.wire()[0] == 2,
        with_sign64(big64(m.wire(), 1)) == m.stream_id,
        with_sign32(big32(m.wire(), 9)) == m.chunk_index,
        string_at(m.wire(), 13, m.error_message@),
{
    broadcast use wire::lemma_be_len;

    let w = m.wire();
    let t = protocol::short_string(m.error_message@);
    assert(w.subrange(1, 9) =~= wire::be_i64(m.stream_id));
    lemma_i64(w, 1, m.stream_id);
    assert(w.subrange(9, 13) =~= wire::be_i32(m.chunk_index));
    lemma_i32(w, 9, m.chunk_index);
    assert(w.subrange(13, 13 + t.len() as int) =~= t);
    lemma_string(w, 13, m.error_message@);
}

/// A handshake names the shuffle and the partition, and then the attempt, the number of
/// partitions and the size of the buffer.
pub proof fn law_push_data_hand_shake_layout(m: PushDataHandShake)
    ensures
        ({
            let w = m.wire();
            let k = bytes_of(m.shuffle_key@).len() as int;
            let p = bytes_of(m.partition_unique_id@).len() as int;
            &&& w[0] == 15
            &&& w[1] == m.mode
            &&& string_at(w, 2, m.shuffle_key@)
            &&& string_at(w, 4 + k, m.partition_unique_id@)
            &&& with_sign32(big32(w, 6 + k + p)) == m.attempt_id
            &&& with_sign32(big32(w, 10 + k + p)) == m.num_partitions
            &&& with_sign32(big32(w, 14 + k + p)) == m.buffer_size
            &&& w.len() == 18 + k + p
        }),
{
    broadcast use wire::lemma_be_len;

    let w = m.wire();
    let key = protocol::short_string(m.shuffle_key@);
    let id = protocol::short_string(m.partition_unique_id@);
    let k = bytes_of(m.shuffle_key@).len() as int;
    let p = bytes_of(m.partition_unique_id@).len() as int;
    assert(w.subrange(2, 2 + key.len() as int) =~= key);
    lemma_string(w, 2, m.shuffle_key@);
    assert(w.subrange(4 + k, 4 + k + id.len() as int) =~= id);
    lemma_string(w, 4 + k, m.partition_unique_id@);
    assert(w.subrange(6 + k + p, 10 + k + p) =~= wire::be_i32(m.attempt_id));
    lemma_i32(w, 6 + k + p, m.attempt_id);
    assert(w.subrange(10 + k + p, 14 + k + p) =~= wire::be_i32(m.num_partitions));
    lemma_i32(w, 10 + k + p, m.num_partitions);
    assert(w.subrange(14 + k + p, 18 + k + p) =~= wire::be_i32(m.buffer_size));
    lemma_i32(w, 14 + k + p, m.buffer_size);
}

/// The start of a region names the shuffle and the partition, and then the attempt, the region,
/// and whether it is broadcast.
pub proof fn law_region_start_layout(m: RegionStart)
    ensures
        ({
            let w = m.wire();
            let k = bytes_of(m.shuffle_key@).len() as int;
            let p = bytes_of(m.partition_unique_id@).len() as int;
            &&& w[0] == 13
            &&& w[1] == m.mode
            &&& string_at(w, 2, m.shuffle_key@)
            &&& string_at(w, 4 + k, m.partition_unique_id@)
            &&& with_sign32(big32(w, 6 + k + p)) == m.attempt_id
            &&& with_sign32(big32(w, 10 + k + p)) == m.current_region_index
            &&& w[14 + k + p] == (if m.is_broadcast {
                1int
            } else {
                0int
            })
            &&& w.len() == 15 + k + p
        }),
{
    broadcast use wire::lemma_be_len;

    let w = m.wire();
    let key = protocol::short_string(m.shuffle_key@);
    let id = protocol::short_string(m.partition_unique_id@);
    let k = bytes_of(m.shuffle_key@).len() as int;
    let p = bytes_of(m.partition_unique_id@).len() as int;
    assert(w.subrange(2, 2 + key.len() as int) =~= key);
    lemma_string(w, 2, m.shuffle_key@);
    assert(w.subrange(4 + k, 4 + k + id.len() as int) =~= id);
    lemma_string(w, 4 + k, m.partition_unique_id@);
    assert(w.subrange(6 + k + p, 10 + k + p) =~= wire::be_i32(m.attempt_id));
    lemma_i32(w, 6 + k + p, m.attempt_id);
    assert(w.subrange(10 + k + p, 14 + k + p) =~= wire::be_i32(m.current_region_index));
    lemma_i32(w, 10 + k + p, m.current_region_index);
}

/// The end of a region names the shuffle, the partition and the attempt.
pub proof fn law_region_finish_layout(m: RegionFinish)
    ensures
        ({
            let w = m.wire();
            let k = bytes_of(m.shuffle_key@).len() as int;
            let p = bytes_of(m.partition_unique_id@).len() as int;
            &&& w[0] == 14
            &&& w[1] == m.mode
            &&& string_at(w, 2, m.shuffle_key@)
            &&& string_at(w, 4 + k, m.partition_unique_id@)
            &&& with_sign32(big32(w, 6 + k + p)) == m.attempt_id
            &&& w.len() == 10 + k + p
        }),
{
    broadcast use wire::lemma_be_len;

    let w = m.wire();
    let key = protocol::short_string(m.shuffle_key@);
    let id = protocol::short_string(m.partition_unique_id@);
    let k = bytes_of(m.shuffle_key@).len() as int;
    let p = bytes_of(m.partition_unique_id@).len() as int;
    assert(w.subrange(2, 2 + key.len() as int) =~= key);
    lemma_string(w, 2, m.shuffle_key@);
    assert(w.subrange(4 + k, 4 + k + id.len() as int) =~= id);
    lemma_string(w, 4 + k, m.partition_unique_id@);
    assert(w.subrange(6 + k + p, 10 + k + p) =~= wire::be_i32(m.attempt_id));
    lemma_i32(w, 6 + k + p, m.attempt_id);
}

/// A heartbeat is its type alone; a message that wants no answer is its type and its body.
pub proof fn law_short_messages_layout(h: Heartbeat, m: OneWayMessage)
    ensures
        h.wire() == seq![22u8],
        m.wire()[0] == 9,
        body_at(m.wire(), 1, buffers::octets(m.body)),
{
    let w = m.wire();
    assert(w.skip(1) =~= message::sized_body(buffers::octets(m.body)));
    lemma_body(w, 1, buffers::octets(m.body));
}

/// A frame begins with the length of its message, its type and the length of its body; the
/// message and then the body follow.
pub proof fn law_frame_layout(f: FrameModel)
    requires
        f.message.len() < 0x1_0000_0000,
        f.body.len() < 0x1_0000_0000,
    ensures
        ({
            let w = codec::frame_wire(f);
            let m = f.message.len() as int;
            &&& w.len() == 9 + m + f.body.len()
            &&& big32(w, 0) == m
            &&& w[4] == message::type_code(f.message_type)
            &&& big32(w, 5) == f.body.len()
            &&& w.subrange(9, 9 + m) == f.message
            &&& w.skip(9 + m) == f.body
        }),
{
    broadcast use wire::lemma_be_len;

    let w = codec::frame_wire(f);
    let m = f.message.len() as int;
    assert(w.subrange(0, 4) =~= wire::be(f.message.len(), 4));
    lemma_be32(w, 0, f.message.len());
    assert(w.subrange(5, 9) =~= wire::be(f.body.len(), 4));
    lemma_be32(w, 5, f.body.len());
    assert(w.subrange(9, 9 + m) =~= f.message);
    assert(w.skip(9 + m) =~= f.body);
}

/// A batch begins with the mapper, the attempt, the number of the batch and its size, each in
/// four bytes, the lowest first; the other form of the header has the highest first.
pub proof fn law_batch_header_layout(h: BatchHeader)
    ensures
        batch_header::wire_le(h).len() == 16,
        with_sign32(little32(batch_header::wire_le(h), 0)) == h.map_id,
        with_sign32(little32(batch_header::wire_le(h), 4)) == h.attempt_id,
        with_sign32(little32(batch_header::wire_le(h), 8)) == h.batch_id,
        with_sign32(little32(batch_header::wire_le(h), 12)) == h.compressed_size,
        batch_header::wire_be(h).len() == 16,
        with_sign32(big32(batch_header::wire_be(h), 0)) == h.map_id,
        with_sign32(big32(batch_header::wire_be(h), 4)) == h.attempt_id,
        with_sign32(big32(batch_header::wire_be(h), 8)) == h.batch_id,
        with_sign32(big32(batch_header::wire_be(h), 12)) == h.compressed_size,
{
    broadcast use wire::lemma_be_len;

    let l = batch_header::wire_le(h);
    assert(l.subrange(0, 4) =~= wire::le_i32(h.map_id));
    assert(l.subrange(4, 8) =~= wire::le_i32(h.attempt_id));
    assert(l.subrange(8, 12) =~= wire::le_i32(h.batch_id));
    assert(l.subrange(12, 16) =~= wire::le_i32(h.compressed_size));
    lemma_le_i32(l, 0, h.map_id);
    lemma_le_i32(l, 4, h.attempt_id);
    lemma_le_i32(l, 8, h.batch_id);
    lemma_le_i32(l, 12, h.compressed_size);
    let b = batch_header::wire_be(h);
    assert(b.subrange(0, 4) =~= wire::be_i32(h.map_id));
    assert(b.subrange(4, 8) =~= wire::be_i32(h.attempt_id));
    assert(b.subrange(8, 12) =~= wire::be_i32(h.batch_id));
    assert(b.subrange(12, 16) =~= wire::be_i32(h.compressed_size));
    lemma_i32(b, 0, h.map_id);
    lemma_i32(b, 4, h.attempt_id);
    lemma_i32(b, 8, h.batch_id);
    lemma_i32(b, 12, h.compressed_size);
}

/// A message for an endpoint is the number of its type, the length of its payload, and the
/// payload.
pub proof fn law_transport_frame_layout(message_type: i32, payload: Seq<u8>)
    ensures
        with_sign32(big32(protocol::transport_frame(message_type, payload), 0)) == message_type,
        body_at(protocol::transport_frame(message_type, payload), 4, payload),
{
    broadcast use wire::lemma_be_len;

    let w = protocol::transport_frame(message_type, payload);
    assert(w.subrange(0, 4) =~= wire::be_i32(message_type));
    lemma_i32(w, 0, message_type);
    assert(w.skip(4) =~= message::sized_body(payload));
    lemma_body(w, 4, payload);
}

/// The numbers of the types of messages.
pub proof fn law_numbers_of_message_types(t: MessageType)
    ensures
        ({
            let n = message::type_code(t);
            &&& n == 0 <==> t is ChunkFetchRequest
            &&& n == 1 <==> t is ChunkFetchSuccess
            &&& n == 2 <==> t is ChunkFetchFailure
            &&& n == 3 <==> t is RpcRequest
            &&& n == 4 <==> t is RpcResponse
            &&& n == 5 <==> t is RpcFailure
            &&& n == 6 <==> t is OpenStream
            &&& n == 7 <==> t is StreamHandle
            &&& n == 9 <==> t is OneWayMessage
            &&& n == 11 <==> t is PushData
            &&& n == 12 <==> t is PushMergedData
            &&& n == 13 <==> t is RegionStart
            &&& n == 14 <==> t is RegionFinish
            &&& n == 15 <==> t is PushDataHandShake
            &&& n == 16 <==> t is ReadAddCredit
            &&& n == 17 <==> t is ReadData
            &&& n == 18 <==> t is OpenStreamWithCredit
            &&& n == 19 <==> t is BacklogAnnouncement
            &&& n == 20 <==> t is TransportableError
            &&& n == 21 <==> t is BufferStreamEnd
            &&& n == 22 <==> t is Heartbeat
            &&& n == 255 <==> t is UnknownType
        }),
{
}

/// The names of a merged push stand one behind the other, each behind its length, and so do its
/// offsets, each in four bytes: what is written of two lists together is what is written of the
/// first and then of the second.
pub proof fn law_lists_are_written_in_order(
    a: Seq<String>,
    b: Seq<String>,
    s: String,
    x: Seq<i32>,
    y: Seq<i32>,
    v: i32,
)
    ensures
        message::strings_wire(a + b) == message::strings_wire(a) + message::strings_wire(b),
        message::strings_wire(seq![s]) == protocol::short_string(s@),
        string_at(message::strings_wire(seq![s]), 0, s@),
        message::ints_wire(x + y) == message::ints_wire(x) + message::ints_wire(y),
        message::ints_wire(seq![v]).len() == 4,
        with_sign32(big32(message::ints_wire(seq![v]), 0)) == v,
    decreases b.len() + y.len(),
{
    broadcast use wire::lemma_be_len;

    if b.len() > 0 {
        law_lists_are_written_in_order(a, b.drop_last(), s, x, y, v);
        assert((a + b).drop_last() =~= a + b.drop_last());
        assert((a + b).last() == b.last());
    } else {
        assert(a + b =~= a);
    }
    if y.len() > 0 {
        law_lists_are_written_in_order(a, b, s, x, y.drop_last(), v);
        assert((x + y).drop_last() =~= x + y.drop_last());
        assert((x + y).last() == y.last());
    } else {
        assert(x + y =~= x);
    }
    assert(message::strings_wire(a + b) =~= message::strings_wire(a) + message::strings_wire(b));
    assert(message::ints_wire(x + y) =~= message::ints_wire(x) + message::ints_wire(y));
    let t = protocol::short_string(s@);
    let one = seq![s];
    let none = Seq::<String>::empty();
    assert(one.drop_last() =~= none);
    assert(message::strings_wire(none) =~= Seq::<u8>::empty());
    assert(one.last() == s);
    assert(message::strings_wire(one) =~= t);
    assert(t.subrange(0, t.len() as int) =~= t);
    lemma_string(t, 0, s@);
    let i = message::ints_wire(seq![v]);
    let no_ints = Seq::<i32>::empty();
    assert(seq![v].drop_last() =~= no_ints);
    assert(message::ints_wire(no_ints) =~= Seq::<u8>::empty());
    assert(seq![v].last() == v);
    assert(i =~= wire::be_i32(v));
    assert(i.subrange(0, 4) =~= wire::be_i32(v));
    lemma_i32(i, 0, v);
}

/// Behind the names of a merged push stand its offsets, behind how many they are.
pub proof fn law_offsets_follow_the_names(m: PushMergedData)
    ensures
        ({
            let w = m.wire();
            let at = 16 + bytes_of(m.shuffle_key@).len() as int;
            let names = message::strings_wire(m.partition_unique_ids@);
            let offsets = message::ints_wire(m.batch_offsets@);
            let then = at + names.len() as int;
            &&& w.subrange(at, then) == names
            &&& big32(w, then) == m.batch_offsets@.len() % 0x1_0000_0000
            &&& w.subrange(then + 4, then + 4 + offsets.len() as int) == offsets
            &&& w.len() == then + 4 + offsets.len() + 4 + buffers::octets(m.body).len()
        }),
{
    broadcast use wire::lemma_be_len;

    let w = m.wire();
    let key = protocol::short_string(m.shuffle_key@);
    let at = 16 + bytes_of(m.shuffle_key@).len() as int;
    let names = message::strings_wire(m.partition_unique_ids@);
    let offsets = message::ints_wire(m.batch_offsets@);
    let then = at + names.len() as int;
    let n = wire::signed32(m.batch_offsets@.len());
    assert(key.len() == 2 + bytes_of(m.shuffle_key@).len());
    assert(w.subrange(at, then) =~= names);
    assert(w.subrange(then, then + 4) =~= wire::be_i32(n));
    lemma_be32(w, then, wire::unsigned32(n));
    assert(w.subrange(then + 4, then + 4 + offsets.len() as int) =~= offsets);
}

} // verus!
