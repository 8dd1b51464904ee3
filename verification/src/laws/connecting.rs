//! Requests and answers: whose answer an answer is, who is asked, and what the bytes between are.

use bytes::Bytes;
use vstd::prelude::*;
use vstd::utf8;

use crate::buffers;
use crate::client::lifecycle_client::NettyLifecycleManagerClient;
use crate::error::{CelebornError, Result};
use crate::laws::layout;
use crate::network::codec;
use crate::network::codec::{Frame, FrameModel};
use crate::network::connection;
use crate::network::connection::{
    ChunkRequest, ConnectTurn, Connection, ConnectionPool, PoolEntry,
};
use crate::network::master_rpc;
use crate::network::master_rpc::{
    Attempts, MasterRpcClient, Masters, ResponseHeader, SendTurn, SocketAddress,
};
use crate::network::transport;
use crate::protocol::java_serialization;
use crate::protocol::java_serialization::{RpcAddress, StreamModel};
use crate::protocol::transport::TransportMessageType;
use crate::wire;

verus! {

proof fn lemma_read64(s: Seq<u8>, at: int)
    requires
        0 <= at,
        at + 8 <= s.len(),
    ensures
        wire::be_nat(s.subrange(at, at + 8)) == layout::big64(s, at),
        0 <= layout::big64(s, at) < 0x1_0000_0000_0000_0000,
{
    let t = s.subrange(at, at + 8);
    wire::lemma_be_nat_8(t);
    wire::lemma_be_nat_4(t.take(4));
    wire::lemma_be_nat_4(t.skip(4));
}

proof fn lemma_read32(s: Seq<u8>, at: int)
    requires
        0 <= at,
        at + 4 <= s.len(),
    ensures
        wire::be_nat(s.subrange(at, at + 4)) == layout::big32(s, at),
        0 <= layout::big32(s, at) < 0x1_0000_0000,
{
    wire::lemma_be_nat_4(s.subrange(at, at + 4));
}

proof fn lemma_read16(s: Seq<u8>, at: int)
    requires
        0 <= at,
        at + 2 <= s.len(),
    ensures
        wire::be_nat(s.subrange(at, at + 2)) == layout::big16(s, at),
{
    wire::lemma_be_nat_2(s.subrange(at, at + 2));
}

/// An answer to a request, and only such, names its request by the eight bytes that it starts
/// with.
pub proof fn law_answer_starts_with_its_request(f: FrameModel)
    ensures
        connection::request_id_of(f) is Some <==> (f.message_type is RpcResponse
            || f.message_type is RpcFailure) && f.message.len() >= 8,
        connection::request_id_of(f) matches Some(id) ==> id == layout::with_sign64(
            layout::big64(f.message, 0),
        ),
{
    if f.message.len() >= 8 {
        assert(f.message.take(8) =~= f.message.subrange(0, 8));
        lemma_read64(f.message, 0);
    }
}

/// A chunk, and only a chunk or the failure of one, names its stream by the eight bytes that it
/// starts with.
pub proof fn law_chunk_starts_with_its_stream(f: FrameModel)
    ensures
        connection::stream_id_of(f) is Some <==> (f.message_type is ChunkFetchSuccess
            || f.message_type is ChunkFetchFailure) && f.message.len() >= 8,
        connection::stream_id_of(f) matches Some(id) ==> id == layout::with_sign64(
            layout::big64(f.message, 0),
        ),
{
    if f.message.len() >= 8 {
        assert(f.message.take(8) =~= f.message.subrange(0, 8));
        lemma_read64(f.message, 0);
    }
}

/// A request is framed as one, with its number and its body behind the length of it.
pub proof fn law_request_is_framed(request_id: i64, body: Seq<u8>)
    ensures
        ({
            let f = connection::rpc_frame(request_id, body);
            &&& f.message_type is RpcRequest
            &&& layout::with_sign64(layout::big64(f.message, 0)) == request_id
            &&& layout::body_at(f.message, 8, body)
            &&& f.body.len() == 0
        }),
{
    let f = connection::rpc_frame(request_id, body);
    wire::lemma_be_len(wire::unsigned64(request_id), 8);
    assert(f.message.subrange(0, 8) =~= wire::be_i64(request_id));
    layout::lemma_i64(f.message, 0, request_id);
    assert(f.message.skip(8) =~= crate::protocol::message::sized_body(body));
    layout::lemma_body(f.message, 8, body);
}

/// A chunk answers the first of the requests that were made to its stream; without one it
/// answers none.
pub proof fn law_chunk_answers_the_oldest_request(requests: Seq<ChunkRequest>, stream_id: i64)
    ensures
        ({
            let r = connection::oldest_for(requests, stream_id);
            &&& r is None <==> forall|j: int|
                0 <= j < requests.len() ==> (#[trigger] requests[j]).stream_id != stream_id
            &&& r is Some ==> exists|k: int| #[trigger]
                is_oldest(requests, stream_id, k) && requests[k].request_id == r->0
        }),
    decreases requests.len(),
{
    let r = connection::oldest_for(requests, stream_id);
    if requests.len() > 0 {
        if requests[0].stream_id == stream_id {
            assert(is_oldest(requests, stream_id, 0));
        } else {
            let rest = requests.drop_first();
            law_chunk_answers_the_oldest_request(rest, stream_id);
            assert(forall|j: int| 0 <= j < rest.len() ==> #[trigger] rest[j] == requests[j + 1]);
            if r is Some {
                let k = choose|k: int| #[trigger]
                    is_oldest(rest, stream_id, k) && rest[k].request_id == r->0;
                assert forall|j: int| 0 <= j < k + 1 implies (#[trigger] requests[j]).stream_id
                    != stream_id by {
                    if j > 0 {
                        assert(rest[j - 1].stream_id != stream_id);
                    }
                }
                assert(is_oldest(requests, stream_id, k + 1));
            } else {
                assert forall|j: int| 0 <= j < requests.len() implies (
                #[trigger] requests[j]).stream_id != stream_id by {
                    if j > 0 {
                        assert(rest[j - 1].stream_id != stream_id);
                    }
                }
            }
        }
    }
}

/// Whether the request at a place is to a stream and none before it is.
pub open spec fn is_oldest(requests: Seq<ChunkRequest>, stream_id: i64, k: int) -> bool {
    &&& 0 <= k < requests.len()
    &&& requests[k].stream_id == stream_id
    &&& forall|j: int| 0 <= j < k ==> (#[trigger] requests[j]).stream_id != stream_id
}

/// An answer ends the request that it names, if that is waited for, and no other; one that
/// nobody waits for ends none.
pub proof fn law_answer_ends_its_request(
    before: Connection,
    after: Connection,
    f: FrameModel,
    r: Option<i64>,
)
    requires
        r == before.answered(f),
        r matches Some(id) ==> after.gives_up(&before, id),
    ensures
        f.message_type is RpcResponse && f.message.len() >= 8 ==> {
            let id = layout::with_sign64(layout::big64(f.message, 0));
            &&& before.pending_requests@.contains(id as i64) ==> r == Some(id as i64)
            &&& !before.pending_requests@.contains(id as i64) ==> r is None
        },
        f.message_type is RpcFailure && f.message.len() >= 8 ==> {
            let id = layout::with_sign64(layout::big64(f.message, 0));
            &&& before.pending_requests@.contains(id as i64) ==> r == Some(id as i64)
            &&& !before.pending_requests@.contains(id as i64) ==> r is None
        },
        f.message_type is ChunkFetchSuccess && f.message.len() >= 8 ==> r
            == connection::oldest_for(
            before.chunk_requests@,
            layout::with_sign64(layout::big64(f.message, 0)) as i64,
        ),
        f.message.len() < 8 ==> r is None,
        r matches Some(id) ==> !after.pending_requests@.contains(id) && forall|other: i64|
            other != id ==> #[trigger] after.pending_requests@.contains(other)
                == before.pending_requests@.contains(other),
{
    law_answer_starts_with_its_request(f);
    law_chunk_starts_with_its_stream(f);
}

/// A request that is given up is waited for no more, and every other is waited for as before,
/// in the same order.
pub proof fn law_given_up_request_is_forgotten(requests: Seq<ChunkRequest>, request_id: i64)
    ensures
        ({
            let left = connection::without(requests, request_id);
            &&& forall|c: ChunkRequest| #[trigger]
                left.contains(c) <==> requests.contains(c) && c.request_id != request_id
            &&& (forall|i: int|
                0 <= i < requests.len() ==> (#[trigger] requests[i]).request_id != request_id)
                ==> left == requests
        }),
    decreases requests.len(),
{
    reveal(Seq::filter);
    let p = |c: ChunkRequest| c.request_id != request_id;
    let left = connection::without(requests, request_id);
    if requests.len() > 0 {
        let init = requests.drop_last();
        law_given_up_request_is_forgotten(init, request_id);
        let early = connection::without(init, request_id);
        assert(left == if p(requests.last()) {
            early.push(requests.last())
        } else {
            early
        });
        assert forall|c: ChunkRequest| #[trigger] left.contains(c) <==> requests.contains(c)
            && c.request_id != request_id by {
            assert(requests =~= init.push(requests.last()));
            if init.contains(c) {
                let k = choose|k: int| 0 <= k < init.len() && init[k] == c;
                assert(requests[k] == c);
            }
            if early.contains(c) {
                let k = choose|k: int| 0 <= k < early.len() && early[k] == c;
                assert(left[k] == c);
            }
            if c == requests.last() && p(c) {
                assert(left[early.len() as int] == c);
            }
            if left.contains(c) {
                let k = choose|k: int| 0 <= k < left.len() && left[k] == c;
                if k < early.len() {
                    assert(early[k] == c);
                }
            }
            if requests.contains(c) {
                let k = choose|k: int| 0 <= k < requests.len() && requests[k] == c;
                if k < init.len() {
                    assert(init[k] == c);
                }
            }
        }
        if forall|i: int|
            0 <= i < requests.len() ==> (#[trigger] requests[i]).request_id != request_id {
            assert forall|i: int| 0 <= i < init.len() implies (#[trigger] init[i]).request_id
                != request_id by {
                assert(requests[i].request_id != request_id);
            }
            assert(requests.last() == requests[requests.len() - 1]);
            assert(left =~= requests);
        }
    }
}

/// Connections take turns: the one at the place that the index comes to, counted round.
pub proof fn law_connection_of_the_turn(e: PoolEntry)
    requires
        e.connections@.len() > 0,
        e.rr_index <= usize::MAX,
    ensures
        0 <= e.turn() < e.connections@.len(),
        e.rr_index < e.connections@.len() ==> e.turn() == e.rr_index,
        e.rr_index as usize == e.rr_index,
        e.turn() == e.rr_index as int % e.connections@.len() as int,
{
    if e.rr_index < e.connections@.len() {
        vstd::arithmetic::div_mod::lemma_small_mod(e.rr_index as nat, e.connections@.len());
    }
}

/// All connections that are pooled are closed: those of every address, and no others.
pub proof fn law_all_connections_are_closed(m: Map<Seq<char>, PoolEntry>, numbers: Seq<u64>, x: u64)
    requires
        connection::all_pooled(m, numbers),
    ensures
        numbers.contains(x) <==> exists|a: Seq<char>| #[trigger]
            m.dom().contains(a) && m[a].connections@.contains(x),
{
    let addresses = choose|addresses: Seq<Seq<char>>| #[trigger]
        addresses.no_duplicates() && addresses.to_set() == m.dom() && numbers == connection::pooled(
            m,
            addresses,
        );
    lemma_pooled(m, addresses, x);
    if numbers.contains(x) {
        let i = choose|i: int|
            0 <= i < addresses.len() && m[#[trigger] addresses[i]].connections@.contains(x);
        assert(addresses.to_set().contains(addresses[i]));
        assert(m.dom().contains(addresses[i]));
    }
    if exists|a: Seq<char>| #[trigger] m.dom().contains(a) && m[a].connections@.contains(x) {
        let a = choose|a: Seq<char>| #[trigger]
            m.dom().contains(a) && m[a].connections@.contains(x);
        assert(addresses.to_set().contains(a));
        let i = choose|i: int| 0 <= i < addresses.len() && addresses[i] == a;
        assert(m[addresses[i]].connections@.contains(x));
    }
}

proof fn lemma_pooled(m: Map<Seq<char>, PoolEntry>, addresses: Seq<Seq<char>>, x: u64)
    ensures
        connection::pooled(m, addresses).contains(x) <==> exists|i: int|
            0 <= i < addresses.len() && m[#[trigger] addresses[i]].connections@.contains(x),
    decreases addresses.len(),
{
    let all = connection::pooled(m, addresses);
    if addresses.len() > 0 {
        let init = addresses.drop_last();
        lemma_pooled(m, init, x);
        let early = connection::pooled(m, init);
        let late = m[addresses.last()].connections@;
        assert(addresses.last() == addresses[addresses.len() - 1]);
        if all.contains(x) {
            let k = choose|k: int| 0 <= k < all.len() && all[k] == x;
            if k < early.len() {
                assert(early[k] == x);
                let i = choose|i: int|
                    0 <= i < init.len() && m[#[trigger] init[i]].connections@.contains(x);
                assert(m[addresses[i]].connections@.contains(x));
            } else {
                assert(late[k - early.len()] == x);
                assert(m[addresses[addresses.len() - 1]].connections@.contains(x));
            }
        }
        if exists|i: int|
            0 <= i < addresses.len() && m[#[trigger] addresses[i]].connections@.contains(x) {
            let i = choose|i: int|
                0 <= i < addresses.len() && m[#[trigger] addresses[i]].connections@.contains(x);
            if i < init.len() {
                assert(m[init[i]].connections@.contains(x));
                let k = choose|k: int| 0 <= k < early.len() && early[k] == x;
                assert(all[k] == x);
            } else {
                let k = choose|k: int| 0 <= k < late.len() && late[k] == x;
                assert(all[early.len() + k] == x);
            }
        }
    }
}

/// A response gives its body behind the first four bytes; a failure gives the text that stands
/// behind its length; all else is an error.
pub proof fn law_response_gives_its_body(r: Result<Bytes>, f: FrameModel)
    requires
        transport::answers(r, f),
    ensures
        r is Ok <==> f.message_type is RpcResponse && f.body.len() >= 4,
        r matches Ok(b) ==> buffers::octets(b) == f.body.skip(4),
        f.message_type is RpcFailure && f.message.len() >= 12 ==> {
            let n = layout::with_sign32(layout::big32(f.message, 8));
            &&& r is Err
            &&& r->Err_0 is ServerError
            &&& r->Err_0->ServerError_status is RequestFailed
            &&& 0 <= n && 12 + n <= f.message.len() ==> r->Err_0->ServerError_message@
                == transport::lossy_text(f.message.subrange(12, 12 + n))
            &&& n < 0 || 12 + n > f.message.len() ==> r->Err_0->ServerError_message@
                == "Unknown error"@
        },
{
    if f.message.len() >= 12 {
        lemma_read32(f.message, 8);
    }
}

/// The masters that are asked are those whose names were resolved, in their order.
pub proof fn law_resolved_masters_are_asked(s: Seq<Option<SocketAddress>>)
    ensures
        transport::resolved_only(s) == s.filter(|a: Option<SocketAddress>| a is Some).map_values(
            |a: Option<SocketAddress>| a->0,
        ),
    decreases s.len(),
{
    reveal(Seq::filter);
    let p = |a: Option<SocketAddress>| a is Some;
    let f = |a: Option<SocketAddress>| a->0;
    if s.len() > 0 {
        law_resolved_masters_are_asked(s.drop_last());
        let early = s.drop_last().filter(p);
        if p(s.last()) {
            assert(early.push(s.last()).map_values(f) =~= early.map_values(f).push(f(s.last())));
        }
    }
    assert(transport::resolved_only(s) =~= s.filter(p).map_values(f));
}

/// The master that is asked is the one at the place that the index comes to, counted round.
pub proof fn law_master_of_the_turn(m: Masters)
    requires
        m.wf(),
    ensures
        0 <= m.current() < m.count,
        m.index < m.count ==> m.current() == m.index,
        m.index as int == m.count as int ==> m.current() == 0,
{
    if m.index < m.count {
        vstd::arithmetic::div_mod::lemma_small_mod(m.index as nat, m.count as nat);
    }
    if m.index == m.count {
        assert(m.count as int % m.count as int == 0) by (nonlinear_arith)
            requires
                m.count > 0,
        ;
    }
}

/// A request to a master is framed by the length of its head, the type of a request, the length
/// of its body, its number, the length once more, and the body.
pub proof fn law_master_request_layout(request_id: u64, body: Seq<u8>)
    ensures
        ({
            let w = master_rpc::request_frame(request_id, body);
            &&& layout::big32(w, 0) == 12
            &&& w[4] == 3
            &&& layout::big32(w, 5) == body.len() % 0x1_0000_0000
            &&& layout::big64(w, 9) == request_id
            &&& layout::body_at(w, 17, body)
        }),
{
    let w = master_rpc::request_frame(request_id, body);
    let size = wire::signed32(body.len());
    let number = wire::signed64(request_id as nat);
    wire::lemma_be_len(wire::unsigned32(12), 4);
    wire::lemma_be_len(wire::unsigned32(size), 4);
    wire::lemma_be_len(wire::unsigned64(number), 8);
    assert(w.subrange(0, 4) =~= wire::be_i32(12));
    layout::lemma_be32(w, 0, 12);
    assert(w.subrange(5, 9) =~= wire::be_i32(size));
    layout::lemma_be32(w, 5, wire::unsigned32(size));
    assert(w.subrange(9, 17) =~= wire::be_i64(number));
    layout::lemma_i64(w, 9, number);
    assert(w.skip(17) =~= crate::protocol::message::sized_body(body));
    layout::lemma_body(w, 17, body);
    lemma_read64(w, 9);
}

/// The head of an answer holds the size of the message in its first four bytes, and that of the
/// body in its last four; the type stands between.
pub proof fn law_head_of_an_answer(h: Seq<u8>)
    requires
        h.len() == 9,
        layout::big32(h, 0) < 0x8000_0000,
        layout::big32(h, 5) < 0x8000_0000,
    ensures
        master_rpc::header_sizes(h) == (layout::big32(h, 0), layout::big32(h, 5)),
{
    lemma_read32(h, 0);
    lemma_read32(h, 5);
}

/// The number of an answered request is in the first eight bytes of the answer.
pub proof fn law_number_of_an_answer(content: Seq<u8>)
    ensures
        content.len() >= 8 ==> master_rpc::response_id(content) == layout::big64(content, 0),
        content.len() < 8 ==> master_rpc::response_id(content) == 0,
{
    if content.len() >= 8 {
        assert(content.take(8) =~= content.subrange(0, 8));
        lemma_read64(content, 0);
    }
}

/// A stream of an answer is an object of the class whose name stands behind its length; it tells
/// of a failure if that name holds the word.
pub proof fn law_failure_is_told_by_the_class(data: Seq<u8>)
    ensures
        master_rpc::class_name(data) matches Some(name) ==> data[4] == 0x73 && data[5] == 0x72
            && name.len() == layout::big16(data, 6) && name == data.subrange(
            8,
            8 + layout::big16(data, 6),
        ),
        data.len() > 10 && data[4] == 0x73 && data[5] == 0x72 && data.len() > 8 + layout::big16(
            data,
            6,
        ) ==> master_rpc::class_name(data) is Some,
        data.len() > 10 && data[4] == 0x73 && data[5] == 0x72 && data.len() > 8 + layout::big16(
            data,
            6,
        ) ==> (master_rpc::is_failure(data) <==> exists|i: int|
            0 <= i && i + utf8::encode_utf8("RpcFailure"@).len() <= layout::big16(data, 6)
                && #[trigger] data.subrange(8, 8 + layout::big16(data, 6)).subrange(
                i,
                i + utf8::encode_utf8("RpcFailure"@).len(),
            ) == utf8::encode_utf8("RpcFailure"@)),
{
    if data.len() > 10 {
        lemma_read16(data, 6);
    }
}

/// Whether bytes stand somewhere in others, behind the mark of a string and their length.
pub open spec fn string_in(data: Seq<u8>, s: Seq<u8>) -> bool {
    exists|at: int| #[trigger] string_stands(data, s, at)
}

/// Whether bytes stand at a place, behind the mark of a string and their length.
pub open spec fn string_stands(data: Seq<u8>, s: Seq<u8>, at: int) -> bool {
    &&& 0 <= at
    &&& at + 3 + s.len() <= data.len()
    &&& data[at] == 0x74
    &&& layout::big16(data, at + 1) == s.len()
    &&& data.subrange(at + 3, at + 3 + s.len() as int) == s
}

/// The messages of a failure are strings of its stream: valid text of more than five bytes that
/// is no name of a class.
pub proof fn law_failure_messages_are_strings(data: Seq<u8>, pos: int, k: int)
    requires
        0 <= k < master_rpc::messages(data, pos).len(),
    ensures
        ({
            let s = master_rpc::messages(data, pos)[k];
            &&& string_in(data, s)
            &&& utf8::valid_utf8(s)
            &&& s.len() > 5
        }),
    decreases data.len() - pos,
{
    if data[pos] == 0x74 {
        lemma_read16(data, pos + 1);
        let n = wire::be_nat(data.subrange(pos + 1, pos + 3)) as int;
        let start = pos + 3;
        if start + n <= data.len() {
            let s = data.subrange(start, start + n);
            if master_rpc::may_be_message(s) {
                if k == 0 {
                    assert(string_stands(data, s, pos));
                } else {
                    law_failure_messages_are_strings(data, start + n, k - 1);
                }
            } else {
                law_failure_messages_are_strings(data, start + n, k);
            }
        } else {
            law_failure_messages_are_strings(data, start + 1, k);
        }
    } else {
        law_failure_messages_are_strings(data, pos + 1, k);
    }
}

/// A failure tells the longest of its messages: none is longer, and none behind it is as long.
pub proof fn law_failure_tells_its_longest_message(s: Seq<Seq<u8>>)
    requires
        s.len() > 0,
    ensures
        s.contains(master_rpc::longest(s)),
        forall|j: int| 0 <= j < s.len() ==> (#[trigger] s[j]).len() <= master_rpc::longest(s).len(),
        s.last().len() >= master_rpc::longest(s).len() ==> master_rpc::longest(s) == s.last(),
    decreases s.len(),
{
    if s.len() > 1 {
        let init = s.drop_last();
        law_failure_tells_its_longest_message(init);
        let l = master_rpc::longest(init);
        let k = choose|k: int| 0 <= k < init.len() && init[k] == l;
        assert(s[k] == l);
        assert(s.last() == s[s.len() - 1]);
        assert forall|j: int| 0 <= j < s.len() implies (#[trigger] s[j]).len()
            <= master_rpc::longest(s).len() by {
            if j < init.len() {
                assert(init[j].len() <= l.len());
            }
        }
    } else {
        assert(s[0] == s.last());
    }
}

/// An error that is told outside of a failure is a string of its stream, too.
pub proof fn law_error_is_a_string(data: Seq<u8>, pos: int)
    ensures
        master_rpc::first_message(data, pos) matches Some(s) ==> string_in(data, s)
            && utf8::valid_utf8(s),
    decreases data.len() - pos,
{
    if 0 <= pos < data.len() - 3 {
        if data[pos] == 0x74 {
            lemma_read16(data, pos + 1);
            let n = wire::be_nat(data.subrange(pos + 1, pos + 3)) as int;
            let start = pos + 3;
            if start + n <= data.len() {
                if master_rpc::first_message(data, pos) == Some(data.subrange(start, start + n)) {
                    assert(string_stands(data, data.subrange(start, start + n), pos)
                        || master_rpc::first_message(data, pos) == master_rpc::first_message(
                        data,
                        start + 1,
                    ));
                }
            }
            law_error_is_a_string(data, start + 1);
        } else {
            law_error_is_a_string(data, pos + 1);
        }
    }
}

/// The numbers of an object stream.
pub proof fn law_numbers_of_object_streams()
    ensures
        java_serialization::STREAM_MAGIC == 0xACED,
        java_serialization::STREAM_VERSION == 5,
        java_serialization::TC_NULL == 0x70,
        java_serialization::TC_REFERENCE == 0x71,
        java_serialization::TC_CLASSDESC == 0x72,
        java_serialization::TC_OBJECT == 0x73,
        java_serialization::TC_STRING == 0x74,
        java_serialization::TC_ARRAY == 0x75,
        java_serialization::TC_ENDBLOCKDATA == 0x78,
        java_serialization::TC_LONGSTRING == 0x7C,
        java_serialization::SC_SERIALIZABLE == 2,
        java_serialization::FIELD_INTEGER as char == 'I',
        java_serialization::FIELD_ARRAY as char == '[',
        java_serialization::BASE_WIRE_HANDLE == 0x7E_0000,
        java_serialization::BYTE_ARRAY_UID == -5984413125824719648,
        java_serialization::TRANSPORT_MESSAGE_UID == -3259000920699629773,
        codec::HEADER_SIZE == 9,
        codec::MAX_FRAME_SIZE == 2_147_483_648,
        master_rpc::MAX_RESPONSE_SIZE == 104_857_600,
{
}

/// Text of plain characters is written as those characters, one byte each.
pub proof fn law_plain_text_is_written_as_it_is(s: Seq<char>)
    requires
        forall|i: int| 0 <= i < s.len() ==> 0 < (#[trigger] s[i]) as nat <= 0x7F,
    ensures
        java_serialization::modified_utf8(s) == Seq::new(s.len(), |i: int| (s[i] as nat) as u8),
    decreases s.len(),
{
    if s.len() > 0 {
        let init = s.drop_last();
        assert forall|i: int| 0 <= i < init.len() implies 0 < (#[trigger] init[i]) as nat <= 0x7F by {
            assert(init[i] == s[i]);
        }
        law_plain_text_is_written_as_it_is(init);
        assert(s.last() == s[s.len() - 1]);
        assert(java_serialization::modified_char(s.last()) =~= seq![(s.last() as nat) as u8]);
        assert(java_serialization::modified_utf8(init) =~= Seq::new(
            init.len(),
            |i: int| (s[i] as nat) as u8,
        ));
        assert(java_serialization::modified_utf8(s) =~= Seq::new(s.len(), |i: int| (s[i] as nat) as u8));
    }
}

/// The zero character takes two bytes, and the others as many as their number needs.
pub proof fn law_widths_of_characters(c: char)
    ensures
        java_serialization::modified_char(c).len() == (if c as nat == 0 {
            2int
        } else if c as nat <= 0x7F {
            1
        } else if c as nat <= 0x7FF {
            2
        } else if c as nat <= 0xFFFF {
            3
        } else {
            6
        }),
        forall|i: int|
            0 <= i < java_serialization::modified_char(c).len() ==> (
            #[trigger] java_serialization::modified_char(c)[i]) != 0,
{
}

proof fn lemma_two_and_text(a: Seq<u8>, n: Seq<u8>, t: Seq<u8>, z: Seq<u8>)
    requires
        n.len() == 2,
    ensures
        ({
            let w = a + (n + t) + z;
            let at = a.len() as int;
            &&& w.len() == at + 2 + t.len() + z.len()
            &&& w.take(at) == a
            &&& w[at] == n[0]
            &&& w[at + 1] == n[1]
            &&& w.subrange(at + 2, at + 2 + t.len()) == t
            &&& w.skip(at + 2 + t.len()) == z
            &&& forall|i: int| 0 <= i < at ==> #[trigger] w[i] == a[i]
        }),
{
    let w = a + (n + t) + z;
    let at = a.len() as int;
    assert(w.take(at) =~= a);
    assert(w.subrange(at + 2, at + 2 + t.len()) =~= t);
    assert(w.skip(at + 2 + t.len()) =~= z);
}

/// An address is a mark that it is there, the length of its host in two bytes, the host, and the
/// port in four bytes; one that is not there is the other mark.
pub proof fn law_address_layout(a: RpcAddress)
    requires
        java_serialization::modified_utf8(a.host@).len() <= 0xFFFF,
    ensures
        ({
            let w = java_serialization::address_wire(Some(&a));
            let host = java_serialization::modified_utf8(a.host@);
            &&& w.len() == 7 + host.len()
            &&& w[0] == 1
            &&& layout::big16(w, 1) == host.len()
            &&& w.subrange(3, 3 + host.len() as int) == host
            &&& layout::with_sign32(layout::big32(w, 3 + host.len() as int)) == a.port
        }),
        java_serialization::address_wire(None) == seq![0u8],
{
    let w = java_serialization::address_wire(Some(&a));
    let host = java_serialization::modified_utf8(a.host@);
    wire::lemma_be_2(host.len());
    wire::lemma_be_len(wire::unsigned32(a.port), 4);
    lemma_two_and_text(seq![1u8], wire::be(host.len() % 0x1_0000, 2), host, wire::be_i32(a.port));
    assert(w == seq![1u8] + (wire::be(host.len() % 0x1_0000, 2) + host) + wire::be_i32(a.port));
    assert(w.subrange(3 + host.len() as int, 7 + host.len() as int) =~= w.skip(
        3 + host.len() as int,
    ));
    layout::lemma_i32(w, 3 + host.len() as int, a.port);
}

proof fn lemma_stream_begins(number: i32, payload: Seq<u8>)
    ensures
        java_serialization::fresh_stream().then_transport_message(number, payload).bytes.take(5)
            == seq![0xACu8, 0xEDu8, 0u8, 5u8, 0x73u8],
        java_serialization::fresh_stream().then_transport_message(number, payload).bytes.len() >= 5,
{
    wire::lemma_be_2(0xACED);
    wire::lemma_be_2(5);
    let head = seq![0xACu8, 0xEDu8, 0u8, 5u8, 0x73u8];
    let fresh = java_serialization::fresh_stream();
    assert(fresh.bytes =~= seq![0xACu8, 0xEDu8, 0u8, 5u8]);
    let a = fresh.then_bytes(seq![java_serialization::TC_OBJECT], 0);
    assert(a.bytes =~= head);
    let b = a.then_transport_message_class();
    assert(b.bytes == head + java_serialization::transport_message_class());
    let c = b.then_bytes(wire::be_i32(number), 1);
    assert(c.bytes == b.bytes + wire::be_i32(number));
    assert(c.bytes.take(5) =~= head);
    let stream = fresh.then_transport_message(number, payload).bytes;
    if payload.len() == 0 {
        assert(stream == c.bytes + seq![java_serialization::TC_NULL]);
    } else {
        let d = c.then_bytes(seq![java_serialization::TC_ARRAY], 0);
        let e = d.then_byte_array_class();
        let f = wire::be_i32(wire::signed32(payload.len())) + payload;
        assert(e.bytes == d.bytes + java_serialization::byte_array_class());
        assert(stream == e.bytes + f);
        assert(stream.take(5) =~= c.bytes.take(5));
    }
    assert(stream.take(5) =~= c.bytes.take(5));
}

proof fn lemma_request_parts(from: Seq<u8>, to: Seq<u8>, text: Seq<u8>, stream: Seq<u8>)
    ensures
        ({
            let w = from + to + (wire::be(text.len() % 0x1_0000, 2) + text) + stream;
            let at = from.len() + to.len() as int;
            &&& w.take(from.len() as int) == from
            &&& w.subrange(from.len() as int, at) == to
            &&& text.len() <= 0xFFFF ==> layout::big16(w, at) == text.len()
            &&& w.subrange(at + 2, at + 2 + text.len()) == text
            &&& w.skip(at + 2 + text.len()) == stream
        }),
{
    let n = wire::be(text.len() % 0x1_0000, 2);
    let w = from + to + (n + text) + stream;
    let at = from.len() + to.len() as int;
    wire::lemma_be_2(text.len() % 0x1_0000);
    lemma_two_and_text(from + to, n, text, stream);
    assert(w.take(from.len() as int) =~= w.take(at).take(from.len() as int));
    assert((from + to).take(from.len() as int) =~= from);
    assert(w.subrange(from.len() as int, at) =~= w.take(at).skip(from.len() as int));
    assert((from + to).skip(from.len() as int) =~= to);
}

/// A request names its sender, then its receiver, then the endpoint there, and then holds the
/// message.
pub proof fn law_request_names_sender_and_receiver(
    sender: Option<&RpcAddress>,
    receiver: Option<&RpcAddress>,
    name: Seq<char>,
    number: i32,
    payload: Seq<u8>,
)
    ensures
        ({
            let w = java_serialization::request_message(sender, receiver, name, number, payload);
            let from = java_serialization::address_wire(sender);
            let to = java_serialization::address_wire(receiver);
            let text = java_serialization::modified_utf8(name);
            let at = from.len() + to.len() as int;
            &&& w.take(from.len() as int) == from
            &&& w.subrange(from.len() as int, at) == to
            &&& text.len() <= 0xFFFF ==> layout::big16(w, at) == text.len()
            &&& w.subrange(at + 2, at + 2 + text.len()) == text
            &&& w.skip(at + 2 + text.len()).take(5) == seq![0xACu8, 0xEDu8, 0u8, 5u8, 0x73u8]
        }),
{
    let from = java_serialization::address_wire(sender);
    let to = java_serialization::address_wire(receiver);
    let text = java_serialization::modified_utf8(name);
    let stream = java_serialization::fresh_stream().then_transport_message(number, payload).bytes;
    lemma_stream_begins(number, payload);
    lemma_request_parts(from, to, text, stream);
}

/// A byte array stands behind its mark, the description of its class, and its length in four
/// bytes; it is as long as that.
pub proof fn law_array_stands_behind_its_length(data: Seq<u8>)
    ensures
        master_rpc::array_at(data) matches master_rpc::ArrayParse::Found(contents, end) ==> {
            &&& data[0] == 0x75
            &&& 4 <= end - contents.len()
            &&& end <= data.len()
            &&& contents == data.subrange(end - contents.len(), end)
            &&& layout::with_sign32(layout::big32(data, end - contents.len() - 4))
                == contents.len()
        },
        data.len() < 10 || data[0] != 0x75 ==> master_rpc::array_at(data) is Nothing,
{
    if data.len() >= 10 && data[0] == 0x75 && (data[1] == 0x72 || data[1] == 0x71) {
        let name_len = wire::be_nat(data.subrange(2, 4)) as int;
        lemma_descriptor_end(data, 4 + name_len + 8);
        let at = master_rpc::length_offset(data);
        if at + 4 <= data.len() {
            lemma_read32(data, at);
        }
    }
}

proof fn lemma_descriptor_end(data: Seq<u8>, pos: int)
    requires
        0 <= pos,
    ensures
        master_rpc::descriptor_end(data, pos) >= pos,
    decreases data.len() - pos,
{
    if pos < data.len() && data[pos] != 0x78 {
        lemma_descriptor_end(data, pos + 1);
    }
}

/// An answer gives the first byte array of its stream.
pub proof fn law_first_array_is_found(data: Seq<u8>, pos: int)
    requires
        0 <= pos,
    ensures
        master_rpc::find_array(data, pos) matches master_rpc::ArrayParse::Found(contents, end)
            ==> exists|k: int|
            pos <= k < data.len() && #[trigger] master_rpc::array_at(data.skip(k))
                == master_rpc::ArrayParse::Found(contents, end) && forall|j: int|
                pos <= j < k ==> master_rpc::array_at(#[trigger] data.skip(j)) is Nothing,
    decreases data.len() - pos,
{
    if pos < data.len() - 10 {
        if master_rpc::array_at(data.skip(pos)) is Nothing {
            law_first_array_is_found(data, pos + 1);
            if master_rpc::find_array(data, pos) is Found {
                let c = master_rpc::find_array(data, pos);
                let k = choose|k: int|
                    pos + 1 <= k < data.len() && #[trigger] master_rpc::array_at(data.skip(k)) == c
                        && forall|j: int|
                        pos + 1 <= j < k ==> master_rpc::array_at(#[trigger] data.skip(j))
                            is Nothing;
                assert(master_rpc::array_at(data.skip(k)) == c);
            }
        } else {
            assert(master_rpc::array_at(data.skip(pos)) == master_rpc::find_array(data, pos));
        }
    }
}

/// An answer is decoded by what it is: too short or no stream at all is an error, a failure is
/// told as one of the server, and all else gives its payload.
pub proof fn law_answer_is_decoded(r: Result<Vec<u8>>, data: Seq<u8>)
    requires
        master_rpc::decoded(r, data),
    ensures
        data.len() < 4 ==> r is Err && r->Err_0 is Protocol,
        data.len() >= 4 && !(data[0] == 0xAC && data[1] == 0xED) ==> r is Err
            && r->Err_0 is Protocol,
        data.len() >= 4 && data[0] == 0xAC && data[1] == 0xED && master_rpc::is_failure(data)
            ==> r is Err && r->Err_0 is ServerError && r->Err_0->ServerError_status
            is RequestFailed,
        data.len() >= 4 && data[0] == 0xAC && data[1] == 0xED && !master_rpc::is_failure(data) ==> (
        r is Ok <==> master_rpc::find_array(data, 4) is Found),
        r matches Ok(v) ==> master_rpc::find_array(data, 4) matches master_rpc::ArrayParse::Found(
            contents,
            end,
        ) && v@ == contents,
{
}

/// A text in an object stream is the mark of a string, its length in two bytes, and its
/// characters; a long one has another mark and eight bytes.
pub proof fn law_text_in_an_object_stream(m: StreamModel, s: Seq<char>)
    ensures
        ({
            let t = java_serialization::modified_utf8(s);
            let more = m.then_utf(s).bytes.skip(m.bytes.len() as int);
            &&& m.then_utf(s).bytes.take(m.bytes.len() as int) == m.bytes
            &&& m.then_utf(s).next == m.next + 1
            &&& t.len() <= 65535 ==> more[0] == 0x74 && layout::big16(more, 1) == t.len()
                && more.skip(3) == t
            &&& t.len() > 65535 && t.len() < 0x1_0000_0000_0000_0000 ==> more[0] == 0x7C
                && layout::big64(more, 1) == t.len() && more.skip(9) == t
        }),
{
    let t = java_serialization::modified_utf8(s);
    let all = m.then_utf(s).bytes;
    let more = all.skip(m.bytes.len() as int);
    assert(all.take(m.bytes.len() as int) =~= m.bytes);
    if t.len() <= 65535 {
        wire::lemma_be_2(t.len());
        assert(more =~= seq![0x74u8] + wire::be(t.len(), 2) + t);
        assert(more.skip(3) =~= t);
    } else if t.len() < 0x1_0000_0000_0000_0000 {
        wire::lemma_be_len(t.len(), 8);
        assert(more =~= seq![0x7Cu8] + wire::be(t.len(), 8) + t);
        assert(more.skip(9) =~= t);
        assert(more.subrange(1, 9) =~= wire::be(t.len(), 8));
        wire::lemma_limits();
        wire::lemma_be_round_trip(t.len(), 8);
        lemma_read64(more, 1);
    }
}

/// A byte array in an object stream is its mark, its class, its length in four bytes and its
/// bytes; the class is described the first time and referred to from then on.
pub proof fn law_array_in_an_object_stream(m: StreamModel, data: Seq<u8>)
    requires
        0 <= m.next <= u32::MAX,
    ensures
        ({
            let after = m.then_byte_array(data);
            let more = after.bytes.skip(m.bytes.len() as int);
            &&& after.bytes.take(m.bytes.len() as int) == m.bytes
            &&& more[0] == 0x75
            &&& m.byte_array is Some ==> more[1] == 0x71 && layout::big32(more, 2)
                == m.byte_array->0 && layout::body_at(more, 6, data) && after.next == m.next
            &&& m.byte_array is None ==> more[1] == 0x72 && after.byte_array == Some(m.next as u32)
                && after.next == m.next + 1
            &&& more.skip(more.len() - data.len()) == data
        }),
{
    let after = m.then_byte_array(data);
    let all = after.bytes;
    let more = all.skip(m.bytes.len() as int);
    let body = wire::be_i32(wire::signed32(data.len())) + data;
    wire::lemma_be_len(wire::unsigned32(wire::signed32(data.len())), 4);
    let a = m.then_bytes(seq![0x75u8], 0);
    let b = a.then_byte_array_class();
    assert(after == b.then_bytes(body, 0));
    match m.byte_array {
        Some(handle) => {
            let class = seq![0x71u8] + wire::be(handle as nat, 4);
            wire::lemma_be_len(handle as nat, 4);
            assert(more =~= seq![0x75u8] + class + body);
            assert(more.subrange(2, 6) =~= wire::be(handle as nat, 4));
            layout::lemma_be32(more, 2, handle as nat);
            assert(more.skip(6) =~= body);
            layout::lemma_body(more, 6, data);
        },
        None => {
            let class = java_serialization::byte_array_class();
            assert(more =~= seq![0x75u8] + class + body);
            assert(class[0] == 0x72);
            assert(more[1] == class[0]);
        },
    }
    assert(all.take(m.bytes.len() as int) =~= m.bytes);
    assert(more.skip(more.len() - data.len()) =~= data);
}

/// A request that is sent has the next number, is waited for under it, and carries the body; over
/// a closed connection nothing is sent and nothing is waited for.
pub proof fn law_sent_request_is_waited_for(
    c: Connection,
    after: Connection,
    body: Bytes,
    r: Result<(i64, Frame)>,
)
    requires
        c.sends(&after, body, r),
    ensures
        r is Ok <==> c.active,
        r is Err ==> r->Err_0 is Connection && after == c,
        r matches Ok(s) ==> {
            &&& c.request_ids.next <= i64::MAX ==> s.0 == c.request_ids.next
            &&& c.request_ids.next < u64::MAX ==> after.request_ids.next == c.request_ids.next + 1
            &&& after.pending_requests@.contains(s.0)
            &&& s.1@.message_type is RpcRequest
            &&& layout::with_sign64(layout::big64(s.1@.message, 0)) == s.0
            &&& layout::body_at(s.1@.message, 8, buffers::octets(body))
            &&& forall|other: i64|
                other != s.0 ==> #[trigger] after.pending_requests@.contains(other)
                    == c.pending_requests@.contains(other)
        },
{
    if r is Ok {
        law_request_is_framed(r->Ok_0.0, buffers::octets(body));
    }
}

/// A request for a chunk is sent in the same way, and is the last of those to its stream.
pub proof fn law_chunk_request_is_waited_for(
    c: Connection,
    after: Connection,
    body: Bytes,
    stream_id: i64,
    r: Result<(i64, Frame)>,
)
    requires
        c.asks_for_chunk(&after, body, stream_id, r),
    ensures
        r is Ok <==> c.active,
        r is Err ==> r->Err_0 is Connection && after == c,
        r matches Ok(s) ==> {
            &&& c.request_ids.next <= i64::MAX ==> s.0 == c.request_ids.next
            &&& after.pending_requests@.contains(s.0)
            &&& after.chunk_requests@.len() == c.chunk_requests@.len() + 1
            &&& after.chunk_requests@.last().stream_id == stream_id
            &&& after.chunk_requests@.last().request_id == s.0
            &&& after.chunk_requests@.drop_last() == c.chunk_requests@
            &&& s.1@.message_type is RpcRequest
            &&& layout::with_sign64(layout::big64(s.1@.message, 0)) == s.0
            &&& layout::body_at(s.1@.message, 8, buffers::octets(body))
        },
{
    if r is Ok {
        law_request_is_framed(r->Ok_0.0, buffers::octets(body));
        assert(after.chunk_requests@.drop_last() =~= c.chunk_requests@);
    }
}

/// A push is waited for under its number, if the connection is open.
pub proof fn law_push_is_waited_for(
    c: Connection,
    after: Connection,
    request_id: i64,
    r: Result<()>,
)
    requires
        c.awaits_push(&after, request_id, r),
    ensures
        r is Ok <==> c.active,
        c.active ==> after.pending_requests@ == c.pending_requests@.insert(request_id),
        !c.active ==> after.pending_requests@ == c.pending_requests@ && r->Err_0 is Connection,
        after.active == c.active,
{
}

/// The connection of an address whose turn it is is given, and the next one has the next turn.
/// No other address is touched.
pub proof fn law_connection_is_given(
    pool: ConnectionPool,
    after: ConnectionPool,
    addr: &str,
    r: Option<u64>,
)
    requires
        pool.gives(&after, addr, r),
        pool.entries().dom().contains(addr@) ==> pool.entries()[addr@].connections@.len() > 0,
        pool.entries().dom().contains(addr@) ==> pool.entries()[addr@].rr_index < usize::MAX,
    ensures
        r is Some <==> pool.entries().dom().contains(addr@),
        r is Some ==> {
            let e = pool.entries()[addr@];
            &&& e.connections@.contains(r->0)
            &&& r->0 == e.connections@[e.rr_index as int % e.connections@.len() as int]
            &&& after.entries()[addr@].connections == e.connections
            &&& after.entries()[addr@].rr_index == e.rr_index + 1
        },
        after.entries().dom() == pool.entries().dom(),
        forall|other: Seq<char>|
            other != addr@ && #[trigger] pool.entries().dom().contains(other)
                ==> after.entries()[other] == pool.entries()[other],
{
    assert(after.entries().dom() =~= pool.entries().dom());
    if r is Some {
        law_connection_of_the_turn(pool.entries()[addr@]);
    }
}

/// Connections are opened until there are as many as the pool has room for; one that fails ends
/// that, and is an error only where none is open.
pub proof fn law_connections_are_opened(
    pool: ConnectionPool,
    open: usize,
    failure: Option<CelebornError>,
    r: ConnectTurn,
)
    requires
        pool.opens_on(open, failure, r),
    ensures
        r is Connect <==> failure is None && open < pool.pool_size,
        r is Fail <==> failure is Some && open == 0,
        r is Fail ==> r->Fail_0 == failure->0,
{
}

/// Opened connections are kept for their address, and the first is given; removed ones are given
/// back.
pub proof fn law_opened_connections_are_kept(
    pool: ConnectionPool,
    between: ConnectionPool,
    after: ConnectionPool,
    addr: &str,
    opened: Vec<u64>,
    r: Result<u64>,
    dropped: Vec<u64>,
)
    requires
        pool.keeps(&between, addr, opened, r),
        between.drops(&after, addr, dropped),
    ensures
        r is Ok <==> opened@.len() > 0,
        r is Ok ==> r->Ok_0 == opened@[0],
        between.entries()[addr@].connections == opened,
        between.entries()[addr@].rr_index == 0,
        dropped == opened,
        !after.entries().dom().contains(addr@),
        forall|other: Seq<char>|
            other != addr@ ==> #[trigger] after.entries().dom().contains(other)
                == pool.entries().dom().contains(other),
{
}

/// A request goes to the master whose turn it is for as long as there are attempts left; then it
/// fails with the last error there was.
pub proof fn law_request_goes_to_the_master_of_the_turn(
    m: Masters,
    attempts: Attempts,
    after: Attempts,
    r: SendTurn,
)
    requires
        m.wf(),
        m.sends(attempts, after, r),
    ensures
        r is Send <==> attempts.made < m.max_retries,
        r matches SendTurn::Send(k) ==> k < m.count && (m.index < m.count ==> k == m.index),
        r is Fail && attempts.last_error is Some ==> r->Fail_0 == attempts.last_error->0,
        r is Fail && attempts.last_error is None ==> r->Fail_0 is Connection,
{
    law_master_of_the_turn(m);
}

/// After a failed attempt it is the turn of the next master, the attempt is counted with its
/// error, and there is a wait unless it was the last.
pub proof fn law_failed_attempt_turns_to_the_next_master(
    m: Masters,
    after: Masters,
    attempts: Attempts,
    attempts_after: Attempts,
    e: CelebornError,
    wait: bool,
)
    requires
        attempts.made < m.max_retries,
        m.fails(&after, attempts, attempts_after, e, wait),
    ensures
        m.index < usize::MAX ==> after.index == m.index + 1,
        after.count == m.count,
        after.max_retries == m.max_retries,
        attempts_after.made == attempts.made + 1,
        attempts_after.last_error == Some(e),
        wait <==> attempts_after.made < m.max_retries,
{
}

/// The head of an answer gives the sizes of its parts and its type, unless they are too large
/// together.
pub proof fn law_head_is_read(header: &[u8], r: Result<ResponseHeader>)
    requires
        header@.len() == 9,
        layout::big32(header@, 0) < 0x8000_0000,
        layout::big32(header@, 5) < 0x8000_0000,
        MasterRpcClient::head_read(header, r),
    ensures
        r is Ok <==> layout::big32(header@, 0) + layout::big32(header@, 5) <= 104_857_600,
        r matches Ok(h) ==> h.msg_size == layout::big32(header@, 0) && h.body_size
            == layout::big32(header@, 5) && h.msg_type == header@[4],
        r is Err ==> r->Err_0 is Protocol,
{
    law_head_of_an_answer(header@);
}

/// A response is decoded, a failure is told as one of the server, and any other answer is an
/// error.
pub proof fn law_answer_is_read_by_its_type(
    client: MasterRpcClient,
    msg_type: u8,
    body: &[u8],
    r: Result<Vec<u8>>,
)
    requires
        client.reads(msg_type, body, r),
    ensures
        msg_type == 4 ==> master_rpc::decoded(r, body@),
        msg_type == 5 ==> r is Err && r->Err_0 is ServerError && r->Err_0->ServerError_status
            is RequestFailed,
        msg_type != 4 && msg_type != 5 ==> r is Err && r->Err_0 is Protocol,
{
}

/// Whether bytes start with the bytes of a text.
pub open spec fn starts_with(s: Seq<u8>, t: Seq<char>) -> bool {
    let b = utf8::encode_utf8(t);
    s.len() >= b.len() && s.take(b.len() as int) == b
}

/// No message of a failure is the name of a class or of a signature, and each other string of a
/// length of more than five is one.
pub proof fn law_class_names_are_no_messages(s: Seq<u8>)
    ensures
        master_rpc::may_be_message(s) <==> utf8::valid_utf8(s) && s.len() > 5 && !starts_with(
            s,
            "java."@,
        ) && !starts_with(s, "org.apache.celeborn.common.rpc"@) && !starts_with(s, "["@)
            && !starts_with(s, "L"@),
{
}

/// A failure is told by the longest message of its stream, an error by the first, and one without
/// any by a text of its own.
pub proof fn law_failures_are_told_by_their_messages(data: Seq<u8>)
    ensures
        master_rpc::messages(data, 0).len() > 0 ==> master_rpc::failure_text(data)
            == utf8::decode_utf8(master_rpc::longest(master_rpc::messages(data, 0))),
        master_rpc::messages(data, 0).len() == 0 ==> master_rpc::failure_text(data)
            == "Unknown RPC failure"@,
        master_rpc::first_message(data, 0) matches Some(s) ==> master_rpc::error_answer_text(data)
            == utf8::decode_utf8(s),
        master_rpc::first_message(data, 0) is None ==> master_rpc::error_answer_text(data)
            == "Unknown error from master"@,
{
}

/// Masters are asked at their own endpoint, lifecycle managers at theirs, each by the address of
/// the receiver and with the number of the message.
pub proof fn law_requests_go_to_their_endpoints(
    master: MasterRpcClient,
    manager: NettyLifecycleManagerClient,
    receiver: RpcAddress,
    t: TransportMessageType,
    payload: Seq<u8>,
)
    ensures
        manager.request_body(receiver, t, payload) == java_serialization::request_message(
            Some(&manager.local_address),
            Some(&receiver),
            "LifecycleManagerEndpoint"@,
            crate::protocol::transport::transport_code(t) as i32,
            payload,
        ),
        master.local_address matches Some(a) ==> master.request_body(t, payload, receiver)
            == java_serialization::request_message(
            Some(&a),
            Some(&receiver),
            "MasterEndpoint"@,
            crate::protocol::transport::transport_code(t) as i32,
            payload,
        ),
        master.local_address is None ==> master.request_body(t, payload, receiver)
            == java_serialization::request_message(
            None,
            Some(&receiver),
            "MasterEndpoint"@,
            crate::protocol::transport::transport_code(t) as i32,
            payload,
        ),
{
}

} // verus!
