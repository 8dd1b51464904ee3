//! What bytes are read as, whatever they are.

use vstd::prelude::*;
use vstd::utf8;

use crate::laws::layout;
use crate::network::codec;
use crate::network::codec::{DecoderState, FrameModel};
use crate::protocol;
use crate::protocol::batch_header;
use crate::protocol::batch_header::Batch;
use crate::protocol::message::{
    ChunkFetchFailure, ChunkFetchRequest, ChunkFetchSuccess, OneWayMessage, OpenStream, PushData,
    RpcFailure, RpcRequest, RpcResponse, StreamHandle,
};
use crate::protocol::{Decodable, Outcome};
use crate::wire;

verus! {

proof fn lemma_i32_at(s: Seq<u8>, at: int)
    requires
        0 <= at,
        at + 4 <= s.len(),
    ensures
        wire::i32_at(s.skip(at)) == layout::with_sign32(layout::big32(s, at)),
        0 <= layout::big32(s, at) < 0x1_0000_0000,
{
    let t = s.skip(at).take(4);
    wire::lemma_be_nat_4(t);
}

proof fn lemma_i64_at(s: Seq<u8>)
    requires
        8 <= s.len(),
    ensures
        wire::i64_at(s) == layout::with_sign64(layout::big64(s, 0)),
{
    let t = s.take(8);
    wire::lemma_be_nat_8(t);
    wire::lemma_be_nat_4(t.take(4));
    wire::lemma_be_nat_4(t.skip(4));
}

proof fn lemma_u16_at(s: Seq<u8>)
    requires
        2 <= s.len(),
    ensures
        wire::u16_at(s) == layout::big16(s, 0),
        0 <= layout::big16(s, 0) < 0x1_0000,
{
    wire::lemma_be_nat_2(s.take(2));
}

/// Whether a string is read at the start of bytes: its length in two bytes, and then that many
/// bytes of valid text.
pub open spec fn reads_string(s: Seq<u8>) -> bool {
    &&& s.len() >= 2
    &&& s.len() >= 2 + layout::big16(s, 0)
    &&& utf8::valid_utf8(s.subrange(2, 2 + layout::big16(s, 0)))
}

/// The string that is read at the start of bytes.
pub open spec fn string_read(s: Seq<u8>) -> Seq<char> {
    utf8::decode_utf8(s.subrange(2, 2 + layout::big16(s, 0)))
}

/// What follows the string that is read at the start of bytes.
pub open spec fn behind_string(s: Seq<u8>) -> Seq<u8> {
    s.skip(2 + layout::big16(s, 0))
}

/// A string is read behind its length in two bytes, if there are that many bytes and they are
/// valid text.
pub proof fn law_string_is_read(s: Seq<u8>)
    ensures
        protocol::parse_string(s).0 is Done <==> reads_string(s),
        reads_string(s) ==> protocol::parse_string(s) == (
            Outcome::Done(string_read(s)),
            behind_string(s),
        ),
{
    if s.len() >= 2 {
        lemma_u16_at(s);
        let n = layout::big16(s, 0);
        if s.len() >= 2 + n {
            assert(s.skip(2).take(n) =~= s.subrange(2, 2 + n));
            assert(s.skip(2).skip(n) =~= s.skip(2 + n));
        }
    }
}

/// A string with a length in four bytes is read in the same way; a length below zero is an error.
pub proof fn law_long_string_is_read(s: Seq<u8>)
    ensures
        ({
            let n = layout::with_sign32(layout::big32(s, 0));
            &&& protocol::parse_string_java(s).0 is Done <==> s.len() >= 4 && 0 <= n && s.len() >= 4
                + n && utf8::valid_utf8(s.subrange(4, 4 + n))
            &&& protocol::parse_string_java(s).0 is Done ==> protocol::parse_string_java(s) == (
                Outcome::Done(utf8::decode_utf8(s.subrange(4, 4 + n))),
                s.skip(4 + n),
            )
        }),
{
    if s.len() >= 4 {
        assert(s.skip(0) =~= s);
        lemma_i32_at(s, 0);
        let n = layout::with_sign32(layout::big32(s, 0));
        if 0 <= n && s.len() >= 4 + n {
            assert(s.skip(4).take(n) =~= s.subrange(4, 4 + n));
            assert(s.skip(4).skip(n) =~= s.skip(4 + n));
        }
    }
}

/// A frame of a transport message is its type, the length of its payload, and the payload.
pub proof fn law_transport_frame_is_read(s: Seq<u8>)
    ensures
        ({
            let n = layout::with_sign32(layout::big32(s, 4));
            let r = protocol::parse_transport_frame(s);
            &&& r.0 is Done <==> s.len() >= 8 && 0 <= n && s.len() >= 8 + n
            &&& r.0 matches Outcome::Done(v) ==> v.0 == layout::with_sign32(layout::big32(s, 0))
                && v.1 == s.subrange(8, 8 + n) && r.1 == s.skip(8 + n)
        }),
{
    if s.len() >= 8 {
        assert(s.skip(0) =~= s);
        lemma_i32_at(s, 0);
        lemma_i32_at(s, 4);
        let n = layout::with_sign32(layout::big32(s, 4));
        if 0 <= n && s.len() >= 8 + n {
            assert(s.skip(8).take(n) =~= s.subrange(8, 8 + n));
            assert(s.skip(8).skip(n) =~= s.skip(8 + n));
        }
    }
}

proof fn lemma_body_is_read(s: Seq<u8>, at: int, n: int)
    requires
        0 <= at <= s.len(),
        0 <= n,
        at + n <= s.len(),
    ensures
        s.skip(at).take(n) == s.subrange(at, at + n),
        s.skip(at).skip(n) == s.skip(at + n),
{
    assert(s.skip(at).take(n) =~= s.subrange(at, at + n));
    assert(s.skip(at).skip(n) =~= s.skip(at + n));
}

/// A request and its response are a number in eight bytes and a body behind its length.
pub proof fn law_request_and_response_are_read(s: Seq<u8>)
    ensures
        ({
            let n = layout::with_sign32(layout::big32(s, 8));
            let fits = s.len() >= 12 && 0 <= n && s.len() >= 12 + n;
            let read = (
                layout::with_sign64(layout::big64(s, 0)) as i64,
                s.subrange(12, 12 + n),
            );
            &&& <RpcRequest as Decodable>::parse(s).0 is Done <==> fits
            &&& fits ==> <RpcRequest as Decodable>::parse(s) == (
                Outcome::Done(read),
                s.skip(12 + n),
            )
            &&& <RpcResponse as Decodable>::parse(s).0 is Done <==> fits
            &&& fits ==> <RpcResponse as Decodable>::parse(s) == (
                Outcome::Done(read),
                s.skip(12 + n),
            )
        }),
{
    if s.len() >= 12 {
        lemma_i64_at(s);
        lemma_i32_at(s, 8);
        let n = layout::with_sign32(layout::big32(s, 8));
        if 0 <= n && s.len() >= 12 + n {
            lemma_body_is_read(s, 12, n);
        }
    }
}

/// A failure is the number of its request and a string.
pub proof fn law_failure_is_read(s: Seq<u8>)
    ensures
        <RpcFailure as Decodable>::parse(s).0 is Done <==> s.len() >= 8 && reads_string(s.skip(8)),
        s.len() >= 8 && reads_string(s.skip(8)) ==> <RpcFailure as Decodable>::parse(s) == (
            Outcome::Done(
                (layout::with_sign64(layout::big64(s, 0)) as i64, string_read(s.skip(8))),
            ),
            behind_string(s.skip(8)),
        ),
{
    if s.len() >= 8 {
        lemma_i64_at(s);
        law_string_is_read(s.skip(8));
    }
}

/// Pushed data is the number of the request, the mode, the names of the shuffle and of the
/// partition, and the data behind its length.
pub proof fn law_push_data_is_read(s: Seq<u8>)
    ensures
        ({
            let t = behind_string(s.skip(9));
            let u = behind_string(t);
            let n = layout::with_sign32(layout::big32(u, 0));
            let fits = s.len() >= 9 && reads_string(s.skip(9)) && reads_string(t) && u.len() >= 4
                && 0 <= n && u.len() >= 4 + n;
            let r = <PushData as Decodable>::parse(s);
            &&& r.0 is Done <==> fits
            &&& r.0 matches Outcome::Done(m) ==> {
                &&& m.request_id == layout::with_sign64(layout::big64(s, 0))
                &&& m.mode == s[8]
                &&& m.shuffle_key == string_read(s.skip(9))
                &&& m.partition_unique_id == string_read(t)
                &&& m.body == u.subrange(4, 4 + n)
                &&& r.1 == u.skip(4 + n)
            }
        }),
{
    if s.len() >= 9 {
        lemma_i64_at(s);
        law_string_is_read(s.skip(9));
        let t = behind_string(s.skip(9));
        law_string_is_read(t);
        let u = behind_string(t);
        if u.len() >= 4 {
            assert(u.skip(0) =~= u);
            lemma_i32_at(u, 0);
            let n = layout::with_sign32(layout::big32(u, 0));
            if 0 <= n && u.len() >= 4 + n {
                lemma_body_is_read(u, 4, n);
            }
        }
    }
}

/// A stream is opened by the names of the shuffle and of the file, and the first and the last
/// mapper.
pub proof fn law_open_stream_is_read(s: Seq<u8>)
    ensures
        ({
            let t = behind_string(s);
            let u = behind_string(t);
            let fits = reads_string(s) && reads_string(t) && u.len() >= 8;
            let r = <OpenStream as Decodable>::parse(s);
            &&& r.0 is Done <==> fits
            &&& r.0 matches Outcome::Done(m) ==> {
                &&& m.shuffle_key == string_read(s)
                &&& m.file_name == string_read(t)
                &&& m.start_index == layout::with_sign32(layout::big32(u, 0))
                &&& m.end_index == layout::with_sign32(layout::big32(u, 4))
                &&& r.1 == u.skip(8)
            }
        }),
{
    law_string_is_read(s);
    let t = behind_string(s);
    law_string_is_read(t);
    let u = behind_string(t);
    if u.len() >= 8 {
        assert(u.skip(0) =~= u);
        lemma_i32_at(u, 0);
        lemma_i32_at(u, 4);
    }
}

/// An opened stream is its number and how many chunks it has.
pub proof fn law_stream_handle_is_read(s: Seq<u8>)
    ensures
        <StreamHandle as Decodable>::parse(s).0 is Done <==> s.len() >= 12,
        <StreamHandle as Decodable>::parse(s).0 matches Outcome::Done(m) ==> m.stream_id
            == layout::with_sign64(layout::big64(s, 0)) && m.num_chunks == layout::with_sign32(
            layout::big32(s, 8),
        ) && <StreamHandle as Decodable>::parse(s).1 == s.skip(12),
{
    if s.len() >= 12 {
        lemma_i64_at(s);
        lemma_i32_at(s, 8);
    }
}

/// A chunk is asked for by its stream, its index, an offset and a length.
pub proof fn law_chunk_request_is_read(s: Seq<u8>)
    ensures
        <ChunkFetchRequest as Decodable>::parse(s).0 is Done <==> s.len() >= 20,
        <ChunkFetchRequest as Decodable>::parse(s).0 matches Outcome::Done(m) ==> m.stream_id
            == layout::with_sign64(layout::big64(s, 0)) && m.chunk_index == layout::with_sign32(
            layout::big32(s, 8),
        ) && m.offset == layout::with_sign32(layout::big32(s, 12)) && m.len == layout::with_sign32(
            layout::big32(s, 16),
        ) && <ChunkFetchRequest as Decodable>::parse(s).1 == s.skip(20),
{
    if s.len() >= 20 {
        lemma_i64_at(s);
        lemma_i32_at(s, 8);
        lemma_i32_at(s, 12);
        lemma_i32_at(s, 16);
    }
}

/// A chunk is its stream, its index, and its data behind the length; the failure of one has a
/// string in place of the data.
pub proof fn law_chunk_is_read(s: Seq<u8>)
    ensures
        ({
            let n = layout::with_sign32(layout::big32(s, 12));
            let fits = s.len() >= 16 && 0 <= n && s.len() >= 16 + n;
            &&& <ChunkFetchSuccess as Decodable>::parse(s).0 is Done <==> fits
            &&& fits ==> <ChunkFetchSuccess as Decodable>::parse(s) == (
                Outcome::Done(
                    (
                        layout::with_sign64(layout::big64(s, 0)) as i64,
                        layout::with_sign32(layout::big32(s, 8)) as i32,
                        s.subrange(16, 16 + n),
                    ),
                ),
                s.skip(16 + n),
            )
        }),
        <ChunkFetchFailure as Decodable>::parse(s).0 is Done <==> s.len() >= 12 && reads_string(
            s.skip(12),
        ),
        s.len() >= 12 && reads_string(s.skip(12)) ==> <ChunkFetchFailure as Decodable>::parse(s)
            == (
            Outcome::Done(
                (
                    layout::with_sign64(layout::big64(s, 0)) as i64,
                    layout::with_sign32(layout::big32(s, 8)) as i32,
                    string_read(s.skip(12)),
                ),
            ),
            behind_string(s.skip(12)),
        ),
{
    if s.len() >= 12 {
        lemma_i64_at(s);
        lemma_i32_at(s, 8);
        law_string_is_read(s.skip(12));
        if s.len() >= 16 {
            lemma_i32_at(s, 12);
            let n = layout::with_sign32(layout::big32(s, 12));
            if 0 <= n && s.len() >= 16 + n {
                lemma_body_is_read(s, 16, n);
            }
        }
    }
}

/// A message that is not answered is a body behind its length.
pub proof fn law_one_way_message_is_read(s: Seq<u8>)
    ensures
        ({
            let n = layout::with_sign32(layout::big32(s, 0));
            let fits = s.len() >= 4 && 0 <= n && s.len() >= 4 + n;
            &&& <OneWayMessage as Decodable>::parse(s).0 is Done <==> fits
            &&& fits ==> <OneWayMessage as Decodable>::parse(s) == (
                Outcome::Done(s.subrange(4, 4 + n)),
                s.skip(4 + n),
            )
        }),
{
    if s.len() >= 4 {
        assert(s.skip(0) =~= s);
        lemma_i32_at(s, 0);
        let n = layout::with_sign32(layout::big32(s, 0));
        if 0 <= n && s.len() >= 4 + n {
            lemma_body_is_read(s, 4, n);
        }
    }
}

/// A frame is read once all of it is there: the sizes of its message and its body, its type
/// between them, and then the two. One that is too large is a fault, and so far nothing else is.
pub proof fn law_frame_is_read_once_it_is_there(s: Seq<u8>)
    requires
        s.len() >= 9,
    ensures
        ({
            let m = layout::big32(s, 0);
            let b = layout::big32(s, 5);
            let step = codec::decode_step(None, s);
            &&& step.outcome is Fault <==> m + b > 2_147_483_648
            &&& m + b <= 2_147_483_648 && s.len() < 9 + m + b ==> step.outcome == Outcome::Done(
                None::<FrameModel>,
            ) && step.rest == s.skip(9) && step.state is Some && step.state->0.msg_size == m
                && step.state->0.body_size == b
            &&& m + b <= 2_147_483_648 && s.len() >= 9 + m + b ==> step.outcome is Done
                && step.outcome->Done_0 is Some && step.outcome->Done_0->0.message == s.subrange(
                9,
                9 + m,
            ) && step.outcome->Done_0->0.body == s.subrange(9 + m, 9 + m + b) && step.rest
                == s.skip(9 + m + b) && step.state is None
        }),
{
    assert(s.skip(0) =~= s);
    wire::lemma_be_nat_4(s.take(4));
    wire::lemma_be_nat_4(s.skip(5).take(4));
    let m = layout::big32(s, 0);
    let b = layout::big32(s, 5);
    assert(wire::u32_at(s) == m);
    assert(wire::u32_at(s.skip(5)) == b);
    assert(0 <= m < 0x1_0000_0000 && 0 <= b < 0x1_0000_0000);
    assert(m as usize == m && b as usize == b);
    let t = s.skip(9);
    if t.len() >= m + b {
        assert(t.take(m) =~= s.subrange(9, 9 + m));
        assert(t.subrange(m, m + b) =~= s.subrange(9 + m, 9 + m + b));
        assert(t.skip(m + b) =~= s.skip(9 + m + b));
    }
}

/// With less than a head, nothing is read and nothing is taken.
pub proof fn law_short_head_waits(s: Seq<u8>)
    requires
        s.len() < 9,
    ensures
        codec::decode_step(None, s).outcome == Outcome::Done(None::<FrameModel>),
        codec::decode_step(None, s).rest == s,
        codec::decode_step(None, s).state is None,
{
}

/// A batch is read by the sizes in its head, with the lowest byte first, if all of it is there.
pub proof fn law_batch_is_read(s: Seq<u8>)
    ensures
        ({
            let n = layout::with_sign32(layout::little32(s, 12));
            let r = batch_header::next_batch(s);
            &&& r is Some <==> s.len() >= 16 && 0 <= n && s.len() >= 16 + n
            &&& r matches Some(b) ==> b.header.map_id == layout::with_sign32(
                layout::little32(s, 0),
            ) && b.header.attempt_id == layout::with_sign32(layout::little32(s, 4))
                && b.header.batch_id == layout::with_sign32(layout::little32(s, 8))
                && b.header.compressed_size == n && b.data == s.subrange(16, 16 + n)
        }),
{
    if s.len() >= 16 {
        lemma_little(s, 0);
        lemma_little(s, 4);
        lemma_little(s, 8);
        lemma_little(s, 12);
    }
}

proof fn lemma_little(s: Seq<u8>, at: int)
    requires
        0 <= at,
        at + 4 <= s.len(),
    ensures
        wire::signed32(wire::le_nat(s.subrange(at, at + 4))) == layout::with_sign32(
            layout::little32(s, at),
        ),
{
    let t = s.subrange(at, at + 4);
    wire::lemma_be_nat_4(t.reverse());
}

/// Batches of attempts that do not count are passed over, and the first that counts is read:
/// of a mapper that is not listed, or of the attempt that is listed for it.
pub proof fn law_first_counting_batch_is_read(s: Seq<u8>, attempts: Seq<i32>)
    ensures
        batch_header::next_batch(s) matches Some(b) ==> {
            let counts = b.header.map_id < 0 || b.header.map_id >= attempts.len()
                || b.header.attempt_id == attempts[b.header.map_id as int];
            let rest = s.skip(16 + b.data.len() as int);
            &&& counts ==> batch_header::next_kept(s, attempts) == (Some(b), rest)
            &&& !counts ==> batch_header::next_kept(s, attempts) == batch_header::next_kept(
                rest,
                attempts,
            )
        },
        batch_header::next_batch(s) is None ==> batch_header::next_kept(s, attempts) == (
            None::<Batch>,
            s,
        ),
{
}

/// The state of a decoder is only the head of a frame whose rest is still to come.
pub proof fn law_waiting_frame_is_finished(state: DecoderState, s: Seq<u8>)
    requires
        state is Some,
    ensures
        ({
            let m = state->0.msg_size as int;
            let b = state->0.body_size as int;
            let step = codec::decode_step(state, s);
            &&& s.len() < m + b ==> step.outcome == Outcome::Done(None::<FrameModel>) && step.rest
                == s && step.state == state
            &&& s.len() >= m + b ==> step.outcome == Outcome::Done(
                Some(
                    FrameModel {
                        message_type: state->0.msg_type,
                        message: s.take(m),
                        body: s.subrange(m, m + b),
                    },
                ),
            ) && step.rest == s.skip(m + b) && step.state is None
        }),
{
}

} // verus!
