//! Object streams as answers.
//!
//! What an object stream is written with is what an answer of a master is read as.

use vstd::prelude::*;
use vstd::string::*;
use vstd::utf8;

use crate::error::Result;
use crate::network::master_rpc;
use crate::network::master_rpc::ArrayParse;
use crate::protocol::java_serialization;
use crate::wire;

verus! {

/// Whether no byte array seems to begin in `s`: no array mark stands before a mark of a class.
spec fn calm(s: Seq<u8>) -> bool {
    forall|i: int|
        0 <= i < s.len() && #[trigger] s[i] == 0x75 ==> i + 1 < s.len() && s[i + 1] != 0x71 && s[i
            + 1] != 0x72
}

proof fn lemma_calm_add(a: Seq<u8>, b: Seq<u8>)
    requires
        calm(a),
        calm(b),
    ensures
        calm(a + b),
{
    let s = a + b;
    assert forall|i: int| 0 <= i < s.len() && #[trigger] s[i] == 0x75 implies i + 1 < s.len() && s[i
        + 1] != 0x71 && s[i + 1] != 0x72 by {
        if i < a.len() {
            assert(a[i] == 0x75);
            assert(s[i + 1] == a[i + 1]);
        } else {
            assert(b[i - a.len()] == 0x75);
            assert(s[i + 1] == b[i - a.len() + 1]);
        }
    }
}

/// A calm head is passed over by the search for a byte array.
proof fn lemma_head_is_passed(data: Seq<u8>, head: Seq<u8>, pos: int)
    requires
        calm(head),
        0 <= pos <= head.len(),
        head.len() < data.len() - 10,
        data.take(head.len() as int) == head,
    ensures
        master_rpc::find_array(data, pos) == master_rpc::find_array(data, head.len() as int),
    decreases head.len() - pos,
{
    if pos < head.len() {
        let d = data.skip(pos);
        assert(d[0] == head[pos]);
        if d[0] == 0x75 {
            assert(head[pos] == 0x75);
            assert(d[1] == head[pos + 1]);
        }
        assert(master_rpc::array_at(d) is Nothing);
        lemma_head_is_passed(data, head, pos + 1);
    }
}

/// A short name behind a mark is calm where its letters are.
proof fn lemma_calm_name(tag: u8, name: Seq<char>)
    requires
        tag != 0x75,
        utf8::is_ascii_chars(name),
        name.len() < 0x75,
        forall|i: int|
            0 <= i < name.len() && #[trigger] name[i] == 'u' ==> i + 1 < name.len() && name[i + 1]
                == 'e',
    ensures
        calm(java_serialization::tagged_name(tag, name)),
        java_serialization::tagged_name(tag, name).len() == 3 + name.len(),
        java_serialization::tagged_name(tag, name).take(3) == seq![tag, 0u8, name.len() as u8],
        java_serialization::tagged_name(tag, name).skip(3) == utf8::encode_utf8(name),
{
    let bytes = utf8::encode_utf8(name);
    utf8::is_ascii_chars_encode_utf8(name);
    wire::lemma_be_2(name.len());
    let t = java_serialization::tagged_name(tag, name);
    assert(t =~= seq![tag, 0u8, name.len() as u8] + bytes);
    assert(t.take(3) =~= seq![tag, 0u8, name.len() as u8]);
    assert(t.skip(3) =~= bytes);
    assert forall|i: int| 0 <= i < t.len() && #[trigger] t[i] == 0x75 implies i + 1 < t.len() && t[i
        + 1] != 0x71 && t[i + 1] != 0x72 by {
        assert(i >= 3);
        let c = name[i - 3];
        assert(c as u8 == bytes[i - 3]);
        assert(c == 'u');
        assert(name[i - 2] == 'e');
        assert(bytes[i - 2] == 'e' as u8);
    }
}

/// The numbers of the two classes are calm.
proof fn lemma_calm_numbers()
    ensures
        calm(wire::be_i64(java_serialization::TRANSPORT_MESSAGE_UID)),
        wire::be_i64(java_serialization::TRANSPORT_MESSAGE_UID).len() == 8,
        wire::be_i64(java_serialization::BYTE_ARRAY_UID).len() == 8,
{
    reveal_with_fuel(wire::be, 9);
    assert(wire::be_i64(java_serialization::TRANSPORT_MESSAGE_UID) =~= seq![
        0xD2u8,
        0xC5u8,
        0xB3u8,
        0xEDu8,
        0xF7u8,
        0x07u8,
        0x0Fu8,
        0x33u8,
    ]);
    wire::lemma_be_len(wire::unsigned64(java_serialization::BYTE_ARRAY_UID), 8);
}

/// The class descriptor of `TransportMessage` is calm, and names no failure.
proof fn lemma_calm_class()
    ensures
        calm(java_serialization::transport_message_class()),
        java_serialization::transport_message_class().len() == 110,
        java_serialization::transport_message_class().take(3) == seq![0x72u8, 0u8, 60u8],
        !master_rpc::occurs(
            java_serialization::transport_message_class().subrange(3, 63),
            master_rpc::ascii("RpcFailure"@),
        ),
{
    reveal_strlit("org.apache.celeborn.common.network.protocol.TransportMessage");
    reveal_strlit("messageTypeValue");
    reveal_strlit("payload");
    reveal_strlit("[B");
    reveal_strlit("RpcFailure");
    let name = "org.apache.celeborn.common.network.protocol.TransportMessage"@;
    lemma_calm_numbers();
    lemma_calm_name(java_serialization::TC_CLASSDESC, name);
    lemma_calm_name(java_serialization::FIELD_INTEGER, "messageTypeValue"@);
    lemma_calm_name(java_serialization::FIELD_ARRAY, "payload"@);
    lemma_calm_name(java_serialization::TC_STRING, "[B"@);
    wire::lemma_be_2(2);
    let number = wire::be_i64(java_serialization::TRANSPORT_MESSAGE_UID);
    let first = java_serialization::tagged_name(java_serialization::TC_CLASSDESC, name);
    let f0 = wire::be(2, 2);
    let f1 = java_serialization::tagged_name(java_serialization::FIELD_INTEGER, "messageTypeValue"@);
    let f2 = java_serialization::tagged_name(java_serialization::FIELD_ARRAY, "payload"@);
    let f3 = java_serialization::tagged_name(java_serialization::TC_STRING, "[B"@);
    let flags = seq![java_serialization::SC_SERIALIZABLE];
    let end = seq![java_serialization::TC_ENDBLOCKDATA];
    let nil = seq![java_serialization::TC_NULL];
    lemma_calm_add(first, number);
    lemma_calm_add(first + number, flags);
    lemma_calm_add(f0, f1);
    lemma_calm_add(f0 + f1, f2);
    lemma_calm_add(f0 + f1 + f2, f3);
    lemma_calm_add(first + number + flags, f0 + f1 + f2 + f3);
    lemma_calm_add(first + number + flags + (f0 + f1 + f2 + f3), end);
    lemma_calm_add(first + number + flags + (f0 + f1 + f2 + f3) + end, nil);
    let class = java_serialization::transport_message_class();
    assert(class == first + number + flags + (f0 + f1 + f2 + f3) + end + nil);
    assert(class.take(3) =~= first.take(3));
    let text = class.subrange(3, 63);
    assert(text =~= first.skip(3));
    let part = master_rpc::ascii("RpcFailure"@);
    utf8::is_ascii_chars_encode_utf8("RpcFailure"@);
    utf8::is_ascii_chars_encode_utf8(name);
    assert(part[0] == 'R' as u8);
    assert forall|i: int| 0 <= i && i + part.len() <= text.len() implies #[trigger] text.subrange(
        i,
        i + part.len(),
    ) != part by {
        assert(text.subrange(i, i + part.len())[0] == text[i]);
        assert(name[i] as u8 == text[i]);
        assert(name[i] != 'R');
    }
}

/// A byte array with its class is read as what it holds.
proof fn lemma_array_is_read(payload: Seq<u8>)
    requires
        payload.len() <= i32::MAX,
    ensures
        ({
            let a = seq![java_serialization::TC_ARRAY] + java_serialization::byte_array_class()
                + wire::be_i32(wire::signed32(payload.len())) + payload;
            &&& a.len() == 23 + payload.len()
            &&& master_rpc::array_at(a) == ArrayParse::Found(payload, 23 + payload.len() as int)
        }),
{
    reveal_strlit("[B");
    lemma_calm_numbers();
    lemma_calm_name(java_serialization::TC_CLASSDESC, "[B"@);
    wire::lemma_be_2(0);
    wire::lemma_be_len(payload.len(), 4);
    let name = java_serialization::tagged_name(java_serialization::TC_CLASSDESC, "[B"@);
    let class = java_serialization::byte_array_class();
    let n = wire::signed32(payload.len());
    let a = seq![java_serialization::TC_ARRAY] + class + wire::be_i32(n) + payload;
    assert(class.len() == 18);
    assert(class.take(3) =~= name.take(3));
    assert(a[1] == class.take(3)[0]);
    assert(a[2] == class.take(3)[1]);
    assert(a[3] == class.take(3)[2]);
    let l = a.subrange(2, 4);
    assert(l =~= seq![0u8, 2u8]);
    wire::lemma_be_nat_2(l);
    assert(a[14] == java_serialization::SC_SERIALIZABLE);
    assert(a[15] == 0 && a[16] == 0);
    assert(a[17] == java_serialization::TC_ENDBLOCKDATA);
    assert(a[18] == java_serialization::TC_NULL);
    reveal_with_fuel(master_rpc::descriptor_end, 5);
    assert(master_rpc::length_offset(a) == 19);
    assert(a.subrange(19, 23) =~= wire::be_i32(n));
    wire::lemma_i32_round_trip(n);
    assert(a.subrange(23, 23 + payload.len() as int) =~= payload);
}

/// What stands before the array of a message.
spec fn head_of(class: Seq<u8>, t: u8) -> Seq<u8> {
    seq![0xACu8, 0xEDu8, 0u8, 5u8] + seq![0x73u8] + class + seq![0u8, 0u8, 0u8, t]
}

/// Behind a head with a calm class that names no failure an array is found.
proof fn lemma_array_is_found(class: Seq<u8>, t: u8, array: Seq<u8>, payload: Seq<u8>)
    requires
        t < 0x75,
        calm(class),
        class.len() == 110,
        class.take(3) == seq![0x72u8, 0u8, 60u8],
        !master_rpc::occurs(class.subrange(3, 63), master_rpc::ascii("RpcFailure"@)),
        array.len() > 10,
        master_rpc::array_at(array) == ArrayParse::Found(payload, array.len() as int),
    ensures
        ({
            let data = head_of(class, t) + array;
            &&& data.len() >= 4
            &&& data[0] == 0xAC
            &&& data[1] == 0xED
            &&& !master_rpc::is_failure(data)
            &&& master_rpc::find_array(data, 4) == ArrayParse::Found(payload, array.len() as int)
        }),
{
    let magic = seq![0xACu8, 0xEDu8, 0u8, 5u8];
    let head = head_of(class, t);
    let data = head + array;
    lemma_calm_add(magic, seq![0x73u8]);
    lemma_calm_add(magic + seq![0x73u8], class);
    lemma_calm_add(magic + seq![0x73u8] + class, seq![0u8, 0u8, 0u8, t]);
    assert(data.take(head.len() as int) =~= head);
    assert(data[5] == class.take(3)[0]);
    assert(data[6] == class.take(3)[1]);
    assert(data[7] == class.take(3)[2]);
    assert(data.subrange(6, 8) =~= seq![0u8, 60u8]);
    wire::lemma_be_nat_2(data.subrange(6, 8));
    assert(data.subrange(8, 68) =~= class.subrange(3, 63));
    lemma_head_is_passed(data, head, 4);
    assert(data.skip(head.len() as int) =~= array);
}

/// What a stream with one message looks like to a reader.
proof fn lemma_stream_is_read(t: i32, payload: Seq<u8>)
    requires
        0 <= t < 0x75,
        0 < payload.len() <= i32::MAX,
    ensures
        ({
            let data = java_serialization::fresh_stream().then_transport_message(t, payload).bytes;
            &&& data.len() >= 4
            &&& data[0] == 0xAC
            &&& data[1] == 0xED
            &&& !master_rpc::is_failure(data)
            &&& master_rpc::find_array(data, 4) is Found
            &&& master_rpc::find_array(data, 4)->Found_0 == payload
        }),
{
    let class = java_serialization::transport_message_class();
    let array = seq![java_serialization::TC_ARRAY] + java_serialization::byte_array_class()
        + wire::be_i32(wire::signed32(payload.len())) + payload;
    lemma_calm_class();
    lemma_array_is_read(payload);
    lemma_array_is_found(class, t as u8, array, payload);
    lemma_stream_parts(t, payload, class, java_serialization::byte_array_class());
}

/// The parts of a stream with one message.
proof fn lemma_stream_parts(t: i32, payload: Seq<u8>, class: Seq<u8>, array_class: Seq<u8>)
    requires
        0 <= t < 0x75,
        0 < payload.len(),
        class == java_serialization::transport_message_class(),
        array_class == java_serialization::byte_array_class(),
    ensures
        java_serialization::fresh_stream().then_transport_message(t, payload).bytes == head_of(
            class,
            t as u8,
        ) + (seq![java_serialization::TC_ARRAY] + array_class + wire::be_i32(
            wire::signed32(payload.len()),
        ) + payload),
{
    let magic = java_serialization::fresh_stream().bytes;
    wire::lemma_be_2(0xACED);
    wire::lemma_be_2(5);
    wire::lemma_be_4(t as nat);
    assert(magic =~= seq![0xACu8, 0xEDu8, 0u8, 5u8]);
    let number = wire::be_i32(t);
    assert(number =~= seq![0u8, 0u8, 0u8, t as u8]);
    let size = wire::be_i32(wire::signed32(payload.len()));
    let data = java_serialization::fresh_stream().then_transport_message(t, payload).bytes;
    assert(data == magic + seq![0x73u8] + class + number + seq![0x75u8] + array_class + (size
        + payload));
    assert(data =~= head_of(class, t as u8) + (seq![0x75u8] + array_class + size + payload));
}

/// What an object stream is given as the payload of a message is what an answer with that
/// stream decodes to, for every number of a type of message, assigned or not, up to the mark of
/// an array. An empty payload is written as no array.
pub proof fn law_written_payload_is_read(number: i32, payload: Seq<u8>, r: Result<Vec<u8>>)
    requires
        0 <= number < java_serialization::TC_ARRAY,
        0 < payload.len() <= i32::MAX,
        master_rpc::decoded(
            r,
            java_serialization::fresh_stream().then_transport_message(number, payload).bytes,
        ),
    ensures
        r matches Ok(v) && v@ == payload,
{
    lemma_stream_is_read(number, payload);
}

/// A stream with one message can be searched for its payload, and what it was given as the
/// payload is what is extracted from it, whatever bytes it holds. An empty payload is written
/// as no array.
pub proof fn law_written_payload_is_extracted(number: i32, payload: Seq<u8>, r: Result<Vec<u8>>)
    requires
        0 <= number < java_serialization::TC_ARRAY,
        0 < payload.len() <= i32::MAX,
    ensures
        ({
            let data = java_serialization::fresh_stream().then_transport_message(
                number,
                payload,
            ).bytes;
            &&& data.len() >= 10
            &&& !(master_rpc::find_array(data, 4) is Unreadable)
            &&& master_rpc::extracted(r, data) ==> (r matches Ok(v) && v@ == payload)
        }),
{
    lemma_stream_is_read(number, payload);
}

} // verus!
