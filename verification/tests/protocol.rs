use bytes::{Buf, Bytes, BytesMut};
use celeborn_client::error::IoErrorKind;
use celeborn_client::protocol::java_serialization::{
    encode_request_message, modified_utf8_len, write_data_output_utf, write_modified_utf8,
    write_rpc_address, JavaObjectOutputStream, RpcAddress, TC_CLASSDESC, TC_OBJECT,
};
use celeborn_client::protocol::message::{
    ChunkFetchFailure, ChunkFetchRequest, ChunkFetchSuccess, Heartbeat, Message, MessageType,
    OneWayMessage, OpenStream, PushData, PushDataHandShake, PushMergedData, RegionFinish,
    RegionStart, RpcFailure, RpcRequest, RpcResponse, StreamHandle,
};
use celeborn_client::protocol::pb_partition_location::Mode;
use celeborn_client::protocol::transport::{TransportMessage, TransportMessageType};
use celeborn_client::protocol::{
    decode_string, decode_string_java, decode_transport_message, encode_string,
    encode_string_java, encode_transport_message, string_encoded_length,
    string_encoded_length_java, Decodable, Encodable, PartitionLocation, PartitionMode, WorkerInfo,
};
use prost::encoding::{decode_key, int32, DecodeContext};

/// What follows the byte that names the message.
fn content<M: Encodable>(message: &M) -> Bytes {
    let mut bytes = message.encode_to_bytes().freeze();
    let _ = bytes.get_u8();
    bytes
}

#[test]
fn test_rpc_request_encode_decode() {
    let request = RpcRequest::new(12345, Bytes::from("test body"));
    let buf = request.encode_to_bytes();

    let mut bytes = buf.freeze();
    let _ = bytes.get_u8();

    let decoded = RpcRequest::decode(&mut bytes).unwrap();
    assert_eq!(decoded.request_id, 12345);
    assert_eq!(decoded.body, Bytes::from("test body"));
}

#[test]
fn test_push_data_encode_decode() {
    let push_data = PushData::new(
        1,
        0,
        "app-1".to_string(),
        "0-0".to_string(),
        Bytes::from(vec![1u8, 2, 3, 4, 5]),
    );
    let buf = push_data.encode_to_bytes();

    let mut bytes = buf.freeze();
    let _ = bytes.get_u8();

    let decoded = PushData::decode(&mut bytes).unwrap();
    assert_eq!(decoded.request_id, 1);
    assert_eq!(decoded.mode, 0);
    assert_eq!(decoded.shuffle_key, "app-1");
    assert_eq!(decoded.partition_unique_id, "0-0");
    assert_eq!(decoded.body, Bytes::from(vec![1u8, 2, 3, 4, 5]));
}

#[test]
fn test_transport_message_encode_decode() {
    let mut payload = Vec::new();
    int32::encode(1, &1, &mut payload);
    int32::encode(2, &10, &mut payload);
    int32::encode(3, &100, &mut payload);
    let payload_len = payload.len();

    let msg = TransportMessage::new(TransportMessageType::RegisterShuffle, Bytes::from(payload));

    let encoded = msg.encode();

    assert_eq!(encoded.len(), 4 + 4 + payload_len);

    let type_bytes: [u8; 4] = encoded[..4].try_into().unwrap();
    assert_eq!(i32::from_be_bytes(type_bytes), TransportMessageType::RegisterShuffle.code());

    let len_bytes: [u8; 4] = encoded[4..8].try_into().unwrap();
    assert_eq!(i32::from_be_bytes(len_bytes) as usize, payload_len);

    let decoded = TransportMessage::decode(encoded).unwrap();

    assert_eq!(decoded.message_type, TransportMessageType::RegisterShuffle);

    let mut fields = [0i32; 4];
    let mut rest = decoded.payload;
    while rest.has_remaining() {
        let (tag, wire_type) = decode_key(&mut rest).unwrap();
        let mut value = 0i32;
        int32::merge(wire_type, &mut value, &mut rest, DecodeContext::default()).unwrap();
        fields[tag as usize] = value;
    }
    assert_eq!(fields[1], 1);
    assert_eq!(fields[2], 10);
    assert_eq!(fields[3], 100);
}

#[test]
fn test_java_stream_header() {
    let stream = JavaObjectOutputStream::new();
    let bytes = stream.into_bytes();

    assert_eq!(bytes[0], 0xAC);
    assert_eq!(bytes[1], 0xED);
    assert_eq!(bytes[2], 0x00);
    assert_eq!(bytes[3], 0x05);
}

#[test]
fn test_write_transport_message() {
    let mut stream = JavaObjectOutputStream::new();
    stream.write_transport_message(4, b"test payload");
    let bytes = stream.into_bytes();

    assert_eq!(&bytes[0..4], &[0xAC, 0xED, 0x00, 0x05]);
    assert_eq!(bytes[4], TC_OBJECT);
    assert_eq!(bytes[5], TC_CLASSDESC);
}

#[test]
fn test_encode_request_message() {
    let sender = RpcAddress::new("localhost", 12345);
    let receiver = RpcAddress::new("master-host", 9097);

    let payload = b"test";
    let bytes = encode_request_message(
        Some(&sender),
        Some(&receiver),
        "MasterEndpoint",
        4,
        payload,
    );

    assert_eq!(bytes[0], 1);
    assert!(bytes.len() > 50);
}

#[test]
fn test_modified_utf8_len() {
    assert_eq!(modified_utf8_len("hello"), 5);
    assert_eq!(modified_utf8_len(""), 0);
    assert_eq!(modified_utf8_len("\u{4e2d}\u{6587}"), 6);
}

#[test]
fn test_write_data_output_utf() {
    let mut buf = BytesMut::new();
    write_data_output_utf(&mut buf, "hello");

    assert_eq!(buf.len(), 2 + 5);
    assert_eq!(&buf[0..2], &[0, 5]);
    assert_eq!(&buf[2..], b"hello");
}

#[test]
fn modified_utf8_writes_each_width() {
    let mut buf = BytesMut::new();
    write_modified_utf8(&mut buf, "a\u{0}\u{e9}\u{4e2d}");
    assert_eq!(&buf[..], &[0x61, 0xC0, 0x80, 0xC3, 0xA9, 0xE4, 0xB8, 0xAD]);
    assert_eq!(modified_utf8_len("a\u{0}\u{e9}\u{4e2d}"), 8);
}

#[test]
fn java_stream_refers_back_to_a_class() {
    let mut stream = JavaObjectOutputStream::new();
    stream.write_null();
    stream.write_byte_array(&[1, 2, 3]);
    let once = stream.len();
    stream.write_byte_array(&[4]);
    let bytes = stream.into_bytes();
    assert_eq!(bytes[4], 0x70);
    assert_eq!(bytes[5], 0x75);
    assert_eq!(bytes[6], 0x72);
    assert_eq!(bytes[once], 0x75);
    assert_eq!(bytes[once + 1], 0x71);
    assert_eq!(&bytes[once + 2..once + 6], &[0x00, 0x7E, 0x00, 0x00]);
    assert_eq!(&bytes[once + 6..], &[0, 0, 0, 1, 4]);
}

#[test]
fn java_stream_writes_strings_behind_their_length() {
    let mut stream = JavaObjectOutputStream::new();
    stream.write_utf("ab");
    let bytes = stream.into_bytes();
    assert_eq!(&bytes[4..], &[0x74, 0, 2, b'a', b'b']);
}

#[test]
fn missing_address_is_a_single_zero() {
    let mut buf = BytesMut::new();
    write_rpc_address(&mut buf, None);
    assert_eq!(&buf[..], &[0]);
    let mut buf = BytesMut::new();
    write_rpc_address(&mut buf, Some(&RpcAddress::new("h", 258)));
    assert_eq!(&buf[..], &[1, 0, 1, b'h', 0, 0, 1, 2]);
}

#[test]
fn strings_come_back_with_short_and_long_lengths() {
    let mut buf = BytesMut::new();
    encode_string(&mut buf, "h\u{e9}");
    assert_eq!(&buf[..], &[0, 3, b'h', 0xC3, 0xA9]);
    assert_eq!(string_encoded_length("h\u{e9}"), 5);
    let mut bytes = buf.freeze();
    assert_eq!(decode_string(&mut bytes).unwrap(), "h\u{e9}");
    assert!(bytes.is_empty());

    let mut buf = BytesMut::new();
    encode_string_java(&mut buf, "abc");
    assert_eq!(&buf[..], &[0, 0, 0, 3, b'a', b'b', b'c']);
    assert_eq!(string_encoded_length_java("abc"), 7);
    let mut bytes = buf.freeze();
    assert_eq!(decode_string_java(&mut bytes).unwrap(), "abc");
}

#[test]
fn broken_strings_are_refused() {
    let mut short = Bytes::from(vec![0u8]);
    assert_eq!(decode_string(&mut short).unwrap_err().kind, IoErrorKind::UnexpectedEof);
    let mut cut = Bytes::from(vec![0u8, 5, b'a']);
    assert_eq!(decode_string(&mut cut).unwrap_err().kind, IoErrorKind::UnexpectedEof);
    let mut bad = Bytes::from(vec![0u8, 1, 0xFF]);
    assert_eq!(decode_string(&mut bad).unwrap_err().kind, IoErrorKind::InvalidData);
    let mut cut = Bytes::from(vec![0u8, 0, 0]);
    assert_eq!(decode_string_java(&mut cut).unwrap_err().kind, IoErrorKind::UnexpectedEof);
}

#[test]
fn transport_message_bytes_come_back() {
    let buf = encode_transport_message(12, &[7, 8]);
    assert_eq!(&buf[..], &[0, 0, 0, 12, 0, 0, 0, 2, 7, 8]);
    let mut bytes = buf.freeze();
    let (kind, payload) = decode_transport_message(&mut bytes).unwrap();
    assert_eq!(kind, 12);
    assert_eq!(payload, Bytes::from(vec![7u8, 8]));
    let mut cut = Bytes::from(vec![0u8, 0, 0, 12, 0, 0, 0, 2, 7]);
    assert_eq!(
        decode_transport_message(&mut cut).unwrap_err().kind,
        IoErrorKind::UnexpectedEof
    );
}

#[test]
fn cut_transport_message_is_refused() {
    let short = TransportMessage::decode(Bytes::from(vec![0u8; 5]));
    assert_eq!(short.unwrap_err().kind, IoErrorKind::UnexpectedEof);
    let cut = TransportMessage::decode(Bytes::from(vec![0u8, 0, 0, 4, 0, 0, 0, 9, 1]));
    assert_eq!(cut.unwrap_err().kind, IoErrorKind::UnexpectedEof);
}

#[test]
fn message_numbers_come_back() {
    assert_eq!(MessageType::RpcRequest.code(), 3);
    assert_eq!(MessageType::from(3), MessageType::RpcRequest);
    assert_eq!(MessageType::from(200), MessageType::UnknownType);
    assert_eq!(TransportMessageType::from(4), TransportMessageType::RegisterShuffle);
    assert_eq!(TransportMessageType::RegisterShuffle.code(), 4);
    assert_eq!(TransportMessageType::from(12345), TransportMessageType::UnknownMessage);
    assert_eq!(PartitionMode::from(1), PartitionMode::Replica);
    assert_eq!(PartitionMode::from(7), PartitionMode::Primary);
    assert_eq!(Mode::Replica.code(), 1);
}

#[test]
fn decodable_messages_come_back() {
    let m = RpcResponse::new(-7, Bytes::from("xy"));
    let d = RpcResponse::decode(&mut content(&m)).unwrap();
    assert_eq!((d.request_id, &d.body[..]), (-7, &b"xy"[..]));

    let m = RpcFailure { request_id: 9, error_message: "lost".to_string() };
    let d = RpcFailure::decode(&mut content(&m)).unwrap();
    assert_eq!((d.request_id, d.error_message.as_str()), (9, "lost"));

    let m = OpenStream {
        shuffle_key: "app-1".to_string(),
        file_name: "0-0-0".to_string(),
        start_index: 2,
        end_index: 5,
    };
    let d = OpenStream::decode(&mut content(&m)).unwrap();
    assert_eq!((d.shuffle_key.as_str(), d.file_name.as_str()), ("app-1", "0-0-0"));
    assert_eq!((d.start_index, d.end_index), (2, 5));

    let m = StreamHandle { stream_id: 77, num_chunks: 3 };
    let d = StreamHandle::decode(&mut content(&m)).unwrap();
    assert_eq!((d.stream_id, d.num_chunks), (77, 3));

    let m = ChunkFetchRequest { stream_id: 1, chunk_index: 2, offset: 3, len: 4 };
    let d = ChunkFetchRequest::decode(&mut content(&m)).unwrap();
    assert_eq!((d.stream_id, d.chunk_index, d.offset, d.len), (1, 2, 3, 4));

    let m = ChunkFetchSuccess { stream_id: 1, chunk_index: 2, body: Bytes::from("chunk") };
    let d = ChunkFetchSuccess::decode(&mut content(&m)).unwrap();
    assert_eq!((d.stream_id, d.chunk_index, &d.body[..]), (1, 2, &b"chunk"[..]));

    let m = ChunkFetchFailure { stream_id: 1, chunk_index: 2, error_message: "gone".to_string() };
    let d = ChunkFetchFailure::decode(&mut content(&m)).unwrap();
    assert_eq!((d.stream_id, d.chunk_index, d.error_message.as_str()), (1, 2, "gone"));

    let m = OneWayMessage { body: Bytes::from("one") };
    let d = OneWayMessage::decode(&mut content(&m)).unwrap();
    assert_eq!(&d.body[..], b"one");

    Heartbeat::decode(&mut content(&Heartbeat)).unwrap();
}

#[test]
fn lengths_of_strings_are_what_is_appended() {
    for s in ["", "abc", "h\u{e9}llo \u{1F600}"] {
        let mut buf = BytesMut::from(&b"held"[..]);
        encode_string(&mut buf, s);
        assert_eq!(buf.len() - 4, string_encoded_length(s));
        let mut buf = BytesMut::from(&b"held"[..]);
        encode_string_java(&mut buf, s);
        assert_eq!(buf.len() - 4, string_encoded_length_java(s));
        assert_eq!(string_encoded_length_java(s), string_encoded_length(s) + 2);
    }
}

#[test]
fn lengths_announced_match_what_is_written() {
    let push = PushData::new(
        1,
        0,
        "app-1".to_string(),
        "0-0".to_string(),
        Bytes::from(vec![1u8, 2, 3]),
    );
    assert_eq!(push.encoded_length(), push.encode_to_bytes().len());
    assert_eq!(push.encode_to_bytes()[0], MessageType::PushData.code());
    let request = RpcRequest::new(7, Bytes::from("body"));
    assert_eq!(request.encoded_length(), 17);
    assert_eq!(request.encoded_length(), request.encode_to_bytes().len());
    let response = RpcResponse { request_id: 7, body: Bytes::from("answer") };
    assert_eq!(response.encoded_length(), 19);
    assert_eq!(response.encoded_length(), response.encode_to_bytes().len());
    let failure = RpcFailure { request_id: 7, error_message: "no".to_string() };
    assert_eq!(failure.encoded_length(), failure.encode_to_bytes().len());
    let merged = PushMergedData {
        request_id: 1,
        mode: 0,
        shuffle_key: "app-1".to_string(),
        partition_unique_ids: vec!["0-0".to_string(), "1-0".to_string()],
        batch_offsets: vec![0, 3],
        body: Bytes::from("abcdef"),
    };
    assert_eq!(merged.encoded_length(), merged.encode_to_bytes().len());
    assert_eq!(merged.encode_to_bytes()[0], MessageType::PushMergedData.code());
    let shake = PushDataHandShake {
        mode: 1,
        shuffle_key: "k".to_string(),
        partition_unique_id: "0-0".to_string(),
        attempt_id: 1,
        num_partitions: 2,
        buffer_size: 3,
    };
    assert_eq!(shake.encoded_length(), shake.encode_to_bytes().len());
    let start = RegionStart {
        mode: 1,
        shuffle_key: "k".to_string(),
        partition_unique_id: "0-0".to_string(),
        attempt_id: 1,
        current_region_index: 2,
        is_broadcast: true,
    };
    assert_eq!(start.encoded_length(), start.encode_to_bytes().len());
    let finish = RegionFinish {
        mode: 1,
        shuffle_key: "k".to_string(),
        partition_unique_id: "0-0".to_string(),
        attempt_id: 1,
    };
    assert_eq!(finish.encoded_length(), finish.encode_to_bytes().len());
    assert_eq!(finish.message_type(), MessageType::RegionFinish);
    assert!(finish.body().is_none());
    assert_eq!(push.body().unwrap(), &Bytes::from(vec![1u8, 2, 3]));
}

#[test]
fn cut_messages_are_refused() {
    let mut cut = Bytes::from(vec![0u8; 7]);
    assert_eq!(RpcRequest::decode(&mut cut).unwrap_err().kind, IoErrorKind::UnexpectedEof);
    let mut cut = Bytes::from(vec![0u8; 3]);
    assert_eq!(StreamHandle::decode(&mut cut).unwrap_err().kind, IoErrorKind::UnexpectedEof);
    let m = PushData::new(1, 0, "a".to_string(), "b".to_string(), Bytes::from("abc"));
    let whole = content(&m);
    let mut cut = whole.slice(..whole.len() - 1);
    assert_eq!(PushData::decode(&mut cut).unwrap_err().kind, IoErrorKind::UnexpectedEof);
}

#[test]
fn names_of_a_location() {
    let mut location =
        PartitionLocation::new(3, -1, "worker".to_string(), 9097, 9098, 9099, 9100);
    assert_eq!(location.unique_id(), "3--1");
    assert_eq!(location.get_file_name(), "3--1-0");
    location.mode = PartitionMode::Replica;
    assert_eq!(location.get_file_name(), "3--1-1");
    assert_eq!(location.push_address(), "worker:9098");
    assert_eq!(location.fetch_address(), "worker:9099");
    let worker = WorkerInfo::new("w".to_string(), 1, 2, 3, 4);
    assert_eq!(worker.to_unique_id(), "w-1-2-3-4");
    assert_eq!(location.clone(), location);
}
