use std::time::Duration;

use bytes::Bytes;
use celeborn_client::config::CelebornConfig;
use celeborn_client::error::CelebornError;
use celeborn_client::network::codec::Frame;
use celeborn_client::network::connection::{ConnectTurn, Connection, ConnectionPool};
use celeborn_client::network::master_rpc::{
    Attempts, MasterRpcClient, Masters, RequestIds, SendTurn, SocketAddress,
};
use celeborn_client::network::transport::{TransportClient, TransportClientFactory};
use celeborn_client::protocol::java_serialization::{JavaObjectOutputStream, RpcAddress};
use celeborn_client::protocol::message::{MessageType, RpcResponse};
use celeborn_client::protocol::transport::TransportMessageType;
use celeborn_client::protocol::Encodable;

fn address(ip: &str, port: u16) -> SocketAddress {
    SocketAddress { ip: ip.to_string(), port }
}

fn master_client() -> MasterRpcClient {
    match MasterRpcClient::new(
        vec![address("127.0.0.1", 9097), address("127.0.0.2", 9098)],
        Some(RpcAddress::new("localhost", 12345)),
        Duration::from_secs(30),
        3,
        Duration::from_millis(100),
    ) {
        Ok(client) => client,
        Err(e) => panic!("{}", e.to_string()),
    }
}

#[test]
fn test_request_id_generation() {
    let mut ids = RequestIds::new();
    let id1 = ids.next_request_id();
    let id2 = ids.next_request_id();
    assert!(id2 > id1);
}

#[test]
fn test_master_rpc_client_creation() {
    let endpoints = vec![address("127.0.0.1", 9097)];
    let client = MasterRpcClient::new(
        endpoints,
        Some(RpcAddress::new("localhost", 12345)),
        Duration::from_secs(30),
        3,
        Duration::from_millis(100),
    );
    assert!(client.is_ok());
}

#[test]
fn test_master_rpc_client_no_endpoints() {
    let client = MasterRpcClient::new(
        vec![],
        None,
        Duration::from_secs(30),
        3,
        Duration::from_millis(100),
    );
    assert!(client.is_err());
}

#[test]
fn test_transport_client_factory() {
    let config = CelebornConfig::builder()
        .app_id("test-app")
        .master_endpoints(vec!["localhost:9097".to_string()])
        .build()
        .unwrap();

    let factory = TransportClientFactory::new(config);
    assert_eq!(factory.config().app_id, "test-app");
}

#[test]
fn test_connection_pool_creation() {
    let pool = ConnectionPool::new(2, 32);
    assert_eq!(pool.connections.len(), 0);
}

#[test]
fn masters_take_turns() {
    let mut masters = Masters { count: 2, index: 0, max_retries: 3 };
    let mut attempts = Attempts::new();
    let mut asked = Vec::new();
    let failure = loop {
        match masters.send_turn(&mut attempts) {
            SendTurn::Send(i) => {
                asked.push(i);
                masters.attempt_failed(
                    &mut attempts,
                    CelebornError::Connection("down".to_string()),
                );
            }
            SendTurn::Fail(e) => break e,
        }
    };
    assert_eq!(asked, vec![0, 1, 0]);
    assert!(failure.to_string().contains("down"));
    assert_eq!(masters.current_master(), 1);
}

#[test]
fn request_to_a_master_is_framed() {
    let client = master_client();
    assert_eq!(client.current_master().ip, "127.0.0.1");
    let receiver = client.receiver_address(1);
    assert_eq!((receiver.host.as_str(), receiver.port), ("127.0.0.2", 9098));
    let wire = client.encode_request(
        &receiver,
        TransportMessageType::RegisterShuffle,
        &[1, 2, 3],
        77,
    );
    assert_eq!(wire[4], 3);
    let body_size = u32::from_be_bytes(wire[5..9].try_into().unwrap()) as usize;
    let msg_size = u32::from_be_bytes(wire[0..4].try_into().unwrap()) as usize;
    assert_eq!(wire.len(), 9 + msg_size + body_size);
    assert_eq!(&wire[9..17], &77u64.to_be_bytes());
    assert_eq!(&wire[wire.len() - 3..], &[1, 2, 3]);
}

#[test]
fn header_of_an_answer() {
    let header = [0, 0, 0, 12, 4, 0, 0, 1, 0];
    assert!(MasterRpcClient::can_read_header(&header));
    let read = MasterRpcClient::read_header(&header).unwrap();
    assert_eq!((read.msg_size, read.msg_type, read.body_size), (12, 4, 256));
    let huge = [0x7F, 0xFF, 0xFF, 0xFF, 4, 0, 0, 1, 0];
    assert!(MasterRpcClient::can_read_header(&huge));
    assert!(MasterRpcClient::read_header(&huge).is_err());
    assert_eq!(MasterRpcClient::response_request_id(&[0, 0, 0, 0, 0, 0, 1, 0, 9]), 256);
}

#[test]
fn payload_of_a_java_answer_is_found() {
    let client = master_client();
    let mut stream = JavaObjectOutputStream::new();
    stream.write_transport_message(5, b"the payload");
    let data = stream.into_bytes();
    assert!(client.can_decode_response(&data));
    assert_eq!(client.decode_java_response(&data).unwrap(), b"the payload".to_vec());
    assert_eq!(client.read_response(4, &data).unwrap(), b"the payload".to_vec());
    assert_eq!(
        client.extract_transport_message_payload(&data).unwrap(),
        b"the payload".to_vec()
    );
}

#[test]
fn payload_may_hold_any_bytes() {
    let client = master_client();
    for payload in [&[0x75u8, 0x72, 0x78, 0x75, 0x71][..], &[0x75; 30], &[0xAC, 0xED, 0, 5], &[0]] {
        for number in [0, 4, 71] {
            let mut stream = JavaObjectOutputStream::new();
            stream.write_transport_message(number, payload);
            let data = stream.into_bytes();
            assert_eq!(client.extract_transport_message_payload(&data).unwrap(), payload);
        }
    }
}

#[test]
fn byte_array_at_the_front_is_parsed() {
    let client = master_client();
    let mut stream = JavaObjectOutputStream::new();
    stream.write_byte_array(&[9, 8, 7]);
    let data = stream.into_bytes();
    let (array, end) = client.try_parse_byte_array(&data[4..]).unwrap();
    assert_eq!(array, vec![9, 8, 7]);
    assert_eq!(end, data.len() - 4);
    assert!(client.try_parse_byte_array(&[0; 20]).is_none());
}

#[test]
fn failures_of_a_master_are_told() {
    let client = master_client();
    let class = b"org.apache.celeborn.common.rpc.netty.RpcFailure";
    let text = b"no space left on device";
    let mut data = vec![0xAC, 0xED, 0x00, 0x05, 0x73, 0x72, 0, class.len() as u8];
    data.extend_from_slice(class);
    data.extend_from_slice(&[0; 8]);
    data.extend_from_slice(&[0x74, 0, text.len() as u8]);
    data.extend_from_slice(text);
    assert!(client.can_decode_response(&data));
    let e = client.decode_java_response(&data).unwrap_err();
    assert!(e.to_string().contains("no space left"));
    assert!(client.read_response(5, &data).is_err());
    assert!(client.extract_rpc_failure_message(&data).contains("no space left"));
    assert!(client.decode_java_error(&data).contains("no space left"));
    assert!(client.read_response(9, &data).is_err());
}

#[test]
fn connection_hands_answers_to_their_requests() {
    let mut connection = Connection::new();
    let (first, frame) = connection.send_rpc(Bytes::from("ask")).unwrap();
    let (second, _) = connection.send_rpc(Bytes::from("ask")).unwrap();
    assert_ne!(first, second);
    assert_eq!(frame.message_type, MessageType::RpcRequest);
    let answer = RpcResponse::new(second, Bytes::from("reply"));
    let reply =
        Frame::new(MessageType::RpcResponse, answer.encode_to_bytes().freeze().slice(1..));
    assert_eq!(Connection::extract_request_id(&reply), Some(second));
    assert_eq!(connection.frame_received(&reply), Some(second));
    assert_eq!(connection.frame_received(&reply), None);
    assert_eq!(connection.pending_requests.len(), 1);
    let e = connection.request_timed_out(first, &Duration::from_millis(250));
    assert!(matches!(e, CelebornError::Timeout(250)));
    assert!(connection.pending_requests.is_empty());
    assert!(connection.send_one_way().is_ok());
    assert!(connection.is_active());
    connection.send_rpc(Bytes::from("ask")).unwrap();
    connection.stream_ended();
    assert!(connection.pending_requests.is_empty());
    connection.close();
    assert!(!connection.is_active());
    assert!(connection.send_rpc(Bytes::new()).is_err());
    assert!(connection.send_one_way().is_err());
}

#[test]
fn cancelled_request_is_a_connection_error() {
    let mut connection = Connection::new();
    let (id, _) = connection.send_rpc(Bytes::from("ask")).unwrap();
    let e = connection.request_cancelled(id);
    assert!(matches!(e, CelebornError::Connection(_)));
    assert!(connection.pending_requests.is_empty());
    connection.close();
    assert!(!connection.is_active());
}

#[test]
fn pool_hands_out_connections_in_turn() {
    let mut pool = ConnectionPool::new(2, 32);
    assert_eq!(pool.get_connection("a:1"), None);
    assert!(matches!(pool.connect_turn(0, None), ConnectTurn::Connect));
    assert!(matches!(pool.connect_turn(2, None), ConnectTurn::Done));
    assert_eq!(pool.create_connections("a:1", vec![10, 11]).unwrap(), 10);
    let mut got: Vec<u64> = (0..4).map(|_| pool.get_connection("a:1").unwrap()).collect();
    got.sort();
    assert_eq!(got, vec![10, 10, 11, 11]);
    assert_eq!(pool.remove_connections("a:1"), vec![10, 11]);
    assert_eq!(pool.get_connection("a:1"), None);
    pool.create_connections("b:1", vec![3]).unwrap();
    assert_eq!(pool.close_all(), vec![3]);
    assert!(pool.create_connections("c:1", vec![]).is_err());
}

#[test]
fn failed_connect_ends_the_pool_only_when_nothing_is_open() {
    let pool = ConnectionPool::new(2, 32);
    let down = || Some(CelebornError::Connection("down".to_string()));
    assert!(matches!(pool.connect_turn(0, down()), ConnectTurn::Fail(_)));
    assert!(matches!(pool.connect_turn(1, down()), ConnectTurn::Done));
}

fn transport_config() -> CelebornConfig {
    CelebornConfig::builder()
        .app_id("test-app")
        .master_endpoints(vec!["m1:1".to_string(), "m2:2".to_string()])
        .build()
        .unwrap()
}

#[test]
fn transport_client_needs_a_resolved_master() {
    let factory = TransportClientFactory::new(transport_config());
    assert!(factory.create_client(vec![None, None]).is_err());
    let client = match factory.create_client(vec![None, Some(address("10.0.0.1", 5))]) {
        Ok(client) => client,
        Err(e) => panic!("{}", e.to_string()),
    };
    assert_eq!(client.current_master().ip, "10.0.0.1");
    let mut client = client;
    assert!(client.close().is_empty());
}

#[test]
fn transport_payload_and_answer() {
    let payload = TransportClient::rpc_payload(TransportMessageType::MapperEnd, &[4, 5]);
    assert_eq!(&payload[..4], &TransportMessageType::MapperEnd.code().to_be_bytes());
    assert_eq!(&payload[4..], &[4, 5]);

    let frame = Frame::with_body(
        MessageType::RpcResponse,
        Bytes::new(),
        Bytes::from(vec![0u8, 0, 0, 13, b'o', b'k']),
    );
    assert!(TransportClient::can_decode_response(&frame));
    assert_eq!(TransportClient::decode_response(&frame).unwrap(), Bytes::from("ok"));
    let short = Frame::with_body(MessageType::RpcResponse, Bytes::new(), Bytes::from("abc"));
    assert!(TransportClient::decode_response(&short).is_err());
    let mut failure = vec![0u8; 8];
    failure.extend_from_slice(&[0, 0, 0, 6]);
    failure.extend_from_slice(b"broken");
    let frame = Frame::new(MessageType::RpcFailure, Bytes::from(failure));
    assert!(TransportClient::can_decode_response(&frame));
    let e = TransportClient::decode_response(&frame).unwrap_err();
    assert!(e.to_string().contains("broken"));
    let mut odd = vec![0u8; 8];
    odd.extend_from_slice(&[0, 0, 0, 3, b'a', 0xFF, b'b']);
    let frame = Frame::new(MessageType::RpcFailure, Bytes::from(odd));
    let e = TransportClient::decode_response(&frame).unwrap_err();
    assert!(e.to_string().contains("a\u{FFFD}b"));
    let frame = Frame::new(MessageType::RpcFailure, Bytes::from(vec![0xFF; 12]));
    assert!(!TransportClient::can_decode_response(&frame));
    let wrong = Frame::new(MessageType::PushData, Bytes::new());
    assert!(matches!(
        TransportClient::decode_response(&wrong),
        Err(CelebornError::Protocol(_))
    ));
    assert!(TransportClient::unresolved("h:1", Some("no such host"))
        .to_string()
        .contains("h:1"));
}

#[test]
fn chunk_answers_name_their_stream() {
    let mut message = 77i64.to_be_bytes().to_vec();
    message.extend_from_slice(&[0, 0, 0, 1]);
    let answer = Frame::new(MessageType::ChunkFetchSuccess, Bytes::from(message.clone()));
    assert_eq!(Connection::extract_stream_id(&answer), Some(77));
    assert_eq!(Connection::extract_request_id(&answer), None);
    let failure = Frame::new(MessageType::ChunkFetchFailure, Bytes::from(message.clone()));
    assert_eq!(Connection::extract_stream_id(&failure), Some(77));
    let short = Frame::new(MessageType::ChunkFetchSuccess, Bytes::from(vec![0; 7]));
    assert_eq!(Connection::extract_stream_id(&short), None);
    let other = Frame::new(MessageType::RpcResponse, Bytes::from(message));
    assert_eq!(Connection::extract_stream_id(&other), None);
}

#[test]
fn chunks_answer_the_oldest_request_of_their_stream() {
    let chunk = |stream_id: i64| {
        Frame::new(MessageType::ChunkFetchSuccess, Bytes::from(stream_id.to_be_bytes().to_vec()))
    };
    let mut connection = Connection::new();
    for stream_id in [8i64, 7, 7, 7] {
        let opened = connection.fetch_chunk(Bytes::from("chunk"), stream_id);
        assert!(matches!(opened, Ok((_, f)) if f.message_type == MessageType::RpcRequest));
    }
    assert_eq!(connection.pending_requests.len(), 4);
    assert_eq!(connection.frame_received(&chunk(7)), Some(2));
    assert!(!connection.pending_requests.contains(&2));
    connection.request_timed_out(3, &Duration::from_secs(1));
    assert_eq!(connection.frame_received(&chunk(7)), Some(4));
    assert_eq!(connection.frame_received(&chunk(7)), None);
    assert_eq!(connection.frame_received(&chunk(8)), Some(1));
    assert!(connection.pending_requests.is_empty());
    assert!(connection.chunk_requests.is_empty());

    let (id, _) = connection.fetch_chunk(Bytes::from("chunk"), 8).unwrap();
    let failure = Frame::new(MessageType::RpcFailure, Bytes::from(id.to_be_bytes().to_vec()));
    assert_eq!(connection.frame_received(&failure), Some(id));
    assert_eq!(connection.frame_received(&chunk(8)), None);
    connection.fetch_chunk(Bytes::from("chunk"), 8).unwrap();
    connection.stream_ended();
    assert!(connection.chunk_requests.is_empty());
    connection.close();
    assert!(connection.fetch_chunk(Bytes::from("chunk"), 8).is_err());
}

#[test]
fn pushes_wait_for_their_answer() {
    let mut connection = Connection::new();
    assert!(connection.send_push_data(5).is_ok());
    let answer = Frame::new(MessageType::RpcResponse, Bytes::from(5i64.to_be_bytes().to_vec()));
    assert_eq!(connection.frame_received(&answer), Some(5));
    assert_eq!(connection.frame_received(&answer), None);
    connection.close();
    assert!(matches!(
        connection.send_push_data(6),
        Err(CelebornError::Connection(m)) if m == "Connection is closed"
    ));
    assert!(connection.pending_requests.is_empty());
}
