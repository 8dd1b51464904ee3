use bytes::{BufMut, Bytes, BytesMut};
use celeborn_client::error::IoErrorKind;
use celeborn_client::network::codec::{CelebornCodec, Frame, RawBytesCodec, HEADER_SIZE};
use celeborn_client::protocol::message::MessageType;

#[test]
fn test_codec_encode_decode() {
    let mut codec = CelebornCodec::new();
    let mut buf = BytesMut::new();

    let frame = Frame::new(MessageType::RpcRequest, Bytes::from(vec![1, 2, 3, 4, 5]));
    codec.encode(frame.clone(), &mut buf).unwrap();

    assert_eq!(buf.len(), HEADER_SIZE + 5);

    let decoded = codec.decode(&mut buf).unwrap().unwrap();
    assert_eq!(decoded.message_type, MessageType::RpcRequest);
    assert_eq!(decoded.message, Bytes::from(vec![1, 2, 3, 4, 5]));
    assert!(decoded.body.is_empty());
}

#[test]
fn test_codec_with_body() {
    let mut codec = CelebornCodec::new();
    let mut buf = BytesMut::new();

    let frame = Frame::with_body(
        MessageType::RpcRequest,
        Bytes::from(vec![1, 2, 3]),
        Bytes::from(vec![4, 5, 6, 7, 8]),
    );
    codec.encode(frame, &mut buf).unwrap();

    assert_eq!(buf.len(), HEADER_SIZE + 3 + 5);

    let decoded = codec.decode(&mut buf).unwrap().unwrap();
    assert_eq!(decoded.message_type, MessageType::RpcRequest);
    assert_eq!(decoded.message, Bytes::from(vec![1, 2, 3]));
    assert_eq!(decoded.body, Bytes::from(vec![4, 5, 6, 7, 8]));
}

#[test]
fn test_codec_partial_frame() {
    let mut codec = CelebornCodec::new();
    let mut buf = BytesMut::new();

    let frame = Frame::new(MessageType::PushData, Bytes::from(vec![1, 2, 3, 4, 5]));
    codec.encode(frame, &mut buf).unwrap();

    let mut partial = buf.split_to(5);
    assert!(codec.decode(&mut partial).unwrap().is_none());

    partial.unsplit(buf);

    let decoded = codec.decode(&mut partial).unwrap().unwrap();
    assert_eq!(decoded.message_type, MessageType::PushData);
}

#[test]
fn test_codec_frame_too_large() {
    let mut codec = CelebornCodec::new();
    let mut buf = BytesMut::new();

    buf.put_u32(u32::MAX);
    buf.put_u8(3);
    buf.put_u32(0);

    let result = codec.decode(&mut buf);
    assert!(result.is_err());
}

#[test]
fn test_header_format() {
    let mut codec = CelebornCodec::new();
    let mut buf = BytesMut::new();

    let message = Bytes::from(vec![0x01, 0x02, 0x03, 0x04]);
    let body = Bytes::from(vec![0x05, 0x06]);
    let frame = Frame::with_body(MessageType::RpcRequest, message, body);

    codec.encode(frame, &mut buf).unwrap();

    let header: Vec<u8> = buf[..HEADER_SIZE].to_vec();
    assert_eq!(header[0..4], [0, 0, 0, 4]);
    assert_eq!(header[4], 3);
    assert_eq!(header[5..9], [0, 0, 0, 2]);
}

#[test]
fn frames_come_back_in_order() {
    let mut codec = CelebornCodec::new();
    let mut buf = BytesMut::new();
    codec.encode(Frame::new(MessageType::Heartbeat, Bytes::new()), &mut buf).unwrap();
    codec
        .encode(
            Frame::with_body(MessageType::PushData, Bytes::from("m"), Bytes::from("body")),
            &mut buf,
        )
        .unwrap();
    let first = codec.decode(&mut buf).unwrap().unwrap();
    assert_eq!(first.message_type, MessageType::Heartbeat);
    assert!(first.message.is_empty());
    let second = codec.decode(&mut buf).unwrap().unwrap();
    assert_eq!(second.message, Bytes::from("m"));
    assert_eq!(second.body, Bytes::from("body"));
    assert!(codec.decode(&mut buf).unwrap().is_none());
}

#[test]
fn frame_that_arrives_byte_by_byte_is_read_once() {
    let mut codec = CelebornCodec::new();
    let mut wire = BytesMut::new();
    codec
        .encode(
            Frame::with_body(MessageType::RpcResponse, Bytes::from("ab"), Bytes::from("cde")),
            &mut wire,
        )
        .unwrap();
    let mut reader = CelebornCodec::new();
    let mut buf = BytesMut::new();
    let mut frames = Vec::new();
    for b in wire.iter() {
        buf.put_u8(*b);
        if let Some(f) = reader.decode(&mut buf).unwrap() {
            frames.push(f);
        }
    }
    assert_eq!(frames.len(), 1);
    assert_eq!(frames[0].message, Bytes::from("ab"));
    assert_eq!(frames[0].body, Bytes::from("cde"));
    assert!(buf.is_empty());
}

#[test]
fn oversized_frame_is_invalid_data() {
    let mut codec = CelebornCodec::new();
    let mut buf = BytesMut::new();
    buf.put_u32(0);
    buf.put_u8(3);
    buf.put_u32(u32::MAX);
    let e = codec.decode(&mut buf).unwrap_err();
    assert_eq!(e.kind, IoErrorKind::InvalidData);
}

#[test]
fn raw_codec_hands_bytes_through() {
    let mut codec = RawBytesCodec::default();
    let mut buf = BytesMut::new();
    assert!(codec.decode(&mut buf).unwrap().is_none());
    codec.encode(Bytes::from("raw"), &mut buf).unwrap();
    let back = codec.decode(&mut buf).unwrap().unwrap();
    assert_eq!(&back[..], b"raw");
    assert!(buf.is_empty());
}

#[test]
fn total_size_counts_header_message_and_body() {
    let frame = Frame::with_body(MessageType::PushData, Bytes::from("abc"), Bytes::from("de"));
    assert_eq!(frame.total_size(), 9 + 3 + 2);
}

#[test]
fn frames_come_out_of_any_pieces() {
    let frames = [
        Frame::new(MessageType::RpcRequest, Bytes::from(vec![1, 2, 3])),
        Frame::new(MessageType::Heartbeat, Bytes::new()),
        Frame::with_body(MessageType::PushData, Bytes::from(vec![4]), Bytes::from(vec![5; 40])),
        Frame::new(MessageType::RpcResponse, Bytes::from(vec![6; 20])),
    ];
    let mut bytes = BytesMut::new();
    let mut ends = Vec::new();
    for frame in &frames {
        CelebornCodec::new().encode(frame.clone(), &mut bytes).unwrap();
        ends.push(bytes.len());
    }
    for size in 1..=bytes.len() {
        let mut codec = CelebornCodec::new();
        let mut src = BytesMut::new();
        let mut arrived = 0;
        let mut decoded = Vec::new();
        for piece in bytes.chunks(size) {
            src.put_slice(piece);
            arrived += piece.len();
            while let Some(frame) = codec.decode(&mut src).unwrap() {
                decoded.push(frame);
            }
            assert_eq!(decoded.len(), ends.iter().filter(|end| **end <= arrived).count());
        }
        assert!(src.is_empty());
        assert_eq!(decoded.len(), frames.len());
        for (d, f) in decoded.iter().zip(&frames) {
            assert_eq!(d.message_type, f.message_type);
            assert_eq!((&d.message, &d.body), (&f.message, &f.body));
        }
    }
}
