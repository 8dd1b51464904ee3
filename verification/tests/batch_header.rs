use celeborn_client::protocol::{AttemptFilteredBatchIterator, BatchHeader, BatchIterator};

fn batch(map_id: i32, attempt_id: i32, batch_id: i32, data: &[u8]) -> Vec<u8> {
    let mut out = Vec::new();
    out.extend_from_slice(&map_id.to_le_bytes());
    out.extend_from_slice(&attempt_id.to_le_bytes());
    out.extend_from_slice(&batch_id.to_le_bytes());
    out.extend_from_slice(&(data.len() as i32).to_le_bytes());
    out.extend_from_slice(data);
    out
}

#[test]
fn test_batch_header_parse() {
    let mut data = [0u8; 16];
    data[0..4].copy_from_slice(&1i32.to_le_bytes());
    data[4..8].copy_from_slice(&2i32.to_le_bytes());
    data[8..12].copy_from_slice(&3i32.to_le_bytes());
    data[12..16].copy_from_slice(&100i32.to_le_bytes());

    let header = BatchHeader::parse(&data).unwrap();
    assert_eq!(header.map_id, 1);
    assert_eq!(header.attempt_id, 2);
    assert_eq!(header.batch_id, 3);
    assert_eq!(header.compressed_size, 100);
}

#[test]
fn test_batch_header_parse_insufficient_data() {
    let data = [0u8; 10];
    assert!(BatchHeader::parse(&data).is_none());
}

#[test]
fn test_batch_header_encode_decode() {
    let header = BatchHeader { map_id: 42, attempt_id: 1, batch_id: 5, compressed_size: 1024 };
    let encoded = header.encode();
    let decoded = BatchHeader::parse(&encoded).unwrap();
    assert_eq!(header, decoded);
}

#[test]
fn test_batch_header_big_endian() {
    let header = BatchHeader { map_id: 42, attempt_id: 1, batch_id: 5, compressed_size: 1024 };
    let encoded = header.encode_be();
    let decoded = BatchHeader::parse_be(&encoded).unwrap();
    assert_eq!(header, decoded);
}

#[test]
fn test_batch_iterator() {
    let mut data = Vec::new();
    data.extend_from_slice(&0i32.to_le_bytes());
    data.extend_from_slice(&0i32.to_le_bytes());
    data.extend_from_slice(&0i32.to_le_bytes());
    data.extend_from_slice(&4i32.to_le_bytes());
    data.extend_from_slice(&[1, 2, 3, 4]);
    data.extend_from_slice(&1i32.to_le_bytes());
    data.extend_from_slice(&0i32.to_le_bytes());
    data.extend_from_slice(&0i32.to_le_bytes());
    data.extend_from_slice(&2i32.to_le_bytes());
    data.extend_from_slice(&[5, 6]);

    let mut iter = BatchIterator::new(&data);

    let (header1, data1) = iter.next().unwrap();
    assert_eq!(header1.map_id, 0);
    assert_eq!(header1.compressed_size, 4);
    assert_eq!(data1, &[1, 2, 3, 4]);

    let (header2, data2) = iter.next().unwrap();
    assert_eq!(header2.map_id, 1);
    assert_eq!(header2.compressed_size, 2);
    assert_eq!(data2, &[5, 6]);

    assert!(iter.next().is_none());
}

#[test]
fn test_attempt_filtered_iterator() {
    let mut data = Vec::new();
    data.extend_from_slice(&0i32.to_le_bytes());
    data.extend_from_slice(&0i32.to_le_bytes());
    data.extend_from_slice(&0i32.to_le_bytes());
    data.extend_from_slice(&2i32.to_le_bytes());
    data.extend_from_slice(&[1, 2]);
    data.extend_from_slice(&0i32.to_le_bytes());
    data.extend_from_slice(&1i32.to_le_bytes());
    data.extend_from_slice(&1i32.to_le_bytes());
    data.extend_from_slice(&2i32.to_le_bytes());
    data.extend_from_slice(&[3, 4]);
    data.extend_from_slice(&1i32.to_le_bytes());
    data.extend_from_slice(&0i32.to_le_bytes());
    data.extend_from_slice(&0i32.to_le_bytes());
    data.extend_from_slice(&2i32.to_le_bytes());
    data.extend_from_slice(&[5, 6]);

    let attempts = [0, 0];
    let mut iter = AttemptFilteredBatchIterator::new(&data, &attempts);

    let (header1, data1) = iter.next().unwrap();
    assert_eq!(header1.map_id, 0);
    assert_eq!(header1.attempt_id, 0);
    assert_eq!(data1, &[1, 2]);

    let (header2, data2) = iter.next().unwrap();
    assert_eq!(header2.map_id, 1);
    assert_eq!(header2.attempt_id, 0);
    assert_eq!(data2, &[5, 6]);

    assert!(iter.next().is_none());
}

#[test]
fn test_matches_attempt() {
    let header = BatchHeader { map_id: 0, attempt_id: 1, batch_id: 0, compressed_size: 0 };
    assert!(header.matches_attempt(1));
    assert!(!header.matches_attempt(0));
    assert!(!header.matches_attempt(2));
}

#[test]
fn header_bytes_are_little_endian() {
    let header = BatchHeader { map_id: 1, attempt_id: -1, batch_id: 258, compressed_size: 3 };
    assert_eq!(
        header.encode(),
        [1, 0, 0, 0, 255, 255, 255, 255, 2, 1, 0, 0, 3, 0, 0, 0]
    );
    assert_eq!(
        header.encode_be(),
        [0, 0, 0, 1, 255, 255, 255, 255, 0, 0, 1, 2, 0, 0, 0, 3]
    );
    assert_eq!(BatchHeader::SIZE, 16);
}

#[test]
fn iterator_reports_where_it_stands() {
    let data = batch(7, 0, 0, &[9, 9, 9]);
    let mut iter = BatchIterator::new(&data);
    assert_eq!(iter.offset(), 0);
    assert_eq!(iter.remaining(), 19);
    iter.next().unwrap();
    assert_eq!(iter.offset(), 19);
    assert_eq!(iter.remaining(), 0);
}

#[test]
fn iterator_stops_at_a_truncated_batch() {
    let mut data = batch(1, 0, 0, &[1, 2]);
    let whole = data.len();
    data.extend_from_slice(&batch(2, 0, 0, &[3, 4, 5])[..17]);
    let mut iter = BatchIterator::new(&data);
    assert_eq!(iter.next().unwrap().1, &[1, 2]);
    assert!(iter.next().is_none());
    assert!(iter.offset() >= whole);
}

#[test]
fn filter_keeps_mappers_without_a_known_attempt() {
    let mut data = batch(5, 9, 0, &[1]);
    data.extend_from_slice(&batch(-1, 9, 0, &[2]));
    data.extend_from_slice(&batch(1, 0, 0, &[3]));
    data.extend_from_slice(&batch(1, 3, 0, &[4]));
    let attempts = [0, 3];
    let mut iter = AttemptFilteredBatchIterator::new(&data, &attempts);
    assert_eq!(iter.next().unwrap().1, &[1]);
    assert_eq!(iter.next().unwrap().1, &[2]);
    assert_eq!(iter.next().unwrap().1, &[4]);
    assert!(iter.next().is_none());
}
