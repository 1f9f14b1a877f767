use sshfm::transfer::{join_chunks, split_chunks, CHUNK_SIZE};

#[test]
fn a_20_kib_payload_round_trips_across_chunks() {
    let data: Vec<u8> = (0..20 * 1024u32).map(|i| (i % 251) as u8).collect();
    let chunks = split_chunks(&data);
    assert_eq!(chunks.len(), 3);
    assert_eq!(chunks[0].len(), CHUNK_SIZE);
    assert_eq!(chunks[1].len(), CHUNK_SIZE);
    assert_eq!(chunks[2].len(), 20 * 1024 - 2 * CHUNK_SIZE);
    let back = join_chunks(&chunks);
    assert_eq!(back, data);
}

#[test]
fn empty_content_is_streamed_as_no_chunks() {
    let data: Vec<u8> = Vec::new();
    let chunks = split_chunks(&data);
    assert!(chunks.is_empty());
    assert!(join_chunks(&chunks).is_empty());
}

#[test]
fn content_of_exactly_one_chunk_stays_one_chunk() {
    let data: Vec<u8> = vec![7u8; CHUNK_SIZE];
    let chunks = split_chunks(&data);
    assert_eq!(chunks.len(), 1);
    assert_eq!(join_chunks(&chunks), data);
}

#[test]
fn one_byte_over_a_chunk_spills_into_a_second() {
    let mut data: Vec<u8> = vec![1u8; CHUNK_SIZE];
    data.push(2u8);
    let chunks = split_chunks(&data);
    assert_eq!(chunks.len(), 2);
    assert_eq!(chunks[0].len(), CHUNK_SIZE);
    assert_eq!(chunks[1], vec![2u8]);
    assert_eq!(join_chunks(&chunks), data);
}

#[test]
fn small_content_round_trips() {
    let data: Vec<u8> = b"hello, remote world".to_vec();
    assert_eq!(join_chunks(&split_chunks(&data)), data);
}
