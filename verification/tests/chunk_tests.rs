use event_shards::chunks::{get_chunked_data, join_chunks};
use event_shards::identifier::Identifier;

#[test]
fn below_the_bound_everything_travels_as_chunk_zero() {
    let bytes: Vec<u8> = (0u8..5).collect();
    let (payload, (chunk, last)) = get_chunked_data(bytes.clone(), 0, 10);
    assert_eq!((chunk, last), (0, 0));
    assert_eq!(payload, bytes);
    // The single-chunk answer ignores the requested index, as the protocol
    // always starts by asking for chunk zero anyway.
    let (payload, (chunk, last)) = get_chunked_data(bytes.clone(), 3, 10);
    assert_eq!((chunk, last), (0, 0));
    assert_eq!(payload, bytes);
}

#[test]
fn chunk_bounds_are_exact() {
    let bytes: Vec<u8> = (0u8..25).collect();
    let (c0, (i0, last)) = get_chunked_data(bytes.clone(), 0, 10);
    assert_eq!((i0, last), (0, 2));
    assert_eq!(c0, (0u8..10).collect::<Vec<u8>>());
    let (c1, _) = get_chunked_data(bytes.clone(), 1, 10);
    assert_eq!(c1, (10u8..20).collect::<Vec<u8>>());
    let (c2, _) = get_chunked_data(bytes.clone(), 2, 10);
    assert_eq!(c2, (20u8..25).collect::<Vec<u8>>());
    // Past the last chunk the payload is empty, not a panic.
    let (c3, (i3, l3)) = get_chunked_data(bytes, 3, 10);
    assert!(c3.is_empty());
    assert_eq!((i3, l3), (3, 2));
}

#[test]
fn join_of_all_chunks_reproduces_the_bytes() {
    // A length that is not a multiple of the chunk size ...
    let bytes: Vec<u8> = (0u8..25).collect();
    let (_, (_, last)) = get_chunked_data(bytes.clone(), 0, 10);
    let mut chunks: Vec<Vec<u8>> = Vec::new();
    for i in 0..=last {
        chunks.push(get_chunked_data(bytes.clone(), i, 10).0);
    }
    assert_eq!(join_chunks(chunks), bytes);

    // ... an exact multiple (the trailing chunk is empty) ...
    let bytes: Vec<u8> = (0u8..20).collect();
    let (_, (_, last)) = get_chunked_data(bytes.clone(), 0, 10);
    assert_eq!(last, 2);
    let mut chunks: Vec<Vec<u8>> = Vec::new();
    for i in 0..=last {
        chunks.push(get_chunked_data(bytes.clone(), i, 10).0);
    }
    assert_eq!(join_chunks(chunks), bytes);

    // ... the single-chunk case ...
    let bytes: Vec<u8> = (0u8..7).collect();
    let (only, (_, last)) = get_chunked_data(bytes.clone(), 0, 100);
    assert_eq!(last, 0);
    assert_eq!(join_chunks(vec![only]), bytes);

    // ... an empty collection ...
    let (only, (_, last)) = get_chunked_data(vec![], 0, 10);
    assert_eq!(last, 0);
    assert!(only.is_empty());
    assert_eq!(join_chunks(vec![only]), Vec::<u8>::new());

    // ... and the smallest admissible chunk size of one byte.
    let bytes: Vec<u8> = vec![9, 8, 7];
    let (_, (_, last)) = get_chunked_data(bytes.clone(), 0, 1);
    assert_eq!(last, 3);
    let mut chunks: Vec<Vec<u8>> = Vec::new();
    for i in 0..=last {
        chunks.push(get_chunked_data(bytes.clone(), i, 1).0);
    }
    assert_eq!(join_chunks(chunks), bytes);
}

#[test]
fn identifier_codec_round_trips() {
    let id = Identifier { kind: b"evt".to_vec(), shard: 7, index: 123456789 };
    let wire = id.encode();
    // One length byte, three kind bytes, two eight-byte numbers.
    assert_eq!(wire.len(), 20);
    let back = Identifier::decode(&wire).expect("own wire form must decode");
    assert_eq!(back, id);
    assert_eq!(back.kind, b"evt".to_vec());
    assert_eq!(back.shard, 7);
    assert_eq!(back.index, 123456789);
}

#[test]
fn identifier_decode_rejects_malformed_bytes() {
    // Too short to hold any identifier.
    assert!(Identifier::decode(&vec![0, 1, 2]).is_none());
    // The length byte disagrees with the actual length.
    let mut wire = Identifier { kind: b"evt".to_vec(), shard: 1, index: 2 }.encode();
    wire.push(0);
    assert!(Identifier::decode(&wire).is_none());
    let empty: Vec<u8> = Vec::new();
    assert!(Identifier::decode(&empty).is_none());
}

#[test]
fn identifier_codec_handles_extreme_values() {
    let id = Identifier { kind: Vec::new(), shard: u64::MAX, index: 0 };
    let back = Identifier::decode(&id.encode()).unwrap();
    assert_eq!(back.shard, u64::MAX);
    assert_eq!(back.index, 0);
    assert!(back.kind.is_empty());
}
