use std::collections::HashMap;

use rust_gcp::errors::CacheError;
use rust_gcp::metadata::{encode_metadata, parse_metadata, PartitionMeta};
use rust_gcp::partition::{chunk_keys, meta_key, partition_count, split_into_chunks, CHUNK_SIZE};
use rust_gcp::partitioned_cache::{
    chunk_key, delete_sweep_continues, partitioned_get_on_meta, partitioned_get_reassemble,
    set_partitioned_plan,
};

/// Runs the full get flow against a store, as the store driver would.
fn get_via_store(
    store: &HashMap<String, Vec<u8>>,
    key: &str,
) -> Result<(Vec<u8>, bool), CacheError> {
    let meta = store.get(&meta_key(key)).cloned();
    let (parsed, keys) = partitioned_get_on_meta(key, &meta)?;
    let results: Vec<Option<Vec<u8>>> = keys.iter().map(|k| store.get(k).cloned()).collect();
    partitioned_get_reassemble(&parsed, &results)
}

fn set_via_store(store: &mut HashMap<String, Vec<u8>>, key: &str, bytes: &Vec<u8>, binary: bool) {
    for (k, v) in set_partitioned_plan(key, bytes, binary) {
        store.insert(k, v);
    }
}

#[test]
fn partition_count_formula() {
    assert_eq!(partition_count(0), 1);
    assert_eq!(partition_count(1), 1);
    assert_eq!(partition_count(2_000_000), 1);
    assert_eq!(partition_count(2_000_001), 2);
    assert_eq!(partition_count(4_000_000), 2);
    assert_eq!(partition_count(4_000_001), 3);
}

#[test]
fn chunk_size_is_two_megabytes() {
    assert_eq!(CHUNK_SIZE, 2_000_000);
}

#[test]
fn split_respects_boundaries() {
    let bytes: Vec<u8> = (0..4_000_001u64).map(|i| (i % 251) as u8).collect();
    let chunks = split_into_chunks(&bytes);
    assert_eq!(chunks.len(), 3);
    assert_eq!(chunks[0].len(), 2_000_000);
    assert_eq!(chunks[1].len(), 2_000_000);
    assert_eq!(chunks[2].len(), 1);
    assert_eq!(chunks[0][..], bytes[..2_000_000]);
    assert_eq!(chunks[2][0], bytes[4_000_000]);
}

#[test]
fn split_of_empty_payload_is_one_empty_chunk() {
    let bytes: Vec<u8> = Vec::new();
    let chunks = split_into_chunks(&bytes);
    assert_eq!(chunks.len(), 1);
    assert!(chunks[0].is_empty());
}

#[test]
fn keys_follow_wire_layout() {
    assert_eq!(meta_key("alpha"), "alpha:partitioned");
    assert_eq!(chunk_key("alpha", 0), "alpha:partitioned:0");
    assert_eq!(chunk_key("alpha", 12), "alpha:partitioned:12");
    let keys = chunk_keys("alpha", 3);
    assert_eq!(
        keys,
        vec![
            "alpha:partitioned:0".to_string(),
            "alpha:partitioned:1".to_string(),
            "alpha:partitioned:2".to_string(),
        ]
    );
}

#[test]
fn metadata_round_trip() {
    let meta = PartitionMeta { partition_count: 3, is_binary_encoded: true };
    let bytes = encode_metadata(&meta);
    assert_eq!(
        bytes,
        b"{\"isBinaryEncoded\":true,\"partitionCount\":3}".to_vec()
    );
    assert_eq!(parse_metadata(&bytes).unwrap(), meta);

    let meta2 = PartitionMeta { partition_count: 40, is_binary_encoded: false };
    let bytes2 = encode_metadata(&meta2);
    assert_eq!(
        bytes2,
        b"{\"isBinaryEncoded\":false,\"partitionCount\":40}".to_vec()
    );
    assert_eq!(parse_metadata(&bytes2).unwrap(), meta2);
}

#[test]
fn metadata_rejects_malformed_text() {
    let garbage = b"{\"partitionCount\":}".to_vec();
    assert!(matches!(parse_metadata(&garbage), Err(CacheError::Decode(_))));
    let short = b"{}".to_vec();
    assert!(matches!(parse_metadata(&short), Err(CacheError::Decode(_))));
    // structured text admits no leading zeros
    let padded = b"{\"isBinaryEncoded\":true,\"partitionCount\":03}".to_vec();
    assert!(matches!(parse_metadata(&padded), Err(CacheError::Decode(_))));
}

#[test]
fn metadata_reads_any_key_order_and_spacing() {
    let spaced = b"{ \"partitionCount\": 2, \"isBinaryEncoded\": true }".to_vec();
    assert_eq!(
        parse_metadata(&spaced).unwrap(),
        PartitionMeta { partition_count: 2, is_binary_encoded: true }
    );
    let flag_missing = b"{\"partitionCount\":5}".to_vec();
    assert_eq!(
        parse_metadata(&flag_missing).unwrap(),
        PartitionMeta { partition_count: 5, is_binary_encoded: false }
    );
    let extra_fields = b"{\"note\":\"x\",\"isBinaryEncoded\":false,\"partitionCount\":1}".to_vec();
    assert_eq!(parse_metadata(&extra_fields).unwrap().partition_count, 1);
}

#[test]
fn metadata_count_must_be_a_whole_number() {
    let text_count = b"{\"partitionCount\":\"2\"}".to_vec();
    assert!(matches!(parse_metadata(&text_count), Err(CacheError::Decode(_))));
    let negative = b"{\"partitionCount\":-1}".to_vec();
    assert!(matches!(parse_metadata(&negative), Err(CacheError::Decode(_))));
}

#[test]
fn get_accepts_metadata_written_by_another_producer() {
    let mut store = HashMap::new();
    let bytes = vec![9u8, 8, 7];
    set_via_store(&mut store, "k", &bytes, true);
    // another producer's spacing and key order for the same entry
    store.insert(
        meta_key("k"),
        b"{ \"partitionCount\": 1, \"isBinaryEncoded\": true }".to_vec(),
    );
    let (back, binary) = get_via_store(&store, "k").unwrap();
    assert_eq!(back, bytes);
    assert!(binary);
}

#[test]
fn round_trip_one_byte() {
    let mut store = HashMap::new();
    let bytes = vec![42u8];
    set_via_store(&mut store, "k", &bytes, true);
    let (back, binary) = get_via_store(&store, "k").unwrap();
    assert_eq!(back, bytes);
    assert!(binary);
}

#[test]
fn round_trip_empty_payload() {
    let mut store = HashMap::new();
    let bytes = Vec::new();
    set_via_store(&mut store, "k", &bytes, false);
    let (back, binary) = get_via_store(&store, "k").unwrap();
    assert_eq!(back, bytes);
    assert!(!binary);
}

#[test]
fn round_trip_at_chunk_boundary() {
    let mut store = HashMap::new();
    let bytes: Vec<u8> = (0..2_000_000u64).map(|i| (i % 256) as u8).collect();
    set_via_store(&mut store, "k", &bytes, true);
    let (back, _) = get_via_store(&store, "k").unwrap();
    assert_eq!(back, bytes);
}

#[test]
fn round_trip_across_chunk_boundaries() {
    let mut store = HashMap::new();
    let bytes: Vec<u8> = (0..4_000_001u64).map(|i| (i % 253) as u8).collect();
    set_via_store(&mut store, "k", &bytes, true);
    assert_eq!(store.len(), 4);
    let (back, _) = get_via_store(&store, "k").unwrap();
    assert_eq!(back, bytes);
}

#[test]
fn missing_metadata_is_a_miss() {
    let store = HashMap::new();
    assert!(matches!(get_via_store(&store, "absent"), Err(CacheError::Miss)));
}

#[test]
fn missing_chunk_is_detected() {
    let mut store = HashMap::new();
    let bytes: Vec<u8> = (0..4_000_001u64).map(|i| (i % 253) as u8).collect();
    set_via_store(&mut store, "k", &bytes, true);
    store.remove(&chunk_key("k", 1));
    match get_via_store(&store, "k") {
        Err(CacheError::PartitionMismatch { expected, found }) => {
            assert_eq!(expected, 3);
            assert_eq!(found, 2);
        },
        other => panic!("expected a partition mismatch, got {:?}", other),
    }
}

#[test]
fn corrupt_metadata_is_a_decode_failure() {
    let mut store = HashMap::new();
    let bytes = vec![1u8, 2, 3];
    set_via_store(&mut store, "k", &bytes, true);
    store.insert(meta_key("k"), b"not a metadata entry".to_vec());
    assert!(matches!(get_via_store(&store, "k"), Err(CacheError::Decode(_))));
}

#[test]
fn delete_sweep_stops_at_first_absent_chunk() {
    assert!(delete_sweep_continues(1));
    assert!(!delete_sweep_continues(0));
    assert!(!delete_sweep_continues(2));
}
