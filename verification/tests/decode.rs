//! The block decoder against real container bytes: a small container is
//! written out in the wire format, read back through the `osmpbf` reader,
//! and decoded into normalized entities; a corrupt block aborts the run.

use std::io::Cursor;

use osm_resolver::block::{decode_blob, decode_container};
use osm_resolver::cache::{LocationCache, OptAdvice};
use osm_resolver::error::RunError;
use osm_resolver::population;
use osm_resolver::resolver;

// --- Minimal wire-format writers for the container's protobuf messages. ---
fn varint(mut v: u64) -> Vec<u8> {
    let mut out = Vec::new();
    loop {
        let byte = (v & 0x7F) as u8;
        v >>= 7;
        if v == 0 {
            out.push(byte);
            break;
        }
        out.push(byte | 0x80);
    }
    out
}

fn zigzag(v: i64) -> u64 {
    ((v << 1) ^ (v >> 63)) as u64
}

fn field_tag(field: u64, wire: u64) -> Vec<u8> {
    varint((field << 3) | wire)
}

fn varint_field(field: u64, v: u64) -> Vec<u8> {
    let mut out = field_tag(field, 0);
    out.extend(varint(v));
    out
}

fn len_field(field: u64, data: &[u8]) -> Vec<u8> {
    let mut out = field_tag(field, 2);
    out.extend(varint(data.len() as u64));
    out.extend(data.to_vec());
    out
}

/// A packed field of zigzag varints, delta-coded from zero.
fn packed_sint_deltas(field: u64, values: &[i64]) -> Vec<u8> {
    let mut payload = Vec::new();
    let mut previous = 0i64;
    for v in values {
        payload.extend(varint(zigzag(v - previous)));
        previous = *v;
    }
    len_field(field, &payload)
}

/// A plainly-encoded point entity, coordinates in decimicro degrees (the
/// block's granularity is the default 100 nanodegrees).
fn node_message(id: i64, lat: i64, lon: i64) -> Vec<u8> {
    let mut out = Vec::new();
    out.extend(varint_field(1, zigzag(id)));
    out.extend(varint_field(8, zigzag(lat)));
    out.extend(varint_field(9, zigzag(lon)));
    out
}

/// A densely-encoded run of point entities.
fn dense_message(nodes: &[(i64, i64, i64)]) -> Vec<u8> {
    let ids: Vec<i64> = nodes.iter().map(|n| n.0).collect();
    let lats: Vec<i64> = nodes.iter().map(|n| n.1).collect();
    let lons: Vec<i64> = nodes.iter().map(|n| n.2).collect();
    let mut out = Vec::new();
    out.extend(packed_sint_deltas(1, &ids));
    out.extend(packed_sint_deltas(8, &lats));
    out.extend(packed_sint_deltas(9, &lons));
    out
}

/// An edge entity with its ordered references.
fn way_message(id: i64, refs: &[i64]) -> Vec<u8> {
    let mut out = Vec::new();
    out.extend(varint_field(1, id as u64));
    out.extend(packed_sint_deltas(8, refs));
    out
}

/// An aggregate entity carrying only its identity.
fn relation_message(id: i64) -> Vec<u8> {
    varint_field(1, id as u64)
}

/// A primitive block: an empty string table, then the given groups.
fn block_message(groups: &[Vec<u8>]) -> Vec<u8> {
    let mut out = len_field(1, &[]);
    for g in groups {
        out.extend(len_field(2, g));
    }
    out
}

/// One container entry: the four-byte big-endian header length, the header
/// naming the blob type and size, then the blob with its payload.
fn container_entry(blob_type: &str, blob: &[u8]) -> Vec<u8> {
    let mut header = len_field(1, blob_type.as_bytes());
    header.extend(varint_field(3, blob.len() as u64));
    let mut out = (header.len() as u32).to_be_bytes().to_vec();
    out.extend(header);
    out.extend(blob.to_vec());
    out
}

/// An uncompressed data blob.
fn raw_blob(block: &[u8]) -> Vec<u8> {
    len_field(1, block)
}

fn read_blobs(container: Vec<u8>) -> Vec<osmpbf::Blob> {
    osmpbf::BlobReader::new_seekable(Cursor::new(container))
        .unwrap()
        .map(|b| b.unwrap())
        .collect()
}

fn scenario_container() -> Vec<u8> {
    // One group holding both point wire encodings and the edge; one more
    // group holding an aggregate entity.
    let mut first_group = Vec::new();
    first_group.extend(len_field(1, &node_message(1, 10_000_000, 10_000_000)));
    first_group.extend(len_field(
        2,
        &dense_message(&[(2, 20_000_000, 20_000_000), (5, 50_000_000, 50_000_000)]),
    ));
    first_group.extend(len_field(3, &way_message(77, &[1, 2, 5])));
    let second_group = len_field(4, &relation_message(12));
    let block = block_message(&[first_group, second_group]);
    container_entry("OSMData", &raw_blob(&block))
}

#[test]
fn decode_normalizes_both_point_encodings() {
    let blobs = read_blobs(scenario_container());
    assert_eq!(blobs.len(), 1);
    let blocks = decode_container(&blobs).unwrap();
    assert_eq!(blocks.len(), 1);
    let block = &blocks[0];
    assert_eq!(block.offset, 0);
    assert!(block.has_non_point);
    assert_eq!(block.points.len(), 3);
    assert_eq!(block.points[0].id, 1);
    assert_eq!(block.points[0].coord.lat, 10_000_000);
    assert_eq!(block.points[0].coord.lon, 10_000_000);
    assert_eq!(block.points[1].id, 2);
    assert_eq!(block.points[1].coord.lat, 20_000_000);
    assert_eq!(block.points[2].id, 5);
    assert_eq!(block.points[2].coord.lon, 50_000_000);
    assert_eq!(block.edges.len(), 1);
    assert_eq!(block.edges[0].refs, vec![1, 2, 5]);
}

#[test]
fn non_data_blobs_are_passed_over() {
    let mut container = container_entry("Bogus", &raw_blob(&block_message(&[])));
    container.extend(scenario_container());
    let blobs = read_blobs(container);
    assert_eq!(blobs.len(), 2);
    let first = decode_blob(&blobs[0]).unwrap();
    assert!(first.is_none());
    let blocks = decode_container(&blobs).unwrap();
    assert_eq!(blocks.len(), 1);
    assert_eq!(blocks[0].points.len(), 3);
    // The data blob is the container's second entry, so its recorded offset
    // lies past the first entry.
    assert!(blocks[0].offset > 0);
}

#[test]
fn corrupt_block_aborts_with_no_summary() {
    // The second blob claims zlib compression but holds no valid stream.
    let mut container = scenario_container();
    container.extend(container_entry("OSMData", &len_field(3, &[0x00])));
    let blobs = read_blobs(container);
    assert_eq!(blobs.len(), 2);
    let outcome = decode_container(&blobs);
    assert!(matches!(outcome, Err(RunError::ContainerCorruption { .. })));
    // The whole run aborts with the fault; no statistics come out.
    let cache = LocationCache::new_in_memory(8).unwrap();
    let run_outcome = resolver::run_blobs(&blobs, 2, &cache);
    assert!(matches!(run_outcome, Err(RunError::ContainerCorruption { .. })));
}

#[test]
fn negative_identity_is_corruption() {
    let group = len_field(1, &node_message(-4, 0, 0));
    let block = block_message(&[group]);
    let container = container_entry("OSMData", &raw_blob(&block));
    let blobs = read_blobs(container);
    let outcome = decode_container(&blobs);
    assert!(matches!(outcome, Err(RunError::ContainerCorruption { .. })));
}

#[test]
fn container_resolves_end_to_end() {
    let blobs = read_blobs(scenario_container());
    let blocks = decode_container(&blobs).unwrap();
    let mut cache = LocationCache::new_in_memory(8).unwrap();
    let no_hints = OptAdvice { advice: Vec::new() };
    let (first_non_point, node_stats) = population::run(&blocks, &mut cache, &no_hints).unwrap();
    assert_eq!(first_non_point, 0);
    assert_eq!(node_stats.node_count, 3);
    assert_eq!(node_stats.min_node_id, 1);
    assert_eq!(node_stats.max_node_id, 5);
    let stats = resolver::run(&blocks, 2, &cache).unwrap();
    assert_eq!(stats.ways_resolved, 1);
    assert_eq!(stats.ways_deferred, 2);
    assert_eq!(stats.nodes_resolved, 3);
    assert_eq!(stats.bbox.min_lat, 10_000_000);
    assert_eq!(stats.bbox.max_lat, 50_000_000);
}
