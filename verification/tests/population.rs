//! Population at runtime: filling the cache from decoded blocks, the first
//! non-point offset, capacity enforcement, the dense-span builder, and the
//! edge-resolution flows that consume a populated cache.

use osm_resolver::block::{Block, EdgeEntity, PointEntity};
use osm_resolver::cache::{LocationCache, OptAdvice};
use osm_resolver::coords::{pack_coordinate, Coordinate};
use osm_resolver::error::RunError;
use osm_resolver::population::{block_to_dense, run as populate, store_block_points};
use osm_resolver::stats::NodeStats;
use osm_resolver::ways::{resolve_way, run as resolve_ways, ResolveMode};

fn point(id: i64, lat: i32, lon: i32) -> PointEntity {
    PointEntity { id, coord: Coordinate { lat, lon } }
}

fn no_hints() -> OptAdvice {
    OptAdvice { advice: Vec::new() }
}

#[test]
fn population_fills_cache_and_reports_first_non_point() {
    let blocks = vec![
        Block {
            offset: 0,
            points: vec![point(1, 11, -11), point(3, 33, -33)],
            edges: Vec::new(),
            has_non_point: false,
        },
        Block {
            offset: 250,
            points: vec![point(2, 22, -22)],
            edges: vec![EdgeEntity { refs: vec![1, 2, 3] }],
            has_non_point: true,
        },
    ];
    let mut cache = LocationCache::new_in_memory(8).unwrap();
    let (first_non_point, stats) = populate(&blocks, &mut cache, &no_hints()).unwrap();
    assert_eq!(first_non_point, 250);
    assert_eq!(stats.node_count, 3);
    assert_eq!(stats.min_node_id, 1);
    assert_eq!(stats.max_node_id, 3);
    assert_eq!(cache.get_coordinate(1), Coordinate { lat: 11, lon: -11 });
    assert_eq!(cache.get_coordinate(2), Coordinate { lat: 22, lon: -22 });
    assert_eq!(cache.get_coordinate(3), Coordinate { lat: 33, lon: -33 });
    assert_eq!(cache.get_coordinate(4), Coordinate::sentinel());
}

#[test]
fn population_without_non_point_blocks_reports_no_offset() {
    let blocks = vec![
        Block { offset: 0, points: vec![point(0, 1, 1)], edges: Vec::new(), has_non_point: false },
    ];
    let mut cache = LocationCache::new_in_memory(2).unwrap();
    let (first_non_point, _) = populate(&blocks, &mut cache, &no_hints()).unwrap();
    assert_eq!(first_non_point, u64::MAX);
}

#[test]
fn population_rejects_identity_beyond_capacity() {
    let blocks = vec![
        Block { offset: 0, points: vec![point(9, 1, 1)], edges: Vec::new(), has_non_point: false },
    ];
    let mut cache = LocationCache::new_in_memory(4).unwrap();
    let outcome = populate(&blocks, &mut cache, &no_hints());
    assert!(matches!(outcome, Err(RunError::ConfigurationError { .. })));
}

#[test]
fn population_on_file_backing() {
    let blocks = vec![
        Block {
            offset: 0,
            points: vec![point(6, 60, -60), point(7, 70, -70)],
            edges: Vec::new(),
            has_non_point: false,
        },
    ];
    let mut cache = LocationCache::open("/tmp/osm_resolver_population.bin", 16).unwrap();
    let mut stats = NodeStats::identity();
    store_block_points(&blocks[0], &mut cache, &mut stats).unwrap();
    assert_eq!(stats.node_count, 2);
    assert_eq!(cache.get_coordinate(6), Coordinate { lat: 60, lon: -60 });
    assert_eq!(cache.get_coordinate(7), Coordinate { lat: 70, lon: -70 });
    assert_eq!(cache.get_coordinate(5), Coordinate::sentinel());
}

#[test]
fn dense_span_fills_gaps_with_zeros() {
    let block = Block {
        offset: 0,
        points: vec![point(10, 1, 2), point(13, 3, 4)],
        edges: Vec::new(),
        has_non_point: false,
    };
    let (first, records) = block_to_dense(&block).unwrap().unwrap();
    assert_eq!(first, 10);
    assert_eq!(records.len(), 4);
    assert_eq!(records[0], pack_coordinate(Coordinate { lat: 1, lon: 2 }));
    assert_eq!(records[1], 0);
    assert_eq!(records[2], 0);
    assert_eq!(records[3], pack_coordinate(Coordinate { lat: 3, lon: 4 }));
}

#[test]
fn dense_span_of_empty_block_is_nothing() {
    let block = Block { offset: 0, points: Vec::new(), edges: Vec::new(), has_non_point: false };
    assert!(block_to_dense(&block).unwrap().is_none());
}

#[test]
fn dense_span_rejects_unordered_identities() {
    let block = Block {
        offset: 77,
        points: vec![point(10, 1, 2), point(10, 3, 4)],
        edges: Vec::new(),
        has_non_point: false,
    };
    let outcome = block_to_dense(&block);
    assert!(matches!(outcome, Err(RunError::ContainerCorruption { .. })));
}

#[test]
fn way_resolution_modes() {
    let blocks = vec![
        Block {
            offset: 0,
            points: vec![point(1, 100, -100), point(2, 300, -50)],
            edges: vec![
                EdgeEntity { refs: vec![1, 2] },
                EdgeEntity { refs: vec![2] },
            ],
            has_non_point: true,
        },
    ];
    let mut cache = LocationCache::new_in_memory(4).unwrap();
    populate(&blocks, &mut cache, &no_hints()).unwrap();

    // Per-point modes fold every resolved coordinate, and both give the
    // same outcome.
    let resolved = resolve_ways(&blocks, ResolveMode::Resolve, &cache, &no_hints());
    let vectored = resolve_ways(&blocks, ResolveMode::Vector, &cache, &no_hints());
    assert_eq!(resolved, vectored);
    assert_eq!(resolved.nodes_resolved, 3);
    assert_eq!(resolved.bbox.min_lat, 100);
    assert_eq!(resolved.bbox.max_lat, 300);

    // The envelope mode counts each edge able to form a line and marks the
    // single-reference edge as an error.
    let enveloped = resolve_ways(&blocks, ResolveMode::Geometry, &cache, &no_hints());
    assert_eq!(enveloped.ways_resolved, 1);
    assert_eq!(enveloped.errors, 1);
    assert_eq!(enveloped.bbox.min_lat, 100);
    assert_eq!(enveloped.bbox.max_lat, 300);
    assert_eq!(enveloped.bbox.min_lon, -100);
    assert_eq!(enveloped.bbox.max_lon, -50);
}

#[test]
fn way_envelope_of_one_edge() {
    let mut cache = LocationCache::new_in_memory(4).unwrap();
    cache.set_coordinate(0, Coordinate { lat: -5, lon: 20 });
    cache.set_coordinate(1, Coordinate { lat: 15, lon: 10 });
    let stats = resolve_way(&vec![0, 1], ResolveMode::Geometry, &cache);
    assert_eq!(stats.ways_resolved, 1);
    assert_eq!(stats.errors, 0);
    assert_eq!(stats.bbox.min_lat, -5);
    assert_eq!(stats.bbox.max_lat, 15);
    assert_eq!(stats.bbox.min_lon, 10);
    assert_eq!(stats.bbox.max_lon, 20);
}
