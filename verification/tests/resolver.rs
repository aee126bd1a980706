//! The chunked resolver at runtime: the deferral scenario, equality of
//! chunked and unbounded resolution, the skip optimization, the scheduler
//! transition and the configuration rules.

use osm_resolver::block::{Block, EdgeEntity, PointEntity};
use osm_resolver::cache::{LocationCache, OptAdvice};
use osm_resolver::coords::Coordinate;
use osm_resolver::error::RunError;
use osm_resolver::population;
use osm_resolver::resolver::{
    chunk_size_for, next_state, run, run_pass, Chunk, Mode, OptsChunkedResolver, RunState,
    SchedulerState,
};

fn point(id: i64, lat: i32, lon: i32) -> PointEntity {
    PointEntity { id, coord: Coordinate { lat, lon } }
}

/// The scenario container: three points and one edge referencing them all.
fn scenario_blocks() -> Vec<Block> {
    vec![
        Block {
            offset: 0,
            points: vec![
                point(1, 10_000_000, 10_000_000),
                point(2, 20_000_000, 20_000_000),
                point(5, 50_000_000, 50_000_000),
            ],
            edges: Vec::new(),
            has_non_point: false,
        },
        Block {
            offset: 100,
            points: Vec::new(),
            edges: vec![EdgeEntity { refs: vec![1, 2, 5] }],
            has_non_point: true,
        },
    ]
}

fn populated_cache(blocks: &Vec<Block>) -> LocationCache {
    let mut cache = LocationCache::new_in_memory(16).unwrap();
    let no_hints = OptAdvice { advice: Vec::new() };
    population::run(blocks, &mut cache, &no_hints).unwrap();
    cache
}

#[test]
fn deferral_scenario_pass_by_pass() {
    let blocks = scenario_blocks();
    let cache = populated_cache(&blocks);
    let mut state = RunState::new();

    // Pass over [0, 2): the edge's greatest reference (5) lies outside, so
    // the edge is deferred.
    let first = run_pass(&blocks, Chunk { start: 0, size: 2 }, &cache, &mut state);
    assert_eq!(first.ways_deferred, 1);
    assert_eq!(first.ways_resolved, 0);
    assert_eq!(state.max_referenced_id, 5);
    assert_eq!(state.first_non_point_offset, 100);

    // Pass over [2, 4): still outside, deferred again.
    let second = run_pass(&blocks, Chunk { start: 2, size: 2 }, &cache, &mut state);
    assert_eq!(second.ways_deferred, 1);
    assert_eq!(second.ways_resolved, 0);

    // Pass over [4, 6): the greatest reference is covered, so all three
    // points resolve.
    let third = run_pass(&blocks, Chunk { start: 4, size: 2 }, &cache, &mut state);
    assert_eq!(third.ways_resolved, 1);
    assert_eq!(third.ways_deferred, 0);
    assert_eq!(third.nodes_resolved, 3);
    assert_eq!(third.bbox.min_lat, 10_000_000);
    assert_eq!(third.bbox.max_lat, 50_000_000);
    assert_eq!(third.bbox.min_lon, 10_000_000);
    assert_eq!(third.bbox.max_lon, 50_000_000);
}

#[test]
fn deferral_scenario_full_run() {
    let blocks = scenario_blocks();
    let cache = populated_cache(&blocks);
    let stats = run(&blocks, 2, &cache).unwrap();
    assert_eq!(stats.ways_resolved, 1);
    assert_eq!(stats.ways_deferred, 2);
    assert_eq!(stats.nodes_resolved, 3);
    assert_eq!(stats.errors, 0);
    assert_eq!(stats.bbox.min_lat, 10_000_000);
    assert_eq!(stats.bbox.max_lat, 50_000_000);
    assert_eq!(stats.bbox.min_lon, 10_000_000);
    assert_eq!(stats.bbox.max_lon, 50_000_000);
}

#[test]
fn chunk_size_does_not_change_the_resolution() {
    let blocks = scenario_blocks();
    let cache = populated_cache(&blocks);
    let unbounded = run(&blocks, i64::MAX, &cache).unwrap();
    assert_eq!(unbounded.ways_resolved, 1);
    assert_eq!(unbounded.ways_deferred, 0);
    for chunk_size in [1i64, 2, 3, 5, 7, 100] {
        let chunked = run(&blocks, chunk_size, &cache).unwrap();
        assert_eq!(chunked.ways_resolved, unbounded.ways_resolved);
        assert_eq!(chunked.nodes_resolved, unbounded.nodes_resolved);
        assert_eq!(chunked.errors, unbounded.errors);
        assert_eq!(chunked.bbox, unbounded.bbox);
    }
}

#[test]
fn empty_edge_counted_once_in_first_chunk() {
    let blocks = vec![
        Block {
            offset: 0,
            points: vec![point(9, 1, 1)],
            edges: vec![EdgeEntity { refs: Vec::new() }, EdgeEntity { refs: vec![9] }],
            has_non_point: true,
        },
    ];
    let cache = populated_cache(&blocks);
    // Chunk size 2 takes five passes to reach identity 9; the edge without
    // references is counted exactly once over all of them.
    let stats = run(&blocks, 2, &cache).unwrap();
    assert_eq!(stats.ways_resolved, 2);
    assert_eq!(stats.ways_deferred, 4);
    assert_eq!(stats.nodes_resolved, 1);
}

/// The skip-optimization container: ten point-only blocks, then the first
/// block holding an edge entity.
fn skip_blocks() -> Vec<Block> {
    let mut blocks: Vec<Block> = Vec::new();
    for k in 0..10i64 {
        blocks.push(Block {
            offset: (k as u64) * 50,
            points: vec![point(k, (k as i32) * 1_000, -(k as i32) * 1_000)],
            edges: Vec::new(),
            has_non_point: false,
        });
    }
    blocks.push(Block {
        offset: 500,
        points: Vec::new(),
        edges: vec![EdgeEntity { refs: vec![0, 4, 9] }],
        has_non_point: true,
    });
    blocks
}

#[test]
fn skip_optimization_matches_full_scan() {
    let blocks = skip_blocks();
    let cache = populated_cache(&blocks);

    // A first pass from the container start records the first offset with a
    // non-point entity.
    let mut state = RunState::new();
    let full = run_pass(&blocks, Chunk { start: 0, size: 100 }, &cache, &mut state);
    assert_eq!(state.first_non_point_offset, 500);

    // A later pass seeks directly to that offset and computes the same
    // result as a scan from the start would.
    let mut skipping = state;
    let skipped = run_pass(&blocks, Chunk { start: 0, size: 100 }, &cache, &mut skipping);
    assert_eq!(skipped, full);
    assert_eq!(skipping.first_non_point_offset, 500);
    assert_eq!(skipping.max_referenced_id, 9);
}

#[test]
fn run_state_moves_one_way() {
    let mut state = RunState::new();
    state.observe_id(10);
    state.observe_id(4);
    assert_eq!(state.max_referenced_id, 10);
    state.observe_non_point_offset(700);
    state.observe_non_point_offset(900);
    assert_eq!(state.first_non_point_offset, 700);
}

#[test]
fn scheduler_transition_rule() {
    let chunk = Chunk { start: 0, size: 4 };
    // The cumulative maximum reaches the upper bound: advance.
    let state = RunState { max_referenced_id: 4, first_non_point_offset: u64::MAX };
    match next_state(chunk, &state) {
        SchedulerState::Scanning(next) => {
            assert_eq!(next.start, 4);
            assert_eq!(next.size, 4);
        },
        SchedulerState::Done => panic!("the scheduler must advance"),
    }
    // The cumulative maximum falls short: done.
    let state = RunState { max_referenced_id: 3, first_non_point_offset: u64::MAX };
    assert!(matches!(next_state(chunk, &state), SchedulerState::Done));
}

#[test]
fn zero_chunk_size_is_rejected() {
    let blocks = scenario_blocks();
    let cache = populated_cache(&blocks);
    assert!(matches!(
        run(&blocks, 0, &cache),
        Err(RunError::ConfigurationError { .. })
    ));
    assert!(matches!(
        run(&blocks, -5, &cache),
        Err(RunError::ConfigurationError { .. })
    ));
}

#[test]
fn chunk_size_from_budget_and_record_width() {
    assert_eq!(chunk_size_for(1024, 8).unwrap(), 128);
    assert_eq!(chunk_size_for(1024 * 1024 * 1024, 8).unwrap(), 134_217_728);
    assert!(matches!(
        chunk_size_for(1024, 0),
        Err(RunError::ConfigurationError { .. })
    ));
    assert!(matches!(
        chunk_size_for(7, 8),
        Err(RunError::ConfigurationError { .. })
    ));
    assert!(matches!(
        chunk_size_for(u64::MAX, 1),
        Err(RunError::ConfigurationError { .. })
    ));
}

#[test]
fn resolver_options_derive_chunk_size() {
    let opts = OptsChunkedResolver {
        mode: Mode::Skip,
        pbf_file: String::from("planet.osm.pbf"),
        node_cache: String::from("nodes.cache"),
        mem_slice: 2,
    };
    assert_eq!(opts.chunk_size().unwrap(), 2 * 134_217_728);
    let zero = OptsChunkedResolver { mem_slice: 0, ..opts.clone() };
    assert!(matches!(
        zero.chunk_size(),
        Err(RunError::ConfigurationError { .. })
    ));
    let huge = OptsChunkedResolver { mem_slice: u64::MAX, ..opts };
    assert!(matches!(
        huge.chunk_size(),
        Err(RunError::ConfigurationError { .. })
    ));
}
