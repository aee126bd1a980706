//! Single-pass edge resolution over a populated cache: every edge entity's
//! references are resolved to coordinates and folded into counts and a
//! bounding box, per point or per edge envelope depending on the mode.

use vstd::prelude::*;

use crate::block::{spec_container_wf, spec_refs_valid, valid_point_id, Block, EdgeEntity};
use crate::cache::{LocationCache, OptAdvice};
use crate::coords::{BoundingBox, spec_unpack};
use crate::resolver::spec_resolve_refs;
use crate::stats::{sat_add_u64, StatsAccumulator};

verus! {

/// How each edge entity is consumed:
/// - `Resolve` and `Vector` fold every resolved coordinate into the
///   statistics, one point at a time — gathering the coordinates into a
///   vector first changes nothing about the outcome;
/// - `Geometry` counts each edge once and folds in its envelope, the
///   bounding box of its resolved coordinates; an edge with fewer than two
///   references cannot form a line and is counted as an error.
#[derive(Clone, Copy, Debug, PartialEq, Eq, Structural)]
pub enum ResolveMode {
    Resolve,
    Vector,
    Geometry,
}

/// What a bounded resolution run is asked to do.
#[derive(Clone, Debug)]
pub struct OptsCounter2 {
    pub mode: ResolveMode,
    pub pbf_file: String,
    pub node_cache: String,
    pub advice: OptAdvice,
}

/// What an edge-extraction run is asked to do.
#[derive(Clone, Debug)]
pub struct Ways {
    pub pbf_file: String,
    pub node_cache: String,
}

/// What an edge-statistics run is asked to do.
#[derive(Clone, Debug)]
pub struct WayStats {
    pub pbf_file: String,
    pub node_cache: String,
    pub advice: OptAdvice,
}

/// The bounding box of an edge's resolved coordinates.
pub open spec fn spec_refs_envelope(refs: Seq<i64>, cache: LocationCache) -> BoundingBox
    decreases refs.len(),
{
    if refs.len() == 0 {
        BoundingBox::spec_empty()
    } else {
        spec_refs_envelope(refs.drop_last(), cache).spec_enclose(
            spec_unpack(cache.entry(refs.last() as int)),
        )
    }
}

/// What one edge entity contributes under a mode.
pub open spec fn spec_way_stats(
    refs: Seq<i64>,
    mode: ResolveMode,
    cache: LocationCache,
) -> StatsAccumulator {
    match mode {
        ResolveMode::Resolve | ResolveMode::Vector => spec_resolve_refs(
            refs,
            cache,
            StatsAccumulator::spec_identity(),
        ),
        ResolveMode::Geometry => {
            if refs.len() < 2 {
                StatsAccumulator {
                    errors: 1,
                    ..StatsAccumulator::spec_identity()
                }
            } else {
                StatsAccumulator {
                    ways_resolved: 1,
                    bbox: spec_refs_envelope(refs, cache),
                    ..StatsAccumulator::spec_identity()
                }
            }
        },
    }
}

/// What one block's edges contribute under a mode, in order.
pub open spec fn spec_ways_block(
    edges: Seq<EdgeEntity>,
    mode: ResolveMode,
    cache: LocationCache,
) -> StatsAccumulator
    decreases edges.len(),
{
    if edges.len() == 0 {
        StatsAccumulator::spec_identity()
    } else {
        spec_ways_block(edges.drop_last(), mode, cache).spec_combine(
            spec_way_stats(edges.last().refs@, mode, cache),
        )
    }
}

/// What the whole container's edges contribute under a mode.
pub open spec fn spec_ways_container(
    blocks: Seq<Block>,
    mode: ResolveMode,
    cache: LocationCache,
) -> StatsAccumulator
    decreases blocks.len(),
{
    if blocks.len() == 0 {
        StatsAccumulator::spec_identity()
    } else {
        spec_ways_container(blocks.drop_last(), mode, cache).spec_combine(
            spec_ways_block(blocks.last().edges@, mode, cache),
        )
    }
}

/// Resolves one edge entity's references under a mode.
pub fn resolve_way(refs: &Vec<i64>, mode: ResolveMode, cache: &LocationCache) -> (r:
    StatsAccumulator)
    requires
        cache.well_formed(),
        spec_refs_valid(refs@),
    ensures
        r == spec_way_stats(refs@, mode, *cache),
{
    let mut stats = StatsAccumulator::identity();
    match mode {
        ResolveMode::Resolve | ResolveMode::Vector => {
            let mut i: usize = 0;
            while i < refs.len()
                invariant
                    i <= refs.len(),
                    cache.well_formed(),
                    spec_refs_valid(refs@),
                    stats == spec_resolve_refs(
                        refs@.take(i as int),
                        *cache,
                        StatsAccumulator::spec_identity(),
                    ),
                decreases refs.len() - i,
            {
                assert(valid_point_id(refs@[i as int]));
                let coord = cache.get_coordinate(refs[i] as u64);
                stats.add_point(coord);
                i = i + 1;
                assert(refs@.take(i as int).drop_last() =~= refs@.take(i - 1 as int));
                assert(refs@.take(i as int).last() == refs@[i - 1]);
            }
            assert(refs@.take(refs@.len() as int) =~= refs@);
            stats
        },
        ResolveMode::Geometry => {
            if refs.len() < 2 {
                stats.errors = 1;
                return stats;
            }
            let mut envelope = BoundingBox::empty();
            let mut i: usize = 0;
            while i < refs.len()
                invariant
                    i <= refs.len(),
                    cache.well_formed(),
                    spec_refs_valid(refs@),
                    envelope == spec_refs_envelope(refs@.take(i as int), *cache),
                decreases refs.len() - i,
            {
                assert(valid_point_id(refs@[i as int]));
                let coord = cache.get_coordinate(refs[i] as u64);
                envelope.enclose(coord);
                i = i + 1;
                assert(refs@.take(i as int).drop_last() =~= refs@.take(i - 1 as int));
                assert(refs@.take(i as int).last() == refs@[i - 1]);
            }
            assert(refs@.take(refs@.len() as int) =~= refs@);
            stats.ways_resolved = 1;
            stats.bbox = envelope;
            stats
        },
    }
}

/// Resolves every edge entity of the container under a mode, applying the
/// access-pattern hints first (without strict enforcement, so they never
/// fail the run), and merges the contributions in container order.
pub fn run(blocks: &Vec<Block>, mode: ResolveMode, cache: &LocationCache, advice: &OptAdvice) -> (r:
    StatsAccumulator)
    requires
        cache.well_formed(),
        spec_container_wf(blocks@),
    ensures
        r == spec_ways_container(blocks@, mode, *cache),
{
    let _advised = cache.advise(advice, false);
    let mut acc = StatsAccumulator::identity();
    let mut i: usize = 0;
    while i < blocks.len()
        invariant
            i <= blocks.len(),
            cache.well_formed(),
            spec_container_wf(blocks@),
            acc == spec_ways_container(blocks@.take(i as int), mode, *cache),
        decreases blocks.len() - i,
    {
        let ghost prefix = blocks@.take(i as int);
        let block = &blocks[i];
        let mut j: usize = 0;
        while j < block.edges.len()
            invariant
                j <= block.edges.len(),
                cache.well_formed(),
                block.well_formed(),
                acc == spec_ways_container(prefix, mode, *cache).spec_combine(
                    spec_ways_block(block.edges@.take(j as int), mode, *cache),
                ),
            decreases block.edges.len() - j,
        {
            let ghost edges_prefix = block.edges@.take(j as int);
            assert(spec_refs_valid(block.edges@[j as int].refs@));
            let delta = resolve_way(&block.edges[j].refs, mode, cache);
            proof {
                crate::stats::lemma_combine_associative(
                    spec_ways_container(prefix, mode, *cache),
                    spec_ways_block(edges_prefix, mode, *cache),
                    delta,
                );
            }
            acc.combine(&delta);
            j = j + 1;
            assert(block.edges@.take(j as int).drop_last() =~= block.edges@.take(j - 1 as int));
            assert(block.edges@.take(j as int).last() == block.edges@[j - 1]);
        }
        assert(block.edges@.take(block.edges@.len() as int) =~= block.edges@);
        i = i + 1;
        proof {
            let stepped = blocks@.take(i as int);
            assert(stepped.drop_last() =~= prefix);
            assert(stepped.last() == blocks@[i - 1]);
        }
    }
    assert(blocks@.take(blocks@.len() as int) =~= blocks@);
    acc
}

} // verus!
