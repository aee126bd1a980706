//! The chunk scheduler and multi-pass resolver.
//!
//! Resolution walks the container once per chunk — a bounded sub-range of
//! the point-identity space sized to the memory budget — resolving each edge
//! entity in the pass whose chunk covers its greatest reference and
//! deferring it in every other pass. Cross-pass progress lives in a
//! `RunState`: the greatest referenced identity decides termination, and the
//! first offset holding a non-point entity lets later passes skip the
//! point-only prefix of the container.

use vstd::arithmetic::div_mod::lemma_fundamental_div_mod_converse;
use vstd::arithmetic::mul::{
    lemma_mul_inequality, lemma_mul_is_distributive_add_other_way, lemma_mul_nonnegative,
    lemma_mul_strictly_positive,
};
use vstd::prelude::*;

use crate::block::{
    spec_container_matches, spec_container_ok, spec_container_wf, spec_refs_valid, valid_point_id,
    Block, EdgeEntity, MAX_POINT_ID,
};
use crate::cache::LocationCache;
use crate::coords::spec_unpack;
use crate::error::{ConfigFault, RunError};
use crate::stats::{spec_max_i64, StatsAccumulator};

verus! {

/// A half-open range `[start, start + size)` of point identities, the unit
/// of one resolution pass.
#[derive(Clone, Copy, Debug, PartialEq, Eq, Structural)]
pub struct Chunk {
    pub start: i64,
    pub size: i64,
}

impl Chunk {
    pub open spec fn well_formed(self) -> bool {
        0 <= self.start && 1 <= self.size
    }

    pub open spec fn spec_contains(self, id: i64) -> bool {
        self.start <= id && id - self.start < self.size
    }

    /// Whether the identity lies inside this chunk.
    pub fn contains(self, id: i64) -> (r: bool)
        requires
            self.well_formed(),
            0 <= id,
        ensures
            r == self.spec_contains(id),
    {
        id >= self.start && id - self.start < self.size
    }
}

/// The chunk standing for an unbounded single-pass resolution: it starts at
/// zero and covers every valid point identity.
pub open spec fn spec_full_chunk() -> Chunk {
    Chunk { start: 0, size: i64::MAX }
}

/// Shared cross-pass progress. Both fields move in one direction only: the
/// greatest referenced identity only grows, the first non-point offset only
/// shrinks, so concurrent workers can publish through atomic
/// maximum/minimum operations in any order.
#[derive(Clone, Copy, Debug, PartialEq, Eq, Structural)]
pub struct RunState {
    /// The greatest point identity referenced by any edge entity seen so
    /// far, never below zero.
    pub max_referenced_id: i64,
    /// The least container offset of a block seen holding a non-point
    /// entity; `u64::MAX` until one is seen.
    pub first_non_point_offset: u64,
}

impl RunState {
    pub open spec fn well_formed(self) -> bool {
        0 <= self.max_referenced_id
    }

    pub fn new() -> (r: RunState)
        ensures
            r == (RunState { max_referenced_id: 0, first_non_point_offset: u64::MAX }),
    {
        RunState { max_referenced_id: 0, first_non_point_offset: u64::MAX }
    }

    /// Raises the greatest referenced identity; it never shrinks.
    pub fn observe_id(&mut self, id: i64)
        ensures
            final(self).max_referenced_id == spec_max_i64(old(self).max_referenced_id, id),
            final(self).max_referenced_id >= old(self).max_referenced_id,
            final(self).first_non_point_offset == old(self).first_non_point_offset,
    {
        if id > self.max_referenced_id {
            self.max_referenced_id = id;
        }
    }

    /// Lowers the first non-point offset; it never grows.
    pub fn observe_non_point_offset(&mut self, offset: u64)
        ensures
            final(self).first_non_point_offset == spec_min_u64(
                old(self).first_non_point_offset,
                offset,
            ),
            final(self).first_non_point_offset <= old(self).first_non_point_offset,
            final(self).max_referenced_id == old(self).max_referenced_id,
    {
        if offset < self.first_non_point_offset {
            self.first_non_point_offset = offset;
        }
    }
}

pub open spec fn spec_min_u64(a: u64, b: u64) -> u64 {
    if a <= b {
        a
    } else {
        b
    }
}

// ---------------------------------------------------------------------------
// What one pass computes, stated over the container and the cache.
// ---------------------------------------------------------------------------
/// The greatest reference in a list, folded over a floor value.
pub open spec fn spec_refs_max(refs: Seq<i64>, floor: i64) -> i64
    decreases refs.len(),
{
    if refs.len() == 0 {
        floor
    } else {
        spec_max_i64(spec_refs_max(refs.drop_last(), floor), refs.last())
    }
}

/// The greatest identity an edge references; `i64::MIN` for an edge with no
/// references.
pub open spec fn spec_edge_max(refs: Seq<i64>) -> i64 {
    spec_refs_max(refs, i64::MIN)
}

/// The greatest identity any edge of the block references, folded over a
/// floor value.
pub open spec fn spec_block_max(edges: Seq<EdgeEntity>, floor: i64) -> i64
    decreases edges.len(),
{
    if edges.len() == 0 {
        floor
    } else {
        spec_max_i64(spec_block_max(edges.drop_last(), floor), spec_edge_max(edges.last().refs@))
    }
}

/// The greatest identity any edge of the container references, folded over
/// a floor value. The resolver's floor is zero: with no edges at all, one
/// pass over the chunk starting at zero still runs.
pub open spec fn spec_blocks_max(blocks: Seq<Block>, floor: i64) -> i64
    decreases blocks.len(),
{
    if blocks.len() == 0 {
        floor
    } else {
        spec_max_i64(
            spec_blocks_max(blocks.drop_last(), floor),
            spec_block_max(blocks.last().edges@, i64::MIN),
        )
    }
}

/// The least offset of a block holding a non-point entity, folded over a
/// ceiling value; `u64::MAX` when no such block exists.
pub open spec fn spec_blocks_non_point(blocks: Seq<Block>, ceiling: u64) -> u64
    decreases blocks.len(),
{
    if blocks.len() == 0 {
        ceiling
    } else {
        let front = spec_blocks_non_point(blocks.drop_last(), ceiling);
        if blocks.last().has_non_point {
            spec_min_u64(front, blocks.last().offset)
        } else {
            front
        }
    }
}

/// An accumulator holding exactly one resolved edge entity.
pub open spec fn spec_one_resolved() -> StatsAccumulator {
    StatsAccumulator { ways_resolved: 1, ..StatsAccumulator::spec_identity() }
}

/// An accumulator holding exactly one deferred edge entity.
pub open spec fn spec_one_deferred() -> StatsAccumulator {
    StatsAccumulator { ways_deferred: 1, ..StatsAccumulator::spec_identity() }
}

/// The references of an edge resolved through the cache and folded into an
/// accumulator, in order.
pub open spec fn spec_resolve_refs(
    refs: Seq<i64>,
    cache: LocationCache,
    acc: StatsAccumulator,
) -> StatsAccumulator
    decreases refs.len(),
{
    if refs.len() == 0 {
        acc
    } else {
        spec_resolve_refs(refs.drop_last(), cache, acc).spec_add_point(
            spec_unpack(cache.entry(refs.last() as int)),
        )
    }
}

/// What one edge entity contributes to the pass over `chunk`:
/// - an edge with no references is counted as resolved exactly once, in the
///   chunk starting at zero, and contributes nothing elsewhere;
/// - an edge whose greatest reference lies in the chunk is resolved: every
///   reference is looked up and folded into the bounding box;
/// - any other edge is deferred for this pass.
pub open spec fn spec_edge_pass(
    refs: Seq<i64>,
    chunk: Chunk,
    cache: LocationCache,
) -> StatsAccumulator {
    if refs.len() == 0 {
        if chunk.start == 0 {
            spec_one_resolved()
        } else {
            StatsAccumulator::spec_identity()
        }
    } else if chunk.spec_contains(spec_edge_max(refs)) {
        spec_resolve_refs(refs, cache, spec_one_resolved())
    } else {
        spec_one_deferred()
    }
}

/// What one block contributes to the pass over `chunk`: its edges'
/// contributions combined in order.
pub open spec fn spec_block_pass(
    edges: Seq<EdgeEntity>,
    chunk: Chunk,
    cache: LocationCache,
) -> StatsAccumulator
    decreases edges.len(),
{
    if edges.len() == 0 {
        StatsAccumulator::spec_identity()
    } else {
        spec_block_pass(edges.drop_last(), chunk, cache).spec_combine(
            spec_edge_pass(edges.last().refs@, chunk, cache),
        )
    }
}

/// What one full pass over the container computes for `chunk`: the blocks'
/// contributions combined in container order.
pub open spec fn spec_container_pass(
    blocks: Seq<Block>,
    chunk: Chunk,
    cache: LocationCache,
) -> StatsAccumulator
    decreases blocks.len(),
{
    if blocks.len() == 0 {
        StatsAccumulator::spec_identity()
    } else {
        spec_container_pass(blocks.drop_last(), chunk, cache).spec_combine(
            spec_block_pass(blocks.last().edges@, chunk, cache),
        )
    }
}

/// Where a pass may start reading: at the recorded first non-point offset,
/// or at the container start while none is recorded.
pub open spec fn spec_skip_from(first_non_point: u64) -> u64 {
    if first_non_point == u64::MAX {
        0
    } else {
        first_non_point
    }
}

/// The recorded offset is safe to skip to: every block before it holds
/// point entities only.
pub open spec fn spec_skip_safe(blocks: Seq<Block>, first_non_point: u64) -> bool {
    forall|i: int|
        0 <= i < blocks.len() && blocks[i].offset < spec_skip_from(first_non_point)
            ==> !blocks[i].has_non_point
}

// ---------------------------------------------------------------------------
// The executable pass.
// ---------------------------------------------------------------------------
/// Processes one edge entity for the pass over `chunk`: computes the
/// greatest reference, defers or resolves per the chunk rule, and returns
/// the edge's statistics contribution together with that greatest reference
/// (`i64::MIN` for an edge without references).
pub fn resolve_edge(refs: &Vec<i64>, chunk: Chunk, cache: &LocationCache) -> (r: (
    StatsAccumulator,
    i64,
))
    requires
        chunk.well_formed(),
        cache.well_formed(),
        spec_refs_valid(refs@),
    ensures
        r.0 == spec_edge_pass(refs@, chunk, *cache),
        r.1 == spec_edge_max(refs@),
{
    if refs.len() == 0 {
        let mut stats = StatsAccumulator::identity();
        if chunk.start == 0 {
            stats.ways_resolved = 1;
        }
        assert(stats == spec_edge_pass(refs@, chunk, *cache));
        return (stats, i64::MIN);
    }
    let mut max_ref: i64 = i64::MIN;
    let mut i: usize = 0;
    while i < refs.len()
        invariant
            i <= refs.len(),
            max_ref == spec_refs_max(refs@.take(i as int), i64::MIN),
        decreases refs.len() - i,
    {
        if refs[i] > max_ref {
            max_ref = refs[i];
        }
        i = i + 1;
        assert(refs@.take(i as int).drop_last() =~= refs@.take(i - 1 as int));
    }
    assert(refs@.take(refs@.len() as int) =~= refs@);
    if !chunk.contains(max_ref) {
        let mut stats = StatsAccumulator::identity();
        stats.ways_deferred = 1;
        assert(stats == spec_one_deferred());
        return (stats, max_ref);
    }
    let mut stats = StatsAccumulator::identity();
    stats.ways_resolved = 1;
    assert(stats == spec_one_resolved());
    let mut i: usize = 0;
    while i < refs.len()
        invariant
            i <= refs.len(),
            cache.well_formed(),
            spec_refs_valid(refs@),
            stats == spec_resolve_refs(refs@.take(i as int), *cache, spec_one_resolved()),
        decreases refs.len() - i,
    {
        let id = refs[i];
        assert(valid_point_id(refs@[i as int]));
        let coord = cache.get_coordinate(id as u64);
        stats.add_point(coord);
        i = i + 1;
        assert(refs@.take(i as int).drop_last() =~= refs@.take(i - 1 as int));
        assert(refs@.take(i as int).last() == refs@[i - 1]);
    }
    assert(refs@.take(refs@.len() as int) =~= refs@);
    (stats, max_ref)
}

/// One pass over the container for `chunk`. Blocks before the recorded
/// first non-point offset are skipped; because such blocks are point-only,
/// the pass computes exactly what a scan from the container start would,
/// and that is what the contract states. The run state is raised to the
/// greatest identity referenced anywhere in the container and lowered to
/// the least offset holding a non-point entity.
pub fn run_pass(
    blocks: &Vec<Block>,
    chunk: Chunk,
    cache: &LocationCache,
    state: &mut RunState,
) -> (r: StatsAccumulator)
    requires
        chunk.well_formed(),
        cache.well_formed(),
        spec_container_wf(blocks@),
        old(state).well_formed(),
        spec_skip_safe(blocks@, old(state).first_non_point_offset),
    ensures
        r == spec_container_pass(blocks@, chunk, *cache),
        final(state).max_referenced_id == spec_blocks_max(blocks@, old(state).max_referenced_id),
        final(state).first_non_point_offset == spec_blocks_non_point(
            blocks@,
            old(state).first_non_point_offset,
        ),
        final(state).well_formed(),
{
    let skip_from: u64 = if state.first_non_point_offset == u64::MAX {
        0
    } else {
        state.first_non_point_offset
    };
    let mut acc = StatsAccumulator::identity();
    let mut i: usize = 0;
    while i < blocks.len()
        invariant
            i <= blocks.len(),
            chunk.well_formed(),
            cache.well_formed(),
            spec_container_wf(blocks@),
            skip_from == spec_skip_from(old(state).first_non_point_offset),
            spec_skip_safe(blocks@, old(state).first_non_point_offset),
            acc == spec_container_pass(blocks@.take(i as int), chunk, *cache),
            state.max_referenced_id == spec_blocks_max(
                blocks@.take(i as int),
                old(state).max_referenced_id,
            ),
            state.first_non_point_offset == spec_blocks_non_point(
                blocks@.take(i as int),
                old(state).first_non_point_offset,
            ),
            state.well_formed(),
        decreases blocks.len() - i,
    {
        let ghost prefix = blocks@.take(i as int);
        let block = &blocks[i];
        if block.offset >= skip_from {
            let mut j: usize = 0;
            while j < block.edges.len()
                invariant
                    j <= block.edges.len(),
                    chunk.well_formed(),
                    cache.well_formed(),
                    block.well_formed(),
                    acc == spec_container_pass(prefix, chunk, *cache).spec_combine(
                        spec_block_pass(block.edges@.take(j as int), chunk, *cache),
                    ),
                    state.max_referenced_id == spec_max_i64(
                        spec_blocks_max(prefix, old(state).max_referenced_id),
                        spec_block_max(block.edges@.take(j as int), i64::MIN),
                    ),
                    state.first_non_point_offset == spec_blocks_non_point(
                        prefix,
                        old(state).first_non_point_offset,
                    ),
                    state.well_formed(),
                decreases block.edges.len() - j,
            {
                let ghost edges_prefix = block.edges@.take(j as int);
                assert(spec_refs_valid(block.edges@[j as int].refs@));
                let (delta, edge_max) = resolve_edge(&block.edges[j].refs, chunk, cache);
                proof {
                    crate::stats::lemma_combine_associative(
                        spec_container_pass(prefix, chunk, *cache),
                        spec_block_pass(edges_prefix, chunk, *cache),
                        delta,
                    );
                }
                acc.combine(&delta);
                state.observe_id(edge_max);
                j = j + 1;
                assert(block.edges@.take(j as int).drop_last() =~= block.edges@.take(j - 1 as int));
                assert(block.edges@.take(j as int).last() == block.edges@[j - 1]);
            }
            assert(block.edges@.take(block.edges@.len() as int) =~= block.edges@);
            if block.has_non_point {
                state.observe_non_point_offset(block.offset);
            }
        } else {
            // The recorded offset was proven point-only by an earlier pass:
            // a skipped block holds no edges and no non-point entity, so it
            // contributes nothing to the pass, the maximum or the offset.
            assert(!block.has_non_point);
            assert(block.edges@.len() == 0);
            proof {
                crate::stats::lemma_combine_identity(spec_container_pass(prefix, chunk, *cache));
            }
        }
        i = i + 1;
        proof {
            let stepped = blocks@.take(i as int);
            assert(stepped.drop_last() =~= prefix);
            assert(stepped.last() == blocks@[i - 1]);
        }
    }
    assert(blocks@.take(blocks@.len() as int) =~= blocks@);
    acc
}

// ---------------------------------------------------------------------------
// Chunked resolution equals unbounded single-pass resolution.
// ---------------------------------------------------------------------------
/// The chunk a scheduler hands to pass number `j` at chunk size `size`.
pub open spec fn spec_nth_chunk(size: i64, j: int) -> Chunk {
    Chunk { start: (j * size) as i64, size }
}

/// What `passes` consecutive passes contribute for one edge entity.
pub open spec fn spec_chunked_edge(
    refs: Seq<i64>,
    cache: LocationCache,
    size: i64,
    passes: int,
) -> StatsAccumulator
    decreases passes,
{
    if passes <= 0 {
        StatsAccumulator::spec_identity()
    } else {
        spec_chunked_edge(refs, cache, size, passes - 1).spec_combine(
            spec_edge_pass(refs, spec_nth_chunk(size, passes - 1), cache),
        )
    }
}

/// What `passes` consecutive passes contribute for one block's edges.
pub open spec fn spec_chunked_block(
    edges: Seq<EdgeEntity>,
    cache: LocationCache,
    size: i64,
    passes: int,
) -> StatsAccumulator
    decreases passes,
{
    if passes <= 0 {
        StatsAccumulator::spec_identity()
    } else {
        spec_chunked_block(edges, cache, size, passes - 1).spec_combine(
            spec_block_pass(edges, spec_nth_chunk(size, passes - 1), cache),
        )
    }
}

/// What `passes` consecutive passes over the whole container compute, each
/// pass merged into the running aggregate.
pub open spec fn spec_chunked_container(
    blocks: Seq<Block>,
    cache: LocationCache,
    size: i64,
    passes: int,
) -> StatsAccumulator
    decreases passes,
{
    if passes <= 0 {
        StatsAccumulator::spec_identity()
    } else {
        spec_chunked_container(blocks, cache, size, passes - 1).spec_combine(
            spec_container_pass(blocks, spec_nth_chunk(size, passes - 1), cache),
        )
    }
}

/// Agreement on everything but the deferral counter: chunking defers each
/// edge once per pass that cannot resolve it, so only that counter may
/// depend on the chunk size.
pub open spec fn spec_matches_resolution(a: StatsAccumulator, b: StatsAccumulator) -> bool {
    &&& a.ways_resolved == b.ways_resolved
    &&& a.nodes_resolved == b.nodes_resolved
    &&& a.errors == b.errors
    &&& a.bbox == b.bbox
}

/// The combine respects four-way regrouping: merging two pairs is merging
/// the pairs' parts.
proof fn lemma_combine_exchange(
    a: StatsAccumulator,
    b: StatsAccumulator,
    c: StatsAccumulator,
    d: StatsAccumulator,
)
    ensures
        a.spec_combine(b).spec_combine(c.spec_combine(d)) == a.spec_combine(c).spec_combine(
            b.spec_combine(d),
        ),
{
}

/// Agreement outside the deferral counter is preserved by the combine.
proof fn lemma_matches_congruence(
    a: StatsAccumulator,
    b: StatsAccumulator,
    c: StatsAccumulator,
    d: StatsAccumulator,
)
    requires
        spec_matches_resolution(a, c),
        spec_matches_resolution(b, d),
    ensures
        spec_matches_resolution(a.spec_combine(b), c.spec_combine(d)),
{
}

/// A non-empty edge list's greatest reference lies in the valid identity
/// range.
proof fn lemma_edge_max_bounds(refs: Seq<i64>)
    requires
        refs.len() > 0,
        spec_refs_valid(refs),
    ensures
        0 <= spec_edge_max(refs) <= MAX_POINT_ID,
    decreases refs.len(),
{
    assert(valid_point_id(refs.last()));
    if refs.len() == 1 {
        assert(spec_refs_max(refs.drop_last(), i64::MIN) == i64::MIN);
    } else {
        assert forall|i: int| 0 <= i < refs.drop_last().len() implies valid_point_id(
            refs.drop_last()[i],
        ) by {
            assert(refs.drop_last()[i] == refs[i]);
        }
        lemma_edge_max_bounds(refs.drop_last());
    }
}

/// Splitting the passes' sums at the last block: the chunked sum over a
/// container is the chunked sum over its front combined with the last
/// block's own chunked sum.
proof fn lemma_chunked_container_unfold(
    blocks: Seq<Block>,
    cache: LocationCache,
    size: i64,
    passes: int,
)
    requires
        blocks.len() > 0,
        passes >= 0,
    ensures
        spec_chunked_container(blocks, cache, size, passes) == spec_chunked_container(
            blocks.drop_last(),
            cache,
            size,
            passes,
        ).spec_combine(spec_chunked_block(blocks.last().edges@, cache, size, passes)),
    decreases passes,
{
    if passes <= 0 {
        crate::stats::lemma_combine_identity(StatsAccumulator::spec_identity());
    } else {
        lemma_chunked_container_unfold(blocks, cache, size, passes - 1);
        lemma_combine_exchange(
            spec_chunked_container(blocks.drop_last(), cache, size, passes - 1),
            spec_chunked_block(blocks.last().edges@, cache, size, passes - 1),
            spec_container_pass(blocks.drop_last(), spec_nth_chunk(size, passes - 1), cache),
            spec_block_pass(blocks.last().edges@, spec_nth_chunk(size, passes - 1), cache),
        );
    }
}

/// Splitting the passes' sums at the last edge of a block.
proof fn lemma_chunked_block_unfold(
    edges: Seq<EdgeEntity>,
    cache: LocationCache,
    size: i64,
    passes: int,
)
    requires
        edges.len() > 0,
        passes >= 0,
    ensures
        spec_chunked_block(edges, cache, size, passes) == spec_chunked_block(
            edges.drop_last(),
            cache,
            size,
            passes,
        ).spec_combine(spec_chunked_edge(edges.last().refs@, cache, size, passes)),
    decreases passes,
{
    if passes <= 0 {
        crate::stats::lemma_combine_identity(StatsAccumulator::spec_identity());
    } else {
        lemma_chunked_block_unfold(edges, cache, size, passes - 1);
        lemma_combine_exchange(
            spec_chunked_block(edges.drop_last(), cache, size, passes - 1),
            spec_chunked_edge(edges.last().refs@, cache, size, passes - 1),
            spec_block_pass(edges.drop_last(), spec_nth_chunk(size, passes - 1), cache),
            spec_edge_pass(edges.last().refs@, spec_nth_chunk(size, passes - 1), cache),
        );
    }
}

/// Over enough passes, one edge's chunked contributions agree with its
/// unbounded single-pass contribution: it is resolved in exactly the pass
/// whose chunk covers its greatest reference — in no pass yet if that many
/// passes do not reach it — and deferrals touch no other counter.
proof fn lemma_chunked_edge_matches(refs: Seq<i64>, cache: LocationCache, size: i64, passes: int)
    requires
        spec_refs_valid(refs),
        1 <= size,
        0 <= passes,
        (passes - 1) * size <= i64::MAX,
    ensures
        spec_matches_resolution(
            spec_chunked_edge(refs, cache, size, passes),
            if (refs.len() == 0 && passes >= 1) || (refs.len() > 0 && spec_edge_max(refs) < passes
                * size) {
                spec_edge_pass(refs, spec_full_chunk(), cache)
            } else {
                StatsAccumulator::spec_identity()
            },
        ),
    decreases passes,
{
    if passes <= 0 {
        vstd::arithmetic::mul::lemma_mul_by_zero_is_zero(size as int);
        if refs.len() > 0 {
            lemma_edge_max_bounds(refs);
        }
        return ;
    }
    let prev = passes - 1;
    lemma_mul_inequality(prev - 1, prev, size as int);
    lemma_mul_nonnegative(prev, size as int);
    lemma_chunked_edge_matches(refs, cache, size, prev);
    let last_chunk = spec_nth_chunk(size, prev);
    assert(last_chunk.start == prev * size);
    if refs.len() == 0 {
        if passes == 1 {
            assert(last_chunk.start == 0) by {
                vstd::arithmetic::mul::lemma_mul_by_zero_is_zero(size as int);
            }
            assert(spec_edge_pass(refs, last_chunk, cache) == spec_one_resolved());
            assert(spec_edge_pass(refs, spec_full_chunk(), cache) == spec_one_resolved());
            crate::stats::lemma_combine_identity(spec_one_resolved());
        } else {
            assert(0 < prev * size) by {
                lemma_mul_strictly_positive(prev, size as int);
            }
            assert(spec_edge_pass(refs, last_chunk, cache)
                == StatsAccumulator::spec_identity());
            lemma_matches_congruence(
                spec_chunked_edge(refs, cache, size, prev),
                spec_edge_pass(refs, last_chunk, cache),
                spec_edge_pass(refs, spec_full_chunk(), cache),
                StatsAccumulator::spec_identity(),
            );
            crate::stats::lemma_combine_identity(spec_edge_pass(refs, spec_full_chunk(), cache));
        }
    } else {
        lemma_edge_max_bounds(refs);
        let m = spec_edge_max(refs);
        assert(spec_full_chunk().spec_contains(m));
        let full = spec_edge_pass(refs, spec_full_chunk(), cache);
        assert(full == spec_resolve_refs(refs, cache, spec_one_resolved()));
        if last_chunk.spec_contains(m) {
            // This is the single pass that resolves the edge.
            assert(prev * size <= m && m - prev * size < size);
            assert(m < passes * size) by {
                lemma_mul_is_distributive_add_other_way(size as int, prev, 1);
            }
            assert(!(m < prev * size));
            assert(spec_edge_pass(refs, last_chunk, cache) == full);
            lemma_matches_congruence(
                spec_chunked_edge(refs, cache, size, prev),
                spec_edge_pass(refs, last_chunk, cache),
                StatsAccumulator::spec_identity(),
                full,
            );
            crate::stats::lemma_combine_identity(full);
            crate::stats::lemma_combine_commutative(StatsAccumulator::spec_identity(), full);
        } else {
            // The last pass defers (or no longer sees) the edge; deferral
            // touches no counter the comparison watches.
            assert(spec_matches_resolution(
                spec_edge_pass(refs, last_chunk, cache),
                StatsAccumulator::spec_identity(),
            ));
            assert((m < passes * size) == (m < prev * size)) by {
                lemma_mul_is_distributive_add_other_way(size as int, prev, 1);
            }
            lemma_matches_congruence(
                spec_chunked_edge(refs, cache, size, prev),
                spec_edge_pass(refs, last_chunk, cache),
                if m < prev * size {
                    full
                } else {
                    StatsAccumulator::spec_identity()
                },
                StatsAccumulator::spec_identity(),
            );
            crate::stats::lemma_combine_identity(full);
            crate::stats::lemma_combine_identity(StatsAccumulator::spec_identity());
        }
    }
}

/// Over enough passes, one block's chunked contributions agree with its
/// unbounded single-pass contribution.
proof fn lemma_chunked_block_matches(
    edges: Seq<EdgeEntity>,
    cache: LocationCache,
    size: i64,
    passes: int,
)
    requires
        crate::block::spec_edges_valid(edges),
        1 <= size,
        1 <= passes,
        (passes - 1) * size <= i64::MAX,
        spec_block_max(edges, i64::MIN) < passes * size,
    ensures
        spec_matches_resolution(
            spec_chunked_block(edges, cache, size, passes),
            spec_block_pass(edges, spec_full_chunk(), cache),
        ),
    decreases edges.len(),
{
    if edges.len() == 0 {
        lemma_chunked_empty_block(edges, cache, size, passes);
    } else {
        let front = edges.drop_last();
        let refs = edges.last().refs@;
        assert(crate::block::spec_edges_valid(front));
        assert(spec_refs_valid(refs));
        lemma_chunked_block_unfold(edges, cache, size, passes);
        lemma_chunked_block_matches(front, cache, size, passes);
        lemma_chunked_edge_matches(refs, cache, size, passes);
        if refs.len() > 0 {
            assert(spec_edge_max(refs) <= spec_block_max(edges, i64::MIN));
        }
        lemma_matches_congruence(
            spec_chunked_block(front, cache, size, passes),
            spec_chunked_edge(refs, cache, size, passes),
            spec_block_pass(front, spec_full_chunk(), cache),
            spec_edge_pass(refs, spec_full_chunk(), cache),
        );
    }
}

/// A block with no edges contributes nothing, in any number of passes.
proof fn lemma_chunked_empty_block(
    edges: Seq<EdgeEntity>,
    cache: LocationCache,
    size: i64,
    passes: int,
)
    requires
        edges.len() == 0,
    ensures
        spec_chunked_block(edges, cache, size, passes) == StatsAccumulator::spec_identity(),
    decreases passes,
{
    if passes > 0 {
        lemma_chunked_empty_block(edges, cache, size, passes - 1);
        crate::stats::lemma_combine_identity(StatsAccumulator::spec_identity());
    }
}

/// Chunked multi-pass resolution computes the same resolved counts and the
/// same bounding box as an unbounded single-pass resolution of the same
/// container through the same cache, for any chunk size — only the deferral
/// counter depends on the chunking. `passes` must be enough for the chunks
/// to cover every referenced identity.
pub proof fn lemma_chunked_matches_single_pass(
    blocks: Seq<Block>,
    cache: LocationCache,
    size: i64,
    passes: int,
)
    requires
        spec_container_wf(blocks),
        1 <= size,
        1 <= passes,
        (passes - 1) * size <= i64::MAX,
        spec_blocks_max(blocks, 0) < passes * size,
    ensures
        spec_matches_resolution(
            spec_chunked_container(blocks, cache, size, passes),
            spec_container_pass(blocks, spec_full_chunk(), cache),
        ),
    decreases blocks.len(),
{
    if blocks.len() == 0 {
        lemma_chunked_empty_container(blocks, cache, size, passes);
    } else {
        let front = blocks.drop_last();
        let edges = blocks.last().edges@;
        assert(spec_container_wf(front)) by {
            assert(forall|i: int|
                0 <= i < front.len() ==> front[i] == blocks[i] && blocks[i].well_formed());
        }
        assert(blocks.last().well_formed());
        assert(spec_blocks_max(front, 0) <= spec_blocks_max(blocks, 0));
        assert(spec_block_max(edges, i64::MIN) <= spec_blocks_max(blocks, 0));
        lemma_chunked_container_unfold(blocks, cache, size, passes);
        lemma_chunked_matches_single_pass(front, cache, size, passes);
        lemma_chunked_block_matches(edges, cache, size, passes);
        lemma_matches_congruence(
            spec_chunked_container(front, cache, size, passes),
            spec_chunked_block(edges, cache, size, passes),
            spec_container_pass(front, spec_full_chunk(), cache),
            spec_block_pass(edges, spec_full_chunk(), cache),
        );
    }
}

/// Chunked resolutions at any two chunk sizes agree on the resolved counts
/// and the bounding box, each pass count being enough for its chunks to
/// cover every referenced identity: both equal the unbounded single pass.
pub proof fn lemma_chunk_size_independent(
    blocks: Seq<Block>,
    cache: LocationCache,
    first_size: i64,
    first_passes: int,
    second_size: i64,
    second_passes: int,
)
    requires
        spec_container_wf(blocks),
        1 <= first_size,
        1 <= first_passes,
        (first_passes - 1) * first_size <= i64::MAX,
        spec_blocks_max(blocks, 0) < first_passes * first_size,
        1 <= second_size,
        1 <= second_passes,
        (second_passes - 1) * second_size <= i64::MAX,
        spec_blocks_max(blocks, 0) < second_passes * second_size,
    ensures
        spec_matches_resolution(
            spec_chunked_container(blocks, cache, first_size, first_passes),
            spec_chunked_container(blocks, cache, second_size, second_passes),
        ),
{
    lemma_chunked_matches_single_pass(blocks, cache, first_size, first_passes);
    lemma_chunked_matches_single_pass(blocks, cache, second_size, second_passes);
}

/// An empty container contributes nothing, in any number of passes.
proof fn lemma_chunked_empty_container(
    blocks: Seq<Block>,
    cache: LocationCache,
    size: i64,
    passes: int,
)
    requires
        blocks.len() == 0,
    ensures
        spec_chunked_container(blocks, cache, size, passes) == StatsAccumulator::spec_identity(),
    decreases passes,
{
    if passes > 0 {
        lemma_chunked_empty_container(blocks, cache, size, passes - 1);
        crate::stats::lemma_combine_identity(StatsAccumulator::spec_identity());
    }
}

// ---------------------------------------------------------------------------
// Cross-pass state facts the scheduler relies on.
// ---------------------------------------------------------------------------
/// Folding the container's maximum over a floor is taking the floor's
/// maximum with the pure fold, so a second pass over the same container
/// cannot raise the recorded maximum further.
proof fn lemma_blocks_max_seed(blocks: Seq<Block>, floor: i64)
    ensures
        spec_blocks_max(blocks, floor) == spec_max_i64(
            floor,
            spec_blocks_max(blocks, i64::MIN),
        ),
    decreases blocks.len(),
{
    if blocks.len() > 0 {
        lemma_blocks_max_seed(blocks.drop_last(), floor);
    }
}

/// The same for the first non-point offset and its ceiling.
proof fn lemma_blocks_non_point_seed(blocks: Seq<Block>, ceiling: u64)
    ensures
        spec_blocks_non_point(blocks, ceiling) == spec_min_u64(
            ceiling,
            spec_blocks_non_point(blocks, u64::MAX),
        ),
    decreases blocks.len(),
{
    if blocks.len() > 0 {
        lemma_blocks_non_point_seed(blocks.drop_last(), ceiling);
    }
}

/// The folded first non-point offset lies at or below the offset of every
/// block holding a non-point entity.
proof fn lemma_blocks_non_point_le(blocks: Seq<Block>, ceiling: u64, i: int)
    requires
        0 <= i < blocks.len(),
        blocks[i].has_non_point,
    ensures
        spec_blocks_non_point(blocks, ceiling) <= blocks[i].offset,
    decreases blocks.len(),
{
    if i < blocks.len() - 1 {
        assert(blocks.drop_last()[i] == blocks[i]);
        lemma_blocks_non_point_le(blocks.drop_last(), ceiling, i);
    }
}

/// After any pass records the first non-point offset, that offset is safe
/// to skip to: every block before it is point-only. This is the ground for
/// the skip optimization of every later pass.
pub proof fn lemma_skip_safe_after_pass(blocks: Seq<Block>, ceiling: u64)
    ensures
        spec_skip_safe(blocks, spec_blocks_non_point(blocks, ceiling)),
{
    let np = spec_blocks_non_point(blocks, ceiling);
    assert forall|i: int|
        0 <= i < blocks.len() && blocks[i].offset < spec_skip_from(np) implies !blocks[
        i
    ].has_non_point by {
        if blocks[i].has_non_point {
            lemma_blocks_non_point_le(blocks, ceiling, i);
        }
    }
}

// ---------------------------------------------------------------------------
// The scheduler and the multi-pass driver.
// ---------------------------------------------------------------------------
/// Where the scheduler stands between passes: scanning a chunk, or done.
#[derive(Clone, Copy, Debug, PartialEq, Eq, Structural)]
pub enum SchedulerState {
    Scanning(Chunk),
    Done,
}

/// The transition rule evaluated after a pass completes: if the cumulative
/// greatest referenced identity reaches the current chunk's upper bound,
/// the next chunk is scanned; otherwise the resolution is done. A chunk
/// that would start beyond the identity space also ends the run.
pub fn next_state(current: Chunk, state: &RunState) -> (r: SchedulerState)
    requires
        current.well_formed(),
        state.well_formed(),
    ensures
        r matches SchedulerState::Scanning(next) ==> {
            &&& next.start == current.start + current.size
            &&& next.size == current.size
            &&& next.well_formed()
            &&& state.max_referenced_id - current.start >= current.size
        },
        r is Done ==> state.max_referenced_id - current.start < current.size || current.start
            + current.size > i64::MAX - 1,
    {
    if state.max_referenced_id >= current.start && state.max_referenced_id - current.start
        >= current.size {
        SchedulerState::Scanning(Chunk { start: current.start + current.size, size: current.size })
    } else {
        SchedulerState::Done
    }
}

/// How many passes a resolution at `chunk_size` takes: enough consecutive
/// chunks to cover the greatest referenced identity, discovered
/// incrementally rather than known up front.
pub open spec fn spec_total_passes(blocks: Seq<Block>, chunk_size: i64) -> int {
    (spec_blocks_max(blocks, 0) as int) / (chunk_size as int) + 1
}

/// The chunked multi-pass resolution of a decoded container through a
/// location cache. Passes proceed by increasing chunk, starting at zero,
/// until the cumulative greatest referenced identity falls short of the
/// chunk's upper bound; every pass after the first skips the proven
/// point-only prefix. The outcome is exactly the merge of every pass's
/// contribution, and it carries the same resolved counts and the same
/// bounding box as one unbounded pass over the same container — the chunk
/// size decides only how often edges are deferred.
pub fn run(blocks: &Vec<Block>, chunk_size: i64, cache: &LocationCache) -> (r: Result<
    StatsAccumulator,
    RunError,
>)
    requires
        cache.well_formed(),
        spec_container_wf(blocks@),
    ensures
        (r matches Ok(stats)) <==> 1 <= chunk_size,
        r matches Err(e) ==> e.is_configuration(),
        r matches Ok(stats) ==> stats == spec_chunked_container(
            blocks@,
            *cache,
            chunk_size,
            spec_total_passes(blocks@, chunk_size),
        ),
        r matches Ok(stats) ==> spec_matches_resolution(
            stats,
            spec_container_pass(blocks@, spec_full_chunk(), *cache),
        ),
{
    if chunk_size < 1 {
        return Err(RunError::ConfigurationError { fault: ConfigFault::ZeroChunkSize });
    }
    let ghost global_max = spec_blocks_max(blocks@, 0);
    let ghost global_np = spec_blocks_non_point(blocks@, u64::MAX);
    proof {
        lemma_blocks_max_seed(blocks@, 0);
    }
    let mut state = RunState::new();
    let mut acc = StatsAccumulator::identity();
    let mut chunk = Chunk { start: 0, size: chunk_size };
    let ghost mut passes: int = 0;
    loop
        invariant_except_break
            1 <= chunk_size,
            chunk.size == chunk_size,
            0 <= chunk.start,
            cache.well_formed(),
            spec_container_wf(blocks@),
            0 <= passes,
            chunk.start == passes * chunk_size,
            chunk.start <= global_max,
            global_max == spec_blocks_max(blocks@, 0),
            global_np == spec_blocks_non_point(blocks@, u64::MAX),
            acc == spec_chunked_container(blocks@, *cache, chunk_size, passes),
            state.well_formed(),
            passes == 0 ==> state.max_referenced_id == 0 && state.first_non_point_offset
                == u64::MAX,
            passes >= 1 ==> state.max_referenced_id == global_max
                && state.first_non_point_offset == global_np,
        ensures
            1 <= passes,
            chunk.size == chunk_size,
            chunk.start == (passes - 1) * chunk_size,
            chunk.start <= global_max,
            acc == spec_chunked_container(blocks@, *cache, chunk_size, passes),
            global_max < passes * chunk_size,
        decreases global_max - chunk.start,
    {
        proof {
            if passes == 0 {
                assert(spec_skip_safe(blocks@, state.first_non_point_offset));
            } else {
                lemma_skip_safe_after_pass(blocks@, u64::MAX);
            }
        }
        let ghost max_before = state.max_referenced_id;
        let ghost np_before = state.first_non_point_offset;
        let delta = run_pass(blocks, chunk, cache, &mut state);
        acc.combine(&delta);
        proof {
            passes = passes + 1;
            lemma_blocks_max_seed(blocks@, 0);
            lemma_blocks_max_seed(blocks@, max_before);
            lemma_blocks_non_point_seed(blocks@, np_before);
        }
        if state.max_referenced_id >= chunk.start && state.max_referenced_id - chunk.start
            >= chunk.size {
            let next_start = chunk.start + chunk.size;
            proof {
                lemma_mul_is_distributive_add_other_way(chunk_size as int, passes - 1, 1);
            }
            chunk = Chunk { start: next_start, size: chunk_size };
        } else {
            proof {
                lemma_mul_is_distributive_add_other_way(chunk_size as int, passes - 1, 1);
            }
            break ;
        }
    }
    proof {
        lemma_chunked_matches_single_pass(blocks@, *cache, chunk_size, passes);
        lemma_mul_is_distributive_add_other_way(chunk_size as int, passes - 1, 1);
        lemma_fundamental_div_mod_converse(
            global_max as int,
            chunk_size as int,
            passes - 1,
            global_max - (passes - 1) * chunk_size,
        );
    }
    Ok(acc)
}

/// Decodes an in-memory container and resolves it in chunked passes,
/// fail-fast: the run succeeds exactly when every blob decodes cleanly
/// within the data model and the chunk size is positive. A malformed blob
/// aborts the whole run with its corruption fault — no blob is skipped
/// over, and no statistics are emitted. On success the statistics are those
/// of the chunked resolution of the container's normalized blocks, which
/// agree with an unbounded single pass on the resolved counts and the
/// bounding box.
pub fn run_blobs(blobs: &Vec<osmpbf::Blob>, chunk_size: i64, cache: &LocationCache) -> (r: Result<
    StatsAccumulator,
    RunError,
>)
    requires
        cache.well_formed(),
    ensures
        (r matches Ok(_)) <==> (1 <= chunk_size && spec_container_ok(blobs@)),
        r matches Err(e) ==> (e.is_corruption() <==> !spec_container_ok(blobs@)),
        r matches Err(e) ==> e.is_corruption() || e.is_configuration(),
        r matches Ok(stats) ==> exists|blocks: Seq<Block>|
            {
                &&& #[trigger] spec_container_matches(blocks, blobs@)
                &&& spec_container_wf(blocks)
                &&& stats == spec_chunked_container(
                    blocks,
                    *cache,
                    chunk_size,
                    spec_total_passes(blocks, chunk_size),
                )
                &&& spec_matches_resolution(
                    stats,
                    spec_container_pass(blocks, spec_full_chunk(), *cache),
                )
            },
{
    let blocks = match crate::block::decode_container(blobs) {
        Ok(blocks) => blocks,
        Err(e) => {
            return Err(e);
        },
    };
    match run(&blocks, chunk_size, cache) {
        Ok(stats) => {
            proof {
                assert(spec_container_matches(blocks@, blobs@) && spec_container_wf(blocks@)
                    && stats == spec_chunked_container(
                    blocks@,
                    *cache,
                    chunk_size,
                    spec_total_passes(blocks@, chunk_size),
                ) && spec_matches_resolution(
                    stats,
                    spec_container_pass(blocks@, spec_full_chunk(), *cache),
                ));
            }
            Ok(stats)
        },
        Err(e) => Err(e),
    }
}

// ---------------------------------------------------------------------------
// Configuration.
// ---------------------------------------------------------------------------
/// Derives the chunk size — how many point identities one pass covers —
/// from the memory budget in bytes and the record width. A non-positive
/// budget or record width is rejected before any run starts, as is a chunk
/// wider than the identity space.
pub fn chunk_size_for(memory_budget: u64, record_width: u64) -> (r: Result<i64, RunError>)
    ensures
        r matches Ok(s) ==> 1 <= s && s as u64 == memory_budget / record_width,
        (r matches Ok(s)) <==> (1 <= record_width <= memory_budget && memory_budget / record_width
            <= i64::MAX as u64),
        r matches Err(e) ==> e.is_configuration(),
{
    if record_width == 0 {
        return Err(RunError::ConfigurationError { fault: ConfigFault::ZeroRecordWidth });
    }
    let quotient = memory_budget / record_width;
    assert((memory_budget / record_width >= 1) <==> (record_width <= memory_budget))
        by (nonlinear_arith)
        requires
            1 <= record_width,
    ;
    if quotient == 0 {
        return Err(RunError::ConfigurationError { fault: ConfigFault::ZeroChunkSize });
    }
    if quotient > i64::MAX as u64 {
        return Err(RunError::ConfigurationError { fault: ConfigFault::ChunkTooLarge });
    }
    Ok(quotient as i64)
}

/// How deferred edges are treated: they are skipped for the pass and
/// attempted again once a later chunk covers their greatest reference.
#[derive(Clone, Copy, Debug, PartialEq, Eq, Structural)]
pub enum Mode {
    Skip,
}

/// What a chunked resolution run is asked to do: the deferral mode, the
/// container and backing-store paths, and the per-pass memory budget in
/// gigabytes.
#[derive(Clone, Debug)]
pub struct OptsChunkedResolver {
    pub mode: Mode,
    pub pbf_file: String,
    pub node_cache: String,
    pub mem_slice: u64,
}

/// How many point identities one gigabyte of budget covers at the cache's
/// eight-byte record width.
pub const IDS_PER_GIGABYTE: u64 = 134217728;

impl OptsChunkedResolver {
    /// The chunk size for a memory budget of `mem_slice` gigabytes at the
    /// cache's eight-byte record width. A zero budget, or one whose chunk
    /// would outgrow the identity space, is rejected before the run starts.
    pub fn chunk_size(&self) -> (r: Result<i64, RunError>)
        ensures
            r matches Ok(s) ==> 1 <= s && s as int == self.mem_slice * IDS_PER_GIGABYTE,
            (r matches Ok(s)) <==> (1 <= self.mem_slice && self.mem_slice * IDS_PER_GIGABYTE
                <= i64::MAX as int),
            r matches Err(e) ==> e.is_configuration(),
    {
        if self.mem_slice == 0 {
            return Err(RunError::ConfigurationError { fault: ConfigFault::ZeroChunkSize });
        }
        if self.mem_slice > 68719476735u64 {
            return Err(RunError::ConfigurationError { fault: ConfigFault::ChunkTooLarge });
        }
        Ok((self.mem_slice * IDS_PER_GIGABYTE) as i64)
    }
}

} // verus!
