//! Population: the pass that fills the location cache from the container's
//! point entities, and the dense-span record builder that prepares one
//! block's points for a sequential backing-store writer.

use vstd::prelude::*;
use vstd::string::StringExecFns;

use crate::block::{spec_container_wf, spec_points_valid, valid_point_id, Block, PointEntity};
use crate::cache::{LocationCache, OptAdvice};
use crate::coords::{spec_pack, SENTINEL_RECORD};
use crate::error::{ConfigFault, RunError};
use crate::resolver::spec_blocks_non_point;
use crate::stats::NodeStats;

verus! {

/// What a population run is asked to do: the container path, the backing
/// store path, and the access-pattern hints to apply first.
#[derive(Clone, Debug)]
pub struct OptsCacheNodes {
    pub pbf_file: String,
    pub node_cache: String,
    pub advice: OptAdvice,
}

/// What a sequential-writer population run is asked to do.
#[derive(Clone, Debug)]
pub struct OptsCacheNodes2 {
    pub pbf_file: String,
    pub node_cache: String,
}

/// Every point of the sequence addresses a record inside a cache of
/// `capacity` records.
pub open spec fn spec_points_in_capacity(points: Seq<PointEntity>, capacity: nat) -> bool {
    forall|i: int| 0 <= i < points.len() ==> points[i].id < capacity
}

/// Every point of every block addresses a record inside the cache.
pub open spec fn spec_container_in_capacity(blocks: Seq<Block>, capacity: nat) -> bool {
    forall|i: int| 0 <= i < blocks.len() ==> spec_points_in_capacity(blocks[i].points@, capacity)
}

/// The cache contents after one block's points are stored in order: each
/// point's record is written at its identity, later writes over earlier
/// ones.
pub open spec fn spec_store_points(points: Seq<PointEntity>, contents: Seq<u64>) -> Seq<u64>
    decreases points.len(),
{
    if points.len() == 0 {
        contents
    } else {
        spec_store_points(points.drop_last(), contents).update(
            points.last().id as int,
            spec_pack(points.last().coord),
        )
    }
}

/// The cache contents after every block's points are stored in container
/// order.
pub open spec fn spec_store_container(blocks: Seq<Block>, contents: Seq<u64>) -> Seq<u64>
    decreases blocks.len(),
{
    if blocks.len() == 0 {
        contents
    } else {
        spec_store_points(
            blocks.last().points@,
            spec_store_container(blocks.drop_last(), contents),
        )
    }
}

/// The population statistics after one block's points are counted in order.
pub open spec fn spec_count_points(points: Seq<PointEntity>, acc: NodeStats) -> NodeStats
    decreases points.len(),
{
    if points.len() == 0 {
        acc
    } else {
        spec_count_points(points.drop_last(), acc).spec_add_node(
            points.last().id,
            points.last().coord,
        )
    }
}

/// The population statistics after every block's points are counted.
pub open spec fn spec_count_container(blocks: Seq<Block>, acc: NodeStats) -> NodeStats
    decreases blocks.len(),
{
    if blocks.len() == 0 {
        acc
    } else {
        spec_count_points(blocks.last().points@, spec_count_container(blocks.drop_last(), acc))
    }
}

/// Stores one block's point entities into the cache, counting each into the
/// population statistics. A point addressing a record at or beyond the
/// cache capacity is a configuration fault — the cache was sized below the
/// greatest possible identity — and aborts the run; records already written
/// stay written, the cache is then incomplete and must be rebuilt.
pub fn store_block_points(block: &Block, cache: &mut LocationCache, stats: &mut NodeStats) -> (r:
    Result<(), RunError>)
    requires
        old(cache).well_formed(),
        block.well_formed(),
    ensures
        final(cache).well_formed(),
        final(cache).view().len() == old(cache).view().len(),
        (r matches Ok(())) <==> spec_points_in_capacity(
            block.points@,
            old(cache).view().len(),
        ),
        r matches Ok(()) ==> {
            &&& final(cache).view() == spec_store_points(block.points@, old(cache).view())
            &&& *final(stats) == spec_count_points(block.points@, *old(stats))
        },
        r matches Err(e) ==> e.is_configuration(),
{
    let capacity = cache.len();
    let mut i: usize = 0;
    while i < block.points.len()
        invariant
            i <= block.points.len(),
            block.well_formed(),
            cache.well_formed(),
            cache.view().len() == old(cache).view().len(),
            capacity == old(cache).view().len(),
            spec_points_in_capacity(block.points@.take(i as int), old(cache).view().len()),
            cache.view() == spec_store_points(block.points@.take(i as int), old(cache).view()),
            *stats == spec_count_points(block.points@.take(i as int), *old(stats)),
        decreases block.points.len() - i,
    {
        let p = block.points[i];
        assert(crate::block::valid_point_id(block.points@[i as int].id));
        if p.id as u64 >= capacity as u64 {
            return Err(
                RunError::ConfigurationError { fault: ConfigFault::CapacityExceeded },
            );
        }
        cache.set_coordinate(p.id as u64, p.coord);
        stats.add_node(p.id, p.coord);
        i = i + 1;
        proof {
            let stepped = block.points@.take(i as int);
            assert(stepped.drop_last() =~= block.points@.take(i - 1 as int));
            assert(stepped.last() == block.points@[i - 1]);
            assert(cache.view() =~= spec_store_points(stepped, old(cache).view()));
        }
    }
    assert(block.points@.take(block.points@.len() as int) =~= block.points@);
    Ok(())
}

/// Population over a decoded container: applies the access-pattern hints,
/// stores every point entity of every block into the cache, and reports the
/// least offset of a block holding non-point entities — `u64::MAX` if none
/// does — together with the population statistics. The run succeeds exactly
/// when every point fits the cache capacity; hints are applied without
/// strict enforcement, so they never fail the run.
pub fn run(blocks: &Vec<Block>, cache: &mut LocationCache, advice: &OptAdvice) -> (r: Result<
    (u64, NodeStats),
    RunError,
>)
    requires
        old(cache).well_formed(),
        spec_container_wf(blocks@),
    ensures
        final(cache).well_formed(),
        final(cache).view().len() == old(cache).view().len(),
        (r matches Ok(_)) <==> spec_container_in_capacity(blocks@, old(cache).view().len()),
        r matches Ok(out) ==> {
            &&& out.0 == spec_blocks_non_point(blocks@, u64::MAX)
            &&& out.1 == spec_count_container(blocks@, NodeStats::spec_identity())
            &&& final(cache).view() == spec_store_container(blocks@, old(cache).view())
        },
        r matches Err(e) ==> e.is_configuration(),
{
    let _advised = cache.advise(advice, false);
    let mut stats = NodeStats::identity();
    let mut first_non_point: u64 = u64::MAX;
    let mut i: usize = 0;
    while i < blocks.len()
        invariant
            i <= blocks.len(),
            spec_container_wf(blocks@),
            cache.well_formed(),
            cache.view().len() == old(cache).view().len(),
            spec_container_in_capacity(blocks@.take(i as int), old(cache).view().len()),
            cache.view() == spec_store_container(blocks@.take(i as int), old(cache).view()),
            stats == spec_count_container(blocks@.take(i as int), NodeStats::spec_identity()),
            first_non_point == spec_blocks_non_point(blocks@.take(i as int), u64::MAX),
        decreases blocks.len() - i,
    {
        let ghost prefix = blocks@.take(i as int);
        let block = &blocks[i];
        match store_block_points(block, cache, &mut stats) {
            Ok(()) => {},
            Err(e) => {
                return Err(e);
            },
        }
        if block.has_non_point && block.offset < first_non_point {
            first_non_point = block.offset;
        }
        i = i + 1;
        proof {
            let stepped = blocks@.take(i as int);
            assert(stepped.drop_last() =~= prefix);
            assert(stepped.last() == blocks@[i - 1]);
        }
    }
    assert(blocks@.take(blocks@.len() as int) =~= blocks@);
    Ok((first_non_point, stats))
}

/// The record a contents sequence reads for an identity: the stored value
/// inside the range, the sentinel outside it.
pub open spec fn spec_record_at(contents: Seq<u64>, id: int) -> u64 {
    if 0 <= id < contents.len() {
        contents[id]
    } else {
        SENTINEL_RECORD
    }
}

/// Storing a block's in-capacity points touches no other identity's record.
proof fn lemma_store_points_untouched(points: Seq<PointEntity>, contents: Seq<u64>, id: int)
    requires
        spec_points_valid(points),
        spec_points_in_capacity(points, contents.len()),
        forall|i: int| 0 <= i < points.len() ==> #[trigger] points[i].id != id,
    ensures
        spec_store_points(points, contents).len() == contents.len(),
        spec_record_at(spec_store_points(points, contents), id) == spec_record_at(contents, id),
    decreases points.len(),
{
    if points.len() > 0 {
        assert forall|i: int| 0 <= i < points.drop_last().len() implies #[trigger] points.drop_last()[i].id
            != id by {
            assert(points.drop_last()[i] == points[i]);
        }
        assert forall|i: int|
            0 <= i < points.drop_last().len() implies points.drop_last()[i].id
            < contents.len() && valid_point_id(points.drop_last()[i].id) by {
            assert(points.drop_last()[i] == points[i]);
            assert(valid_point_id(points[i].id));
        }
        lemma_store_points_untouched(points.drop_last(), contents, id);
        assert(points.last().id != id);
        assert(points.last().id < contents.len());
        assert(valid_point_id(points.last().id));
    }
}

/// Storing a whole in-capacity container's points touches no other
/// identity's record.
proof fn lemma_store_container_untouched(blocks: Seq<Block>, contents: Seq<u64>, id: int)
    requires
        spec_container_wf(blocks),
        spec_container_in_capacity(blocks, contents.len()),
        forall|b: int, p: int|
            0 <= b < blocks.len() && 0 <= p < blocks[b].points@.len() ==> #[trigger] blocks[
                b
            ].points@[p].id != id,
    ensures
        spec_store_container(blocks, contents).len() == contents.len(),
        spec_record_at(spec_store_container(blocks, contents), id) == spec_record_at(contents, id),
    decreases blocks.len(),
{
    if blocks.len() > 0 {
        let front = blocks.drop_last();
        assert forall|b: int, p: int|
            0 <= b < front.len() && 0 <= p < front[b].points@.len() implies #[trigger] front[
            b
        ].points@[p].id != id by {
            assert(front[b] == blocks[b]);
        }
        assert forall|b: int| 0 <= b < front.len() implies spec_points_in_capacity(
            #[trigger] front[b].points@,
            contents.len(),
        ) && front[b].well_formed() by {
            assert(front[b] == blocks[b]);
            assert(spec_points_in_capacity(blocks[b].points@, contents.len()));
            assert(blocks[b].well_formed());
        }
        lemma_store_container_untouched(front, contents, id);
        assert(blocks.last() == blocks[blocks.len() - 1]);
        assert(spec_points_in_capacity(blocks.last().points@, contents.len()));
        assert(blocks[blocks.len() - 1].well_formed());
        assert(spec_points_valid(blocks.last().points@));
        assert forall|i: int|
            0 <= i < blocks.last().points@.len() implies #[trigger] blocks.last().points@[i].id
            != id by {
            assert(blocks.last() == blocks[blocks.len() - 1]);
        }
        lemma_store_points_untouched(
            blocks.last().points@,
            spec_store_container(front, contents),
            id,
        );
    }
}

/// For every identity no point entity of the container carries, population
/// leaves the identity's record exactly as it was — so over a cache whose
/// records are all still the sentinel, every never-written identity still
/// reads the sentinel, never a neighboring record's value. The capacity
/// hypothesis is what a successful population run guarantees; together with
/// `run`'s contract on the final cache view this pins what `get` returns
/// at every never-written identity.
pub proof fn lemma_population_keeps_sentinel(blocks: Seq<Block>, contents: Seq<u64>, id: int)
    requires
        spec_container_wf(blocks),
        spec_container_in_capacity(blocks, contents.len()),
        forall|b: int, p: int|
            0 <= b < blocks.len() && 0 <= p < blocks[b].points@.len() ==> #[trigger] blocks[
                b
            ].points@[p].id != id,
        spec_record_at(contents, id) == SENTINEL_RECORD,
    ensures
        spec_record_at(spec_store_container(blocks, contents), id) == SENTINEL_RECORD,
{
    lemma_store_container_untouched(blocks, contents, id);
}

/// Population depends only on the normalized point entities, the offsets
/// and the non-point flags — never on the wire encoding that carried a
/// point. Two decoded containers that agree on those — as two containers
/// holding the same entities in plain and in dense encoding do — fill a
/// cache with identical records, report the same first non-point offset,
/// and count the same statistics.
pub proof fn lemma_population_encoding_independent(a: Seq<Block>, b: Seq<Block>, contents: Seq<u64>)
    requires
        a.len() == b.len(),
        forall|i: int| 0 <= i < a.len() ==> #[trigger] a[i].points@ == b[i].points@,
        forall|i: int| 0 <= i < a.len() ==> #[trigger] a[i].offset == b[i].offset,
        forall|i: int| 0 <= i < a.len() ==> #[trigger] a[i].has_non_point == b[i].has_non_point,
    ensures
        spec_store_container(a, contents) == spec_store_container(b, contents),
        spec_blocks_non_point(a, u64::MAX) == spec_blocks_non_point(b, u64::MAX),
        spec_count_container(a, NodeStats::spec_identity()) == spec_count_container(
            b,
            NodeStats::spec_identity(),
        ),
    decreases a.len(),
{
    if a.len() > 0 {
        let a_front = a.drop_last();
        let b_front = b.drop_last();
        assert forall|i: int|
            0 <= i < a_front.len() implies #[trigger] a_front[i].points@ == b_front[i].points@
            && a_front[i].offset == b_front[i].offset && a_front[i].has_non_point
            == b_front[i].has_non_point by {
            assert(a_front[i] == a[i]);
            assert(b_front[i] == b[i]);
            assert(a[i].points@ == b[i].points@);
            assert(a[i].offset == b[i].offset);
            assert(a[i].has_non_point == b[i].has_non_point);
        }
        lemma_population_encoding_independent(a_front, b_front, contents);
        assert(a.last() == a[a.len() - 1]);
        assert(b.last() == b[b.len() - 1]);
        assert(a.last().points@ == b.last().points@);
        assert(a.last().offset == b.last().offset);
        assert(a.last().has_non_point == b.last().has_non_point);
    }
}

// ---------------------------------------------------------------------------
// The dense-span builder.
// ---------------------------------------------------------------------------
/// Point identities strictly increase along the list.
pub open spec fn spec_strictly_increasing(points: Seq<PointEntity>) -> bool {
    forall|i: int, j: int|
        0 <= i < j < points.len() ==> #[trigger] points[i].id < #[trigger] points[j].id
}

/// A block whose points the dense builder accepts: identities strictly
/// increase, and the span from first to last identity fits the machine.
pub open spec fn spec_dense_ok(points: Seq<PointEntity>) -> bool {
    &&& spec_strictly_increasing(points)
    &&& (points.len() == 0 || points.last().id - points[0].id < usize::MAX)
}

/// A run of `n` zero records, the filler for identity gaps.
pub open spec fn spec_zeros(n: nat) -> Seq<u64> {
    Seq::new(n, |j: int| 0u64)
}

/// The dense record span of a strictly increasing point list: one record
/// per identity from the first point's to the last point's, each point's
/// packed coordinate at its identity's position and zero in every gap.
pub open spec fn spec_dense(points: Seq<PointEntity>, first: int) -> Seq<u64>
    decreases points.len(),
{
    if points.len() == 0 {
        Seq::empty()
    } else {
        let front = spec_dense(points.drop_last(), first);
        front + spec_zeros((points.last().id - first - front.len()) as nat) + seq![
            spec_pack(points.last().coord),
        ]
    }
}

/// Unrolling the dense span by one point: the span over one more point is
/// the span so far, the gap's zeros, then the point's packed record.
proof fn lemma_dense_extend(points: Seq<PointEntity>, i: int, first: int, zeros: nat)
    requires
        0 <= i < points.len(),
        zeros == points[i].id - first - spec_dense(points.take(i), first).len(),
    ensures
        spec_dense(points.take(i + 1), first) == spec_dense(points.take(i), first) + spec_zeros(
            zeros,
        ) + seq![spec_pack(points[i].coord)],
{
    assert(points.take(i + 1).drop_last() =~= points.take(i));
    assert(points.take(i + 1).last() == points[i]);
}

/// The dense span of a strictly increasing point list has one record per
/// identity from first to last, and each point's packed coordinate stands
/// exactly at its identity's position.
pub proof fn lemma_dense_lookup(points: Seq<PointEntity>, first: int, i: int)
    requires
        points.len() > 0,
        spec_strictly_increasing(points),
        first == points[0].id,
        0 <= i < points.len(),
    ensures
        spec_dense(points, first).len() == points.last().id - first + 1,
        0 <= points[i].id - first < spec_dense(points, first).len(),
        spec_dense(points, first)[points[i].id - first] == spec_pack(points[i].coord),
    decreases points.len(),
{
    let front = spec_dense(points.drop_last(), first);
    if points.len() == 1 {
        assert(spec_dense(points, first) =~= seq![spec_pack(points[0].coord)]);
    } else {
        assert(spec_strictly_increasing(points.drop_last())) by {
            assert forall|k: int, l: int| 0 <= k < l < points.drop_last().len() implies #[trigger] points.drop_last()[k].id
                < #[trigger] points.drop_last()[l].id by {
                assert(points.drop_last()[k] == points[k]);
                assert(points.drop_last()[l] == points[l]);
            }
        }
        assert(points.drop_last()[0] == points[0]);
        lemma_dense_lookup(points.drop_last(), first, points.len() - 2);
        assert(points[points.len() - 2].id < points[points.len() - 1].id);
        if i < points.len() - 1 {
            lemma_dense_lookup(points.drop_last(), first, i);
            assert(points.drop_last()[i] == points[i]);
            assert(spec_dense(points, first)[points[i].id - first] == front[points[i].id - first]);
        }
    }
}

/// Builds the dense record span for one block: the records to hand a
/// sequential writer, together with the first identity they start at.
/// `None` for a block without points. A block whose identities do not
/// strictly increase, or whose span outgrows the machine, is corrupt for
/// this builder and aborts the run.
/// Pads the record vector with zeros up to `target` and appends one value.
fn extend_dense(records: &mut Vec<u64>, target: usize, value: u64) -> (r: ())
    requires
        old(records)@.len() <= target,
        target < usize::MAX,
    ensures
        final(records)@ == old(records)@ + spec_zeros((target - old(records)@.len()) as nat)
            + seq![value],
{
    let ghost padded = records@.len();
    while records.len() < target
        invariant
            padded <= records@.len() <= target,
            records@ == old(records)@ + spec_zeros((records@.len() - padded) as nat),
        decreases target - records.len(),
    {
        records.push(0);
        assert(records@ =~= old(records)@ + spec_zeros((records@.len() - padded) as nat));
    }
    records.push(value);
}

/// Builds the dense record span for one block: the records to hand a
/// sequential writer, together with the first identity they start at.
/// `None` for a block without points. A block whose identities do not
/// strictly increase, or whose span outgrows the machine, is corrupt for
/// this builder and aborts the run.
pub fn block_to_dense(block: &Block) -> (r: Result<Option<(i64, Vec<u64>)>, RunError>)
    requires
        block.well_formed(),
    ensures
        (r matches Ok(out) && out is Some) <==> block.points@.len() > 0 && spec_dense_ok(
            block.points@,
        ),
        (r matches Ok(out) && out is None) <==> block.points@.len() == 0,
        r matches Ok(out) ==> (out matches Some(span) ==> {
            &&& span.0 == block.points@[0].id
            &&& span.1@ == spec_dense(block.points@, block.points@[0].id as int)
        }),
        r matches Err(e) ==> e.is_corruption(),
{
    if block.points.len() == 0 {
        return Ok(None);
    }
    let first = block.points[0].id;
    let mut records: Vec<u64> = Vec::new();
    let mut i: usize = 0;
    while i < block.points.len()
        invariant
            i <= block.points.len(),
            block.well_formed(),
            block.points@.len() > 0,
            first == block.points@[0].id,
            spec_strictly_increasing(block.points@.take(i as int)),
            i > 0 ==> records@.len() == block.points@[i - 1].id - first + 1,
            i == 0 ==> records@.len() == 0,
            records@ == spec_dense(block.points@.take(i as int), first as int),
        decreases block.points.len() - i,
    {
        let ghost prefix = block.points@.take(i as int);
        let p = block.points[i];
        assert(crate::block::valid_point_id(block.points@[i as int].id));
        if i > 0 {
            let previous = block.points[i - 1];
            if p.id <= previous.id {
                proof {
                    assert(!spec_strictly_increasing(block.points@)) by {
                        if spec_strictly_increasing(block.points@) {
                            assert(block.points@[i - 1].id < block.points@[i as int].id);
                        }
                    }
                }
                return Err(
                    RunError::ContainerCorruption {
                        offset: Some(block.offset),
                        detail: String::from_str(
                            "point identities in a block must strictly increase",
                        ),
                    },
                );
            }
        }
        if (p.id - first) as u64 >= usize::MAX as u64 {
            proof {
                if spec_strictly_increasing(block.points@) && (i as int) < block.points@.len()
                    - 1 {
                    assert(block.points@[i as int].id < block.points@[block.points@.len() - 1].id);
                }
            }
            return Err(
                RunError::ContainerCorruption {
                    offset: Some(block.offset),
                    detail: String::from_str("a block spans more identities than fit in memory"),
                },
            );
        }
        let target: usize = (p.id - first) as usize;
        let ghost before = records@.len();
        extend_dense(&mut records, target, crate::coords::pack_coordinate(p.coord));
        i = i + 1;
        proof {
            lemma_dense_extend(block.points@, i - 1, first as int, (target - before) as nat);
            assert(block.points@.take(i - 1 as int) =~= prefix);
            let stepped = block.points@.take(i as int);
            assert(stepped.drop_last() =~= prefix);
            assert(stepped.last() == block.points@[i - 1]);
            assert forall|k: int, l: int| 0 <= k < l < stepped.len() implies #[trigger] stepped[k].id
                < #[trigger] stepped[l].id by {
                assert(stepped[k] == prefix[k]);
                if l < i - 1 {
                    assert(stepped[l] == prefix[l]);
                    assert(prefix[k].id < prefix[l].id);
                } else {
                    if k < i - 2 {
                        assert(prefix[k].id < prefix[i - 2].id);
                    }
                }
            }
        }
    }
    assert(block.points@.take(block.points@.len() as int) =~= block.points@);
    // The vector's length witnesses that the span fits the machine.
    let _span: usize = records.len();
    assert(block.points@.last().id - first < usize::MAX);
    Ok(Some((first, records)))
}

} // verus!
