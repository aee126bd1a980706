//! Per-worker statistics accumulators and their commutative, associative
//! combine, through which any number of workers' results are merged in any
//! order.

use vstd::prelude::*;

use crate::coords::{BoundingBox, Coordinate};

verus! {

/// Addition that stops at the largest representable count instead of
/// overflowing, so that the combine is total and stays associative.
pub open spec fn sat_add_u64(a: u64, b: u64) -> u64 {
    if a + b > u64::MAX {
        u64::MAX
    } else {
        (a + b) as u64
    }
}

pub open spec fn spec_min_i64(a: i64, b: i64) -> i64 {
    if a <= b {
        a
    } else {
        b
    }
}

pub open spec fn spec_max_i64(a: i64, b: i64) -> i64 {
    if a >= b {
        a
    } else {
        b
    }
}

/// A worker's running aggregate of one resolution pass: how many edge
/// entities were resolved or deferred, how many point references were
/// resolved, how many failed, and the bounding box of every resolved
/// coordinate.
#[derive(Clone, Copy, Debug, PartialEq, Eq, Structural)]
pub struct StatsAccumulator {
    pub ways_resolved: u64,
    pub ways_deferred: u64,
    pub nodes_resolved: u64,
    pub errors: u64,
    pub bbox: BoundingBox,
}

impl StatsAccumulator {
    /// The identity of `spec_combine`: nothing counted, nothing enclosed.
    pub open spec fn spec_identity() -> StatsAccumulator {
        StatsAccumulator {
            ways_resolved: 0,
            ways_deferred: 0,
            nodes_resolved: 0,
            errors: 0,
            bbox: BoundingBox::spec_empty(),
        }
    }

    pub fn identity() -> (r: StatsAccumulator)
        ensures
            r == Self::spec_identity(),
    {
        StatsAccumulator {
            ways_resolved: 0,
            ways_deferred: 0,
            nodes_resolved: 0,
            errors: 0,
            bbox: BoundingBox::empty(),
        }
    }

    /// The accumulator after one more point reference has been resolved to a
    /// coordinate.
    pub open spec fn spec_add_point(self, c: Coordinate) -> StatsAccumulator {
        StatsAccumulator {
            nodes_resolved: sat_add_u64(self.nodes_resolved, 1),
            bbox: self.bbox.spec_enclose(c),
            ..self
        }
    }

    pub fn add_point(&mut self, c: Coordinate)
        ensures
            *final(self) == old(self).spec_add_point(c),
    {
        self.nodes_resolved = self.nodes_resolved.saturating_add(1);
        self.bbox.enclose(c);
    }

    /// Two workers' aggregates merged: counts added, bounding boxes joined.
    pub open spec fn spec_combine(self, other: StatsAccumulator) -> StatsAccumulator {
        StatsAccumulator {
            ways_resolved: sat_add_u64(self.ways_resolved, other.ways_resolved),
            ways_deferred: sat_add_u64(self.ways_deferred, other.ways_deferred),
            nodes_resolved: sat_add_u64(self.nodes_resolved, other.nodes_resolved),
            errors: sat_add_u64(self.errors, other.errors),
            bbox: self.bbox.spec_merge(other.bbox),
        }
    }

    pub fn combine(&mut self, other: &StatsAccumulator)
        ensures
            *final(self) == old(self).spec_combine(*other),
    {
        self.ways_resolved = self.ways_resolved.saturating_add(other.ways_resolved);
        self.ways_deferred = self.ways_deferred.saturating_add(other.ways_deferred);
        self.nodes_resolved = self.nodes_resolved.saturating_add(other.nodes_resolved);
        self.errors = self.errors.saturating_add(other.errors);
        self.bbox.merge(&other.bbox);
    }
}

impl Default for StatsAccumulator {
    /// The identity of the combine.
    fn default() -> (r: StatsAccumulator)
        ensures
            r == StatsAccumulator::spec_identity(),
    {
        StatsAccumulator::identity()
    }
}

/// The combine of statistics accumulators is commutative: merge order among
/// workers does not matter.
pub proof fn lemma_combine_commutative(a: StatsAccumulator, b: StatsAccumulator)
    ensures
        a.spec_combine(b) == b.spec_combine(a),
{
}

/// The combine of statistics accumulators is associative: grouping of merges
/// does not matter.
pub proof fn lemma_combine_associative(a: StatsAccumulator, b: StatsAccumulator, c: StatsAccumulator)
    ensures
        a.spec_combine(b).spec_combine(c) == a.spec_combine(b.spec_combine(c)),
{
}

/// The empty accumulator is the identity of the combine, so an aggregator may
/// start from it.
pub proof fn lemma_combine_identity(a: StatsAccumulator)
    ensures
        a.spec_combine(StatsAccumulator::spec_identity()) == a,
        StatsAccumulator::spec_identity().spec_combine(a) == a,
{
}

/// The merge of a sequence of workers' accumulators, in arrival order.
pub open spec fn spec_aggregate(parts: Seq<StatsAccumulator>) -> StatsAccumulator
    decreases parts.len(),
{
    if parts.len() == 0 {
        StatsAccumulator::spec_identity()
    } else {
        spec_aggregate(parts.drop_last()).spec_combine(parts.last())
    }
}

/// What the single consuming aggregator computes: every worker's accumulator
/// folded into one, starting from the identity.
pub fn aggregate(parts: &Vec<StatsAccumulator>) -> (r: StatsAccumulator)
    ensures
        r == spec_aggregate(parts@),
{
    let mut acc = StatsAccumulator::identity();
    let mut i: usize = 0;
    while i < parts.len()
        invariant
            i <= parts.len(),
            acc == spec_aggregate(parts@.subrange(0, i as int)),
        decreases parts.len() - i,
    {
        acc.combine(&parts[i]);
        i = i + 1;
        assert(parts@.subrange(0, i as int).drop_last() =~= parts@.subrange(0, i - 1 as int));
    }
    assert(parts@.subrange(0, parts@.len() as int) =~= parts@);
    acc
}

/// A population run's aggregate: how many point entities were stored, the
/// least and greatest point identity seen, and the bounding box of every
/// stored coordinate.
#[derive(Clone, Copy, Debug, PartialEq, Eq, Structural)]
pub struct NodeStats {
    pub node_count: u64,
    pub min_node_id: i64,
    pub max_node_id: i64,
    pub bbox: BoundingBox,
}

impl NodeStats {
    /// The identity of `spec_combine`: no point seen yet, identity bounds.
    pub open spec fn spec_identity() -> NodeStats {
        NodeStats {
            node_count: 0,
            min_node_id: i64::MAX,
            max_node_id: i64::MIN,
            bbox: BoundingBox::spec_empty(),
        }
    }

    pub fn identity() -> (r: NodeStats)
        ensures
            r == Self::spec_identity(),
    {
        NodeStats {
            node_count: 0,
            min_node_id: i64::MAX,
            max_node_id: i64::MIN,
            bbox: BoundingBox::empty(),
        }
    }

    /// The aggregate after one more point entity has been stored.
    pub open spec fn spec_add_node(self, id: i64, c: Coordinate) -> NodeStats {
        NodeStats {
            node_count: sat_add_u64(self.node_count, 1),
            min_node_id: spec_min_i64(self.min_node_id, id),
            max_node_id: spec_max_i64(self.max_node_id, id),
            bbox: self.bbox.spec_enclose(c),
        }
    }

    pub fn add_node(&mut self, id: i64, c: Coordinate)
        ensures
            *final(self) == old(self).spec_add_node(id, c),
    {
        self.node_count = self.node_count.saturating_add(1);
        if id < self.min_node_id {
            self.min_node_id = id;
        }
        if id > self.max_node_id {
            self.max_node_id = id;
        }
        self.bbox.enclose(c);
    }

    /// Two population workers' aggregates merged.
    pub open spec fn spec_combine(self, other: NodeStats) -> NodeStats {
        NodeStats {
            node_count: sat_add_u64(self.node_count, other.node_count),
            min_node_id: spec_min_i64(self.min_node_id, other.min_node_id),
            max_node_id: spec_max_i64(self.max_node_id, other.max_node_id),
            bbox: self.bbox.spec_merge(other.bbox),
        }
    }

    pub fn combine(&mut self, other: &NodeStats)
        ensures
            *final(self) == old(self).spec_combine(*other),
    {
        self.node_count = self.node_count.saturating_add(other.node_count);
        if other.min_node_id < self.min_node_id {
            self.min_node_id = other.min_node_id;
        }
        if other.max_node_id > self.max_node_id {
            self.max_node_id = other.max_node_id;
        }
        self.bbox.merge(&other.bbox);
    }
}

impl Default for NodeStats {
    /// The identity of the population combine.
    fn default() -> (r: NodeStats)
        ensures
            r == NodeStats::spec_identity(),
    {
        NodeStats::identity()
    }
}

/// The population combine is commutative.
pub proof fn lemma_node_stats_combine_commutative(a: NodeStats, b: NodeStats)
    ensures
        a.spec_combine(b) == b.spec_combine(a),
{
}

/// The population combine is associative.
pub proof fn lemma_node_stats_combine_associative(a: NodeStats, b: NodeStats, c: NodeStats)
    ensures
        a.spec_combine(b).spec_combine(c) == a.spec_combine(b.spec_combine(c)),
{
}

} // verus!
