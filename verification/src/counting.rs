//! Single-pass feature counting over the container, and the per-edge
//! identity-span measurement behind the distribution reports. These flows
//! consume the same decoded entities as the resolver but involve no cache.

use vstd::prelude::*;

use crate::resolver::spec_refs_max;
use crate::stats::{sat_add_u64, spec_max_i64, spec_min_i64};

verus! {

/// What a counting run is asked to do: the container path.
#[derive(Clone, Debug)]
pub struct OptsCounter1 {
    pub pbf_file: String,
}

/// What a single-pass counting run over one reader is asked to do.
#[derive(Clone, Debug)]
pub struct Counter1 {
    pub pbf_file: String,
}

/// What an identity-distribution run is asked to do.
#[derive(Clone, Debug)]
pub struct NodeIdDistribution {
    pub pbf_file: String,
}

/// Counts of the container's entities and their tags, split by entity
/// kind, plus the greatest point identity seen. Counts saturate rather
/// than overflow.
#[derive(Clone, Copy, Debug, PartialEq, Eq, Structural)]
pub struct Stats {
    pub node_max_id: i64,
    pub nodes: u64,
    pub empty_nodes: u64,
    pub node_tags: u64,
    pub ways: u64,
    pub way_tags: u64,
    pub rels: u64,
    pub rel_tags: u64,
}

impl Stats {
    /// The zero count, the identity of `spec_combine`.
    pub open spec fn spec_identity() -> Stats {
        Stats {
            node_max_id: 0,
            nodes: 0,
            empty_nodes: 0,
            node_tags: 0,
            ways: 0,
            way_tags: 0,
            rels: 0,
            rel_tags: 0,
        }
    }

    /// The counts after one more point entity with `tag_count` tags: a
    /// tagged point is counted with its tags, a bare point separately, and
    /// the greatest identity is raised.
    pub open spec fn spec_add_node(self, node_id: i64, tag_count: u64) -> Stats {
        if tag_count > 0 {
            Stats {
                nodes: sat_add_u64(self.nodes, 1),
                node_tags: sat_add_u64(self.node_tags, tag_count),
                node_max_id: spec_max_i64(self.node_max_id, node_id),
                ..self
            }
        } else {
            Stats {
                empty_nodes: sat_add_u64(self.empty_nodes, 1),
                node_max_id: spec_max_i64(self.node_max_id, node_id),
                ..self
            }
        }
    }

    pub fn add_node(&mut self, node_id: i64, tag_count: u64)
        ensures
            *final(self) == old(self).spec_add_node(node_id, tag_count),
    {
        if tag_count > 0 {
            self.nodes = self.nodes.saturating_add(1);
            self.node_tags = self.node_tags.saturating_add(tag_count);
        } else {
            self.empty_nodes = self.empty_nodes.saturating_add(1);
        }
        if node_id > self.node_max_id {
            self.node_max_id = node_id;
        }
    }

    /// The counts after one more edge entity with `tag_count` tags.
    pub open spec fn spec_add_way(self, tag_count: u64) -> Stats {
        Stats {
            ways: sat_add_u64(self.ways, 1),
            way_tags: sat_add_u64(self.way_tags, tag_count),
            ..self
        }
    }

    pub fn add_way(&mut self, tag_count: u64)
        ensures
            *final(self) == old(self).spec_add_way(tag_count),
    {
        self.ways = self.ways.saturating_add(1);
        self.way_tags = self.way_tags.saturating_add(tag_count);
    }

    /// The counts after one more aggregate entity with `tag_count` tags.
    pub open spec fn spec_add_rel(self, tag_count: u64) -> Stats {
        Stats {
            rels: sat_add_u64(self.rels, 1),
            rel_tags: sat_add_u64(self.rel_tags, tag_count),
            ..self
        }
    }

    pub fn add_rel(&mut self, tag_count: u64)
        ensures
            *final(self) == old(self).spec_add_rel(tag_count),
    {
        self.rels = self.rels.saturating_add(1);
        self.rel_tags = self.rel_tags.saturating_add(tag_count);
    }

    /// Two workers' counts merged: sums added, greatest identities joined.
    pub open spec fn spec_combine(self, other: Stats) -> Stats {
        Stats {
            node_max_id: spec_max_i64(self.node_max_id, other.node_max_id),
            nodes: sat_add_u64(self.nodes, other.nodes),
            empty_nodes: sat_add_u64(self.empty_nodes, other.empty_nodes),
            node_tags: sat_add_u64(self.node_tags, other.node_tags),
            ways: sat_add_u64(self.ways, other.ways),
            way_tags: sat_add_u64(self.way_tags, other.way_tags),
            rels: sat_add_u64(self.rels, other.rels),
            rel_tags: sat_add_u64(self.rel_tags, other.rel_tags),
        }
    }

    pub fn combine(&mut self, other: &Stats)
        ensures
            *final(self) == old(self).spec_combine(*other),
    {
        if other.node_max_id > self.node_max_id {
            self.node_max_id = other.node_max_id;
        }
        self.nodes = self.nodes.saturating_add(other.nodes);
        self.empty_nodes = self.empty_nodes.saturating_add(other.empty_nodes);
        self.node_tags = self.node_tags.saturating_add(other.node_tags);
        self.ways = self.ways.saturating_add(other.ways);
        self.way_tags = self.way_tags.saturating_add(other.way_tags);
        self.rels = self.rels.saturating_add(other.rels);
        self.rel_tags = self.rel_tags.saturating_add(other.rel_tags);
    }

    pub fn identity() -> (r: Stats)
        ensures
            r == Self::spec_identity(),
    {
        Stats {
            node_max_id: 0,
            nodes: 0,
            empty_nodes: 0,
            node_tags: 0,
            ways: 0,
            way_tags: 0,
            rels: 0,
            rel_tags: 0,
        }
    }
}

impl Default for Stats {
    /// The zero count.
    fn default() -> (r: Stats)
        ensures
            r == Stats::spec_identity(),
    {
        Stats::identity()
    }
}

/// The counting combine is commutative.
pub proof fn lemma_counting_combine_commutative(a: Stats, b: Stats)
    ensures
        a.spec_combine(b) == b.spec_combine(a),
{
}

/// The counting combine is associative.
pub proof fn lemma_counting_combine_associative(a: Stats, b: Stats, c: Stats)
    ensures
        a.spec_combine(b).spec_combine(c) == a.spec_combine(b.spec_combine(c)),
{
}

/// The least identity in a list, folded over a ceiling value.
pub open spec fn spec_refs_min(refs: Seq<i64>, ceiling: i64) -> i64
    decreases refs.len(),
{
    if refs.len() == 0 {
        ceiling
    } else {
        spec_min_i64(spec_refs_min(refs.drop_last(), ceiling), refs.last())
    }
}

/// The span of one edge entity for the identity-distribution report: the
/// least and the greatest identity it references — over the fold seeds
/// `i64::MAX` and `i64::MIN` when it references none — and how many it
/// references.
pub fn way_span(refs: &Vec<i64>) -> (r: (i64, i64, usize))
    ensures
        r.0 == spec_refs_min(refs@, i64::MAX),
        r.1 == spec_refs_max(refs@, i64::MIN),
        r.2 == refs@.len(),
{
    let mut least: i64 = i64::MAX;
    let mut greatest: i64 = i64::MIN;
    let mut i: usize = 0;
    while i < refs.len()
        invariant
            i <= refs.len(),
            least == spec_refs_min(refs@.take(i as int), i64::MAX),
            greatest == spec_refs_max(refs@.take(i as int), i64::MIN),
        decreases refs.len() - i,
    {
        if refs[i] < least {
            least = refs[i];
        }
        if refs[i] > greatest {
            greatest = refs[i];
        }
        i = i + 1;
        assert(refs@.take(i as int).drop_last() =~= refs@.take(i - 1 as int));
    }
    assert(refs@.take(refs@.len() as int) =~= refs@);
    (least, greatest, refs.len())
}

} // verus!
