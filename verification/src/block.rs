//! Decoding one container block into normalized point and edge entities.
//!
//! A block arrives as an `osmpbf` blob. What each blob and group holds is a
//! function of its bytes alone, so those contents get names — uninterpreted
//! spec functions the trusted wrappers' contracts apply — and the verified
//! decoder's contract pins its output to those names exactly: the two point
//! wire encodings normalized into one list in group order, the edge
//! reference lists, and the non-point flag. Malformed input fails the
//! decode, and the contracts say precisely when; the policy is fail-fast.

use vstd::prelude::*;
use vstd::string::StringExecFns;

use crate::coords::Coordinate;
use crate::error::RunError;

verus! {

/// The greatest point identity the data model admits. It keeps every record
/// address `id * 8` within the machine's byte addressing, with room to
/// spare, and leaves the identity space strictly inside `i64`.
pub const MAX_POINT_ID: i64 = 0x0FFF_FFFF_FFFF_FFFF;

/// A point identity the cache can address.
pub open spec fn valid_point_id(id: i64) -> bool {
    0 <= id <= MAX_POINT_ID
}

/// A point entity: an identity and its coordinate, whichever wire encoding
/// carried it.
#[derive(Clone, Copy, Debug, PartialEq, Eq, Structural)]
pub struct PointEntity {
    pub id: i64,
    pub coord: Coordinate,
}

/// An edge entity: an ordered list of point-identity references.
#[derive(Clone, Debug)]
pub struct EdgeEntity {
    pub refs: Vec<i64>,
}

/// One decoded container block: its byte offset in the container, its
/// normalized point entities, its edge entities, and whether it holds any
/// non-point entity (an edge, or an aggregate of other entities).
#[derive(Clone, Debug)]
pub struct Block {
    pub offset: u64,
    pub points: Vec<PointEntity>,
    pub edges: Vec<EdgeEntity>,
    pub has_non_point: bool,
}

pub open spec fn spec_points_valid(points: Seq<PointEntity>) -> bool {
    forall|i: int| 0 <= i < points.len() ==> valid_point_id(points[i].id)
}

pub open spec fn spec_refs_valid(refs: Seq<i64>) -> bool {
    forall|i: int| 0 <= i < refs.len() ==> valid_point_id(refs[i])
}

pub open spec fn spec_edges_valid(edges: Seq<EdgeEntity>) -> bool {
    forall|i: int| 0 <= i < edges.len() ==> spec_refs_valid(edges[i].refs@)
}

pub open spec fn spec_refs_lists_valid(lists: Seq<Seq<i64>>) -> bool {
    forall|i: int| 0 <= i < lists.len() ==> spec_refs_valid(lists[i])
}

impl Block {
    /// What the decoder guarantees of every block it emits: all identities
    /// lie in the addressable range, and a block holding edges is flagged as
    /// holding non-point entities.
    pub open spec fn well_formed(self) -> bool {
        &&& spec_points_valid(self.points@)
        &&& spec_edges_valid(self.edges@)
        &&& self.edges@.len() > 0 ==> self.has_non_point
        &&& self.offset < u64::MAX
    }
}

/// Every block of a decoded container obeys the decoder's guarantees.
pub open spec fn spec_container_wf(blocks: Seq<Block>) -> bool {
    forall|i: int| 0 <= i < blocks.len() ==> blocks[i].well_formed()
}

#[verifier::external_type_specification]
#[verifier::external_body]
pub struct ExBlob(osmpbf::Blob);

#[verifier::external_type_specification]
#[verifier::external_body]
pub struct ExPrimitiveBlock(osmpbf::PrimitiveBlock);

#[verifier::external_type_specification]
#[verifier::external_body]
pub struct ExOsmpbfError(osmpbf::Error);

// ---------------------------------------------------------------------------
// Names for what a blob and its decoded block hold. Decoding is a function
// of the bytes alone, so each is well defined; the wrappers' contracts apply
// them, and the verified decoder is pinned to them.
// ---------------------------------------------------------------------------
/// Whether the blob's payload decompresses and parses cleanly.
pub uninterp spec fn blob_decodes(blob: osmpbf::Blob) -> bool;

/// Whether a cleanly decoding blob is a data blob (as opposed to a header
/// or other kind of blob).
pub uninterp spec fn blob_is_data(blob: osmpbf::Blob) -> bool;

/// The primitive block a cleanly decoding data blob holds.
pub uninterp spec fn blob_block(blob: osmpbf::Blob) -> osmpbf::PrimitiveBlock;

/// The byte offset the blob's source stream reports for it, if any.
pub uninterp spec fn blob_offset_of(blob: osmpbf::Blob) -> Option<u64>;

/// How many groups the primitive block holds.
pub uninterp spec fn group_count_of(block: osmpbf::PrimitiveBlock) -> int;

/// The plainly-encoded point entities of the group at `index`, in order,
/// coordinates at decimicro precision; none at an index past the groups.
pub uninterp spec fn plain_points_of(block: osmpbf::PrimitiveBlock, index: int) -> Seq<PointEntity>;

/// The densely-encoded point entities of the group at `index`, in order,
/// delta decoding applied; none at an index past the groups.
pub uninterp spec fn dense_points_of(block: osmpbf::PrimitiveBlock, index: int) -> Seq<PointEntity>;

/// The edge entities of the group at `index`, each as its ordered,
/// delta-decoded list of point-identity references; none past the groups.
pub uninterp spec fn group_edges_of(block: osmpbf::PrimitiveBlock, index: int) -> Seq<Seq<i64>>;

/// Whether the group at `index` holds any aggregate entity.
pub uninterp spec fn group_relations_of(block: osmpbf::PrimitiveBlock, index: int) -> bool;

// ---------------------------------------------------------------------------
// The trusted wrappers around `osmpbf`.
// ---------------------------------------------------------------------------
/// Relies on `osmpbf::Blob::offset`: the blob's byte offset from the start
/// of its container, where the source stream reports one.
#[verifier::external_body]
fn blob_offset(blob: &osmpbf::Blob) -> (r: Option<u64>)
    ensures
        r == blob_offset_of(*blob),
{
    blob.offset().map(|o| o.0)
}

/// Relies on `osmpbf::Blob::decode`: decompresses and parses the blob.
/// A data blob gives its primitive block, any other well-formed blob gives
/// nothing, and a malformed blob gives the decode error.
#[verifier::external_body]
fn blob_to_data_block(blob: &osmpbf::Blob) -> (r: Result<
    Option<osmpbf::PrimitiveBlock>,
    osmpbf::Error,
>)
    ensures
        (r matches Ok(o) && o is Some) <==> (blob_decodes(*blob) && blob_is_data(*blob)),
        (r matches Ok(o) && o is None) <==> (blob_decodes(*blob) && !blob_is_data(*blob)),
        r matches Ok(o) ==> (o matches Some(block) ==> block == blob_block(*blob)),
{
    match blob.decode() {
        Ok(osmpbf::BlobDecode::OsmData(block)) => Ok(Some(block)),
        Ok(_) => Ok(None),
        Err(e) => Err(e),
    }
}

/// Relies on `osmpbf::PrimitiveBlock::groups` being an exact-size iterator:
/// how many groups the block holds.
#[verifier::external_body]
fn group_count(block: &osmpbf::PrimitiveBlock) -> (r: usize)
    ensures
        r == group_count_of(*block),
{
    block.groups().len()
}

/// Relies on `osmpbf::PrimitiveGroup::nodes` and the per-node accessors
/// `id`, `decimicro_lat`, `decimicro_lon`: the group's plainly-encoded point
/// entities at fixed decimicro precision. An index beyond the block's groups
/// gives nothing.
#[verifier::external_body]
fn group_plain_points(block: &osmpbf::PrimitiveBlock, index: usize) -> (r: Vec<PointEntity>)
    ensures
        r@ == plain_points_of(*block, index as int),
{
    match block.groups().nth(index) {
        None => Vec::new(),
        Some(g) => g.nodes().map(
            |n: osmpbf::Node|
                PointEntity {
                    id: n.id(),
                    coord: Coordinate { lat: n.decimicro_lat(), lon: n.decimicro_lon() },
                },
        ).collect(),
    }
}

/// Relies on `osmpbf::PrimitiveGroup::dense_nodes` and the per-node
/// accessors `id`, `decimicro_lat`, `decimicro_lon`: the group's
/// densely-encoded point entities, delta decoding already applied.
#[verifier::external_body]
fn group_dense_points(block: &osmpbf::PrimitiveBlock, index: usize) -> (r: Vec<PointEntity>)
    ensures
        r@ == dense_points_of(*block, index as int),
{
    match block.groups().nth(index) {
        None => Vec::new(),
        Some(g) => g.dense_nodes().map(
            |n: osmpbf::DenseNode|
                PointEntity {
                    id: n.id(),
                    coord: Coordinate { lat: n.decimicro_lat(), lon: n.decimicro_lon() },
                },
        ).collect(),
    }
}

/// Relies on `osmpbf::PrimitiveGroup::ways` and `osmpbf::Way::refs`: the
/// group's edge entities, each as its ordered, delta-decoded list of
/// point-identity references.
#[verifier::external_body]
fn group_edges(block: &osmpbf::PrimitiveBlock, index: usize) -> (r: Vec<EdgeEntity>)
    ensures
        r@.len() == group_edges_of(*block, index as int).len(),
        forall|k: int|
            0 <= k < r@.len() ==> r@[k].refs@ == group_edges_of(*block, index as int)[k],
{
    match block.groups().nth(index) {
        None => Vec::new(),
        Some(g) => g.ways().map(|w: osmpbf::Way| EdgeEntity { refs: w.refs().collect() }).collect(),
    }
}

/// Relies on `osmpbf::PrimitiveGroup::relations`: whether the group holds
/// any aggregate entity.
#[verifier::external_body]
fn group_has_relations(block: &osmpbf::PrimitiveBlock, index: usize) -> (r: bool)
    ensures
        r == group_relations_of(*block, index as int),
{
    match block.groups().nth(index) {
        None => false,
        Some(g) => g.relations().next().is_some(),
    }
}

/// Relies on `ToString::to_string` through the error's `Display`
/// implementation: renders an `osmpbf` decode fault for the operator.
#[verifier::external_body]
fn decode_error_text(e: &osmpbf::Error) -> String {
    e.to_string()
}

// ---------------------------------------------------------------------------
// What the normalized block is, stated from the names.
// ---------------------------------------------------------------------------
/// The normalized point entities of the first `count` groups: each group's
/// plain points, then its dense points, groups in order.
pub open spec fn spec_groups_points(block: osmpbf::PrimitiveBlock, count: int) -> Seq<PointEntity>
    decreases count,
{
    if count <= 0 {
        Seq::empty()
    } else {
        spec_groups_points(block, count - 1) + plain_points_of(block, count - 1)
            + dense_points_of(block, count - 1)
    }
}

/// The normalized point entities of the whole block.
pub open spec fn spec_block_points(block: osmpbf::PrimitiveBlock) -> Seq<PointEntity> {
    spec_groups_points(block, group_count_of(block))
}

/// The edge reference lists of the first `count` groups, groups in order.
pub open spec fn spec_groups_edges(block: osmpbf::PrimitiveBlock, count: int) -> Seq<Seq<i64>>
    decreases count,
{
    if count <= 0 {
        Seq::empty()
    } else {
        spec_groups_edges(block, count - 1) + group_edges_of(block, count - 1)
    }
}

/// The edge reference lists of the whole block.
pub open spec fn spec_block_edges(block: osmpbf::PrimitiveBlock) -> Seq<Seq<i64>> {
    spec_groups_edges(block, group_count_of(block))
}

/// Whether the group at `index` holds any non-point entity.
pub open spec fn spec_group_non_point(block: osmpbf::PrimitiveBlock, index: int) -> bool {
    group_edges_of(block, index).len() > 0 || group_relations_of(block, index)
}

/// Whether any of the first `count` groups holds a non-point entity.
pub open spec fn spec_groups_non_point(block: osmpbf::PrimitiveBlock, count: int) -> bool
    decreases count,
{
    if count <= 0 {
        false
    } else {
        spec_groups_non_point(block, count - 1) || spec_group_non_point(block, count - 1)
    }
}

/// Whether some group of the block holds a non-point entity.
pub open spec fn spec_block_has_non_point(block: osmpbf::PrimitiveBlock) -> bool {
    spec_groups_non_point(block, group_count_of(block))
}

/// Every identity the group at `index` carries lies in the data model.
pub open spec fn spec_group_decodable(block: osmpbf::PrimitiveBlock, index: int) -> bool {
    &&& spec_points_valid(plain_points_of(block, index))
    &&& spec_points_valid(dense_points_of(block, index))
    &&& spec_refs_lists_valid(group_edges_of(block, index))
}

/// Every identity the block carries lies in the data model: exactly the
/// blocks the decoder accepts.
pub open spec fn spec_block_decodable(block: osmpbf::PrimitiveBlock) -> bool {
    forall|i: int| 0 <= i < group_count_of(block) ==> #[trigger] spec_group_decodable(block, i)
}

/// The emitted block is the named normalization of the decoded one: the
/// given offset, the groups' plain-then-dense points in order, the groups'
/// edge reference lists in order, and the flag for any non-point entity.
pub open spec fn spec_block_matches(b: Block, block: osmpbf::PrimitiveBlock, offset: u64) -> bool {
    &&& b.offset == offset
    &&& b.points@ == spec_block_points(block)
    &&& b.edges@.len() == spec_block_edges(block).len()
    &&& (forall|k: int| 0 <= k < b.edges@.len() ==> b.edges@[k].refs@ == spec_block_edges(block)[k])
    &&& b.has_non_point == spec_block_has_non_point(block)
}

/// Validity carries over concatenation of point lists.
proof fn lemma_points_valid_concat(a: Seq<PointEntity>, b: Seq<PointEntity>)
    requires
        spec_points_valid(a),
        spec_points_valid(b),
    ensures
        spec_points_valid(a + b),
{
    assert forall|i: int| 0 <= i < (a + b).len() implies valid_point_id((a + b)[i].id) by {
        if i < a.len() {
            assert((a + b)[i] == a[i]);
        } else {
            assert((a + b)[i] == b[i - a.len()]);
        }
    }
}

fn points_valid(points: &Vec<PointEntity>) -> (r: bool)
    ensures
        r == spec_points_valid(points@),
{
    let mut i: usize = 0;
    while i < points.len()
        invariant
            i <= points.len(),
            forall|j: int| 0 <= j < i ==> valid_point_id(points@[j].id),
        decreases points.len() - i,
    {
        let id = points[i].id;
        if id < 0 || id > MAX_POINT_ID {
            return false;
        }
        i = i + 1;
    }
    true
}

fn refs_valid(refs: &Vec<i64>) -> (r: bool)
    ensures
        r == spec_refs_valid(refs@),
{
    let mut i: usize = 0;
    while i < refs.len()
        invariant
            i <= refs.len(),
            forall|j: int| 0 <= j < i ==> valid_point_id(refs@[j]),
        decreases refs.len() - i,
    {
        if refs[i] < 0 || refs[i] > MAX_POINT_ID {
            return false;
        }
        i = i + 1;
    }
    true
}

/// Checks one group's freshly converted edge list against the data model;
/// the list is elementwise equal to the group's named reference lists.
fn edges_valid(edges: &Vec<EdgeEntity>, block: &osmpbf::PrimitiveBlock, index: usize) -> (r: bool)
    requires
        edges@.len() == group_edges_of(*block, index as int).len(),
        forall|k: int|
            0 <= k < edges@.len() ==> edges@[k].refs@ == group_edges_of(*block, index as int)[k],
    ensures
        r == spec_refs_lists_valid(group_edges_of(*block, index as int)),
{
    let ghost lists = group_edges_of(*block, index as int);
    let mut i: usize = 0;
    while i < edges.len()
        invariant
            i <= edges.len(),
            lists == group_edges_of(*block, index as int),
            edges@.len() == lists.len(),
            forall|k: int| 0 <= k < edges@.len() ==> edges@[k].refs@ == lists[k],
            forall|j: int| 0 <= j < i ==> spec_refs_valid(lists[j]),
        decreases edges.len() - i,
    {
        if !refs_valid(&edges[i].refs) {
            proof {
                assert(!spec_refs_lists_valid(lists)) by {
                    assert(0 <= i < lists.len() && !spec_refs_valid(lists[i as int]));
                }
            }
            return false;
        }
        i = i + 1;
    }
    true
}

/// Normalizes one decoded primitive block into the library's `Block` shape:
/// both point wire encodings become one list of point entities in group
/// order, edge entities keep their ordered reference lists, and the block
/// is flagged when it holds any edge or aggregate entity. The decode
/// succeeds exactly when every identity lies in the data model, and the
/// emitted block is pinned to the block's named contents.
pub fn decode_block(block: &osmpbf::PrimitiveBlock, offset: u64) -> (r: Result<Block, RunError>)
    requires
        offset < u64::MAX,
    ensures
        (r matches Ok(_)) <==> spec_block_decodable(*block),
        r matches Ok(b) ==> spec_block_matches(b, *block, offset) && b.well_formed(),
        r matches Err(e) ==> e.is_corruption(),
{
    let mut points: Vec<PointEntity> = Vec::new();
    let mut edges: Vec<EdgeEntity> = Vec::new();
    let mut has_non_point = false;
    let groups = group_count(block);
    let mut i: usize = 0;
    while i < groups
        invariant
            i <= groups,
            groups == group_count_of(*block),
            forall|j: int| 0 <= j < i ==> #[trigger] spec_group_decodable(*block, j),
            points@ == spec_groups_points(*block, i as int),
            spec_points_valid(points@),
            edges@.len() == spec_groups_edges(*block, i as int).len(),
            forall|k: int|
                0 <= k < edges@.len() ==> edges@[k].refs@ == spec_groups_edges(*block, i as int)[k],
            spec_edges_valid(edges@),
            has_non_point == spec_groups_non_point(*block, i as int),
            edges@.len() > 0 ==> has_non_point,
        decreases groups - i,
    {
        let ghost points_before = points@;
        let mut plain = group_plain_points(block, i);
        if !points_valid(&plain) {
            proof {
                assert(!spec_block_decodable(*block)) by {
                    assert(0 <= i < group_count_of(*block) && !spec_group_decodable(
                        *block,
                        i as int,
                    ));
                }
            }
            return Err(
                RunError::ContainerCorruption {
                    offset: Some(offset),
                    detail: String::from_str("a point entity carries an identity out of range"),
                },
            );
        }
        let mut dense = group_dense_points(block, i);
        if !points_valid(&dense) {
            proof {
                assert(!spec_block_decodable(*block)) by {
                    assert(0 <= i < group_count_of(*block) && !spec_group_decodable(
                        *block,
                        i as int,
                    ));
                }
            }
            return Err(
                RunError::ContainerCorruption {
                    offset: Some(offset),
                    detail: String::from_str("a point entity carries an identity out of range"),
                },
            );
        }
        proof {
            lemma_points_valid_concat(points@, plain@);
            lemma_points_valid_concat(points@ + plain@, dense@);
        }
        points.append(&mut plain);
        points.append(&mut dense);
        let ghost edges_before = edges@;
        let mut group_edge_list = group_edges(block, i);
        if !edges_valid(&group_edge_list, block, i) {
            proof {
                assert(!spec_block_decodable(*block)) by {
                    assert(0 <= i < group_count_of(*block) && !spec_group_decodable(
                        *block,
                        i as int,
                    ));
                }
            }
            return Err(
                RunError::ContainerCorruption {
                    offset: Some(offset),
                    detail: String::from_str("an edge entity references an identity out of range"),
                },
            );
        }
        if group_edge_list.len() > 0 {
            has_non_point = true;
        }
        let ghost list_view = group_edge_list@;
        edges.append(&mut group_edge_list);
        if group_has_relations(block, i) {
            has_non_point = true;
        }
        i = i + 1;
        proof {
            assert(points@ == spec_groups_points(*block, i as int));
            assert(edges@ == edges_before + list_view);
            assert(spec_groups_edges(*block, i as int) == spec_groups_edges(
                *block,
                i - 1 as int,
            ) + group_edges_of(*block, i - 1 as int));
            assert forall|k: int| 0 <= k < edges@.len() implies edges@[k].refs@
                == spec_groups_edges(*block, i as int)[k] by {
                if k < edges_before.len() {
                    assert(edges@[k] == edges_before[k]);
                } else {
                    assert(edges@[k] == list_view[k - edges_before.len()]);
                }
            }
            assert forall|k: int| 0 <= k < edges@.len() implies spec_refs_valid(
                edges@[k].refs@,
            ) by {
                if k < edges_before.len() {
                    assert(edges_before[k] == edges@[k]);
                } else {
                    assert(edges@[k] == list_view[k - edges_before.len()]);
                    assert(list_view[k - edges_before.len()].refs@ == group_edges_of(
                        *block,
                        i - 1 as int,
                    )[k - edges_before.len()]);
                }
            }
        }
    }
    Ok(Block { offset, points, edges, has_non_point })
}

// ---------------------------------------------------------------------------
// Blob- and container-level decoding.
// ---------------------------------------------------------------------------
/// The offset a blob's block is labeled with: the reported one, or the
/// container start when the source stream reports none, which only forgoes
/// the skip optimization.
pub open spec fn spec_blob_offset_value(blob: osmpbf::Blob) -> u64 {
    match blob_offset_of(blob) {
        Some(o) => o,
        None => 0,
    }
}

/// A reported offset must leave room for the offset arithmetic.
pub open spec fn spec_blob_offset_ok(blob: osmpbf::Blob) -> bool {
    blob_offset_of(blob) matches Some(o) ==> o < u64::MAX
}

/// A blob the decoder accepts: it decodes cleanly, and if it is a data blob
/// its offset is representable and every identity it carries lies in the
/// data model.
pub open spec fn spec_blob_ok(blob: osmpbf::Blob) -> bool {
    &&& blob_decodes(blob)
    &&& blob_is_data(blob) ==> spec_blob_offset_ok(blob) && spec_block_decodable(blob_block(blob))
}

/// Decodes one container blob. A non-data blob yields nothing, exactly; a
/// data blob yields its normalized block, pinned to the blob's named
/// contents; a malformed blob — or one whose identities fall outside the
/// data model — aborts with a corruption fault carrying the blob's offset
/// where known.
pub fn decode_blob(blob: &osmpbf::Blob) -> (r: Result<Option<Block>, RunError>)
    ensures
        (r matches Ok(o) && o is Some) <==> spec_blob_ok(*blob) && blob_is_data(*blob),
        (r matches Ok(o) && o is None) <==> blob_decodes(*blob) && !blob_is_data(*blob),
        (r is Err) <==> !spec_blob_ok(*blob),
        r matches Ok(o) ==> (o matches Some(b) ==> spec_block_matches(
            b,
            blob_block(*blob),
            spec_blob_offset_value(*blob),
        ) && b.well_formed()),
        r matches Err(e) ==> e.is_corruption(),
{
    let offset = blob_offset(blob);
    match blob_to_data_block(blob) {
        Ok(Some(block)) => {
            let offset_value: u64 = match offset {
                Some(o) => {
                    if o < u64::MAX {
                        o
                    } else {
                        return Err(
                            RunError::ContainerCorruption {
                                offset: Some(o),
                                detail: String::from_str(
                                    "a block offset exceeds the addressable container",
                                ),
                            },
                        );
                    }
                },
                None => 0,
            };
            match decode_block(&block, offset_value) {
                Ok(b) => Ok(Some(b)),
                Err(e) => Err(e),
            }
        },
        Ok(None) => Ok(None),
        Err(e) => Err(
            RunError::ContainerCorruption { offset, detail: decode_error_text(&e) },
        ),
    }
}

/// The container's data blobs, in container order: the blobs a full decode
/// turns into blocks.
pub open spec fn spec_data_blobs(blobs: Seq<osmpbf::Blob>) -> Seq<osmpbf::Blob>
    decreases blobs.len(),
{
    if blobs.len() == 0 {
        Seq::empty()
    } else {
        let front = spec_data_blobs(blobs.drop_last());
        if blob_decodes(blobs.last()) && blob_is_data(blobs.last()) {
            front.push(blobs.last())
        } else {
            front
        }
    }
}

/// Every blob of the container decodes cleanly and carries only identities
/// the data model admits: exactly the containers a full decode accepts.
pub open spec fn spec_container_ok(blobs: Seq<osmpbf::Blob>) -> bool {
    forall|i: int| 0 <= i < blobs.len() ==> #[trigger] spec_blob_ok(blobs[i])
}

/// The decoded blocks are the container's data blobs, normalized, in
/// container order: one block per data blob, each pinned to its blob's
/// named contents.
pub open spec fn spec_container_matches(blocks: Seq<Block>, blobs: Seq<osmpbf::Blob>) -> bool {
    &&& blocks.len() == spec_data_blobs(blobs).len()
    &&& forall|j: int|
        0 <= j < blocks.len() ==> spec_block_matches(
            #[trigger] blocks[j],
            blob_block(spec_data_blobs(blobs)[j]),
            spec_blob_offset_value(spec_data_blobs(blobs)[j]),
        )
}

/// Decodes a whole container of blobs into blocks, fail-fast: the first
/// malformed blob aborts the decode with its fault and nothing decoded so
/// far is handed out; no blob is skipped over. The decode succeeds exactly
/// when every blob is acceptable, and then yields one normalized block per
/// data blob, in container order.
pub fn decode_container(blobs: &Vec<osmpbf::Blob>) -> (r: Result<Vec<Block>, RunError>)
    ensures
        (r is Ok) <==> spec_container_ok(blobs@),
        r matches Ok(blocks) ==> spec_container_matches(blocks@, blobs@) && spec_container_wf(
            blocks@,
        ),
        r matches Err(e) ==> e.is_corruption(),
{
    let mut blocks: Vec<Block> = Vec::new();
    let mut i: usize = 0;
    while i < blobs.len()
        invariant
            i <= blobs.len(),
            forall|j: int| 0 <= j < i ==> #[trigger] spec_blob_ok(blobs@[j]),
            spec_container_matches(blocks@, blobs@.take(i as int)),
            spec_container_wf(blocks@),
        decreases blobs.len() - i,
    {
        let ghost blobs_prefix = blobs@.take(i as int);
        let ghost blocks_before = blocks@;
        match decode_blob(&blobs[i]) {
            Ok(Some(block)) => {
                blocks.push(block);
            },
            Ok(None) => {},
            Err(e) => {
                proof {
                    assert(!spec_container_ok(blobs@)) by {
                        assert(0 <= i < blobs@.len() && !spec_blob_ok(blobs@[i as int]));
                    }
                }
                return Err(e);
            },
        }
        i = i + 1;
        proof {
            let stepped = blobs@.take(i as int);
            assert(stepped.drop_last() =~= blobs_prefix);
            assert(stepped.last() == blobs@[i - 1]);
            let data = spec_data_blobs(stepped);
            if blob_decodes(blobs@[i - 1]) && blob_is_data(blobs@[i - 1]) {
                assert(data == spec_data_blobs(blobs_prefix).push(blobs@[i - 1]));
                assert forall|j: int| 0 <= j < blocks@.len() implies spec_block_matches(
                    #[trigger] blocks@[j],
                    blob_block(data[j]),
                    spec_blob_offset_value(data[j]),
                ) by {
                    if j < blocks_before.len() {
                        assert(blocks@[j] == blocks_before[j]);
                        assert(data[j] == spec_data_blobs(blobs_prefix)[j]);
                    } else {
                        assert(blocks@[j] == blocks@.last());
                        assert(data[j] == blobs@[i - 1]);
                    }
                }
            } else {
                assert(data == spec_data_blobs(blobs_prefix));
            }
        }
    }
    assert(blobs@.take(blobs@.len() as int) =~= blobs@);
    Ok(blocks)
}

} // verus!
