//! The location cache: a fixed-width, random-access store from point
//! identity to packed coordinate record.
//!
//! The cache exists in two backings behind one contract: a verified in-memory
//! array, and a sparse backing file shared with the `osmnodecache` crate,
//! reached through trusted wrappers. Both are modeled as a sequence of `u64`
//! records; every entry outside the written range reads as the sentinel.

use vstd::pervasive::VecAdditionalExecFns;
use vstd::prelude::*;

use crate::coords::{
    lemma_pack_unpack, pack_coordinate, spec_pack, spec_unpack, unpack_coordinate, Coordinate,
    SENTINEL_RECORD,
};
use crate::error::{ConfigFault, RunError};

verus! {

#[verifier::external_type_specification]
#[verifier::external_body]
pub struct ExDenseFileCache(osmnodecache::DenseFileCache);

#[verifier::external_type_specification]
#[verifier::external_body]
pub struct ExOsmNodeCacheError(osmnodecache::OsmNodeCacheError);

/// The records the shared backing file holds, one `u64` per point identity,
/// in identity order. The file is shared mutable state: this sequence models
/// what one handle observes, under the population invariant that concurrent
/// writers target disjoint identities and readers run after writers finish.
pub uninterp spec fn store_view(store: osmnodecache::DenseFileCache) -> Seq<u64>;

/// Relies on `osmnodecache::DenseFileCacheOpts::{new, page_size, open}`:
/// opens or creates the backing file and maps it, sized up to at least one
/// page of `page_bytes` bytes, eight bytes per record. `open` fails rather
/// than panics on an I/O fault.
#[verifier::external_body]
fn store_open(path: &str, page_bytes: usize) -> (r: Result<
    osmnodecache::DenseFileCache,
    osmnodecache::OsmNodeCacheError,
>)
    requires
        page_bytes % 8 == 0,
        page_bytes >= 8,
    ensures
        r matches Ok(store) ==> store_view(store).len() >= page_bytes / 8,
{
    osmnodecache::DenseFileCacheOpts::new(std::path::PathBuf::from(path)).page_size(
        page_bytes,
    ).open()
}

/// Relies on `osmnodecache::CacheStore::get_accessor` and
/// `osmnodecache::Cache::get`: reads the record at `index` from the mapped
/// file. `get` panics beyond the mapped length, so that region is excluded.
#[verifier::external_body]
fn store_get(store: &osmnodecache::DenseFileCache, index: usize) -> (r: u64)
    requires
        index < store_view(*store).len(),
    ensures
        r == store_view(*store)[index as int],
{
    osmnodecache::CacheStore::get_accessor(store).get(index)
}

/// Relies on `osmnodecache::CacheStore::get_accessor` and
/// `osmnodecache::Cache::set`: writes the record at `index`, growing the
/// mapped file by whole pages when `index` lies beyond it; file growth
/// zero-fills the new region. The byte capacity `(index + 1) * 8` must fit
/// the machine, hence the bound on `index`.
#[verifier::external_body]
fn store_set(store: &mut osmnodecache::DenseFileCache, index: usize, value: u64)
    requires
        index < usize::MAX / 8,
    ensures
        store_view(*final(store)).len() > index,
        store_view(*final(store)).len() >= store_view(*old(store)).len(),
        store_view(*final(store))[index as int] == value,
        forall|j: int|
            0 <= j < store_view(*old(store)).len() && j != index ==> store_view(*final(store))[j]
                == store_view(*old(store))[j],
        forall|j: int|
            store_view(*old(store)).len() <= j < store_view(*final(store)).len() && j != index
                ==> store_view(*final(store))[j] == 0,
{
    let mut accessor = osmnodecache::CacheStore::get_accessor(store);
    accessor.set(index, value);
}

/// Relies on `<osmnodecache::DenseFileCache as Clone>::clone`: the clone
/// shares the same mapped file, so it observes the same records at the
/// moment it is made.
#[verifier::external_body]
fn store_clone(store: &osmnodecache::DenseFileCache) -> (r: osmnodecache::DenseFileCache)
    ensures
        store_view(r) == store_view(*store),
{
    store.clone()
}

/// Relies on `osmnodecache::DenseFileCache::advise` (and `memmap2::Advice`):
/// hands the access-pattern hint to the platform; nothing is promised of the
/// outcome, the platform may refuse it.
#[verifier::external_body]
fn store_advise(store: &osmnodecache::DenseFileCache, advice: MemAdvice) -> (r: Result<
    (),
    osmnodecache::OsmNodeCacheError,
>) {
    let mapped = match advice {
        MemAdvice::Normal => osmnodecache::Advice::Normal,
        MemAdvice::Random => osmnodecache::Advice::Random,
        MemAdvice::Sequential => osmnodecache::Advice::Sequential,
        MemAdvice::WillNeed => osmnodecache::Advice::WillNeed,
    };
    store.advise(mapped)
}

/// Relies on `ToString::to_string` through the error's `Display`
/// implementation: renders an `osmnodecache` fault for the operator.
#[verifier::external_body]
fn store_error_text(e: &osmnodecache::OsmNodeCacheError) -> String {
    e.to_string()
}

/// An access-pattern hint for the backing store, one per expected phase:
/// sequential during population, random during resolution.
#[derive(Clone, Copy, Debug, PartialEq, Eq, Structural)]
pub enum MemAdvice {
    Normal,
    Random,
    Sequential,
    WillNeed,
}

/// The access-pattern hints a caller asks to apply before a phase.
#[derive(Clone, Debug)]
pub struct OptAdvice {
    pub advice: Vec<MemAdvice>,
}

/// Where a location cache keeps its records.
enum CacheBacking {
    /// A verified array, every record present from creation.
    Memory { data: Vec<u64> },
    /// A sparse backing file of the `osmnodecache` crate. `covered` is the
    /// number of leading records this handle addresses; it never exceeds the
    /// mapped length.
    File { store: osmnodecache::DenseFileCache, covered: usize },
}

/// The location cache: `capacity` fixed-width records addressed by point
/// identity, where `capacity` must exceed the greatest possible identity.
/// Records never written read as the sentinel.
pub struct LocationCache {
    backing: CacheBacking,
}

/// The capacity bounds the machine can address at eight bytes per record.
pub open spec fn spec_capacity_ok(capacity: usize) -> bool {
    1 <= capacity <= usize::MAX / 8
}

impl LocationCache {
    /// The internal consistency of the handle: a file backing never
    /// addresses past the mapped region.
    pub closed spec fn well_formed(self) -> bool {
        match self.backing {
            CacheBacking::Memory { data } => data.len() <= usize::MAX / 8,
            CacheBacking::File { store, covered } => covered <= store_view(store).len() && covered
                <= usize::MAX / 8,
        }
    }

    /// The records this handle addresses, one per point identity.
    pub closed spec fn view(self) -> Seq<u64> {
        match self.backing {
            CacheBacking::Memory { data } => data@,
            CacheBacking::File { store, covered } => store_view(store).take(covered as int),
        }
    }

    /// The record read for a point identity: the stored value inside the
    /// addressed range, the sentinel everywhere else.
    pub closed spec fn entry(self, id: int) -> u64 {
        if 0 <= id < self.view().len() {
            self.view()[id]
        } else {
            SENTINEL_RECORD
        }
    }

    /// A cache of `capacity` records held in memory, all at the sentinel.
    pub fn new_in_memory(capacity: usize) -> (r: Result<LocationCache, RunError>)
        ensures
            r matches Ok(cache) ==> {
                &&& cache.well_formed()
                &&& spec_capacity_ok(capacity)
                &&& cache.view() =~= Seq::new(capacity as nat, |i: int| SENTINEL_RECORD)
            },
            r matches Err(e) ==> e.is_configuration() && !spec_capacity_ok(capacity),
            (r matches Ok(c)) <==> spec_capacity_ok(capacity),
    {
        if capacity == 0 {
            return Err(RunError::ConfigurationError { fault: ConfigFault::ZeroCapacity });
        }
        if capacity > usize::MAX / 8 {
            return Err(RunError::ConfigurationError { fault: ConfigFault::CapacityTooLarge });
        }
        let mut data: Vec<u64> = Vec::new();
        let mut i: usize = 0;
        while i < capacity
            invariant
                i <= capacity,
                data@.len() == i,
                forall|j: int| 0 <= j < i ==> data@[j] == SENTINEL_RECORD,
            decreases capacity - i,
        {
            data.push(SENTINEL_RECORD);
            i = i + 1;
        }
        Ok(LocationCache { backing: CacheBacking::Memory { data } })
    }

    /// A cache of `capacity` records backed by the sparse file at `path`,
    /// opened or created through the `osmnodecache` crate. What a
    /// pre-existing file already holds is kept, so a cache populated by an
    /// earlier run can be reopened for resolution.
    pub fn open(path: &str, capacity: usize) -> (r: Result<LocationCache, RunError>)
        ensures
            r matches Ok(cache) ==> {
                &&& cache.well_formed()
                &&& spec_capacity_ok(capacity)
                &&& cache.view().len() == capacity
            },
            (r matches Err(e) && e.is_configuration()) <==> !spec_capacity_ok(capacity),
            r matches Err(e) ==> e.is_configuration() || e.is_cache_io(),
    {
        if capacity == 0 {
            return Err(RunError::ConfigurationError { fault: ConfigFault::ZeroCapacity });
        }
        if capacity > usize::MAX / 8 {
            return Err(RunError::ConfigurationError { fault: ConfigFault::CapacityTooLarge });
        }
        let page_bytes: usize = capacity * 8;
        match store_open(path, page_bytes) {
            Ok(store) => {
                assert(store_view(store).take(capacity as int).len() == capacity);
                Ok(LocationCache { backing: CacheBacking::File { store, covered: capacity } })
            },
            Err(e) => Err(RunError::CacheIoFailure { detail: store_error_text(&e) }),
        }
    }

    /// How many records this handle addresses.
    pub fn len(&self) -> (r: usize)
        requires
            self.well_formed(),
        ensures
            r == self.view().len(),
    {
        match &self.backing {
            CacheBacking::Memory { data } => data.len(),
            CacheBacking::File { covered, .. } => *covered,
        }
    }

    /// The record stored for `id`, the sentinel if `id` was never written or
    /// lies outside the addressed range.
    pub fn get(&self, id: u64) -> (r: u64)
        requires
            self.well_formed(),
        ensures
            r == self.entry(id as int),
    {
        match &self.backing {
            CacheBacking::Memory { data } => {
                if id < data.len() as u64 {
                    data[id as usize]
                } else {
                    SENTINEL_RECORD
                }
            },
            CacheBacking::File { store, covered } => {
                if id < *covered as u64 {
                    store_get(store, id as usize)
                } else {
                    SENTINEL_RECORD
                }
            },
        }
    }

    /// Writes the record for `id`. Addresses are disjoint across concurrent
    /// writers by the population invariant, so no locking is involved.
    pub fn set(&mut self, id: u64, value: u64)
        requires
            old(self).well_formed(),
            id < old(self).view().len(),
        ensures
            final(self).well_formed(),
            final(self).view() =~= old(self).view().update(id as int, value),
    {
        match &mut self.backing {
            CacheBacking::Memory { data } => {
                data.set(id as usize, value);
            },
            CacheBacking::File { store, covered } => {
                let ghost pre = store_view(*store);
                store_set(store, id as usize, value);
                assert(store_view(*store).take(*covered as int) =~= pre.take(
                    *covered as int,
                ).update(id as int, value));
            },
        }
    }

    /// Writes the coordinate for `id` in its packed record form. Reading
    /// `id` back gives exactly `c`; every other identity is untouched.
    pub fn set_coordinate(&mut self, id: u64, c: Coordinate)
        requires
            old(self).well_formed(),
            id < old(self).view().len(),
        ensures
            final(self).well_formed(),
            final(self).view().len() == old(self).view().len(),
            final(self).view() == old(self).view().update(id as int, spec_pack(c)),
            spec_unpack(final(self).entry(id as int)) == c,
            final(self).entry(id as int) == spec_pack(c),
            forall|j: int| j != id ==> final(self).entry(j) == old(self).entry(j),
    {
        proof {
            lemma_pack_unpack(c);
        }
        self.set(id, pack_coordinate(c));
    }

    /// The coordinate stored for `id`; the sentinel coordinate means the
    /// point is unresolved (or legitimately at (0, 0)).
    pub fn get_coordinate(&self, id: u64) -> (r: Coordinate)
        requires
            self.well_formed(),
        ensures
            r == spec_unpack(self.entry(id as int)),
    {
        unpack_coordinate(self.get(id))
    }

    /// An accessor: a cheap, independent handle for one worker, used by one
    /// thread at a time. For the file backing the accessor shares the same
    /// mapped file, so its contract speaks of the records at the moment it
    /// is made; concurrent handles stay consistent with that model because
    /// population writers target disjoint identities and resolution readers
    /// run only after every writer has finished — verified code itself
    /// reads and writes through a single handle at a time. For the
    /// in-memory backing the accessor is a snapshot of its own.
    pub fn get_accessor(&self) -> (r: LocationCache)
        requires
            self.well_formed(),
        ensures
            r.well_formed(),
            r.view() == self.view(),
    {
        match &self.backing {
            CacheBacking::Memory { data } => {
                let mut copy: Vec<u64> = Vec::new();
                let mut i: usize = 0;
                while i < data.len()
                    invariant
                        i <= data.len(),
                        copy@ =~= data@.take(i as int),
                    decreases data.len() - i,
                {
                    copy.push(data[i]);
                    i = i + 1;
                }
                assert(copy@ =~= data@);
                LocationCache { backing: CacheBacking::Memory { data: copy } }
            },
            CacheBacking::File { store, covered } => {
                LocationCache {
                    backing: CacheBacking::File { store: store_clone(store), covered: *covered },
                }
            },
        }
    }

    /// Hands each access-pattern hint to the storage layer. A refused hint
    /// is fatal only under strict enforcement; without it the run goes on,
    /// so without strictness this always succeeds.
    pub fn advise(&self, advice: &OptAdvice, strict: bool) -> (r: Result<(), RunError>)
        requires
            self.well_formed(),
        ensures
            !strict ==> r matches Ok(()),
            r matches Err(e) ==> e.is_advice() && strict,
    {
        match &self.backing {
            CacheBacking::Memory { .. } => Ok(()),
            CacheBacking::File { store, .. } => {
                let mut i: usize = 0;
                while i < advice.advice.len()
                    invariant
                        i <= advice.advice.len(),
                    decreases advice.advice.len() - i,
                {
                    let outcome = store_advise(store, advice.advice[i]);
                    if strict {
                        match outcome {
                            Ok(()) => {},
                            Err(e) => {
                                return Err(
                                    RunError::AdviceUnsupported { detail: store_error_text(&e) },
                                );
                            },
                        }
                    }
                    i = i + 1;
                }
                Ok(())
            },
        }
    }
}

/// For every point identity in range, a read after a write returns the
/// written coordinate exactly: the packed record form loses nothing. The
/// hypotheses are what `set` guarantees; the conclusion is what
/// `get_coordinate` then returns.
pub proof fn lemma_write_read_round_trip(
    pre: LocationCache,
    post: LocationCache,
    id: u64,
    c: Coordinate,
)
    requires
        pre.well_formed(),
        (id as int) < pre.view().len(),
        post.view() == pre.view().update(id as int, spec_pack(c)),
    ensures
        spec_unpack(post.entry(id as int)) == c,
{
    lemma_pack_unpack(c);
}

/// Copies a hint list record for record.
fn copy_hints(hints: &Vec<MemAdvice>) -> (r: Vec<MemAdvice>)
    ensures
        r@ == hints@,
{
    let mut copy: Vec<MemAdvice> = Vec::new();
    let mut i: usize = 0;
    while i < hints.len()
        invariant
            i <= hints.len(),
            copy@ =~= hints@.take(i as int),
        decreases hints.len() - i,
    {
        copy.push(hints[i]);
        i = i + 1;
    }
    assert(copy@ =~= hints@);
    copy
}

/// The access-pattern hints for the two phases of a run: with none named,
/// population defaults to sequential access and resolution to random
/// access; named hints are used for both phases unchanged.
pub fn phase_advice(requested: &OptAdvice) -> (r: (OptAdvice, OptAdvice))
    ensures
        requested.advice@.len() == 0 ==> r.0.advice@ == seq![MemAdvice::Sequential]
            && r.1.advice@ == seq![MemAdvice::Random],
        requested.advice@.len() > 0 ==> r.0.advice@ == requested.advice@ && r.1.advice@
            == requested.advice@,
{
    if requested.advice.len() == 0 {
        let mut population: Vec<MemAdvice> = Vec::new();
        population.push(MemAdvice::Sequential);
        let mut resolution: Vec<MemAdvice> = Vec::new();
        resolution.push(MemAdvice::Random);
        assert(population@ =~= seq![MemAdvice::Sequential]);
        assert(resolution@ =~= seq![MemAdvice::Random]);
        (OptAdvice { advice: population }, OptAdvice { advice: resolution })
    } else {
        (
            OptAdvice { advice: copy_hints(&requested.advice) },
            OptAdvice { advice: copy_hints(&requested.advice) },
        )
    }
}

/// What `entry` reads is determined by the view alone: the stored record
/// inside the addressed range, the sentinel outside it.
pub proof fn lemma_entry_from_view(cache: LocationCache, id: int)
    ensures
        cache.entry(id) == if 0 <= id < cache.view().len() {
            cache.view()[id]
        } else {
            SENTINEL_RECORD
        },
{
}

/// The cache reads the sentinel at every identity outside `written`.
pub open spec fn reads_sentinel_outside(cache: LocationCache, written: Set<int>) -> bool {
    forall|id: int| !written.contains(id) ==> cache.entry(id) == SENTINEL_RECORD
}

/// A cache whose records are all still the sentinel — as `new_in_memory`
/// creates it — reads the sentinel at every identity.
pub proof fn lemma_fresh_reads_sentinel(cache: LocationCache)
    requires
        cache.view() =~= Seq::new(cache.view().len(), |i: int| SENTINEL_RECORD),
    ensures
        reads_sentinel_outside(cache, Set::empty()),
{
}

/// One write never disturbs any other identity: after writing `id`, every
/// identity outside the written set extended by `id` still reads the
/// sentinel, never a neighboring value. With `lemma_fresh_reads_sentinel`
/// this carries the sentinel guarantee through any sequence of writes.
pub proof fn lemma_write_preserves_sentinel(
    pre: LocationCache,
    post: LocationCache,
    written: Set<int>,
    id: u64,
    value: u64,
)
    requires
        reads_sentinel_outside(pre, written),
        (id as int) < pre.view().len(),
        post.view() == pre.view().update(id as int, value),
    ensures
        reads_sentinel_outside(post, written.insert(id as int)),
{
    assert forall|j: int| !written.insert(id as int).contains(j) implies post.entry(j)
        == SENTINEL_RECORD by {
        assert(post.entry(j) == pre.entry(j));
    }
}

} // verus!
