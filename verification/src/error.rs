//! The faults a run can end with. Every fault aborts the run that raised it;
//! only an advice fault outside strict enforcement is survivable, and that
//! one is never raised outside strict enforcement.

use vstd::prelude::*;

verus! {

/// The precise configuration rule a run rejected before starting.
#[derive(Clone, Copy, Debug, PartialEq, Eq, Structural)]
pub enum ConfigFault {
    /// A location cache cannot hold zero records.
    ZeroCapacity,
    /// The requested capacity in records does not fit the machine's byte
    /// addressing once multiplied by the record width.
    CapacityTooLarge,
    /// A chunk must cover at least one point identity.
    ZeroChunkSize,
    /// A chunk cannot cover more identities than the identity space holds.
    ChunkTooLarge,
    /// A record cannot be zero bytes wide.
    ZeroRecordWidth,
    /// An entity addressed a point identity at or beyond the cache capacity.
    CapacityExceeded,
}

/// A fault that aborts a population or resolution run.
#[derive(Clone, Debug)]
pub enum RunError {
    /// A container block could not be decoded, or held an entity the data
    /// model rejects. The offset is the block's byte offset where known.
    ContainerCorruption { offset: Option<u64>, detail: String },
    /// The backing store could not be opened, read or written.
    CacheIoFailure { detail: String },
    /// The run was rejected before it started.
    ConfigurationError { fault: ConfigFault },
    /// The platform refused an access-pattern hint under strict enforcement.
    AdviceUnsupported { detail: String },
}

impl RunError {
    pub open spec fn is_corruption(self) -> bool {
        self matches RunError::ContainerCorruption { .. }
    }

    pub open spec fn is_cache_io(self) -> bool {
        self matches RunError::CacheIoFailure { .. }
    }

    pub open spec fn is_configuration(self) -> bool {
        self matches RunError::ConfigurationError { .. }
    }

    pub open spec fn is_advice(self) -> bool {
        self matches RunError::AdviceUnsupported { .. }
    }
}

} // verus!
