//! The output map feature a renderer builds from a source entity. The
//! geometry pipeline itself belongs to outside collaborators; the library
//! carries only the feature's identity, its zoom range and its per-zoom
//! attributes.

use std::collections::HashMap;

use vstd::prelude::*;

verus! {

/// A builder for an output map feature: the source entity it came from and
/// the zoom range it is rendered for.
#[derive(Clone, Copy, Debug, PartialEq, Eq, Structural)]
pub struct Feature {
    /// The identity of the source entity this feature came from.
    pub source_id: u64,
    pub min_zoom: u16,
    pub max_zoom: u16,
}

impl Feature {
    /// A feature for one source entity at the default zoom range.
    pub fn new(source_id: u64) -> (r: Feature)
        ensures
            r.source_id == source_id,
            r.min_zoom == 10,
            r.max_zoom == 12,
    {
        Feature { source_id, min_zoom: 10, max_zoom: 12 }
    }

    /// The attributes to attach at a zoom level; none are configured.
    pub fn get_attrs_at_zoom(&self, _z: u16) -> (r: HashMap<String, String>)
        ensures
            r@ == Map::<String, String>::empty(),
    {
        HashMap::new()
    }
}

} // verus!
