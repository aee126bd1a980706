//! Fixed-precision coordinates, their packed record form, and bounding boxes.

use vstd::prelude::*;

verus! {

/// A geographic position in decimicro degrees (multiples of 10^-7 of a
/// degree), the precision the container's wire encoding carries.
#[derive(Clone, Copy, Debug, PartialEq, Eq, Structural)]
pub struct Coordinate {
    pub lat: i32,
    pub lon: i32,
}

/// The record value held by every entry of a location cache that was never
/// written. It decodes to the coordinate (0, 0), so an unresolved point is
/// indistinguishable from a point legitimately at that position.
pub const SENTINEL_RECORD: u64 = 0;

impl Coordinate {
    /// The coordinate an unwritten cache record decodes to.
    pub open spec fn spec_sentinel() -> Coordinate {
        Coordinate { lat: 0, lon: 0 }
    }

    pub fn sentinel() -> (r: Coordinate)
        ensures
            r == Self::spec_sentinel(),
    {
        Coordinate { lat: 0, lon: 0 }
    }
}

/// The packed record form of a coordinate: latitude in the upper 32 bits,
/// longitude in the lower 32 bits.
pub open spec fn spec_pack(c: Coordinate) -> u64 {
    ((c.lat as u32 as u64) << 32) | (c.lon as u32 as u64)
}

/// The coordinate a packed record decodes to.
pub open spec fn spec_unpack(v: u64) -> Coordinate {
    Coordinate { lat: ((v >> 32) as u32) as i32, lon: (v as u32) as i32 }
}

pub fn pack_coordinate(c: Coordinate) -> (r: u64)
    ensures
        r == spec_pack(c),
{
    ((c.lat as u32 as u64) << 32) | (c.lon as u32 as u64)
}

pub fn unpack_coordinate(v: u64) -> (r: Coordinate)
    ensures
        r == spec_unpack(v),
{
    Coordinate { lat: ((v >> 32) as u32) as i32, lon: (v as u32) as i32 }
}

/// Packing a coordinate and unpacking the record gives the coordinate back
/// exactly: no precision is lost by the record form.
pub proof fn lemma_pack_unpack(c: Coordinate)
    ensures
        spec_unpack(spec_pack(c)) == c,
{
    let lat = c.lat;
    let lon = c.lon;
    assert(((((lat as u32 as u64) << 32) | (lon as u32 as u64)) >> 32) as u32 as i32 == lat)
        by (bit_vector);
    assert(((((lat as u32 as u64) << 32) | (lon as u32 as u64)) as u32) as i32 == lon)
        by (bit_vector);
}

/// The sentinel record decodes to the sentinel coordinate.
pub proof fn lemma_sentinel_record()
    ensures
        spec_unpack(SENTINEL_RECORD) == Coordinate::spec_sentinel(),
{
    assert(((0u64 >> 32) as u32) as i32 == 0i32) by (bit_vector);
    assert((0u64 as u32) as i32 == 0i32) by (bit_vector);
}

/// A rectangle of decimicro-degree coordinates. The empty box carries the
/// extreme values that are the identity of `spec_merge`: enclosing a coordinate can
/// only shrink the minima and grow the maxima of the box.
#[derive(Clone, Copy, Debug, PartialEq, Eq, Structural)]
pub struct BoundingBox {
    pub min_lat: i32,
    pub max_lat: i32,
    pub min_lon: i32,
    pub max_lon: i32,
}

pub open spec fn spec_min_i32(a: i32, b: i32) -> i32 {
    if a <= b {
        a
    } else {
        b
    }
}

pub open spec fn spec_max_i32(a: i32, b: i32) -> i32 {
    if a >= b {
        a
    } else {
        b
    }
}

impl BoundingBox {
    /// The box containing no coordinate at all.
    pub open spec fn spec_empty() -> BoundingBox {
        BoundingBox { min_lat: i32::MAX, max_lat: i32::MIN, min_lon: i32::MAX, max_lon: i32::MIN }
    }

    pub fn empty() -> (r: BoundingBox)
        ensures
            r == Self::spec_empty(),
    {
        BoundingBox { min_lat: i32::MAX, max_lat: i32::MIN, min_lon: i32::MAX, max_lon: i32::MIN }
    }

    /// The box grown to contain one more coordinate.
    pub open spec fn spec_enclose(self, c: Coordinate) -> BoundingBox {
        BoundingBox {
            min_lat: spec_min_i32(self.min_lat, c.lat),
            max_lat: spec_max_i32(self.max_lat, c.lat),
            min_lon: spec_min_i32(self.min_lon, c.lon),
            max_lon: spec_max_i32(self.max_lon, c.lon),
        }
    }

    pub fn enclose(&mut self, c: Coordinate)
        ensures
            *final(self) == old(self).spec_enclose(c),
    {
        if c.lat < self.min_lat {
            self.min_lat = c.lat;
        }
        if c.lat > self.max_lat {
            self.max_lat = c.lat;
        }
        if c.lon < self.min_lon {
            self.min_lon = c.lon;
        }
        if c.lon > self.max_lon {
            self.max_lon = c.lon;
        }
    }

    /// The smallest box containing both boxes.
    pub open spec fn spec_merge(self, other: BoundingBox) -> BoundingBox {
        BoundingBox {
            min_lat: spec_min_i32(self.min_lat, other.min_lat),
            max_lat: spec_max_i32(self.max_lat, other.max_lat),
            min_lon: spec_min_i32(self.min_lon, other.min_lon),
            max_lon: spec_max_i32(self.max_lon, other.max_lon),
        }
    }

    pub fn merge(&mut self, other: &BoundingBox)
        ensures
            *final(self) == old(self).spec_merge(*other),
    {
        if other.min_lat < self.min_lat {
            self.min_lat = other.min_lat;
        }
        if other.max_lat > self.max_lat {
            self.max_lat = other.max_lat;
        }
        if other.min_lon < self.min_lon {
            self.min_lon = other.min_lon;
        }
        if other.max_lon > self.max_lon {
            self.max_lon = other.max_lon;
        }
    }
}

/// Merging bounding boxes is commutative.
pub proof fn lemma_bbox_merge_commutative(a: BoundingBox, b: BoundingBox)
    ensures
        a.spec_merge(b) == b.spec_merge(a),
{
}

/// Merging bounding boxes is associative.
pub proof fn lemma_bbox_merge_associative(a: BoundingBox, b: BoundingBox, c: BoundingBox)
    ensures
        a.spec_merge(b).spec_merge(c) == a.spec_merge(b.spec_merge(c)),
{
}

/// The empty box is the identity of the merge.
pub proof fn lemma_bbox_merge_identity(a: BoundingBox)
    ensures
        a.spec_merge(BoundingBox::spec_empty()) == a,
        BoundingBox::spec_empty().spec_merge(a) == a,
{
}

} // verus!
