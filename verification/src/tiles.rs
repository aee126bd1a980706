//! A compact 32-bit encoding of tile positions for zooms 0 through 15.
//!
//! For zooms up to 13 the packed value holds two zero bits, four zoom bits
//! and two 13-bit coordinate fields. Zooms 14 and 15 spend only two leading
//! bits (`10` and `11`) and widen the coordinate fields to 15 bits each.

use vstd::prelude::*;

verus! {

/// A tile position: column, row and zoom, with both coordinates below
/// `2^zoom`.
#[derive(Debug, Copy, Clone, Eq, PartialEq, Structural)]
pub struct TileID {
    pub x: u32,
    pub y: u32,
    pub zoom: u32,
}

impl TileID {
    /// A position the packed form can represent.
    pub open spec fn well_formed(self) -> bool {
        &&& self.zoom <= 15
        &&& self.x < (1u32 << self.zoom)
        &&& self.y < (1u32 << self.zoom)
    }
}

/// The packed 32-bit form of a tile position.
#[derive(Debug, Copy, Clone, Eq, PartialEq, Structural)]
pub struct PackedTileID(pub u32);

/// The packed bits of a tile position.
pub open spec fn spec_pack_tile(id: TileID) -> u32 {
    if id.zoom <= 13 {
        (id.zoom << 26) | (id.x << 13) | id.y
    } else {
        (((id.zoom - 12) as u32) << 30) | (id.x << 15) | id.y
    }
}

/// The tile position a packed value decodes to.
pub open spec fn spec_unpack_tile(v: u32) -> TileID {
    let zoom = (v & 0xFC00_0000) >> 26;
    if zoom <= 13 {
        TileID { x: (v & 0x03FF_E000) >> 13, y: v & 0x1FFF, zoom }
    } else {
        TileID { x: (v & 0x3FFF_8000) >> 15, y: v & 0x7FFF, zoom: (((zoom & 0x30) >> 4) + 12) as u32 }
    }
}

impl PackedTileID {
    /// Packs a representable tile position.
    pub fn new(id: TileID) -> (r: PackedTileID)
        requires
            id.well_formed(),
        ensures
            r.0 == spec_pack_tile(id),
            spec_unpack_tile(r.0) == id,
    {
        proof {
            lemma_tile_round_trip(id);
        }
        if id.zoom <= 13 {
            PackedTileID((id.zoom << 26u32) | (id.x << 13u32) | id.y)
        } else {
            PackedTileID(((id.zoom - 12) << 30u32) | (id.x << 15u32) | id.y)
        }
    }

    /// Recovers the tile position from the packed form.
    pub fn decode(&self) -> (r: TileID)
        ensures
            r == spec_unpack_tile(self.0),
    {
        let zoom = (self.0 & 0xFC00_0000) >> 26u32;
        if zoom <= 13 {
            TileID { x: (self.0 & 0x03FF_E000) >> 13u32, y: self.0 & 0x1FFF, zoom }
        } else {
            assert((zoom & 0x30) >> 4 <= 3) by (bit_vector);
            TileID {
                x: (self.0 & 0x3FFF_8000) >> 15u32,
                y: self.0 & 0x7FFF,
                zoom: ((zoom & 0x30) >> 4u32) + 12,
            }
        }
    }
}

/// Decoding inverts packing: every representable tile position comes back
/// from its packed form exactly.
pub proof fn lemma_tile_round_trip(id: TileID)
    requires
        id.well_formed(),
    ensures
        spec_unpack_tile(spec_pack_tile(id)) == id,
{
    let x = id.x;
    let y = id.y;
    let z = id.zoom;
    if z <= 13 {
        let enc: u32 = (z << 26) | (x << 13) | y;
        assert((enc & 0xFC00_0000) >> 26 == z && (enc & 0x03FF_E000) >> 13 == x && enc & 0x1FFF
            == y) by (bit_vector)
            requires
                z <= 13,
                x < (1u32 << z),
                y < (1u32 << z),
                enc == (z << 26) | (x << 13) | y,
        ;
    } else {
        let enc: u32 = (((z - 12) as u32) << 30) | (x << 15) | y;
        assert((enc & 0xFC00_0000) >> 26 > 13 && (enc & 0x3FFF_8000) >> 15 == x && enc & 0x7FFF
            == y && ((((enc & 0xFC00_0000) >> 26) & 0x30) >> 4) + 12 == z) by (bit_vector)
            requires
                14 <= z <= 15,
                x < (1u32 << z),
                y < (1u32 << z),
                enc == (((z - 12) as u32) << 30) | (x << 15) | y,
        ;
    }
}

} // verus!
