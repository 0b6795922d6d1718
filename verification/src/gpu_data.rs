//! Packed per-tile primitives handed to the downstream rasterizer.
//!
//! These records are plain data: the partitioner's consumers batch them for
//! GPU submission, and nothing here carries geometry of its own.

use vstd::prelude::*;

verus! {

/// One tile of a rasterized object.
#[derive(Clone, Copy, PartialEq, Eq, Structural, Debug)]
pub struct TileObjectPrimitive {
    /// If `u16::MAX`, then this is a solid tile.
    pub alpha_tile_index: u16,
    pub backdrop: i8,
}

/// One solid tile in a batch.
#[derive(Clone, Copy, PartialEq, Eq, Structural, Debug)]
pub struct SolidTileBatchPrimitive {
    pub tile_x: i16,
    pub tile_y: i16,
    pub object_index: u16,
}

/// One alpha tile in a batch.
#[derive(Clone, Copy, PartialEq, Eq, Structural, Debug, Default)]
pub struct AlphaTileBatchPrimitive {
    pub tile_x_lo: u8,
    pub tile_y_lo: u8,
    pub tile_hi: u8,
    pub backdrop: i8,
    pub tile_index: u16,
    pub object_index: u16,
}

} // verus!
