//! The play-field: a rectangle of whole units centred on the origin.
//!
//! The field is given anew each frame by its `width` and `height`. It reaches
//! from `-half(width)` to `half(width)` across and from `-half(height)` to
//! `half(height)` upwards, both ends included. An odd extent rounds its half
//! down, so that every boundary lies on the grid.

use vstd::prelude::*;

verus! {

/// Half of an extent of the field, rounded down.
pub open spec fn half(extent: nat) -> int {
    extent as int / 2
}

/// Half of an extent of the field, rounded down.
pub fn half_extent(extent: u32) -> (r: i32)
    ensures
        r == half(extent as nat),
        0 <= r,
{
    (extent / 2) as i32
}

} // verus!
