use vstd::prelude::*;

verus! {

/// One cell of the voxel world: empty space or a filled block.
#[derive(Clone, Copy, PartialEq, Eq, Structural, Debug)]
pub enum Block {
    Air,
    Solid,
}

/// The surface color every solid block shows, as RGB channels.
pub open spec fn solid_color() -> (u8, u8, u8) {
    (255u8, 255u8, 255u8)
}

/// The color written for rays that leave the grid without a hit.
pub open spec fn background_color() -> (u8, u8, u8) {
    (0u8, 0u8, 0u8)
}

/// The background color as a value, for filling framebuffers.
pub fn background() -> (color: (u8, u8, u8))
    ensures
        color == background_color(),
{
    (0, 0, 0)
}

impl Block {
    /// True exactly on occupied cells.
    pub fn is_solid(&self) -> (solid: bool)
        ensures
            solid == (*self is Solid),
    {
        match self {
            Block::Air => false,
            Block::Solid => true,
        }
    }

    /// The color of an occupied block. Empty cells have no color, so the
    /// caller must have established that the block is solid.
    pub fn get_color(&self) -> (color: (u8, u8, u8))
        requires
            *self is Solid,
        ensures
            color == solid_color(),
    {
        (255, 255, 255)
    }
}

} // verus!
