//! The foreground level layer: the 256x256 tile grid and the solidity
//! classification of its tile IDs.
use vstd::prelude::*;

use crate::graphics::DataDef;
use crate::terrain::{cell, grid_wf};
use crate::vec2::{div_t, Vec2};

verus! {

/// The semantic meaning of a tile for collision resolution, derived
/// purely from the tile ID. Unknown IDs classify as `Solid`: a deliberate
/// fail-safe, not an error.
#[derive(Copy, Clone, Debug, PartialEq, Eq, Structural)]
pub enum Solidity {
    NonSolid,
    Solid,
    /// A collectible tile: touching it clears the cell and spawns a
    /// reward entity.
    Coin,
    /// A one-way platform: blocks only from above.
    Semisolid,
    /// Acts as solid ground for the downward sensor.
    EjectUp,
    /// Blocks like solid, and imparts an upward knockback impulse.
    HurtTop,
    /// Blocks only in the lower half of its tile.
    Slab,
    /// The shallow half of a gentle slope; the flag is its direction.
    SlopeHigh(bool),
    /// The low half of a gentle slope; the flag is its direction.
    SlopeLow(bool),
    /// A 45-degree slope; the flag is its direction.
    SlopeSteep(bool),
    /// A softer slope variant that only sets a fixed vertical clamp.
    SlopeAssist { direction: bool, steep: bool },
}

/// The solidity of a tile ID.
pub open spec fn solidity_of(c: u8) -> Solidity {
    if c == 0x00 {
        Solidity::NonSolid
    } else if c == 0x02 {
        Solidity::Coin
    } else if c == 0x04 || c == 0x06 {
        Solidity::Semisolid
    } else if c == 0x05 {
        Solidity::HurtTop
    } else if c == 0x49 {
        Solidity::Slab
    } else if c == 0x52 {
        Solidity::EjectUp
    } else if c == 0x46 {
        Solidity::SlopeSteep(false)
    } else if c == 0x47 {
        Solidity::SlopeSteep(true)
    } else if c == 0x56 {
        Solidity::SlopeAssist { direction: false, steep: true }
    } else if c == 0x57 {
        Solidity::SlopeAssist { direction: true, steep: true }
    } else if c == 0x66 {
        Solidity::SlopeAssist { direction: false, steep: false }
    } else if c == 0x74 {
        Solidity::SlopeAssist { direction: true, steep: false }
    } else if c == 0x64 {
        Solidity::SlopeLow(false)
    } else if c == 0x65 {
        Solidity::SlopeHigh(false)
    } else if c == 0x75 {
        Solidity::SlopeHigh(true)
    } else if c == 0x76 {
        Solidity::SlopeLow(true)
    } else if 0x5D <= c <= 0x5F {
        Solidity::Semisolid
    } else if 0x6D <= c <= 0x6F {
        Solidity::NonSolid
    } else if c >= 0x80 {
        Solidity::NonSolid
    } else {
        Solidity::Solid
    }
}

/// Classify one tile ID.
pub fn classify(c: u8) -> (r: Solidity)
    ensures
        r == solidity_of(c),
{
    if c == 0x00 {
        Solidity::NonSolid
    } else if c == 0x02 {
        Solidity::Coin
    } else if c == 0x04 || c == 0x06 {
        Solidity::Semisolid
    } else if c == 0x05 {
        Solidity::HurtTop
    } else if c == 0x49 {
        Solidity::Slab
    } else if c == 0x52 {
        Solidity::EjectUp
    } else if c == 0x46 {
        Solidity::SlopeSteep(false)
    } else if c == 0x47 {
        Solidity::SlopeSteep(true)
    } else if c == 0x56 {
        Solidity::SlopeAssist { direction: false, steep: true }
    } else if c == 0x57 {
        Solidity::SlopeAssist { direction: true, steep: true }
    } else if c == 0x66 {
        Solidity::SlopeAssist { direction: false, steep: false }
    } else if c == 0x74 {
        Solidity::SlopeAssist { direction: true, steep: false }
    } else if c == 0x64 {
        Solidity::SlopeLow(false)
    } else if c == 0x65 {
        Solidity::SlopeHigh(false)
    } else if c == 0x75 {
        Solidity::SlopeHigh(true)
    } else if c == 0x76 {
        Solidity::SlopeLow(true)
    } else if 0x5D <= c && c <= 0x5F {
        Solidity::Semisolid
    } else if 0x6D <= c && c <= 0x6F {
        Solidity::NonSolid
    } else if c >= 0x80 {
        Solidity::NonSolid
    } else {
        Solidity::Solid
    }
}

/// Clamp a tile coordinate into the grid.
pub open spec fn clamp255(v: int) -> int {
    if v < 0 { 0 } else if v > 255 { 255 } else { v }
}

/// The tile ID at tile coordinates `(x, y)`, saturating to the grid edge.
pub open spec fn block_at_spec(g: Seq<u8>, x: int, y: int) -> u8
    recommends
        grid_wf(g),
{
    g[cell(clamp255(x), clamp255(y))]
}

/// The grid after overwriting the tile at tile coordinates `(x, y)`,
/// saturating to the grid edge.
pub open spec fn set_block_spec(g: Seq<u8>, x: int, y: int, b: u8) -> Seq<u8> {
    g.update(cell(clamp255(x), clamp255(y)), b)
}

/// The foreground layer: the tile grid plus its tile graphics.
pub struct Foreground {
    pub blocks: Vec<u8>,
    pub gfx: DataDef,
}

impl Foreground {
    /// The grid buffer is always one byte per cell.
    pub open spec fn wf(&self) -> bool {
        grid_wf(self.blocks@)
    }

    /// An empty foreground with no graphics.
    pub fn new() -> (r: Foreground)
        ensures
            r.wf(),
            forall|i: int| 0 <= i < 65536 ==> r.blocks@[i] == 0u8,
    {
        let mut blocks: Vec<u8> = Vec::new();
        let mut i: usize = 0;
        while i < 65536
            invariant
                0 <= i <= 65536,
                blocks@.len() == i,
                forall|j: int| 0 <= j < i ==> blocks@[j] == 0u8,
            decreases 65536 - i,
        {
            blocks.push(0);
            i = i + 1;
        }
        Foreground { blocks, gfx: DataDef::new() }
    }

    /// The tile ID at tile coordinates `at`, saturating to the grid edge.
    pub fn block_at(&self, at: Vec2) -> (r: u8)
        requires
            self.wf(),
        ensures
            r == block_at_spec(self.blocks@, at.x as int, at.y as int),
    {
        let x: i32 = if at.x < 0 { 0 } else if at.x > 255 { 255 } else { at.x };
        let y: i32 = if at.y < 0 { 0 } else if at.y > 255 { 255 } else { at.y };
        self.blocks[(y * 256 + x) as usize]
    }

    /// Overwrite the tile at tile coordinates `at`, saturating to the
    /// grid edge. Stands in for the original's mutable cell access.
    pub fn set_block(&mut self, at: Vec2, b: u8)
        requires
            old(self).wf(),
        ensures
            final(self).wf(),
            final(self).blocks@ == set_block_spec(old(self).blocks@, at.x as int, at.y as int, b),
            final(self).gfx == old(self).gfx,
    {
        let x: i32 = if at.x < 0 { 0 } else if at.x > 255 { 255 } else { at.x };
        let y: i32 = if at.y < 0 { 0 } else if at.y > 255 { 255 } else { at.y };
        self.blocks.set((y * 256 + x) as usize, b);
    }

    /// The solidity of the tile at tile coordinates `at`.
    pub fn solidity_at(&self, at: Vec2) -> (r: Solidity)
        requires
            self.wf(),
        ensures
            r == solidity_of(block_at_spec(self.blocks@, at.x as int, at.y as int)),
    {
        classify(self.block_at(at))
    }
}

} // verus!
