//! What a placed block takes the place of, and the events of single blocks.

use vstd::prelude::*;
use crate::direction::BlockPos;

verus! {

/// An event of a single block, as a piston's push or a chest's lid.
#[derive(Clone, Copy, Debug, PartialEq, Eq, Structural)]
pub struct BlockEvent {
    pub pos: BlockPos,
    /// The kind of the event, as the block understands it.
    pub kind: u8,
    pub data: u8,
}

/// What stood where a block is placed.
#[derive(Clone, Copy, Debug, PartialEq, Eq, Structural)]
pub enum BlockIsReplacing {
    /// A state of the same block.
    Itself(u16),
    /// Water of a level from 0 to 15.
    Water(u8),
    Other,
    Nothing,
}

impl BlockIsReplacing {
    /// The block takes the place of water of level 0, which is a source.
    pub open spec fn spec_water_source(self) -> bool {
        self == BlockIsReplacing::Water(0)
    }

    /// Whether the block takes the place of a water source.
    pub fn water_source(&self) -> (r: bool)
        ensures
            r == self.spec_water_source(),
    {
        match self {
            BlockIsReplacing::Water(level) => *level == 0,
            _ => false,
        }
    }
}

} // verus!
