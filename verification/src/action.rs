//! What block behaviours ask of the world, and what the world reports to the
//! outside.

use vstd::prelude::*;
use crate::direction::{BlockDirection, BlockPos};
use crate::flags::BlockFlags;
use crate::tick::TickPriority;

verus! {

/// The sounds that behaviours play.
#[derive(Clone, Copy, Debug, PartialEq, Eq, Structural)]
pub enum Sound {
    BlockTripwireClickOn,
    BlockTripwireClickOff,
    BlockTripwireAttach,
    BlockTripwireDetach,
}

/// The packet that tells a client of a changed cell.
#[derive(Clone, Copy, Debug, PartialEq, Eq, Structural)]
pub struct CBlockUpdate {
    pub location: BlockPos,
    pub block_id: i32,
}

/// Something that the world reports: the caller sends the packets, plays
/// the sounds and spawns the drops.
#[derive(Clone, Copy, Debug, PartialEq, Eq)]
pub enum WorldEvent {
    /// A cell changed and the clients are to draw it again.
    BlockUpdate(CBlockUpdate),
    /// A sound is played at a position.
    Sound { sound: Sound, pos: BlockPos },
    /// The loot of a block is dropped at a position.
    DropLoot { pos: BlockPos, block_id: u16 },
    /// A chain of updates went on for too long and was cut off.
    ChainAborted,
}

/// One step of work on the world. Behaviours decide on actions; the world
/// carries them out, one at a time, each with all that follows from it
/// before the next.
#[derive(Clone, Copy, Debug, PartialEq, Eq)]
pub enum Action {
    /// Write a state at a position.
    SetBlockState { pos: BlockPos, state_id: u16, flags: BlockFlags },
    /// Remove the block at a position, and drop its loot unless the flags
    /// say otherwise.
    BreakBlock { pos: BlockPos, flags: BlockFlags },
    /// Schedule a tick for a block at a position, `delay` game ticks from
    /// now.
    ScheduleBlockTick { pos: BlockPos, block_id: u16, delay: u8, priority: TickPriority },
    /// Tell the block at a position that a neighbour, of the given block,
    /// changed.
    NeighborUpdate { pos: BlockPos, source_block: u16 },
    /// Tell the neighbours of a position, but the one in direction `except`,
    /// that the block at the position changed.
    UpdateNeighbors { pos: BlockPos, except: Option<BlockDirection> },
    /// Let the neighbours of a position revise their states.
    ReviseNeighbors { pos: BlockPos, flags: BlockFlags },
    /// Let the block at a position revise its state after its neighbour in
    /// the given direction changed.
    ReplaceWithStateForNeighborUpdate { pos: BlockPos, direction: BlockDirection, flags: BlockFlags },
    /// Tell a block that its state at a position was replaced.
    StateReplaced { pos: BlockPos, block_id: u16, old_state_id: u16, moved: bool },
    /// Tell a block that it was placed at a position.
    Placed { pos: BlockPos, block_id: u16, state_id: u16, old_state_id: u16, moved: bool },
    /// Tell a block that a player placed it at a position.
    PlayerPlaced { pos: BlockPos, block_id: u16, state_id: u16, face: BlockDirection },
    /// Run the scheduled tick of a block at a position.
    ScheduledTick { pos: BlockPos, block_id: u16 },
    /// Play a sound at a position.
    PlaySound { sound: Sound, pos: BlockPos },
    /// Give the block at a position a random tick.
    RandomTick { pos: BlockPos },
    /// Write to the neighbour of a position in a direction the state that
    /// the block at the position, in the given state, takes when that
    /// neighbour changes.
    PostProcess {
        pos: BlockPos,
        block_id: u16,
        state_id: u16,
        direction: BlockDirection,
        flags: BlockFlags,
    },
}

} // verus!
