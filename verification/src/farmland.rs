//! Farmland: it needs a block above that is not solid, and turns to dirt
//! one game tick after it lost that.

use vstd::prelude::*;
use crate::action::Action;
use crate::block::OptimizedBlock;
use crate::direction::{BlockDirection, BlockPos};
use crate::flags::{BlockFlags, NOTIFY_ALL};
use crate::registry::BlockMetadata;
use crate::tick::TickPriority;
use crate::world::{World, WorldView};

verus! {

/// The behaviour of farmland.
#[derive(Clone, Copy, Debug, PartialEq, Eq, Structural)]
pub struct FarmLandBlock;

impl BlockMetadata for FarmLandBlock {
    open spec fn spec_namespace(&self) -> Seq<char> {
        "minecraft"@
    }

    open spec fn spec_ids(&self) -> Seq<Seq<char>> {
        seq!["farmland"@]
    }

    fn namespace(&self) -> (r: &'static str) {
        "minecraft"
    }

    fn ids(&self) -> (r: Vec<&'static str>) {
        let mut r: Vec<&'static str> = Vec::new();
        r.push("farmland");
        r
    }
}

/// Farmland can be at a position where the state above is not solid.
pub open spec fn spec_can_place_at(world: WorldView, pos: BlockPos) -> bool {
    !world.spec_is_solid(pos.spec_up())
}

/// Whether farmland can be at a position.
pub fn can_place_at(world: &World, block_pos: &BlockPos) -> (r: bool)
    ensures
        r == spec_can_place_at(world@, *block_pos),
{
    !world.is_solid(&block_pos.up())
}

impl FarmLandBlock {
    /// The scheduled tick turns the farmland to dirt.
    pub open spec fn spec_on_scheduled_tick(world: WorldView, pos: BlockPos) -> Seq<Action> {
        seq![
            Action::SetBlockState {
                pos,
                state_id: world.spec_default_state("dirt"@),
                flags: BlockFlags { bits: NOTIFY_ALL },
            },
        ]
    }

    /// Placed where it cannot be, farmland is dirt from the start.
    pub open spec fn spec_on_place(world: WorldView, block: &OptimizedBlock, pos: BlockPos) -> u16 {
        if !spec_can_place_at(world, pos) {
            world.spec_default_state("dirt"@)
        } else {
            block.default_state_id
        }
    }

    /// The state stays; where the neighbour above changed and the farmland
    /// can no longer be, a tick is scheduled for the next game tick.
    pub open spec fn spec_get_state_for_neighbor_update(
        world: WorldView,
        block: &OptimizedBlock,
        state: u16,
        pos: BlockPos,
        direction: BlockDirection,
    ) -> (u16, Seq<Action>) {
        if direction == BlockDirection::Up && !spec_can_place_at(world, pos) {
            (
                state,
                seq![
                    Action::ScheduleBlockTick {
                        pos,
                        block_id: block.id,
                        delay: 1,
                        priority: TickPriority::Normal,
                    },
                ],
            )
        } else {
            (state, Seq::empty())
        }
    }

    /// What follows from the scheduled tick of farmland.
    pub fn on_scheduled_tick(&self, world: &World, _block: &OptimizedBlock, pos: &BlockPos) -> (r:
        Vec<Action>)
        ensures
            r@ == Self::spec_on_scheduled_tick(world@, *pos),
    {
        let mut r: Vec<Action> = Vec::new();
        r.push(
            Action::SetBlockState {
                pos: *pos,
                state_id: world.default_state("dirt"),
                flags: BlockFlags::notify_all(),
            },
        );
        assert(r@ =~= Self::spec_on_scheduled_tick(world@, *pos));
        r
    }

    /// The state that placed farmland starts with.
    pub fn on_place(&self, world: &World, block: &OptimizedBlock, pos: &BlockPos) -> (r: u16)
        ensures
            r == Self::spec_on_place(world@, block, *pos),
    {
        if !can_place_at(world, pos) {
            return world.default_state("dirt");
        }
        block.default_state_id
    }

    /// The state of farmland after a neighbour changed, and what follows.
    pub fn get_state_for_neighbor_update(
        &self,
        world: &World,
        block: &OptimizedBlock,
        state: u16,
        pos: &BlockPos,
        direction: BlockDirection,
    ) -> (r: (u16, Vec<Action>))
        ensures
            r.0 == Self::spec_get_state_for_neighbor_update(world@, block, state, *pos, direction).0,
            r.1@ == Self::spec_get_state_for_neighbor_update(world@, block, state, *pos, direction).1,
    {
        let mut actions: Vec<Action> = Vec::new();
        if direction == BlockDirection::Up && !can_place_at(world, pos) {
            actions.push(
                Action::ScheduleBlockTick {
                    pos: *pos,
                    block_id: block.id,
                    delay: 1,
                    priority: TickPriority::Normal,
                },
            );
            assert(actions@ =~= Self::spec_get_state_for_neighbor_update(
                world@,
                block,
                state,
                *pos,
                direction,
            ).1);
        }
        (state, actions)
    }

    /// Whether farmland can be at a position.
    pub fn can_place_at(&self, world: &World, block_pos: &BlockPos) -> (r: bool)
        ensures
            r == spec_can_place_at(world@, *block_pos),
    {
        can_place_at(world, block_pos)
    }
}

} // verus!
