//! Soul fire: it burns only over the blocks of the soul fire bases.

use vstd::prelude::*;
use crate::block::OptimizedBlock;
use crate::direction::BlockPos;
use crate::registry::BlockMetadata;
use crate::tags::TagTable;
use crate::world::{World, WorldView};

verus! {

/// The behaviour of soul fire.
#[derive(Clone, Copy, Debug, PartialEq, Eq, Structural)]
pub struct SoulFireBlock;

impl BlockMetadata for SoulFireBlock {
    open spec fn spec_namespace(&self) -> Seq<char> {
        "minecraft"@
    }

    open spec fn spec_ids(&self) -> Seq<Seq<char>> {
        seq!["soul_fire"@]
    }

    fn namespace(&self) -> (r: &'static str) {
        "minecraft"
    }

    fn ids(&self) -> (r: Vec<&'static str>) {
        let mut r: Vec<&'static str> = Vec::new();
        r.push("soul_fire");
        r
    }
}

impl SoulFireBlock {
    /// The block is one of the soul fire bases.
    pub open spec fn spec_is_soul_base(tags: &TagTable, block: &OptimizedBlock) -> bool {
        tags.spec_is_tagged_with(block.id, "minecraft:soul_fire_base_blocks"@)
    }

    /// The block below a position is known and one of the soul fire bases.
    pub open spec fn spec_can_place_at(world: WorldView, pos: BlockPos) -> bool {
        match world.spec_block(pos.spec_down()) {
            Some(b) => Self::spec_is_soul_base(&world.tags, &world.catalog.blocks@[b]),
            None => false,
        }
    }

    /// Soul fire that lost its base turns to air.
    pub open spec fn spec_get_state_for_neighbor_update(
        world: WorldView,
        state_id: u16,
        pos: BlockPos,
    ) -> u16 {
        if !Self::spec_can_place_at(world, pos) {
            world.spec_default_state("air"@)
        } else {
            state_id
        }
    }

    /// Whether the block is one of the soul fire bases.
    pub fn is_soul_base(tags: &TagTable, block: &OptimizedBlock) -> (r: bool)
        ensures
            r == Self::spec_is_soul_base(tags, block),
    {
        tags.is_tagged_with(block.id, "minecraft:soul_fire_base_blocks")
    }

    /// The state of soul fire after a neighbour changed.
    pub fn get_state_for_neighbor_update(&self, world: &World, state_id: u16, block_pos: &BlockPos) -> (r:
        u16)
        ensures
            r == Self::spec_get_state_for_neighbor_update(world@, state_id, *block_pos),
    {
        if !self.can_place_at(world, block_pos) {
            return world.default_state("air");
        }
        state_id
    }

    /// Whether soul fire can burn at a position.
    pub fn can_place_at(&self, world: &World, block_pos: &BlockPos) -> (r: bool)
        ensures
            r == Self::spec_can_place_at(world@, *block_pos),
    {
        match world.get_block(&block_pos.down()) {
            Some(below) => Self::is_soul_base(&world.tags, below),
            None => false,
        }
    }
}

} // verus!
