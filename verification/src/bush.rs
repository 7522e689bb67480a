//! Bushes: they stand on dirt or farmland.

use vstd::prelude::*;
use crate::direction::BlockPos;
use crate::registry::BlockMetadata;
use crate::text::same_text;
use crate::world::{World, WorldView};

verus! {

/// The behaviour of bushes.
#[derive(Clone, Copy, Debug, PartialEq, Eq, Structural)]
pub struct BushBlock;

impl BlockMetadata for BushBlock {
    open spec fn spec_namespace(&self) -> Seq<char> {
        "minecraft"@
    }

    open spec fn spec_ids(&self) -> Seq<Seq<char>> {
        seq!["bush"@, "firefly_bush"@]
    }

    fn namespace(&self) -> (r: &'static str) {
        "minecraft"
    }

    fn ids(&self) -> (r: Vec<&'static str>) {
        let mut r: Vec<&'static str> = Vec::new();
        r.push("bush");
        r.push("firefly_bush");
        r
    }
}

impl BushBlock {
    /// The block below a position is known, and is tagged as dirt or is
    /// farmland.
    pub open spec fn spec_can_place_at(world: WorldView, pos: BlockPos) -> bool {
        match world.spec_block(pos.spec_down()) {
            Some(b) => world.tags.spec_is_tagged_with(world.catalog.blocks@[b].id, "minecraft:dirt"@)
                || world.catalog.blocks@[b].name@ == "farmland"@,
            None => false,
        }
    }

    /// A bush that lost its ground turns to air.
    pub open spec fn spec_get_state_for_neighbor_update(
        world: WorldView,
        state_id: u16,
        pos: BlockPos,
    ) -> u16 {
        if !Self::spec_can_place_at(world, pos) {
            world.spec_default_state("air"@)
        } else {
            state_id
        }
    }

    /// Whether a bush can stand at a position.
    pub fn can_place_at(&self, world: &World, block_pos: &BlockPos) -> (r: bool)
        ensures
            r == Self::spec_can_place_at(world@, *block_pos),
    {
        match world.get_block(&block_pos.down()) {
            Some(below) => world.tags.is_tagged_with(below.id, "minecraft:dirt") || same_text(
                below.name.as_str(),
                "farmland",
            ),
            None => false,
        }
    }

    /// The state of a bush after a neighbour changed.
    pub fn get_state_for_neighbor_update(&self, world: &World, state_id: u16, block_pos: &BlockPos) -> (r:
        u16)
        ensures
            r == Self::spec_get_state_for_neighbor_update(world@, state_id, *block_pos),
    {
        if !self.can_place_at(world, block_pos) {
            return world.default_state("air");
        }
        state_id
    }
}

} // verus!
