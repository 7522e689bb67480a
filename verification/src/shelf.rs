//! Wooden shelves: a placed shelf faces the player.

use vstd::prelude::*;
use crate::block::{OptimizedBlock, OptimizedBlockView};
use crate::direction::HorizontalFacing;
use crate::registry::BlockMetadata;
use crate::typed::{
    digits_of_state, shelf_name_list, shelf_names, try_default_of, try_to_state_id,
    AcaciaShelfLikeProperties, BlockProperties,
};

verus! {

/// The behaviour of wooden shelves.
#[derive(Clone, Copy, Debug, PartialEq, Eq, Structural)]
pub struct ShelfBlock;

impl BlockMetadata for ShelfBlock {
    open spec fn spec_namespace(&self) -> Seq<char> {
        "minecraft"@
    }

    open spec fn spec_ids(&self) -> Seq<Seq<char>> {
        shelf_names()
    }

    fn namespace(&self) -> (r: &'static str) {
        "minecraft"
    }

    fn ids(&self) -> (r: Vec<&'static str>) {
        shelf_name_list()
    }
}

impl ShelfBlock {
    /// The state of a shelf placed by a player who faces in a direction:
    /// the default state, turned to face the player. The default state
    /// where the block is no shelf with the states of one.
    pub open spec fn spec_on_place(block: OptimizedBlockView, player_facing: HorizontalFacing) -> u16 {
        match digits_of_state::<AcaciaShelfLikeProperties>(block.default_state_id, block) {
            Ok(d) => {
                let turned = d.update(0, player_facing.spec_opposite().spec_index());
                if block.first_state_id() + crate::codec::encode(
                    AcaciaShelfLikeProperties::layout(),
                    turned,
                ) > block.last_state_id() {
                    block.default_state_id
                } else {
                    (block.first_state_id() + crate::codec::encode(
                        AcaciaShelfLikeProperties::layout(),
                        turned,
                    )) as u16
                }
            },
            Err(_) => block.default_state_id,
        }
    }

    /// The state that a placed shelf starts with.
    pub fn on_place(&self, block: &OptimizedBlock, player_facing: HorizontalFacing) -> (r: u16)
        ensures
            r == Self::spec_on_place(block@, player_facing),
    {
        let mut properties: AcaciaShelfLikeProperties = match try_default_of(block) {
            Ok(p) => p,
            Err(_) => {
                return block.default_state_id;
            },
        };
        let ghost before = properties.digits();
        properties.facing = player_facing.opposite();
        proof {
            assert(properties.digits() =~= before.update(
                0,
                player_facing.spec_opposite().spec_index(),
            ));
        }
        match try_to_state_id(&properties, block) {
            Ok(id) => id,
            Err(_) => block.default_state_id,
        }
    }
}

} // verus!
