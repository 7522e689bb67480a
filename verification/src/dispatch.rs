//! The hooks of the registry: each asks the behaviour registered for a
//! block, and answers for a block without behaviour as the default
//! behaviour would.

use vstd::prelude::*;
use crate::action::Action;
use crate::block::OptimizedBlock;
use crate::bush::BushBlock;
use crate::direction::{
    abstract_block_update_order, BlockDirection, BlockPos, HorizontalFacing,
};
use crate::farmland::FarmLandBlock;
use crate::flags::BlockFlags;
use crate::registry::{Behavior, BlockActionResult, BlockRegistry};
use crate::shelf::ShelfBlock;
use crate::soul_fire::SoulFireBlock;
use crate::tripwire_hook::{TripwireHookBlock, NO_WIRE};
use crate::world::{World, WorldView};

verus! {

/// The actions that let the six neighbours of a position revise their
/// states, in the order west, east, north, south, down, up.
pub open spec fn spec_revisions(pos: BlockPos, flags: BlockFlags) -> Seq<Action> {
    Seq::new(
        6,
        |i: int|
            Action::ReplaceWithStateForNeighborUpdate {
                pos: pos.spec_offset(abstract_block_update_order()[i].spec_to_offset()),
                direction: abstract_block_update_order()[i].spec_opposite(),
                flags,
            },
    )
}

/// The six directions in the order down, up, north, south, west, east.
pub open spec fn all_directions() -> Seq<BlockDirection> {
    seq![
        BlockDirection::Down,
        BlockDirection::Up,
        BlockDirection::North,
        BlockDirection::South,
        BlockDirection::West,
        BlockDirection::East,
    ]
}

/// The actions that write to each neighbour of a position, in the order
/// down, up, north, south, west, east, the state that the block at the
/// position takes when that neighbour changes.
pub open spec fn spec_post_process(
    pos: BlockPos,
    block_id: u16,
    state_id: u16,
    flags: BlockFlags,
) -> Seq<Action> {
    Seq::new(
        6,
        |i: int|
            Action::PostProcess { pos, block_id, state_id, direction: all_directions()[i], flags },
    )
}

impl Behavior {
    /// The block can be at a position, placed against the side `face`.
    pub open spec fn spec_can_place_at(self, world: WorldView, pos: BlockPos, face: BlockDirection) -> bool {
        match self {
            Behavior::FarmLand(_) => crate::farmland::spec_can_place_at(world, pos),
            Behavior::SoulFire(_) => SoulFireBlock::spec_can_place_at(world, pos),
            Behavior::Bush(_) => BushBlock::spec_can_place_at(world, pos),
            Behavior::TripwireHook(_) => TripwireHookBlock::spec_can_place_at(world, pos, face),
            Behavior::Shelf(_) => true,
        }
    }

    /// The state that a placed block starts with.
    pub open spec fn spec_on_place(
        self,
        world: WorldView,
        block: &OptimizedBlock,
        pos: BlockPos,
        face: BlockDirection,
        player_facing: HorizontalFacing,
    ) -> u16 {
        match self {
            Behavior::FarmLand(_) => FarmLandBlock::spec_on_place(world, block, pos),
            Behavior::TripwireHook(_) => TripwireHookBlock::spec_on_place(world, block, pos, face),
            Behavior::Shelf(_) => ShelfBlock::spec_on_place(block@, player_facing),
            _ => block.default_state_id,
        }
    }

    /// What follows when a player placed the block.
    pub open spec fn spec_player_placed(self, world: WorldView, state_id: u16, pos: BlockPos) -> Seq<
        Action,
    > {
        match self {
            Behavior::TripwireHook(_) => TripwireHookBlock::spec_update(
                world,
                pos,
                state_id,
                false,
                false,
                NO_WIRE,
                None,
            ),
            _ => Seq::empty(),
        }
    }

    /// What follows when the block's state was replaced by another block's.
    pub open spec fn spec_on_state_replaced(
        self,
        world: WorldView,
        block: &OptimizedBlock,
        location: BlockPos,
        old_state_id: u16,
        moved: bool,
    ) -> Seq<Action> {
        match self {
            Behavior::TripwireHook(_) => TripwireHookBlock::spec_on_state_replaced(
                world,
                block,
                location,
                old_state_id,
                moved,
            ),
            _ => Seq::empty(),
        }
    }

    /// The state that the block takes when its neighbour in a direction
    /// changed, and what follows besides.
    pub open spec fn spec_get_state_for_neighbor_update(
        self,
        world: WorldView,
        block: &OptimizedBlock,
        state: u16,
        pos: BlockPos,
        direction: BlockDirection,
    ) -> (u16, Seq<Action>) {
        match self {
            Behavior::FarmLand(_) => FarmLandBlock::spec_get_state_for_neighbor_update(
                world,
                block,
                state,
                pos,
                direction,
            ),
            Behavior::SoulFire(_) => (
                SoulFireBlock::spec_get_state_for_neighbor_update(world, state, pos),
                Seq::empty(),
            ),
            Behavior::Bush(_) => (
                BushBlock::spec_get_state_for_neighbor_update(world, state, pos),
                Seq::empty(),
            ),
            Behavior::TripwireHook(_) => (
                TripwireHookBlock::spec_get_state_for_neighbor_update(
                    world,
                    block,
                    state,
                    pos,
                    direction,
                ),
                Seq::empty(),
            ),
            Behavior::Shelf(_) => (state, Seq::empty()),
        }
    }

    /// What follows from the block's scheduled tick.
    pub open spec fn spec_on_scheduled_tick(self, world: WorldView, pos: BlockPos) -> Seq<Action> {
        match self {
            Behavior::FarmLand(_) => FarmLandBlock::spec_on_scheduled_tick(world, pos),
            Behavior::TripwireHook(_) => TripwireHookBlock::spec_update(
                world,
                pos,
                world.spec_state_id(pos),
                false,
                true,
                NO_WIRE,
                None,
            ),
            _ => Seq::empty(),
        }
    }

    /// Redstone connects to the block.
    pub open spec fn spec_emits_redstone_power(self) -> bool {
        self is TripwireHook
    }

    /// The power that the block gives to its neighbours.
    pub open spec fn spec_get_weak_redstone_power(self, block: &OptimizedBlock, state_id: u16) -> u8 {
        match self {
            Behavior::TripwireHook(_) => TripwireHookBlock::spec_get_weak_redstone_power(
                block,
                state_id,
            ),
            _ => 0,
        }
    }

    /// The power that the block gives through a block.
    pub open spec fn spec_get_strong_redstone_power(
        self,
        block: &OptimizedBlock,
        state_id: u16,
        direction: BlockDirection,
    ) -> u8 {
        match self {
            Behavior::TripwireHook(_) => TripwireHookBlock::spec_get_strong_redstone_power(
                block,
                state_id,
                direction,
            ),
            _ => 0,
        }
    }

    /// Whether the block can be at a position, placed against the side
    /// `face`.
    pub fn can_place_at(&self, world: &World, block_pos: &BlockPos, face: BlockDirection) -> (r:
        bool)
        ensures
            r == self.spec_can_place_at(world@, *block_pos, face),
    {
        match self {
            Behavior::FarmLand(b) => b.can_place_at(world, block_pos),
            Behavior::SoulFire(b) => b.can_place_at(world, block_pos),
            Behavior::Bush(b) => b.can_place_at(world, block_pos),
            Behavior::TripwireHook(_) => TripwireHookBlock::can_place_at(world, block_pos, face),
            Behavior::Shelf(_) => true,
        }
    }

    /// The state that a placed block starts with.
    pub fn on_place(
        &self,
        world: &World,
        block: &OptimizedBlock,
        block_pos: &BlockPos,
        face: BlockDirection,
        player_facing: HorizontalFacing,
    ) -> (r: u16)
        ensures
            r == self.spec_on_place(world@, block, *block_pos, face, player_facing),
    {
        match self {
            Behavior::FarmLand(b) => b.on_place(world, block, block_pos),
            Behavior::TripwireHook(b) => b.on_place(world, block, block_pos, face),
            Behavior::Shelf(b) => b.on_place(block, player_facing),
            _ => block.default_state_id,
        }
    }

    /// What follows when a player placed the block.
    pub fn player_placed(&self, world: &World, state_id: u16, pos: &BlockPos) -> (r: Vec<Action>)
        ensures
            r@ == self.spec_player_placed(world@, state_id, *pos),
    {
        match self {
            Behavior::TripwireHook(b) => b.player_placed(world, state_id, pos),
            _ => Vec::new(),
        }
    }

    /// What follows when the block's state was replaced by another block's.
    pub fn on_state_replaced(
        &self,
        world: &World,
        block: &OptimizedBlock,
        location: BlockPos,
        old_state_id: u16,
        moved: bool,
    ) -> (r: Vec<Action>)
        ensures
            r@ == self.spec_on_state_replaced(world@, block, location, old_state_id, moved),
    {
        match self {
            Behavior::TripwireHook(b) => b.on_state_replaced(
                world,
                block,
                location,
                old_state_id,
                moved,
            ),
            _ => Vec::new(),
        }
    }

    /// The state that the block takes when its neighbour in a direction
    /// changed, and what follows besides.
    pub fn get_state_for_neighbor_update(
        &self,
        world: &World,
        block: &OptimizedBlock,
        state: u16,
        pos: &BlockPos,
        direction: BlockDirection,
    ) -> (r: (u16, Vec<Action>))
        ensures
            r.0 == self.spec_get_state_for_neighbor_update(world@, block, state, *pos, direction).0,
            r.1@ == self.spec_get_state_for_neighbor_update(
                world@,
                block,
                state,
                *pos,
                direction,
            ).1,
    {
        match self {
            Behavior::FarmLand(b) => b.get_state_for_neighbor_update(
                world,
                block,
                state,
                pos,
                direction,
            ),
            Behavior::SoulFire(b) => (
                b.get_state_for_neighbor_update(world, state, pos),
                Vec::new(),
            ),
            Behavior::Bush(b) => (b.get_state_for_neighbor_update(world, state, pos), Vec::new()),
            Behavior::TripwireHook(b) => (
                b.get_state_for_neighbor_update(world, block, state, pos, direction),
                Vec::new(),
            ),
            Behavior::Shelf(_) => (state, Vec::new()),
        }
    }

    /// What follows from the block's scheduled tick.
    pub fn on_scheduled_tick(&self, world: &World, block: &OptimizedBlock, pos: &BlockPos) -> (r:
        Vec<Action>)
        ensures
            r@ == self.spec_on_scheduled_tick(world@, *pos),
    {
        match self {
            Behavior::FarmLand(b) => b.on_scheduled_tick(world, block, pos),
            Behavior::TripwireHook(b) => b.on_scheduled_tick(world, pos),
            _ => Vec::new(),
        }
    }

    /// No behaviour reacts to a random tick.
    pub fn random_tick(&self, block: &OptimizedBlock, pos: &BlockPos) -> (r: Vec<Action>)
        ensures
            r@.len() == 0,
    {
        Vec::new()
    }

    /// Every block drops its items when it is blown up.
    pub fn should_drop_items_on_explosion(&self) -> (r: bool)
        ensures
            r,
    {
        true
    }

    /// No behaviour gives a signal to a comparator.
    pub fn get_comparator_output(&self, block: &OptimizedBlock, state_id: u16) -> (r: Option<u8>)
        ensures
            r is None,
    {
        None
    }

    /// Whether redstone connects to the block.
    pub fn emits_redstone_power(&self) -> (r: bool)
        ensures
            r == self.spec_emits_redstone_power(),
    {
        match self {
            Behavior::TripwireHook(b) => b.emits_redstone_power(),
            _ => false,
        }
    }

    /// The power that the block gives to its neighbours.
    pub fn get_weak_redstone_power(&self, block: &OptimizedBlock, state_id: u16) -> (r: u8)
        ensures
            r == self.spec_get_weak_redstone_power(block, state_id),
    {
        match self {
            Behavior::TripwireHook(b) => b.get_weak_redstone_power(block, state_id),
            _ => 0,
        }
    }

    /// The power that the block gives through a block.
    pub fn get_strong_redstone_power(
        &self,
        block: &OptimizedBlock,
        state_id: u16,
        direction: BlockDirection,
    ) -> (r: u8)
        ensures
            r == self.spec_get_strong_redstone_power(block, state_id, direction),
    {
        match self {
            Behavior::TripwireHook(b) => b.get_strong_redstone_power(block, state_id, direction),
            _ => 0,
        }
    }
}

impl BlockRegistry {
    /// A block without behaviour can be anywhere.
    pub open spec fn spec_can_place_at(
        &self,
        world: WorldView,
        block: &OptimizedBlock,
        pos: BlockPos,
        face: BlockDirection,
    ) -> bool {
        match self.spec_behavior(block.name@) {
            Some(b) => b.spec_can_place_at(world, pos, face),
            None => true,
        }
    }

    /// A block without behaviour starts with its default state.
    pub open spec fn spec_on_place(
        &self,
        world: WorldView,
        block: &OptimizedBlock,
        pos: BlockPos,
        face: BlockDirection,
        player_facing: HorizontalFacing,
    ) -> u16 {
        match self.spec_behavior(block.name@) {
            Some(b) => b.spec_on_place(world, block, pos, face, player_facing),
            None => block.default_state_id,
        }
    }

    /// What follows when a player placed the block; nothing for a block
    /// without behaviour.
    pub open spec fn spec_player_placed(
        &self,
        world: WorldView,
        block: &OptimizedBlock,
        state_id: u16,
        pos: BlockPos,
    ) -> Seq<Action> {
        match self.spec_behavior(block.name@) {
            Some(b) => b.spec_player_placed(world, state_id, pos),
            None => Seq::empty(),
        }
    }

    /// What follows when the block's state was replaced by another block's;
    /// nothing for a block without behaviour.
    pub open spec fn spec_on_state_replaced(
        &self,
        world: WorldView,
        block: &OptimizedBlock,
        location: BlockPos,
        old_state_id: u16,
        moved: bool,
    ) -> Seq<Action> {
        match self.spec_behavior(block.name@) {
            Some(b) => b.spec_on_state_replaced(world, block, location, old_state_id, moved),
            None => Seq::empty(),
        }
    }

    /// A block without behaviour keeps its state.
    pub open spec fn spec_get_state_for_neighbor_update(
        &self,
        world: WorldView,
        block: &OptimizedBlock,
        state: u16,
        pos: BlockPos,
        direction: BlockDirection,
    ) -> (u16, Seq<Action>) {
        match self.spec_behavior(block.name@) {
            Some(b) => b.spec_get_state_for_neighbor_update(world, block, state, pos, direction),
            None => (state, Seq::empty()),
        }
    }

    /// What follows from the block's scheduled tick; nothing for a block
    /// without behaviour.
    pub open spec fn spec_on_scheduled_tick(
        &self,
        world: WorldView,
        block: &OptimizedBlock,
        pos: BlockPos,
    ) -> Seq<Action> {
        match self.spec_behavior(block.name@) {
            Some(b) => b.spec_on_scheduled_tick(world, pos),
            None => Seq::empty(),
        }
    }

    /// Redstone connects to the block; not to a block without behaviour.
    pub open spec fn spec_emits_redstone_power(&self, block: &OptimizedBlock) -> bool {
        match self.spec_behavior(block.name@) {
            Some(b) => b.spec_emits_redstone_power(),
            None => false,
        }
    }

    /// The power that the block gives to its neighbours; none for a block
    /// without behaviour.
    pub open spec fn spec_get_weak_redstone_power(&self, block: &OptimizedBlock, state_id: u16) -> u8 {
        match self.spec_behavior(block.name@) {
            Some(b) => b.spec_get_weak_redstone_power(block, state_id),
            None => 0,
        }
    }

    /// The power that the block gives through a block; none for a block
    /// without behaviour.
    pub open spec fn spec_get_strong_redstone_power(
        &self,
        block: &OptimizedBlock,
        state_id: u16,
        direction: BlockDirection,
    ) -> u8 {
        match self.spec_behavior(block.name@) {
            Some(b) => b.spec_get_strong_redstone_power(block, state_id, direction),
            None => 0,
        }
    }

    /// The writes that follow from the states that the block at a position
    /// takes for each of its neighbours; none for a block without behaviour.
    pub open spec fn spec_post_process_state(
        &self,
        world: WorldView,
        location: BlockPos,
        block: &OptimizedBlock,
        flags: BlockFlags,
    ) -> Seq<Action> {
        match self.spec_behavior(block.name@) {
            Some(_) => spec_post_process(location, block.id, world.spec_state_id(location), flags),
            None => Seq::empty(),
        }
    }

    /// No behaviour handles a block event.
    pub fn on_synced_block_event(&self, block: &OptimizedBlock, pos: &BlockPos, kind: u8, data: u8) -> (r:
        bool)
        ensures
            !r,
    {
        false
    }

    /// No behaviour reacts to an entity in the block.
    pub fn on_entity_collision(&self, block: &OptimizedBlock, pos: BlockPos, state_id: u16) -> (r:
        Vec<Action>)
        ensures
            r@.len() == 0,
    {
        Vec::new()
    }

    /// No behaviour reacts to the use of the block.
    pub fn on_use(&self, block: &OptimizedBlock, location: BlockPos) -> (r: Vec<Action>)
        ensures
            r@.len() == 0,
    {
        Vec::new()
    }

    /// No behaviour reacts to an explosion.
    pub fn explode(&self, block: &OptimizedBlock, location: BlockPos) -> (r: Vec<Action>)
        ensures
            r@.len() == 0,
    {
        Vec::new()
    }

    /// No behaviour takes the use of an item on the block: other handlers
    /// may go on.
    pub fn use_with_item(&self, block: &OptimizedBlock, location: BlockPos, item_id: u16) -> (r:
        BlockActionResult)
        ensures
            r == BlockActionResult::Continue,
    {
        BlockActionResult::Continue
    }

    /// Whether the block can be at a position, placed against the side
    /// `face`.
    pub fn can_place_at(
        &self,
        world: &World,
        block: &OptimizedBlock,
        block_pos: &BlockPos,
        face: BlockDirection,
    ) -> (r: bool)
        ensures
            r == self.spec_can_place_at(world@, block, *block_pos, face),
    {
        match self.get_pumpkin_block(block) {
            Some(b) => b.can_place_at(world, block_pos, face),
            None => true,
        }
    }

    /// No behaviour lets a click replace the block.
    pub fn can_update_at(
        &self,
        block: &OptimizedBlock,
        state_id: u16,
        block_pos: &BlockPos,
        face: BlockDirection,
    ) -> (r: bool)
        ensures
            !r,
    {
        false
    }

    /// The state that a placed block starts with.
    pub fn on_place(
        &self,
        world: &World,
        block: &OptimizedBlock,
        block_pos: &BlockPos,
        face: BlockDirection,
        player_facing: HorizontalFacing,
    ) -> (r: u16)
        ensures
            r == self.spec_on_place(world@, block, *block_pos, face, player_facing),
    {
        match self.get_pumpkin_block(block) {
            Some(b) => b.on_place(world, block, block_pos, face, player_facing),
            None => block.default_state_id,
        }
    }

    /// What follows when a player placed the block.
    pub fn player_placed(
        &self,
        world: &World,
        block: &OptimizedBlock,
        state_id: u16,
        pos: &BlockPos,
        face: BlockDirection,
    ) -> (r: Vec<Action>)
        ensures
            r@ == self.spec_player_placed(world@, block, state_id, *pos),
    {
        match self.get_pumpkin_block(block) {
            Some(b) => b.player_placed(world, state_id, pos),
            None => Vec::new(),
        }
    }

    /// No behaviour reacts to being placed.
    pub fn on_placed(
        &self,
        block: &OptimizedBlock,
        state_id: u16,
        block_pos: &BlockPos,
        old_state_id: u16,
        notify: bool,
    ) -> (r: Vec<Action>)
        ensures
            r@.len() == 0,
    {
        Vec::new()
    }

    /// What the behaviours add when a player broke the block: nothing. The
    /// five behaviours here start no action of their own then; what fires
    /// have in common when they are put out belongs to none of them.
    pub fn broken(&self, block: &OptimizedBlock, location: BlockPos, state_id: u16) -> (r: Vec<
        Action,
    >)
        ensures
            r@.len() == 0,
    {
        Vec::new()
    }

    /// What follows when the block's state was replaced by another block's.
    pub fn on_state_replaced(
        &self,
        world: &World,
        block: &OptimizedBlock,
        location: BlockPos,
        old_state_id: u16,
        moved: bool,
    ) -> (r: Vec<Action>)
        ensures
            r@ == self.spec_on_state_replaced(world@, block, location, old_state_id, moved),
    {
        match self.get_pumpkin_block(block) {
            Some(b) => b.on_state_replaced(world, block, location, old_state_id, moved),
            None => Vec::new(),
        }
    }

    /// The writes to the neighbours of a position that follow from the
    /// states that the block there takes for each of them.
    pub fn post_process_state(
        &self,
        world: &World,
        location: &BlockPos,
        block: &OptimizedBlock,
        flags: BlockFlags,
    ) -> (r: Vec<Action>)
        ensures
            r@ == self.spec_post_process_state(world@, *location, block, flags),
    {
        let mut actions: Vec<Action> = Vec::new();
        if self.get_pumpkin_block(block).is_none() {
            return actions;
        }
        let state_id = world.get_block_state_id(location);
        let directions = BlockDirection::all();
        let mut i: usize = 0;
        while i < 6
            invariant
                i <= 6,
                directions@ == all_directions(),
                actions@.len() == i,
                forall|j: int|
                    0 <= j < i ==> actions@[j] == spec_post_process(
                        *location,
                        block.id,
                        state_id,
                        flags,
                    )[j],
            decreases 6 - i,
        {
            actions.push(
                Action::PostProcess {
                    pos: *location,
                    block_id: block.id,
                    state_id,
                    direction: directions[i],
                    flags,
                },
            );
            i += 1;
        }
        assert(actions@ =~= spec_post_process(*location, block.id, state_id, flags));
        actions
    }

    /// No behaviour prepares for a replacement.
    pub fn prepare(
        &self,
        block_pos: &BlockPos,
        block: &OptimizedBlock,
        state_id: u16,
        flags: BlockFlags,
    ) -> (r: Vec<Action>)
        ensures
            r@.len() == 0,
    {
        Vec::new()
    }

    /// The state that the block takes when its neighbour in a direction
    /// changed, and what follows besides.
    pub fn get_state_for_neighbor_update(
        &self,
        world: &World,
        block: &OptimizedBlock,
        state: u16,
        block_pos: &BlockPos,
        direction: BlockDirection,
        neighbor_pos: &BlockPos,
        neighbor_state: u16,
    ) -> (r: (u16, Vec<Action>))
        ensures
            r.0 == self.spec_get_state_for_neighbor_update(
                world@,
                block,
                state,
                *block_pos,
                direction,
            ).0,
            r.1@ == self.spec_get_state_for_neighbor_update(
                world@,
                block,
                state,
                *block_pos,
                direction,
            ).1,
    {
        match self.get_pumpkin_block(block) {
            Some(b) => b.get_state_for_neighbor_update(world, block, state, block_pos, direction),
            None => (state, Vec::new()),
        }
    }

    /// The actions that let the six neighbours of a position revise their
    /// states.
    pub fn update_neighbors(&self, block_pos: &BlockPos, flags: BlockFlags) -> (r: Vec<Action>)
        ensures
            r@ == spec_revisions(*block_pos, flags),
    {
        let mut actions: Vec<Action> = Vec::new();
        let directions = BlockDirection::abstract_block_update_order();
        let mut i: usize = 0;
        while i < 6
            invariant
                i <= 6,
                directions@ == abstract_block_update_order(),
                actions@.len() == i,
                forall|j: int| 0 <= j < i ==> actions@[j] == spec_revisions(*block_pos, flags)[j],
            decreases 6 - i,
        {
            let direction = directions[i];
            actions.push(
                Action::ReplaceWithStateForNeighborUpdate {
                    pos: block_pos.offset(direction.to_offset()),
                    direction: direction.opposite(),
                    flags,
                },
            );
            i += 1;
        }
        assert(actions@ =~= spec_revisions(*block_pos, flags));
        actions
    }

    /// No behaviour reacts to the notice of a changed neighbour.
    pub fn on_neighbor_update(
        &self,
        block: &OptimizedBlock,
        block_pos: &BlockPos,
        source_block: u16,
        notify: bool,
    ) -> (r: Vec<Action>)
        ensures
            r@.len() == 0,
    {
        Vec::new()
    }

    /// What follows from the scheduled tick of a block.
    pub fn on_scheduled_tick(&self, world: &World, block: &OptimizedBlock, pos: &BlockPos) -> (r:
        Vec<Action>)
        ensures
            r@ == self.spec_on_scheduled_tick(world@, block, *pos),
    {
        match self.get_pumpkin_block(block) {
            Some(b) => b.on_scheduled_tick(world, block, pos),
            None => Vec::new(),
        }
    }

    /// Whether redstone connects to the block.
    pub fn emits_redstone_power(&self, block: &OptimizedBlock, state_id: u16, direction: BlockDirection) -> (r:
        bool)
        ensures
            r == self.spec_emits_redstone_power(block),
    {
        match self.get_pumpkin_block(block) {
            Some(b) => b.emits_redstone_power(),
            None => false,
        }
    }

    /// The power that the block gives to its neighbours.
    pub fn get_weak_redstone_power(
        &self,
        block: &OptimizedBlock,
        state_id: u16,
        direction: BlockDirection,
    ) -> (r: u8)
        ensures
            r == self.spec_get_weak_redstone_power(block, state_id),
    {
        match self.get_pumpkin_block(block) {
            Some(b) => b.get_weak_redstone_power(block, state_id),
            None => 0,
        }
    }

    /// The power that the block gives through a block.
    pub fn get_strong_redstone_power(
        &self,
        block: &OptimizedBlock,
        state_id: u16,
        direction: BlockDirection,
    ) -> (r: u8)
        ensures
            r == self.spec_get_strong_redstone_power(block, state_id, direction),
    {
        match self.get_pumpkin_block(block) {
            Some(b) => b.get_strong_redstone_power(block, state_id, direction),
            None => 0,
        }
    }
}

} // verus!
