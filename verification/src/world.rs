//! The world: the state ids of its cells, with the catalog that gives them
//! their meaning, the behaviours of its blocks, its scheduled ticks, the
//! actions that wait to be carried out and the events that it reported.

use vstd::prelude::*;
use crate::action::{Action, WorldEvent};
use crate::block::{BlockState, BlockStateView, OptimizedBlock};
use crate::catalog::{found, Catalog};
use crate::cells::{state_at, Cells};
use crate::direction::{BlockDirection, BlockPos};
use crate::registry::BlockRegistry;
use crate::tags::TagTable;
use crate::tick::{ScheduledTick, TickScheduler};

verus! {

/// A world of blocks.
pub struct World {
    pub catalog: Catalog,
    pub tags: TagTable,
    pub registry: BlockRegistry,
    pub cells: Cells,
    pub ticks: TickScheduler,
    /// The number of the current game tick.
    pub time: u64,
    /// The actions that wait to be carried out; the first is the next.
    pub pending: Vec<Action>,
    /// The events reported so far; the last is the latest.
    pub events: Vec<WorldEvent>,
}

/// What a `World` holds.
pub struct WorldView {
    pub catalog: Catalog,
    pub tags: TagTable,
    pub registry: BlockRegistry,
    /// The cells that were written, each under the number of its position.
    pub cells: Map<u128, u16>,
    /// The state id of every cell that was never written.
    pub fill: u16,
    pub ticks: Seq<ScheduledTick>,
    pub next_seq: u64,
    pub time: u64,
    pub pending: Seq<Action>,
    pub events: Seq<WorldEvent>,
}

impl View for World {
    type V = WorldView;

    open spec fn view(&self) -> WorldView {
        WorldView {
            catalog: self.catalog,
            tags: self.tags,
            registry: self.registry,
            cells: self.cells.map@,
            fill: self.cells.fill,
            ticks: self.ticks.entries@,
            next_seq: self.ticks.next_seq,
            time: self.time,
            pending: self.pending@,
            events: self.events@,
        }
    }
}

impl WorldView {
    /// The state id at a position.
    pub open spec fn spec_state_id(self, pos: BlockPos) -> u16 {
        state_at(self.cells, self.fill, pos)
    }

    /// The place in the catalog of the block that has a state.
    pub open spec fn spec_block_of(self, state_id: u16) -> Option<int> {
        self.catalog.owners(state_id).index_of_first(true)
    }

    /// The place in the catalog of the block at a position.
    pub open spec fn spec_block(self, pos: BlockPos) -> Option<int> {
        self.spec_block_of(self.spec_state_id(pos))
    }

    /// The numeric id of the block at a position, where the catalog knows
    /// the state there.
    pub open spec fn spec_block_id(self, pos: BlockPos) -> Option<u16> {
        match self.spec_block(pos) {
            Some(b) => Some(self.catalog.blocks@[b].id),
            None => None,
        }
    }

    /// The state at a position, where the catalog knows it.
    pub open spec fn spec_state(self, pos: BlockPos) -> Option<BlockStateView> {
        self.catalog.spec_state(self.spec_state_id(pos))
    }

    /// The state at a position is solid.
    pub open spec fn spec_is_solid(self, pos: BlockPos) -> bool {
        match self.spec_state(pos) {
            Some(s) => s.is_solid(),
            None => false,
        }
    }

    /// The side of the state at a position that faces in a direction is
    /// solid.
    pub open spec fn spec_is_side_solid(self, pos: BlockPos, side: BlockDirection) -> bool {
        match self.spec_state(pos) {
            Some(s) => s.side_flags & side.spec_side_bit() != 0,
            None => false,
        }
    }

    /// The state id is that of an air state, or unknown to the catalog.
    pub open spec fn spec_is_air_state(self, state_id: u16) -> bool {
        match self.catalog.spec_state(state_id) {
            Some(s) => s.is_air(),
            None => true,
        }
    }

    /// The default state of the block with a name; the state of the cells
    /// never written where the catalog has no such block.
    pub open spec fn spec_default_state(self, name: Seq<char>) -> u16 {
        match self.catalog.names().index_of_first(name) {
            Some(b) => self.catalog.blocks@[b].default_state_id,
            None => self.fill,
        }
    }
}

impl World {
    /// The scheduled ticks are in order.
    pub open spec fn well_formed(&self) -> bool {
        self.ticks.well_formed()
    }

    /// A world whose cells all hold the default state of the block `air`
    /// (state 0 where the catalog has no such block), at game tick 0, with
    /// nothing scheduled, pending or reported.
    pub fn new(catalog: Catalog, tags: TagTable, registry: BlockRegistry) -> (r: World)
        ensures
            r.well_formed(),
            r@.catalog == catalog,
            r@.tags == tags,
            r@.registry == registry,
            r@.time == 0,
            r@.pending.len() == 0,
            r@.events.len() == 0,
            r@.ticks.len() == 0,
            r@.next_seq == 0,
            r@.fill == match catalog.names().index_of_first("air"@) {
                Some(b) => catalog.blocks@[b].default_state_id,
                None => 0,
            },
            forall|pos: BlockPos| r@.spec_state_id(pos) == r@.fill,
    {
        let fill = match catalog.from_registry_key("air") {
            Some(block) => block.default_state_id,
            None => 0,
        };
        proof {
            catalog.names().index_of_first_ensures("air"@);
        }
        World {
            catalog,
            tags,
            registry,
            cells: Cells::new(fill),
            ticks: TickScheduler::new(),
            time: 0,
            pending: Vec::new(),
            events: Vec::new(),
        }
    }

    /// The state id at a position.
    pub fn get_block_state_id(&self, pos: &BlockPos) -> (r: u16)
        ensures
            r == self@.spec_state_id(*pos),
    {
        self.cells.get(*pos)
    }

    /// The block at a position, where the catalog knows the state there.
    pub fn get_block(&self, pos: &BlockPos) -> (r: Option<&OptimizedBlock>)
        ensures
            found(r, self.catalog.blocks@, self@.spec_block(*pos)),
    {
        self.catalog.from_state_id(self.cells.get(*pos))
    }

    /// The state at a position, where the catalog knows it.
    pub fn get_block_state(&self, pos: &BlockPos) -> (r: Option<BlockState>)
        ensures
            match r {
                Some(s) => self@.spec_state(*pos) == Some(s@),
                None => self@.spec_state(*pos) is None,
            },
    {
        self.catalog.get_state_by_state_id(self.cells.get(*pos))
    }

    /// Whether the state at a position is solid.
    pub fn is_solid(&self, pos: &BlockPos) -> (r: bool)
        ensures
            r == self@.spec_is_solid(*pos),
    {
        match self.get_block_state(pos) {
            Some(s) => s.is_solid(),
            None => false,
        }
    }

    /// Whether the side of the state at a position that faces in a
    /// direction is solid.
    pub fn is_side_solid(&self, pos: &BlockPos, side: BlockDirection) -> (r: bool)
        ensures
            r == self@.spec_is_side_solid(*pos, side),
    {
        match self.get_block_state(pos) {
            Some(s) => s.side_flags & side.side_bit() != 0,
            None => false,
        }
    }

    /// Whether a state id is that of an air state, or unknown.
    pub fn is_air_state(&self, state_id: u16) -> (r: bool)
        ensures
            r == self@.spec_is_air_state(state_id),
    {
        match self.catalog.get_state_by_state_id(state_id) {
            Some(s) => s.is_air(),
            None => true,
        }
    }

    /// The default state of the block with a name.
    pub fn default_state(&self, name: &str) -> (r: u16)
        ensures
            r == self@.spec_default_state(name@),
    {
        proof {
            self.catalog.names().index_of_first_ensures(name@);
        }
        match self.catalog.from_registry_key(name) {
            Some(block) => block.default_state_id,
            None => self.cells.fill,
        }
    }
}

} // verus!
