//! Blocks and block states as the asset tables describe them, and as the
//! catalog keeps them.
//!
//! Real-valued attributes (hardness, blast resistance, friction and the
//! velocity multipliers) are carried as the 32 bits of their IEEE-754 single
//! precision form: the library moves and compares them, and never computes
//! with them.

use vstd::prelude::*;

verus! {

/// Bit of `state_flags`: the state is air.
pub const IS_AIR: u8 = 1;

/// Bit of `state_flags`: the state is solid.
pub const IS_SOLID: u8 = 64;

/// What a piston does to a block it meets.
#[derive(Clone, Copy, Debug, PartialEq, Eq, Structural)]
pub enum PistonBehavior {
    Normal,
    Destroy,
    Block,
    Ignore,
    PushOnly,
}

/// One concrete state of a block.
#[derive(Debug)]
pub struct BlockState {
    pub id: u16,
    pub state_flags: u8,
    pub side_flags: u8,
    pub instrument: String,
    pub luminance: u8,
    pub piston_behavior: PistonBehavior,
    pub hardness: u32,
    pub collision_shapes: Vec<u16>,
    pub outline_shapes: Vec<u16>,
    pub opacity: Option<u8>,
    pub block_entity_type: Option<u16>,
}

/// What a `BlockState` holds.
pub struct BlockStateView {
    pub id: u16,
    pub state_flags: u8,
    pub side_flags: u8,
    pub instrument: Seq<char>,
    pub luminance: u8,
    pub piston_behavior: PistonBehavior,
    pub hardness: u32,
    pub collision_shapes: Seq<u16>,
    pub outline_shapes: Seq<u16>,
    pub opacity: Option<u8>,
    pub block_entity_type: Option<u16>,
}

impl BlockStateView {
    /// The same state under another id.
    pub open spec fn with_id(self, id: u16) -> BlockStateView {
        BlockStateView { id, ..self }
    }

    /// Everything but the id is equal.
    pub open spec fn same_payload(self, other: BlockStateView) -> bool {
        self.with_id(0) == other.with_id(0)
    }

    /// The state is air.
    pub open spec fn is_air(self) -> bool {
        self.state_flags & IS_AIR != 0
    }

    /// The state is solid.
    pub open spec fn is_solid(self) -> bool {
        self.state_flags & IS_SOLID != 0
    }
}

impl View for BlockState {
    type V = BlockStateView;

    open spec fn view(&self) -> BlockStateView {
        BlockStateView {
            id: self.id,
            state_flags: self.state_flags,
            side_flags: self.side_flags,
            instrument: self.instrument@,
            luminance: self.luminance,
            piston_behavior: self.piston_behavior,
            hardness: self.hardness,
            collision_shapes: self.collision_shapes@,
            outline_shapes: self.outline_shapes@,
            opacity: self.opacity,
            block_entity_type: self.block_entity_type,
        }
    }
}

/// A copy of a vector of numbers.
pub fn copy_u16s(v: &Vec<u16>) -> (r: Vec<u16>)
    ensures
        r@ == v@,
{
    let mut r: Vec<u16> = Vec::new();
    let mut i: usize = 0;
    while i < v.len()
        invariant
            i <= v.len(),
            r@ == v@.take(i as int),
        decreases v.len() - i,
    {
        r.push(v[i]);
        proof {
            assert(v@.take(i + 1) =~= v@.take(i as int).push(v@[i as int]));
        }
        i += 1;
    }
    proof {
        assert(v@.take(i as int) =~= v@);
    }
    r
}

/// Whether two vectors hold the same numbers in the same order.
pub fn same_u16s(a: &Vec<u16>, b: &Vec<u16>) -> (r: bool)
    ensures
        r == (a@ == b@),
{
    if a.len() != b.len() {
        return false;
    }
    let mut i: usize = 0;
    while i < a.len()
        invariant
            i <= a.len(),
            a.len() == b.len(),
            a@.take(i as int) == b@.take(i as int),
        decreases a.len() - i,
    {
        if a[i] != b[i] {
            return false;
        }
        proof {
            assert(a@.take(i + 1) =~= a@.take(i as int).push(a@[i as int]));
            assert(b@.take(i + 1) =~= b@.take(i as int).push(b@[i as int]));
        }
        i += 1;
    }
    proof {
        assert(a@.take(i as int) =~= a@);
        assert(b@.take(i as int) =~= b@);
    }
    true
}

impl BlockState {
    /// A copy of the state under a given id.
    pub fn with_id(&self, id: u16) -> (r: BlockState)
        ensures
            r@ == self@.with_id(id),
    {
        BlockState {
            id,
            state_flags: self.state_flags,
            side_flags: self.side_flags,
            instrument: self.instrument.clone(),
            luminance: self.luminance,
            piston_behavior: self.piston_behavior,
            hardness: self.hardness,
            collision_shapes: copy_u16s(&self.collision_shapes),
            outline_shapes: copy_u16s(&self.outline_shapes),
            opacity: self.opacity,
            block_entity_type: self.block_entity_type,
        }
    }

    /// Whether two states differ in nothing but their ids.
    pub fn same_payload(&self, other: &BlockState) -> (r: bool)
        ensures
            r == self@.same_payload(other@),
    {
        let r = self.state_flags == other.state_flags && self.side_flags == other.side_flags
            && self.instrument == other.instrument && self.luminance == other.luminance
            && self.piston_behavior == other.piston_behavior && self.hardness == other.hardness
            && same_u16s(&self.collision_shapes, &other.collision_shapes) && same_u16s(
            &self.outline_shapes,
            &other.outline_shapes,
        ) && self.opacity == other.opacity && self.block_entity_type == other.block_entity_type;
        r
    }

    /// The opacity in one byte: 255 stands for none.
    pub fn packed_opacity(&self) -> (r: u8)
        ensures
            r == match self.opacity {
                Some(opacity) => opacity,
                None => u8::MAX,
            },
    {
        match self.opacity {
            Some(opacity) => opacity,
            None => u8::MAX,
        }
    }

    /// The block entity type in two bytes: 65535 stands for none.
    pub fn packed_block_entity_type(&self) -> (r: u16)
        ensures
            r == match self.block_entity_type {
                Some(kind) => kind,
                None => u16::MAX,
            },
    {
        match self.block_entity_type {
            Some(kind) => kind,
            None => u16::MAX,
        }
    }

    /// Whether the state is air.
    pub fn is_air(&self) -> (r: bool)
        ensures
            r == self@.is_air(),
    {
        self.state_flags & IS_AIR != 0
    }

    /// Whether the state is solid.
    pub fn is_solid(&self) -> (r: bool)
        ensures
            r == self@.is_solid(),
    {
        self.state_flags & IS_SOLID != 0
    }
}

/// A state of a block in the catalog: its id, and where its payload is kept
/// in the table of distinct states.
#[derive(Clone, Copy, Debug, PartialEq, Eq, Structural)]
pub struct BlockStateRef {
    pub id: u16,
    pub state_idx: u16,
}

/// A block as the asset table lists it.
#[derive(Debug)]
pub struct Block {
    pub id: u16,
    pub name: String,
    pub translation_key: String,
    pub hardness: u32,
    pub blast_resistance: u32,
    pub item_id: u16,
    /// Number of the block's loot table in the caller's table store.
    pub loot_table: Option<u32>,
    pub slipperiness: u32,
    pub velocity_multiplier: u32,
    pub jump_velocity_multiplier: u32,
    /// Hash keys of the block's properties, in declaration order.
    pub properties: Vec<i32>,
    pub default_state_id: u16,
    pub states: Vec<BlockState>,
    /// Number of the block's experience drop in the caller's table store.
    pub experience: Option<u32>,
}

/// What a `Block` holds.
pub struct BlockView {
    pub id: u16,
    pub name: Seq<char>,
    pub translation_key: Seq<char>,
    pub hardness: u32,
    pub blast_resistance: u32,
    pub item_id: u16,
    pub loot_table: Option<u32>,
    pub slipperiness: u32,
    pub velocity_multiplier: u32,
    pub jump_velocity_multiplier: u32,
    pub properties: Seq<i32>,
    pub default_state_id: u16,
    pub states: Seq<BlockStateView>,
    pub experience: Option<u32>,
}

impl View for Block {
    type V = BlockView;

    open spec fn view(&self) -> BlockView {
        BlockView {
            id: self.id,
            name: self.name@,
            translation_key: self.translation_key@,
            hardness: self.hardness,
            blast_resistance: self.blast_resistance,
            item_id: self.item_id,
            loot_table: self.loot_table,
            slipperiness: self.slipperiness,
            velocity_multiplier: self.velocity_multiplier,
            jump_velocity_multiplier: self.jump_velocity_multiplier,
            properties: self.properties@,
            default_state_id: self.default_state_id,
            states: Seq::new(self.states@.len(), |i: int| self.states@[i]@),
            experience: self.experience,
        }
    }
}

/// A block as the catalog keeps it: its states refer to the table of
/// distinct states.
#[derive(Debug)]
pub struct OptimizedBlock {
    pub id: u16,
    pub name: String,
    pub translation_key: String,
    pub hardness: u32,
    pub blast_resistance: u32,
    pub item_id: u16,
    pub loot_table: Option<u32>,
    pub slipperiness: u32,
    pub velocity_multiplier: u32,
    pub jump_velocity_multiplier: u32,
    pub default_state_id: u16,
    pub states: Vec<BlockStateRef>,
    pub experience: Option<u32>,
}

/// What an `OptimizedBlock` holds.
pub struct OptimizedBlockView {
    pub id: u16,
    pub name: Seq<char>,
    pub translation_key: Seq<char>,
    pub hardness: u32,
    pub blast_resistance: u32,
    pub item_id: u16,
    pub loot_table: Option<u32>,
    pub slipperiness: u32,
    pub velocity_multiplier: u32,
    pub jump_velocity_multiplier: u32,
    pub default_state_id: u16,
    pub states: Seq<BlockStateRef>,
    pub experience: Option<u32>,
}

impl OptimizedBlockView {
    /// The block has a state, and its states carry the ids from the first
    /// state's id on, one after the other.
    pub open spec fn contiguous(self) -> bool {
        &&& self.states.len() >= 1
        &&& forall|i: int|
            0 <= i < self.states.len() ==> (#[trigger] self.states[i]).id == self.states[0].id + i
    }

    /// Id of the block's first state.
    pub open spec fn first_state_id(self) -> int {
        self.states[0].id as int
    }

    /// Id of the block's last state.
    pub open spec fn last_state_id(self) -> int {
        self.states.last().id as int
    }

    /// The id is one of the block's states.
    pub open spec fn owns_state(self, state_id: int) -> bool {
        self.first_state_id() <= state_id <= self.last_state_id()
    }
}

impl View for OptimizedBlock {
    type V = OptimizedBlockView;

    open spec fn view(&self) -> OptimizedBlockView {
        OptimizedBlockView {
            id: self.id,
            name: self.name@,
            translation_key: self.translation_key@,
            hardness: self.hardness,
            blast_resistance: self.blast_resistance,
            item_id: self.item_id,
            loot_table: self.loot_table,
            slipperiness: self.slipperiness,
            velocity_multiplier: self.velocity_multiplier,
            jump_velocity_multiplier: self.jump_velocity_multiplier,
            default_state_id: self.default_state_id,
            states: self.states@,
            experience: self.experience,
        }
    }
}

/// A copy of a list of state references.
pub fn copy_state_refs(v: &Vec<BlockStateRef>) -> (r: Vec<BlockStateRef>)
    ensures
        r@ == v@,
{
    let mut r: Vec<BlockStateRef> = Vec::new();
    let mut i: usize = 0;
    while i < v.len()
        invariant
            i <= v.len(),
            r@ == v@.take(i as int),
        decreases v.len() - i,
    {
        r.push(v[i]);
        proof {
            assert(v@.take(i + 1) =~= v@.take(i as int).push(v@[i as int]));
        }
        i += 1;
    }
    proof {
        assert(v@.take(i as int) =~= v@);
    }
    r
}

impl OptimizedBlock {
    /// A copy of the block.
    pub fn duplicate(&self) -> (r: OptimizedBlock)
        ensures
            r@ == self@,
    {
        OptimizedBlock {
            id: self.id,
            name: self.name.clone(),
            translation_key: self.translation_key.clone(),
            hardness: self.hardness,
            blast_resistance: self.blast_resistance,
            item_id: self.item_id,
            loot_table: self.loot_table,
            slipperiness: self.slipperiness,
            velocity_multiplier: self.velocity_multiplier,
            jump_velocity_multiplier: self.jump_velocity_multiplier,
            default_state_id: self.default_state_id,
            states: copy_state_refs(&self.states),
            experience: self.experience,
        }
    }
}

/// A corner of a box; each coordinate is the 64 bits of its IEEE-754 double
/// precision form.
#[derive(Clone, Copy, Debug, PartialEq, Eq, Structural)]
pub struct Corner {
    pub x: u64,
    pub y: u64,
    pub z: u64,
}

/// An axis-aligned box of the collision shape table.
#[derive(Clone, Copy, Debug, PartialEq, Eq, Structural)]
pub struct CollisionShape {
    pub min: Corner,
    pub max: Corner,
}

/// The asset tables the catalog is built from.
#[derive(Debug)]
pub struct BlockAssets {
    pub blocks: Vec<Block>,
    pub shapes: Vec<CollisionShape>,
    pub block_entity_types: Vec<String>,
}

} // verus!
