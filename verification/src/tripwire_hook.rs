//! Tripwire hooks: a hook looks along the line it faces for a hook that
//! faces it, with nothing but tripwire between the two; the hooks and the
//! wires between them are attached and powered accordingly.

use vstd::prelude::*;
use crate::action::{Action, Sound};
use crate::block::{OptimizedBlock, OptimizedBlockView};
use crate::direction::{BlockDirection, BlockPos, HorizontalFacing};
use crate::flags::{BlockFlags, NOTIFY_ALL};
use crate::property::CodecError;
use crate::registry::BlockMetadata;
use crate::text::same_text;
use crate::tick::TickPriority;
use crate::typed::{
    digits_of_state, state_id_of, try_default_of, try_from_state_id, try_to_state_id,
    BlockProperties,
    TripwireHookLikeProperties, TripwireLikeProperties,
};
use crate::world::{World, WorldView};

verus! {

/// How far, in cells, a hook looks for its partner: the partner stands at
/// most this many cells away.
pub const REACH: usize = 41;

/// The distance of the wire that was stepped on, where no wire was.
pub const NO_WIRE: i32 = -1;

/// The behaviour of tripwire hooks.
#[derive(Clone, Copy, Debug, PartialEq, Eq, Structural)]
pub struct TripwireHookBlock;

impl BlockMetadata for TripwireHookBlock {
    open spec fn spec_namespace(&self) -> Seq<char> {
        "minecraft"@
    }

    open spec fn spec_ids(&self) -> Seq<Seq<char>> {
        seq!["tripwire_hook"@]
    }

    fn namespace(&self) -> (r: &'static str) {
        "minecraft"
    }

    fn ids(&self) -> (r: Vec<&'static str>) {
        let mut r: Vec<&'static str> = Vec::new();
        r.push("tripwire_hook");
        r
    }
}

/// What stands in a cell of a hook's line.
#[derive(Clone, Copy, Debug, PartialEq, Eq)]
pub enum Seen {
    Hook(TripwireHookLikeProperties),
    Wire(TripwireLikeProperties),
    Other,
}

/// What a hook found along its line.
pub struct Scan {
    /// A hook was met: the cells behind it do not count.
    pub done: bool,
    /// The distance of the hook that faces this one; 0 where there is none.
    pub end: usize,
    /// Nothing but tripwire was met, and the wire that was stepped on, if
    /// it was met, is not disarmed.
    pub can_attach: bool,
    /// A wire that is powered and not disarmed was met.
    pub wire_attached: bool,
    /// The wire that was stepped on was met.
    pub touched: bool,
    /// The wire at each distance, where one was met there.
    pub wires: Vec<Option<TripwireLikeProperties>>,
}

/// What a `Scan` holds.
pub struct ScanView {
    pub done: bool,
    pub end: int,
    pub can_attach: bool,
    pub wire_attached: bool,
    pub touched: bool,
    pub wires: Seq<Option<TripwireLikeProperties>>,
}

impl View for Scan {
    type V = ScanView;

    open spec fn view(&self) -> ScanView {
        ScanView {
            done: self.done,
            end: self.end as int,
            can_attach: self.can_attach,
            wire_attached: self.wire_attached,
            touched: self.touched,
            wires: self.wires@,
        }
    }
}

/// The scan before the first cell.
pub open spec fn scan_start(skip_state_update: bool) -> ScanView {
    ScanView {
        done: false,
        end: 0,
        can_attach: !skip_state_update,
        wire_attached: false,
        touched: false,
        wires: Seq::new(REACH as nat + 1, |i: int| None::<TripwireLikeProperties>),
    }
}

/// The scan after the cell at distance `k`.
pub open spec fn scan_step(
    s: ScanView,
    k: int,
    seen: Seen,
    facing: HorizontalFacing,
    raw_wire_index: i32,
) -> ScanView {
    if s.done {
        s
    } else {
        match seen {
            Seen::Hook(h) => ScanView {
                done: true,
                end: if h.facing == facing.spec_opposite() {
                    k
                } else {
                    0
                },
                ..s
            },
            Seen::Wire(w) => ScanView {
                wire_attached: s.wire_attached || (!w.disarmed && w.powered),
                wires: s.wires.update(k, Some(w)),
                touched: s.touched || k == raw_wire_index,
                can_attach: if k == raw_wire_index {
                    s.can_attach && !w.disarmed
                } else {
                    s.can_attach
                },
                ..s
            },
            Seen::Other => ScanView { wires: s.wires.update(k, None), can_attach: false, ..s },
        }
    }
}

/// The scan after the first `n` cells of a line; `line[k - 1]` is what
/// stands at distance `k`.
pub open spec fn scan(
    line: Seq<Seen>,
    n: int,
    facing: HorizontalFacing,
    raw_wire_index: i32,
    skip_state_update: bool,
) -> ScanView
    decreases n,
{
    if n <= 0 {
        scan_start(skip_state_update)
    } else {
        scan_step(
            scan(line, n - 1, facing, raw_wire_index, skip_state_update),
            n,
            line[n - 1],
            facing,
            raw_wire_index,
        )
    }
}

/// The number of cells of a line that a hook looks at.
pub open spec fn cells_in_reach(line: Seq<Seen>) -> int {
    if line.len() < REACH {
        line.len() as int
    } else {
        REACH as int
    }
}

/// The sound of a hook that changes from (`detached`, `off`) to
/// (`attached`, `on`).
pub open spec fn sound_of(attached: bool, on: bool, detached: bool, off: bool) -> Option<Sound> {
    if on && !off {
        Some(Sound::BlockTripwireClickOn)
    } else if !on && off {
        Some(Sound::BlockTripwireClickOff)
    } else if attached && !detached {
        Some(Sound::BlockTripwireAttach)
    } else if !attached && detached {
        Some(Sound::BlockTripwireDetach)
    } else {
        None
    }
}

/// The action that plays the sound of a changing hook, where it has one.
pub open spec fn spec_play_sound(
    pos: BlockPos,
    attached: bool,
    on: bool,
    detached: bool,
    off: bool,
) -> Seq<Action> {
    match sound_of(attached, on, detached, off) {
        Some(sound) => seq![Action::PlaySound { sound, pos }],
        None => Seq::empty(),
    }
}

/// The actions that tell of a changed hook: the cell itself, and the
/// neighbours of the block the hook hangs on, but the hook.
pub open spec fn spec_update_neighbors_on_axis(
    block_id: u16,
    pos: BlockPos,
    direction: BlockDirection,
) -> Seq<Action> {
    seq![
        Action::NeighborUpdate { pos, source_block: block_id },
        Action::UpdateNeighbors {
            pos: pos.spec_offset(direction.spec_opposite().spec_to_offset()),
            except: Some(direction),
        },
    ]
}

/// The action that writes a value of a block at a position, where the block
/// has a state for the value.
pub open spec fn spec_write<T: BlockProperties>(
    pos: BlockPos,
    value: &T,
    block: OptimizedBlockView,
) -> Seq<Action> {
    match state_id_of(value, block) {
        Ok(state_id) => seq![
            Action::SetBlockState { pos, state_id, flags: BlockFlags { bits: NOTIFY_ALL } },
        ],
        Err(_) => Seq::empty(),
    }
}

/// The actions that set the attachment of the wires at the distances
/// `1..=n` from a hook.
pub open spec fn spec_wire_actions(
    start: BlockPos,
    facing: HorizontalFacing,
    wires: Seq<Option<TripwireLikeProperties>>,
    attached: bool,
    wire_block: Option<OptimizedBlockView>,
    n: int,
) -> Seq<Action>
    decreases n,
{
    if n <= 0 {
        Seq::empty()
    } else {
        let before = spec_wire_actions(start, facing, wires, attached, wire_block, n - 1);
        match (wires[n], wire_block) {
            (Some(w), Some(b)) => before + spec_write(
                start.spec_offset_dir(facing.spec_to_offset(), n as i32),
                &TripwireLikeProperties { attached, ..w },
                b,
            ),
            _ => before,
        }
    }
}

/// What follows from a scan for the hook at `start_pos` with the properties
/// `start`: in this order, the tick for the wire that was stepped on; the
/// state, the notices and the sound of the partner; the sound of the hook;
/// the state and the notices of the hook; the states of the wires between.
pub open spec fn spec_plan(
    start_pos: BlockPos,
    start: TripwireHookLikeProperties,
    s: ScanView,
    skip_state_update: bool,
    notify_neighbors: bool,
    hook_block: OptimizedBlockView,
    wire_block: Option<OptimizedBlockView>,
) -> Seq<Action> {
    let attached = s.can_attach && s.end > 1;
    let powered = s.wire_attached && attached;
    let tick_part = if s.touched {
        seq![
            Action::ScheduleBlockTick {
                pos: start_pos,
                block_id: hook_block.id,
                delay: 10,
                priority: TickPriority::Normal,
            },
        ]
    } else {
        Seq::empty()
    };
    let end_part = if s.end > 0 {
        let end_pos = start_pos.spec_offset_dir(start.facing.spec_to_offset(), s.end as i32);
        let facing = start.facing.spec_opposite();
        spec_write(end_pos, &TripwireHookLikeProperties { facing, powered, attached }, hook_block)
            + spec_update_neighbors_on_axis(
            hook_block.id,
            end_pos,
            BlockDirection::spec_from_cardinal_direction(facing),
        ) + spec_play_sound(end_pos, attached, powered, start.attached, start.powered)
    } else {
        Seq::empty()
    };
    let start_sound = spec_play_sound(start_pos, attached, powered, start.attached, start.powered);
    let start_part = if !skip_state_update {
        spec_write(
            start_pos,
            &TripwireHookLikeProperties { facing: start.facing, powered, attached },
            hook_block,
        ) + if notify_neighbors {
            spec_update_neighbors_on_axis(
                hook_block.id,
                start_pos,
                BlockDirection::spec_from_cardinal_direction(start.facing),
            )
        } else {
            Seq::empty()
        }
    } else {
        Seq::empty()
    };
    let wires_part = if start.attached != attached {
        spec_wire_actions(start_pos, start.facing, s.wires, attached, wire_block, s.end - 1)
    } else {
        Seq::empty()
    };
    tick_part + end_part + start_sound + start_part + wires_part
}

/// Looks along a line: what was met, up to the first hook.
pub fn scan_line(
    line: &Vec<Seen>,
    facing: HorizontalFacing,
    raw_wire_index: i32,
    skip_state_update: bool,
) -> (r: Scan)
    ensures
        r@ == scan(line@, cells_in_reach(line@), facing, raw_wire_index, skip_state_update),
        r.end <= REACH,
        r.wires@.len() == REACH + 1,
{
    let n = if line.len() < REACH {
        line.len()
    } else {
        REACH
    };
    let mut wires: Vec<Option<TripwireLikeProperties>> = Vec::new();
    let mut i: usize = 0;
    while i < REACH + 1
        invariant
            i <= REACH + 1,
            wires@.len() == i,
            forall|j: int| 0 <= j < i ==> wires@[j] == None::<TripwireLikeProperties>,
        decreases REACH + 1 - i,
    {
        wires.push(None);
        i += 1;
    }
    let mut s = Scan {
        done: false,
        end: 0,
        can_attach: !skip_state_update,
        wire_attached: false,
        touched: false,
        wires,
    };
    assert(s@.wires =~= scan_start(skip_state_update).wires);
    let mut k: usize = 1;
    while k <= n
        invariant
            1 <= k <= n + 1,
            n <= REACH,
            n <= line@.len(),
            s@ == scan(line@, k - 1, facing, raw_wire_index, skip_state_update),
            s.end <= REACH,
            s.wires@.len() == REACH + 1,
        decreases n + 1 - k,
    {
        if !s.done {
            match line[k - 1] {
                Seen::Hook(h) => {
                    s.done = true;
                    s.end = if h.facing == facing.opposite() {
                        k
                    } else {
                        0
                    };
                },
                Seen::Wire(w) => {
                    s.wire_attached = s.wire_attached || (!w.disarmed && w.powered);
                    s.wires.set(k, Some(w));
                    if raw_wire_index >= 0 && raw_wire_index as usize == k {
                        s.touched = true;
                        s.can_attach = s.can_attach && !w.disarmed;
                    }
                },
                Seen::Other => {
                    s.wires.set(k, None);
                    s.can_attach = false;
                },
            }
        }
        k += 1;
    }
    s
}

impl TripwireHookBlock {
    /// A hook can hang at a position on the side `face` of it where that
    /// side is horizontal and the block there is solid on the side.
    pub open spec fn spec_can_place_at(world: WorldView, pos: BlockPos, face: BlockDirection) -> bool {
        face.spec_is_horizontal() && world.spec_is_side_solid(
            pos.spec_offset(face.spec_to_offset()),
            face,
        )
    }

    /// The state of a hook placed against the side `face`: not powered, not
    /// attached, and facing away from the side where it can hang there.
    pub open spec fn spec_on_place(
        world: WorldView,
        block: &OptimizedBlock,
        pos: BlockPos,
        face: BlockDirection,
    ) -> u16 {
        match digits_of_state::<TripwireHookLikeProperties>(block.default_state_id, block@) {
            Ok(_) => if Self::spec_can_place_at(world, pos, face) {
                match state_id_of(
                    &TripwireHookLikeProperties {
                        facing: face.spec_opposite().spec_to_cardinal_direction(),
                        powered: false,
                        attached: false,
                    },
                    block@,
                ) {
                    Ok(id) => id,
                    Err(_) => block.default_state_id,
                }
            } else {
                block.default_state_id
            },
            Err(_) => block.default_state_id,
        }
    }

    /// A hook whose support, in the direction of the changed neighbour, is
    /// gone turns to air.
    pub open spec fn spec_get_state_for_neighbor_update(
        world: WorldView,
        block: &OptimizedBlock,
        state: u16,
        pos: BlockPos,
        direction: BlockDirection,
    ) -> u16 {
        let hangs_there = match (
            direction.spec_to_horizontal_facing(),
            digits_of_state::<TripwireHookLikeProperties>(state, block@),
        ) {
            (Some(facing), Ok(d)) => facing.spec_opposite() == TripwireHookLikeProperties::of_digits(
                d,
            ).facing,
            _ => false,
        };
        if hangs_there && !Self::spec_can_place_at(world, pos, direction) {
            world.spec_default_state("air"@)
        } else {
            state
        }
    }

    /// The power that a hook gives to its neighbours: 15 where it is
    /// powered.
    pub open spec fn spec_get_weak_redstone_power(block: &OptimizedBlock, state_id: u16) -> u8 {
        match digits_of_state::<TripwireHookLikeProperties>(state_id, block@) {
            Ok(d) => if TripwireHookLikeProperties::of_digits(d).powered {
                15
            } else {
                0
            },
            Err(_) => 0,
        }
    }

    /// The power that a hook gives through a block: 15 where it is powered,
    /// in the direction it faces.
    pub open spec fn spec_get_strong_redstone_power(
        block: &OptimizedBlock,
        state_id: u16,
        direction: BlockDirection,
    ) -> u8 {
        match digits_of_state::<TripwireHookLikeProperties>(state_id, block@) {
            Ok(d) => if TripwireHookLikeProperties::of_digits(d).powered
                && direction.spec_to_horizontal_facing() == Some(
                TripwireHookLikeProperties::of_digits(d).facing,
            ) {
                15
            } else {
                0
            },
            Err(_) => 0,
        }
    }

    /// What stands at distance `k` in a hook's line.
    pub open spec fn spec_observe(
        world: WorldView,
        pos: BlockPos,
        k: int,
        raw_wire_index: i32,
        raw_wire_state: Option<u16>,
    ) -> Seen {
        let here = world.spec_state_id(pos);
        let name = match world.spec_block(pos) {
            Some(b) => Some(world.catalog.blocks@[b].name@),
            None => None,
        };
        if name == Some("tripwire_hook"@) {
            match digits_of_state::<TripwireHookLikeProperties>(
                here,
                world.catalog.blocks@[world.spec_block(pos)->Some_0]@,
            ) {
                Ok(d) => Seen::Hook(TripwireHookLikeProperties::of_digits(d)),
                Err(_) => Seen::Other,
            }
        } else if name == Some("tripwire"@) || k == raw_wire_index {
            let state_id = if k == raw_wire_index {
                match raw_wire_state {
                    Some(id) => id,
                    None => here,
                }
            } else {
                here
            };
            match world.catalog.names().index_of_first("tripwire"@) {
                Some(b) => match digits_of_state::<TripwireLikeProperties>(
                    state_id,
                    world.catalog.blocks@[b]@,
                ) {
                    Ok(d) => Seen::Wire(TripwireLikeProperties::of_digits(d)),
                    Err(_) => Seen::Other,
                },
                None => Seen::Other,
            }
        } else {
            Seen::Other
        }
    }

    /// What stands in the cells of a hook's line, from distance 1 on.
    pub open spec fn spec_line(
        world: WorldView,
        start: BlockPos,
        facing: HorizontalFacing,
        raw_wire_index: i32,
        raw_wire_state: Option<u16>,
    ) -> Seq<Seen> {
        Seq::new(
            REACH as nat,
            |i: int|
                Self::spec_observe(
                    world,
                    start.spec_offset_dir(facing.spec_to_offset(), (i + 1) as i32),
                    i + 1,
                    raw_wire_index,
                    raw_wire_state,
                ),
        )
    }

    /// What follows for a hook and its line from the state of the world.
    /// Nothing where the catalog has no tripwire hook, or the state is not
    /// one of its states.
    pub open spec fn spec_update(
        world: WorldView,
        start_hook_pos: BlockPos,
        start_hook_state_id: u16,
        skip_state_update: bool,
        notify_neighbors: bool,
        raw_wire_index: i32,
        raw_wire_state: Option<u16>,
    ) -> Seq<Action> {
        match world.catalog.names().index_of_first("tripwire_hook"@) {
            None => Seq::empty(),
            Some(h) => {
                let hook_block = world.catalog.blocks@[h]@;
                match digits_of_state::<TripwireHookLikeProperties>(start_hook_state_id, hook_block) {
                    Err(_) => Seq::empty(),
                    Ok(d) => {
                        let start = TripwireHookLikeProperties::of_digits(d);
                        let line = Self::spec_line(
                            world,
                            start_hook_pos,
                            start.facing,
                            raw_wire_index,
                            raw_wire_state,
                        );
                        let s = scan(
                            line,
                            REACH as int,
                            start.facing,
                            raw_wire_index,
                            skip_state_update,
                        );
                        let wire_block = match world.catalog.names().index_of_first("tripwire"@) {
                            Some(w) => Some(world.catalog.blocks@[w]@),
                            None => None,
                        };
                        spec_plan(
                            start_hook_pos,
                            start,
                            s,
                            skip_state_update,
                            notify_neighbors,
                            hook_block,
                            wire_block,
                        )
                    },
                }
            },
        }
    }

    /// What follows when a hook's state was replaced by another block's:
    /// where it was powered or attached, the line is looked over once more,
    /// and the cell and the block it hung on are told.
    pub open spec fn spec_on_state_replaced(
        world: WorldView,
        block: &OptimizedBlock,
        location: BlockPos,
        old_state_id: u16,
        moved: bool,
    ) -> Seq<Action> {
        if moved {
            Seq::empty()
        } else {
            match digits_of_state::<TripwireHookLikeProperties>(old_state_id, block@) {
                Err(_) => Seq::empty(),
                Ok(d) => {
                    let props = TripwireHookLikeProperties::of_digits(d);
                    let first = if props.powered || props.attached {
                        Self::spec_update(world, location, old_state_id, true, false, NO_WIRE, None)
                    } else {
                        Seq::empty()
                    };
                    let second = if props.powered || props.attached {
                        seq![
                            Action::NeighborUpdate { pos: location, source_block: block.id },
                            Action::NeighborUpdate {
                                pos: location.spec_offset(
                                    props.facing.spec_opposite().spec_to_offset(),
                                ),
                                source_block: block.id,
                            },
                        ]
                    } else {
                        Seq::empty()
                    };
                    first + second
                },
            }
        }
    }

    /// Whether a hook can hang at a position on the side `face` of it.
    pub fn can_place_at(world: &World, block_pos: &BlockPos, face: BlockDirection) -> (r: bool)
        ensures
            r == Self::spec_can_place_at(world@, *block_pos, face),
    {
        if !face.is_horizontal() {
            return false;
        }
        let place_block_pos = block_pos.offset(face.to_offset());
        world.is_side_solid(&place_block_pos, face)
    }

    /// The state that a placed hook starts with.
    pub fn on_place(
        &self,
        world: &World,
        block: &OptimizedBlock,
        block_pos: &BlockPos,
        face: BlockDirection,
    ) -> (r: u16)
        ensures
            r == Self::spec_on_place(world@, block, *block_pos, face),
    {
        let mut props: TripwireHookLikeProperties = match try_default_of(block) {
            Ok(p) => p,
            Err(_) => {
                return block.default_state_id;
            },
        };
        props.powered = false;
        props.attached = false;
        if Self::can_place_at(world, block_pos, face) {
            props.facing = face.opposite().to_cardinal_direction();
            return match try_to_state_id(&props, block) {
                Ok(id) => id,
                Err(_) => block.default_state_id,
            };
        }
        block.default_state_id
    }

    /// What follows when a player placed a hook: the hook looks along its line.
    pub fn player_placed(&self, world: &World, state_id: u16, pos: &BlockPos) -> (r: Vec<Action>)
        ensures
            r@ == Self::spec_update(world@, *pos, state_id, false, false, NO_WIRE, None),
    {
        Self::update(world, *pos, state_id, false, false, NO_WIRE, None)
    }

    /// The state of a hook after a neighbour changed.
    pub fn get_state_for_neighbor_update(
        &self,
        world: &World,
        block: &OptimizedBlock,
        state: u16,
        pos: &BlockPos,
        direction: BlockDirection,
    ) -> (r: u16)
        ensures
            r == Self::spec_get_state_for_neighbor_update(world@, block, state, *pos, direction),
    {
        let hangs_there = match direction.to_horizontal_facing() {
            Some(facing) => {
                let props: Result<TripwireHookLikeProperties, CodecError> = try_from_state_id(
                    state,
                    block,
                );
                match props {
                    Ok(props) => facing.opposite() == props.facing,
                    Err(_) => false,
                }
            },
            None => false,
        };
        if hangs_there && !Self::can_place_at(world, pos, direction) {
            world.default_state("air")
        } else {
            state
        }
    }

    /// What follows from the scheduled tick of a hook: the hook looks along its
    /// line and tells its neighbours.
    pub fn on_scheduled_tick(&self, world: &World, pos: &BlockPos) -> (r: Vec<Action>)
        ensures
            r@ == Self::spec_update(
                world@,
                *pos,
                world@.spec_state_id(*pos),
                false,
                true,
                NO_WIRE,
                None,
            ),
    {
        let state_id = world.get_block_state_id(pos);
        Self::update(world, *pos, state_id, false, true, NO_WIRE, None)
    }

    /// What follows when a hook's state was replaced by another block's.
    pub fn on_state_replaced(
        &self,
        world: &World,
        block: &OptimizedBlock,
        location: BlockPos,
        old_state_id: u16,
        moved: bool,
    ) -> (r: Vec<Action>)
        ensures
            r@ == Self::spec_on_state_replaced(world@, block, location, old_state_id, moved),
    {
        let mut actions: Vec<Action> = Vec::new();
        if moved {
            return actions;
        }
        let decoded: Result<TripwireHookLikeProperties, CodecError> = try_from_state_id(
            old_state_id,
            block,
        );
        let props = match decoded {
            Ok(props) => props,
            Err(_) => {
                return actions;
            },
        };
        if props.powered || props.attached {
            actions = Self::update(world, location, old_state_id, true, false, NO_WIRE, None);
        }
        let ghost first = actions@;
        if props.powered || props.attached {
            actions.push(Action::NeighborUpdate { pos: location, source_block: block.id });
            actions.push(
                Action::NeighborUpdate {
                    pos: location.offset(props.facing.opposite().to_offset()),
                    source_block: block.id,
                },
            );
            assert(actions@ =~= first + seq![
                Action::NeighborUpdate { pos: location, source_block: block.id },
                Action::NeighborUpdate {
                    pos: location.spec_offset(props.facing.spec_opposite().spec_to_offset()),
                    source_block: block.id,
                },
            ]);
        } else {
            assert(actions@ =~= first + Seq::<Action>::empty());
        }
        actions
    }

    /// Redstone connects to a hook on every side.
    pub fn emits_redstone_power(&self) -> (r: bool)
        ensures
            r,
    {
        true
    }

    /// The power that a hook gives to its neighbours.
    pub fn get_weak_redstone_power(&self, block: &OptimizedBlock, state_id: u16) -> (r: u8)
        ensures
            r == Self::spec_get_weak_redstone_power(block, state_id),
    {
        let decoded: Result<TripwireHookLikeProperties, CodecError> = try_from_state_id(
            state_id,
            block,
        );
        match decoded {
            Ok(props) => if props.powered {
                15
            } else {
                0
            },
            Err(_) => 0,
        }
    }

    /// The power that a hook gives through a block in a direction.
    pub fn get_strong_redstone_power(
        &self,
        block: &OptimizedBlock,
        state_id: u16,
        direction: BlockDirection,
    ) -> (r: u8)
        ensures
            r == Self::spec_get_strong_redstone_power(block, state_id, direction),
    {
        let decoded: Result<TripwireHookLikeProperties, CodecError> = try_from_state_id(
            state_id,
            block,
        );
        match decoded {
            Ok(props) => {
                let toward = match direction.to_horizontal_facing() {
                    Some(facing) => props.facing == facing,
                    None => false,
                };
                if props.powered && toward {
                    15
                } else {
                    0
                }
            },
            Err(_) => 0,
        }
    }

    /// What stands at distance `k` in a hook's line.
    pub fn observe(
        world: &World,
        pos: &BlockPos,
        k: usize,
        raw_wire_index: i32,
        raw_wire_state: Option<u16>,
    ) -> (r: Seen)
        ensures
            r == Self::spec_observe(world@, *pos, k as int, raw_wire_index, raw_wire_state),
    {
        let stepped_on = raw_wire_index >= 0 && raw_wire_index as usize == k;
        let here = world.get_block_state_id(pos);
        let current = world.get_block(pos);
        let is_hook = match current {
            Some(block) => same_text(block.name.as_str(), "tripwire_hook"),
            None => false,
        };
        let is_wire = match current {
            Some(block) => same_text(block.name.as_str(), "tripwire"),
            None => false,
        };
        if is_hook {
            let block = match current {
                Some(block) => block,
                None => {
                    return Seen::Other;
                },
            };
            let decoded: Result<TripwireHookLikeProperties, CodecError> = try_from_state_id(
                here,
                block,
            );
            return match decoded {
                Ok(props) => Seen::Hook(props),
                Err(_) => Seen::Other,
            };
        }
        if is_wire || stepped_on {
            let state_id = if stepped_on {
                match raw_wire_state {
                    Some(id) => id,
                    None => here,
                }
            } else {
                here
            };
            proof {
                world.catalog.names().index_of_first_ensures("tripwire"@);
            }
            return match world.catalog.from_registry_key("tripwire") {
                Some(wire_block) => {
                    let decoded: Result<TripwireLikeProperties, CodecError> = try_from_state_id(
                        state_id,
                        wire_block,
                    );
                    match decoded {
                        Ok(props) => Seen::Wire(props),
                        Err(_) => Seen::Other,
                    }
                },
                None => Seen::Other,
            };
        }
        Seen::Other
    }

    /// The action that plays the sound of a changing hook, where it has one.
    pub fn play_sound(block_pos: &BlockPos, attached: bool, on: bool, detached: bool, off: bool) -> (r:
        Vec<Action>)
        ensures
            r@ == spec_play_sound(*block_pos, attached, on, detached, off),
    {
        let mut r: Vec<Action> = Vec::new();
        if on && !off {
            r.push(Action::PlaySound { sound: Sound::BlockTripwireClickOn, pos: *block_pos });
        } else if !on && off {
            r.push(Action::PlaySound { sound: Sound::BlockTripwireClickOff, pos: *block_pos });
        } else if attached && !detached {
            r.push(Action::PlaySound { sound: Sound::BlockTripwireAttach, pos: *block_pos });
        } else if !attached && detached {
            r.push(Action::PlaySound { sound: Sound::BlockTripwireDetach, pos: *block_pos });
        }
        assert(r@ =~= spec_play_sound(*block_pos, attached, on, detached, off));
        r
    }

    /// The actions that tell of a changed hook.
    pub fn update_neighbors_on_axis(
        block: &OptimizedBlock,
        block_pos: BlockPos,
        direction: BlockDirection,
    ) -> (r: Vec<Action>)
        ensures
            r@ == spec_update_neighbors_on_axis(block.id, block_pos, direction),
    {
        let mut r: Vec<Action> = Vec::new();
        r.push(Action::NeighborUpdate { pos: block_pos, source_block: block.id });
        r.push(
            Action::UpdateNeighbors {
                pos: block_pos.offset(direction.opposite().to_offset()),
                except: Some(direction),
            },
        );
        assert(r@ =~= spec_update_neighbors_on_axis(block.id, block_pos, direction));
        r
    }

    /// The action that writes a value of a block at a position.
    fn write<T: BlockProperties>(pos: BlockPos, value: &T, block: &OptimizedBlock) -> (r: Vec<
        Action,
    >)
        ensures
            r@ == spec_write(pos, value, block@),
    {
        let mut r: Vec<Action> = Vec::new();
        match try_to_state_id(value, block) {
            Ok(state_id) => {
                r.push(Action::SetBlockState { pos, state_id, flags: BlockFlags::notify_all() });
            },
            Err(_) => {},
        }
        assert(r@ =~= spec_write(pos, value, block@));
        r
    }

    /// What stands in the cells of a hook's line.
    pub fn observe_line(
        world: &World,
        start: BlockPos,
        facing: HorizontalFacing,
        raw_wire_index: i32,
        raw_wire_state: Option<u16>,
    ) -> (line: Vec<Seen>)
        ensures
            line@ == Self::spec_line(world@, start, facing, raw_wire_index, raw_wire_state),
    {
        let ghost spec_line = Self::spec_line(world@, start, facing, raw_wire_index, raw_wire_state);
        let mut line: Vec<Seen> = Vec::new();
        let mut k: usize = 1;
        while k <= REACH
            invariant
                1 <= k <= REACH + 1,
                line@.len() == k - 1,
                spec_line == Self::spec_line(world@, start, facing, raw_wire_index, raw_wire_state),
                forall|i: int| 0 <= i < k - 1 ==> line@[i] == spec_line[i],
            decreases REACH + 1 - k,
        {
            let pos = start.offset_dir(facing.to_offset(), k as i32);
            line.push(Self::observe(world, &pos, k, raw_wire_index, raw_wire_state));
            k += 1;
        }
        assert(line@ =~= spec_line);
        line
    }

    /// The actions that set the attachment of the wires before the partner.
    fn wire_actions(
        start: BlockPos,
        facing: HorizontalFacing,
        wires: &Vec<Option<TripwireLikeProperties>>,
        attached: bool,
        wire_block: Option<&OptimizedBlock>,
        end: usize,
    ) -> (r: Vec<Action>)
        requires
            end <= REACH,
            wires@.len() == REACH + 1,
        ensures
            r@ == spec_wire_actions(
                start,
                facing,
                wires@,
                attached,
                match wire_block {
                    Some(b) => Some(b@),
                    None => None,
                },
                end - 1,
            ),
    {
        let ghost wire_view = match wire_block {
            Some(b) => Some(b@),
            None => None::<OptimizedBlockView>,
        };
        let mut actions: Vec<Action> = Vec::new();
        let mut l: usize = 1;
        while l < end
            invariant
                1 <= l,
                end <= REACH,
                wires@.len() == REACH + 1,
                l <= end || (end == 0 && l == 1),
                wire_view == match wire_block {
                    Some(b) => Some(b@),
                    None => None::<OptimizedBlockView>,
                },
                actions@ == spec_wire_actions(start, facing, wires@, attached, wire_view, l - 1),
            decreases REACH + 1 - l,
        {
            let pos = start.offset_dir(facing.to_offset(), l as i32);
            let ghost before = actions@;
            match (wires[l], wire_block) {
                (Some(w), Some(b)) => {
                    let mut wire = w;
                    wire.attached = attached;
                    let mut a = Self::write(pos, &wire, b);
                    actions.append(&mut a);
                },
                _ => {},
            }
            proof {
                assert(actions@ =~= spec_wire_actions(
                    start,
                    facing,
                    wires@,
                    attached,
                    wire_view,
                    l as int,
                ));
            }
            l += 1;
        }
        proof {
            if end == 0 {
                assert(spec_wire_actions(start, facing, wires@, attached, wire_view, 0)
                    =~= spec_wire_actions(start, facing, wires@, attached, wire_view, -1));
            }
        }
        actions
    }

    /// The state, the notices and the sound of the partner.
    fn end_actions(
        start_pos: BlockPos,
        start: TripwireHookLikeProperties,
        end: usize,
        attached: bool,
        powered: bool,
        hook_block: &OptimizedBlock,
    ) -> (r: Vec<Action>)
        requires
            0 < end <= REACH,
        ensures
            r@ == spec_write(
                start_pos.spec_offset_dir(start.facing.spec_to_offset(), end as i32),
                &TripwireHookLikeProperties {
                    facing: start.facing.spec_opposite(),
                    powered,
                    attached,
                },
                hook_block@,
            ) + spec_update_neighbors_on_axis(
                hook_block.id,
                start_pos.spec_offset_dir(start.facing.spec_to_offset(), end as i32),
                BlockDirection::spec_from_cardinal_direction(start.facing.spec_opposite()),
            ) + spec_play_sound(
                start_pos.spec_offset_dir(start.facing.spec_to_offset(), end as i32),
                attached,
                powered,
                start.attached,
                start.powered,
            ),
    {
        let end_pos = start_pos.offset_dir(start.facing.to_offset(), end as i32);
        let facing = start.facing.opposite();
        let mut actions = Self::write(
            end_pos,
            &TripwireHookLikeProperties { facing, powered, attached },
            hook_block,
        );
        let mut b = Self::update_neighbors_on_axis(
            hook_block,
            end_pos,
            BlockDirection::from_cardinal_direction(facing),
        );
        let mut c = Self::play_sound(&end_pos, attached, powered, start.attached, start.powered);
        actions.append(&mut b);
        actions.append(&mut c);
        actions
    }

    /// The state and the notices of the hook itself.
    fn start_actions(
        start_pos: BlockPos,
        start: TripwireHookLikeProperties,
        attached: bool,
        powered: bool,
        notify_neighbors: bool,
        hook_block: &OptimizedBlock,
    ) -> (r: Vec<Action>)
        ensures
            r@ == spec_write(
                start_pos,
                &TripwireHookLikeProperties { facing: start.facing, powered, attached },
                hook_block@,
            ) + if notify_neighbors {
                spec_update_neighbors_on_axis(
                    hook_block.id,
                    start_pos,
                    BlockDirection::spec_from_cardinal_direction(start.facing),
                )
            } else {
                Seq::empty()
            },
    {
        let mut actions = Self::write(
            start_pos,
            &TripwireHookLikeProperties { facing: start.facing, powered, attached },
            hook_block,
        );
        let ghost first = actions@;
        if notify_neighbors {
            let mut b = Self::update_neighbors_on_axis(
                hook_block,
                start_pos,
                BlockDirection::from_cardinal_direction(start.facing),
            );
            actions.append(&mut b);
        } else {
            assert(actions@ =~= first + Seq::<Action>::empty());
        }
        actions
    }

    /// What follows from a scan for a hook.
    pub fn plan(
        start_pos: BlockPos,
        start: TripwireHookLikeProperties,
        s: &Scan,
        skip_state_update: bool,
        notify_neighbors: bool,
        hook_block: &OptimizedBlock,
        wire_block: Option<&OptimizedBlock>,
    ) -> (r: Vec<Action>)
        requires
            s.end <= REACH,
            s.wires@.len() == REACH + 1,
        ensures
            r@ == spec_plan(
                start_pos,
                start,
                s@,
                skip_state_update,
                notify_neighbors,
                hook_block@,
                match wire_block {
                    Some(b) => Some(b@),
                    None => None,
                },
            ),
    {
        let attached = s.can_attach && s.end > 1;
        let powered = s.wire_attached && attached;
        let mut actions: Vec<Action> = Vec::new();
        if s.touched {
            actions.push(
                Action::ScheduleBlockTick {
                    pos: start_pos,
                    block_id: hook_block.id,
                    delay: 10,
                    priority: TickPriority::Normal,
                },
            );
        }
        let ghost tick_part = actions@;
        let mut end_part: Vec<Action> = Vec::new();
        if s.end > 0 {
            end_part = Self::end_actions(start_pos, start, s.end, attached, powered, hook_block);
        }
        let ghost end_view = end_part@;
        let mut start_sound = Self::play_sound(
            &start_pos,
            attached,
            powered,
            start.attached,
            start.powered,
        );
        let ghost sound_view = start_sound@;
        let mut start_part: Vec<Action> = Vec::new();
        if !skip_state_update {
            start_part = Self::start_actions(
                start_pos,
                start,
                attached,
                powered,
                notify_neighbors,
                hook_block,
            );
        }
        let ghost start_view = start_part@;
        let mut wires_part: Vec<Action> = Vec::new();
        if start.attached != attached {
            wires_part = Self::wire_actions(
                start_pos,
                start.facing,
                &s.wires,
                attached,
                wire_block,
                s.end,
            );
        }
        let ghost wires_view = wires_part@;
        actions.append(&mut end_part);
        actions.append(&mut start_sound);
        actions.append(&mut start_part);
        actions.append(&mut wires_part);
        assert(actions@ =~= tick_part + end_view + sound_view + start_view + wires_view);
        actions
    }

    /// Looks along the line of the hook at a position and decides what
    /// follows for the hook, its partner and the wires between.
    pub fn update(
        world: &World,
        start_hook_pos: BlockPos,
        start_hook_state_id: u16,
        skip_state_update: bool,
        notify_neighbors: bool,
        raw_wire_index: i32,
        raw_wire_state: Option<u16>,
    ) -> (r: Vec<Action>)
        ensures
            r@ == Self::spec_update(
                world@,
                start_hook_pos,
                start_hook_state_id,
                skip_state_update,
                notify_neighbors,
                raw_wire_index,
                raw_wire_state,
            ),
    {
        proof {
            world.catalog.names().index_of_first_ensures("tripwire_hook"@);
            world.catalog.names().index_of_first_ensures("tripwire"@);
        }
        let hook_block = match world.catalog.from_registry_key("tripwire_hook") {
            Some(block) => block,
            None => {
                return Vec::new();
            },
        };
        let decoded: Result<TripwireHookLikeProperties, CodecError> = try_from_state_id(
            start_hook_state_id,
            hook_block,
        );
        let start = match decoded {
            Ok(props) => props,
            Err(_) => {
                return Vec::new();
            },
        };
        let wire_block = world.catalog.from_registry_key("tripwire");
        let line = Self::observe_line(
            world,
            start_hook_pos,
            start.facing,
            raw_wire_index,
            raw_wire_state,
        );
        let s = scan_line(&line, start.facing, raw_wire_index, skip_state_update);
        Self::plan(
            start_hook_pos,
            start,
            &s,
            skip_state_update,
            notify_neighbors,
            hook_block,
            wire_block,
        )
    }
}

} // verus!
