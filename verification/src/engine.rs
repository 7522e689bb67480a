//! Carrying out actions: what one action does to the world, and how the
//! world works off the actions that wait.
//!
//! The actions that follow from an action are carried out before the
//! actions that waited already, in the order in which they were decided. A
//! chain of actions that goes on for more steps than the limit is cut off.

use vstd::prelude::*;
use crate::action::{Action, CBlockUpdate, WorldEvent};
use crate::block::OptimizedBlock;
use crate::cells::key_of;
use crate::direction::{update_order, BlockDirection, BlockPos, HorizontalFacing};
use crate::dispatch::spec_revisions;
use crate::flags::{
    BlockFlags, FORCE_STATE, MOVED, NOTIFY_ALL, NOTIFY_LISTENERS, NOTIFY_NEIGHBORS, NO_REDRAW,
    SKIP_DROPS,
};
use crate::search::lemma_index_of_first;
use crate::tick::{has_entry, slot, ScheduledTick, TickPriority};
use crate::world::{World, WorldView};

verus! {

/// The number of steps after which a chain of actions is cut off.
pub const CHAIN_LIMIT: usize = 1000000;

/// A tick to be scheduled.
#[derive(Clone, Copy, Debug, PartialEq, Eq)]
pub struct ScheduleRequest {
    pub pos: BlockPos,
    pub block_id: u16,
    pub due_tick: u64,
    pub priority: TickPriority,
}

/// What carrying out one action does.
pub struct Effects {
    /// The cell that is written, with its new state id.
    pub write: Option<(BlockPos, u16)>,
    /// The tick that is scheduled.
    pub schedule: Option<ScheduleRequest>,
    /// The events that are reported.
    pub events: Vec<WorldEvent>,
    /// The actions that follow.
    pub actions: Vec<Action>,
}

/// What an `Effects` holds.
pub struct EffectsView {
    pub write: Option<(BlockPos, u16)>,
    pub schedule: Option<ScheduleRequest>,
    pub events: Seq<WorldEvent>,
    pub actions: Seq<Action>,
}

impl View for Effects {
    type V = EffectsView;

    open spec fn view(&self) -> EffectsView {
        EffectsView {
            write: self.write,
            schedule: self.schedule,
            events: self.events@,
            actions: self.actions@,
        }
    }
}

/// No effect at all.
pub open spec fn nothing() -> EffectsView {
    EffectsView { write: None, schedule: None, events: Seq::empty(), actions: Seq::empty() }
}

/// No effect but actions that follow.
pub open spec fn only_actions(actions: Seq<Action>) -> EffectsView {
    EffectsView { write: None, schedule: None, events: Seq::empty(), actions }
}

/// The notices to the neighbours of a position in the first `n` directions
/// of the update order, but the direction `except`.
pub open spec fn spec_notices(
    pos: BlockPos,
    source_block: u16,
    except: Option<BlockDirection>,
    n: int,
) -> Seq<Action>
    decreases n,
{
    if n <= 0 {
        Seq::empty()
    } else {
        let before = spec_notices(pos, source_block, except, n - 1);
        let direction = update_order()[n - 1];
        if except == Some(direction) {
            before
        } else {
            before.push(
                Action::NeighborUpdate {
                    pos: pos.spec_offset(direction.spec_to_offset()),
                    source_block,
                },
            )
        }
    }
}

/// The block with a numeric id, by its place in the catalog.
pub open spec fn spec_block_by_id(w: WorldView, block_id: u16) -> Option<int> {
    w.catalog.ids().index_of_first(block_id)
}

/// Writing a state: nothing where the catalog does not know the state or
/// the cell holds it already. Else the cell is written; the clients are
/// told, if the flags ask for it; and there follow, in this order: the
/// notice to the old block that its state was replaced, the notice to the
/// new block that it was placed, the notices to the six neighbours, and the
/// revision of the states of the six neighbours.
pub open spec fn spec_set_block_state(
    w: WorldView,
    pos: BlockPos,
    state_id: u16,
    flags: BlockFlags,
) -> EffectsView {
    let old = w.spec_state_id(pos);
    match w.spec_block_of(state_id) {
        None => nothing(),
        Some(nb) => if old == state_id {
            nothing()
        } else {
            let new_id = w.catalog.blocks@[nb].id;
            let old_block = w.spec_block_of(old);
            let moved = flags.spec_contains(MOVED);
            let replaced_part = match old_block {
                Some(ob) => if ob != nb && (flags.spec_contains(NOTIFY_NEIGHBORS) || moved) {
                    seq![
                        Action::StateReplaced {
                            pos,
                            block_id: w.catalog.blocks@[ob].id,
                            old_state_id: old,
                            moved,
                        },
                    ]
                } else {
                    Seq::empty()
                },
                None => Seq::empty(),
            };
            let placed_part = if old_block != Some(nb) {
                seq![
                    Action::Placed { pos, block_id: new_id, state_id, old_state_id: old, moved },
                ]
            } else {
                Seq::empty()
            };
            let notices_part = if flags.spec_contains(NOTIFY_NEIGHBORS) {
                spec_notices(pos, new_id, None, 6)
            } else {
                Seq::empty()
            };
            let revise_part = if !flags.spec_contains(FORCE_STATE) {
                seq![
                    Action::ReviseNeighbors {
                        pos,
                        flags: flags.spec_without(NOTIFY_NEIGHBORS).spec_without(SKIP_DROPS),
                    },
                ]
            } else {
                Seq::empty()
            };
            EffectsView {
                write: Some((pos, state_id)),
                schedule: None,
                events: if flags.spec_contains(NOTIFY_LISTENERS) && !flags.spec_contains(NO_REDRAW) {
                    seq![
                        WorldEvent::BlockUpdate(
                            CBlockUpdate { location: pos, block_id: state_id as i32 },
                        ),
                    ]
                } else {
                    Seq::empty()
                },
                actions: replaced_part + placed_part + notices_part + revise_part,
            }
        },
    }
}

/// Breaking a block: its loot is dropped, unless the flags say otherwise
/// or there is no block but air; then air is written.
pub open spec fn spec_break_block(w: WorldView, pos: BlockPos, flags: BlockFlags) -> EffectsView {
    let old = w.spec_state_id(pos);
    EffectsView {
        write: None,
        schedule: None,
        events: match w.spec_block_id(pos) {
            Some(id) => if !flags.spec_contains(SKIP_DROPS) && !w.spec_is_air_state(old) {
                seq![WorldEvent::DropLoot { pos, block_id: id }]
            } else {
                Seq::empty()
            },
            None => Seq::empty(),
        },
        actions: seq![
            Action::SetBlockState { pos, state_id: w.spec_default_state("air"@), flags },
        ],
    }
}

/// The game tick `delay` ticks from now; the last game tick where there are
/// not that many.
pub open spec fn spec_due(time: u64, delay: u8) -> u64 {
    if time + delay > u64::MAX {
        u64::MAX
    } else {
        (time + delay) as u64
    }
}

/// Revising the state of a block after its neighbour in a direction
/// changed: nothing for a state unknown to the catalog. Else what the
/// block's behaviour asks for, and then, where the behaviour gives another
/// state: the block is broken, if that state is air, or the state is
/// written; either way loot may drop.
pub open spec fn spec_replace(
    w: WorldView,
    pos: BlockPos,
    direction: BlockDirection,
    flags: BlockFlags,
) -> EffectsView {
    match w.spec_block(pos) {
        None => nothing(),
        Some(b) => {
            let state = w.spec_state_id(pos);
            let answer = w.registry.spec_get_state_for_neighbor_update(
                w,
                &w.catalog.blocks@[b],
                state,
                pos,
                direction,
            );
            let drop_flags = flags.spec_without(SKIP_DROPS);
            only_actions(
                answer.1 + if answer.0 == state {
                    Seq::empty()
                } else if w.spec_is_air_state(answer.0) {
                    seq![Action::BreakBlock { pos, flags: drop_flags }]
                } else {
                    seq![Action::SetBlockState { pos, state_id: answer.0, flags: drop_flags }]
                },
            )
        },
    }
}

/// Writing to a neighbour the state that a block takes for it: nothing for
/// a block that the catalog does not have or that has no behaviour.
pub open spec fn spec_post_process_one(
    w: WorldView,
    pos: BlockPos,
    block_id: u16,
    state_id: u16,
    direction: BlockDirection,
    flags: BlockFlags,
) -> EffectsView {
    match spec_block_by_id(w, block_id) {
        None => nothing(),
        Some(b) => match w.registry.spec_behavior(w.catalog.blocks@[b].name@) {
            None => nothing(),
            Some(behavior) => {
                let answer = behavior.spec_get_state_for_neighbor_update(
                    w,
                    &w.catalog.blocks@[b],
                    state_id,
                    pos,
                    direction.spec_opposite(),
                );
                only_actions(
                    answer.1 + seq![
                        Action::SetBlockState {
                            pos: pos.spec_offset(direction.spec_to_offset()),
                            state_id: answer.0,
                            flags,
                        },
                    ],
                )
            },
        },
    }
}

/// What carrying out an action does to a world.
pub open spec fn spec_effects(w: WorldView, action: Action) -> EffectsView {
    match action {
        Action::SetBlockState { pos, state_id, flags } => spec_set_block_state(
            w,
            pos,
            state_id,
            flags,
        ),
        Action::BreakBlock { pos, flags } => spec_break_block(w, pos, flags),
        Action::ScheduleBlockTick { pos, block_id, delay, priority } => EffectsView {
            schedule: Some(
                ScheduleRequest { pos, block_id, due_tick: spec_due(w.time, delay), priority },
            ),
            ..nothing()
        },
        Action::NeighborUpdate { pos, source_block } => nothing(),
        Action::UpdateNeighbors { pos, except } => match w.spec_block_id(pos) {
            Some(id) => only_actions(spec_notices(pos, id, except, 6)),
            None => nothing(),
        },
        Action::ReviseNeighbors { pos, flags } => only_actions(spec_revisions(pos, flags)),
        Action::ReplaceWithStateForNeighborUpdate { pos, direction, flags } => spec_replace(
            w,
            pos,
            direction,
            flags,
        ),
        Action::StateReplaced { pos, block_id, old_state_id, moved } => match spec_block_by_id(
            w,
            block_id,
        ) {
            Some(b) => only_actions(
                w.registry.spec_on_state_replaced(
                    w,
                    &w.catalog.blocks@[b],
                    pos,
                    old_state_id,
                    moved,
                ),
            ),
            None => nothing(),
        },
        Action::Placed { pos, block_id, state_id, old_state_id, moved } => nothing(),
        Action::PlayerPlaced { pos, block_id, state_id, face } => match spec_block_by_id(
            w,
            block_id,
        ) {
            Some(b) => only_actions(
                w.registry.spec_player_placed(w, &w.catalog.blocks@[b], state_id, pos),
            ),
            None => nothing(),
        },
        Action::ScheduledTick { pos, block_id } => match w.spec_block(pos) {
            Some(b) => if w.catalog.blocks@[b].id == block_id {
                only_actions(w.registry.spec_on_scheduled_tick(w, &w.catalog.blocks@[b], pos))
            } else {
                nothing()
            },
            None => nothing(),
        },
        Action::PlaySound { sound, pos } => EffectsView {
            events: seq![WorldEvent::Sound { sound, pos }],
            ..nothing()
        },
        Action::RandomTick { pos } => nothing(),
        Action::PostProcess { pos, block_id, state_id, direction, flags } => spec_post_process_one(
            w,
            pos,
            block_id,
            state_id,
            direction,
            flags,
        ),
    }
}

/// The queue of ticks and the next number after a request to schedule: a
/// block at a position that has a tick gets no other.
pub open spec fn spec_scheduled(
    ticks: Seq<ScheduledTick>,
    next_seq: u64,
    request: ScheduleRequest,
) -> (Seq<ScheduledTick>, u64) {
    if !has_entry(ticks, request.pos, request.block_id) && next_seq < u64::MAX {
        let tick = ScheduledTick {
            pos: request.pos,
            block_id: request.block_id,
            due_tick: request.due_tick,
            priority: request.priority,
            seq: next_seq,
        };
        (ticks.insert(slot(ticks, tick), tick), (next_seq + 1) as u64)
    } else {
        (ticks, next_seq)
    }
}

/// The world after the effects of its next action: the action is taken off,
/// and the actions that follow from it come before those that waited.
pub open spec fn spec_apply(w: WorldView, e: EffectsView) -> WorldView {
    let after = match e.schedule {
        Some(request) => spec_scheduled(w.ticks, w.next_seq, request),
        None => (w.ticks, w.next_seq),
    };
    WorldView {
        cells: match e.write {
            Some((pos, state_id)) => w.cells.insert(key_of(pos), state_id),
            None => w.cells,
        },
        ticks: after.0,
        next_seq: after.1,
        events: w.events + e.events,
        pending: e.actions + w.pending.skip(1),
        ..w
    }
}

/// The world after its next action; the world itself where none waits.
pub open spec fn spec_step(w: WorldView) -> WorldView {
    if w.pending.len() == 0 {
        w
    } else {
        spec_apply(w, spec_effects(w, w.pending[0]))
    }
}

/// The world after its actions were worked off, in at most `fuel` steps;
/// where that does not do, the actions that still wait are dropped and the
/// cut is reported.
pub open spec fn spec_run(w: WorldView, fuel: nat) -> WorldView
    decreases fuel,
{
    if w.pending.len() == 0 {
        w
    } else if fuel == 0 {
        WorldView { pending: Seq::empty(), events: w.events.push(WorldEvent::ChainAborted), ..w }
    } else {
        spec_run(spec_step(w), (fuel - 1) as nat)
    }
}

/// For each scheduled tick, whether it is due only after `now`.
pub open spec fn later(ticks: Seq<ScheduledTick>, now: u64) -> Seq<bool> {
    Seq::new(ticks.len(), |i: int| ticks[i].due_tick > now)
}

/// The number of scheduled ticks that are due at `now`.
pub open spec fn due_count(ticks: Seq<ScheduledTick>, now: u64) -> int {
    match later(ticks, now).index_of_first(true) {
        Some(k) => k,
        None => ticks.len() as int,
    }
}

/// The actions that run the given scheduled ticks.
pub open spec fn tick_actions(due: Seq<ScheduledTick>) -> Seq<Action> {
    Seq::new(
        due.len(),
        |i: int| Action::ScheduledTick { pos: due[i].pos, block_id: due[i].block_id },
    )
}

/// The world at the start of its next game tick: the ticks that are due
/// then are taken from the queue and wait to be run, in firing order,
/// behind the actions that waited already.
pub open spec fn spec_begin_tick(w: WorldView) -> WorldView {
    let now = if w.time < u64::MAX {
        (w.time + 1) as u64
    } else {
        w.time
    };
    let k = due_count(w.ticks, now);
    WorldView {
        time: now,
        ticks: w.ticks.skip(k),
        pending: w.pending + tick_actions(w.ticks.take(k)),
        ..w
    }
}

impl World {
    /// The notices to the neighbours of a position.
    fn notices(pos: BlockPos, source_block: u16, except: Option<BlockDirection>) -> (r: Vec<Action>)
        ensures
            r@ == spec_notices(pos, source_block, except, 6),
    {
        let mut actions: Vec<Action> = Vec::new();
        let directions = BlockDirection::update_order();
        let mut i: usize = 0;
        while i < 6
            invariant
                i <= 6,
                directions@ == update_order(),
                actions@ == spec_notices(pos, source_block, except, i as int),
            decreases 6 - i,
        {
            let direction = directions[i];
            let skip = match except {
                Some(d) => d == direction,
                None => false,
            };
            if !skip {
                actions.push(
                    Action::NeighborUpdate { pos: pos.offset(direction.to_offset()), source_block },
                );
            }
            i += 1;
        }
        actions
    }

    /// What writing a state does.
    fn set_block_state_effects(&self, pos: BlockPos, state_id: u16, flags: BlockFlags) -> (r:
        Effects)
        ensures
            r@ == spec_set_block_state(self@, pos, state_id, flags),
    {
        let mut r = Effects { write: None, schedule: None, events: Vec::new(), actions: Vec::new() };
        let old = self.get_block_state_id(&pos);
        proof {
            self.catalog.owners(state_id).index_of_first_ensures(true);
            self.catalog.owners(old).index_of_first_ensures(true);
        }
        let new_block = match self.catalog.locate(state_id) {
            Some(nb) => nb,
            None => {
                assert(r@ =~= nothing());
                return r;
            },
        };
        if old == state_id {
            assert(r@ =~= nothing());
            return r;
        }
        let new_id = self.catalog.blocks[new_block].id;
        let old_block = self.catalog.locate(old);
        let moved = flags.contains(MOVED);
        r.write = Some((pos, state_id));
        if flags.contains(NOTIFY_LISTENERS) && !flags.contains(NO_REDRAW) {
            r.events.push(
                WorldEvent::BlockUpdate(CBlockUpdate { location: pos, block_id: state_id as i32 }),
            );
        }
        let mut is_same = false;
        match old_block {
            Some(ob) => {
                is_same = ob == new_block;
                if ob != new_block && (flags.contains(NOTIFY_NEIGHBORS) || moved) {
                    r.actions.push(
                        Action::StateReplaced {
                            pos,
                            block_id: self.catalog.blocks[ob].id,
                            old_state_id: old,
                            moved,
                        },
                    );
                }
            },
            None => {},
        }
        let ghost replaced_part = r.actions@;
        if !is_same {
            r.actions.push(
                Action::Placed { pos, block_id: new_id, state_id, old_state_id: old, moved },
            );
        }
        let ghost placed_done = r.actions@;
        if flags.contains(NOTIFY_NEIGHBORS) {
            let mut notices = Self::notices(pos, new_id, None);
            r.actions.append(&mut notices);
        }
        let ghost notices_done = r.actions@;
        if !flags.contains(FORCE_STATE) {
            r.actions.push(
                Action::ReviseNeighbors {
                    pos,
                    flags: flags.without(NOTIFY_NEIGHBORS).without(SKIP_DROPS),
                },
            );
        }
        proof {
            let spec = spec_set_block_state(self@, pos, state_id, flags);
            assert(r@.events =~= spec.events);
            assert(r@.actions =~= spec.actions);
        }
        r
    }

    /// What breaking a block does.
    fn break_block_effects(&self, pos: BlockPos, flags: BlockFlags) -> (r: Effects)
        ensures
            r@ == spec_break_block(self@, pos, flags),
    {
        let mut r = Effects { write: None, schedule: None, events: Vec::new(), actions: Vec::new() };
        let old = self.get_block_state_id(&pos);
        match self.get_block(&pos) {
            Some(block) => {
                if !flags.contains(SKIP_DROPS) && !self.is_air_state(old) {
                    r.events.push(WorldEvent::DropLoot { pos, block_id: block.id });
                }
            },
            None => {},
        }
        r.actions.push(Action::SetBlockState { pos, state_id: self.default_state("air"), flags });
        proof {
            let spec = spec_break_block(self@, pos, flags);
            assert(r@.events =~= spec.events);
            assert(r@.actions =~= spec.actions);
        }
        r
    }

    /// What revising the state of a block does.
    fn replace_effects(&self, pos: BlockPos, direction: BlockDirection, flags: BlockFlags) -> (r:
        Effects)
        ensures
            r@ == spec_replace(self@, pos, direction, flags),
    {
        let mut r = Effects { write: None, schedule: None, events: Vec::new(), actions: Vec::new() };
        let block = match self.get_block(&pos) {
            Some(block) => block,
            None => {
                assert(r@ =~= nothing());
                return r;
            },
        };
        let state = self.get_block_state_id(&pos);
        let neighbor_pos = pos.offset(direction.to_offset());
        let neighbor_state = self.get_block_state_id(&neighbor_pos);
        let (new_state, extra) = self.registry.get_state_for_neighbor_update(
            self,
            block,
            state,
            &pos,
            direction,
            &neighbor_pos,
            neighbor_state,
        );
        r.actions = extra;
        let ghost first = r.actions@;
        if new_state != state {
            let drop_flags = flags.without(SKIP_DROPS);
            if self.is_air_state(new_state) {
                r.actions.push(Action::BreakBlock { pos, flags: drop_flags });
            } else {
                r.actions.push(
                    Action::SetBlockState { pos, state_id: new_state, flags: drop_flags },
                );
            }
        }
        proof {
            let spec = spec_replace(self@, pos, direction, flags);
            assert(r@.actions =~= spec.actions);
            assert(r@.events =~= spec.events);
        }
        r
    }

    /// What writing to a neighbour the state that a block takes for it does.
    fn post_process_effects(
        &self,
        pos: BlockPos,
        block_id: u16,
        state_id: u16,
        direction: BlockDirection,
        flags: BlockFlags,
    ) -> (r: Effects)
        ensures
            r@ == spec_post_process_one(self@, pos, block_id, state_id, direction, flags),
    {
        let mut r = Effects { write: None, schedule: None, events: Vec::new(), actions: Vec::new() };
        proof {
            self.catalog.ids().index_of_first_ensures(block_id);
        }
        let block = match self.catalog.from_id(block_id) {
            Some(block) => block,
            None => {
                assert(r@ =~= nothing());
                return r;
            },
        };
        let behavior = match self.registry.get_pumpkin_block(block) {
            Some(behavior) => behavior,
            None => {
                assert(r@ =~= nothing());
                return r;
            },
        };
        let (new_state, extra) = behavior.get_state_for_neighbor_update(
            self,
            block,
            state_id,
            &pos,
            direction.opposite(),
        );
        r.actions = extra;
        r.actions.push(
            Action::SetBlockState {
                pos: pos.offset(direction.to_offset()),
                state_id: new_state,
                flags,
            },
        );
        proof {
            let spec = spec_post_process_one(self@, pos, block_id, state_id, direction, flags);
            assert(r@.actions =~= spec.actions);
            assert(r@.events =~= spec.events);
        }
        r
    }

    /// What follows from hooks that are asked by a block's numeric id.
    fn hook_effects(&self, action: &Action) -> (r: Effects)
        requires
            action is StateReplaced || action is PlayerPlaced || action is ScheduledTick,
        ensures
            r@ == spec_effects(self@, *action),
    {
        let mut r = Effects { write: None, schedule: None, events: Vec::new(), actions: Vec::new() };
        match action {
            Action::StateReplaced { pos, block_id, old_state_id, moved } => {
                proof {
                    self.catalog.ids().index_of_first_ensures(*block_id);
                }
                match self.catalog.from_id(*block_id) {
                    Some(block) => {
                        r.actions = self.registry.on_state_replaced(
                            self,
                            block,
                            *pos,
                            *old_state_id,
                            *moved,
                        );
                    },
                    None => {},
                }
            },
            Action::PlayerPlaced { pos, block_id, state_id, face } => {
                proof {
                    self.catalog.ids().index_of_first_ensures(*block_id);
                }
                match self.catalog.from_id(*block_id) {
                    Some(block) => {
                        r.actions = self.registry.player_placed(self, block, *state_id, pos, *face);
                    },
                    None => {},
                }
            },
            Action::ScheduledTick { pos, block_id } => {
                match self.get_block(pos) {
                    Some(block) => {
                        if block.id == *block_id {
                            r.actions = self.registry.on_scheduled_tick(self, block, pos);
                        }
                    },
                    None => {},
                }
            },
            _ => {},
        }
        proof {
            let spec = spec_effects(self@, *action);
            assert(r@.actions =~= spec.actions);
            assert(r@.events =~= spec.events);
        }
        r
    }

    /// What carrying out an action does.
    pub fn effects(&self, action: &Action) -> (r: Effects)
        ensures
            r@ == spec_effects(self@, *action),
    {
        let mut r = Effects { write: None, schedule: None, events: Vec::new(), actions: Vec::new() };
        match action {
            Action::SetBlockState { pos, state_id, flags } => {
                return self.set_block_state_effects(*pos, *state_id, *flags);
            },
            Action::BreakBlock { pos, flags } => {
                return self.break_block_effects(*pos, *flags);
            },
            Action::ScheduleBlockTick { pos, block_id, delay, priority } => {
                let due_tick = if self.time > u64::MAX - (*delay as u64) {
                    u64::MAX
                } else {
                    self.time + (*delay as u64)
                };
                r.schedule = Some(
                    ScheduleRequest { pos: *pos, block_id: *block_id, due_tick, priority: *priority },
                );
                assert(r@.events =~= Seq::<WorldEvent>::empty());
                assert(r@.actions =~= Seq::<Action>::empty());
            },
            Action::NeighborUpdate { pos, source_block } => {
                assert(r@ =~= nothing());
            },
            Action::UpdateNeighbors { pos, except } => {
                match self.get_block(pos) {
                    Some(block) => {
                        r.actions = Self::notices(*pos, block.id, *except);
                        assert(r@.events =~= Seq::<WorldEvent>::empty());
                    },
                    None => {
                        assert(r@ =~= nothing());
                    },
                }
            },
            Action::ReviseNeighbors { pos, flags } => {
                r.actions = self.registry.update_neighbors(pos, *flags);
                assert(r@.events =~= Seq::<WorldEvent>::empty());
            },
            Action::ReplaceWithStateForNeighborUpdate { pos, direction, flags } => {
                return self.replace_effects(*pos, *direction, *flags);
            },
            Action::StateReplaced { .. } => {
                return self.hook_effects(action);
            },
            Action::Placed { .. } => {
                assert(r@ =~= nothing());
            },
            Action::PlayerPlaced { .. } => {
                return self.hook_effects(action);
            },
            Action::ScheduledTick { .. } => {
                return self.hook_effects(action);
            },
            Action::PlaySound { sound, pos } => {
                r.events.push(WorldEvent::Sound { sound: *sound, pos: *pos });
                assert(r@.events =~= seq![WorldEvent::Sound { sound: *sound, pos: *pos }]);
                assert(r@.actions =~= Seq::<Action>::empty());
            },
            Action::RandomTick { pos } => {
                assert(r@ =~= nothing());
            },
            Action::PostProcess { pos, block_id, state_id, direction, flags } => {
                return self.post_process_effects(*pos, *block_id, *state_id, *direction, *flags);
            },
        }
        r
    }

    /// Carries out the next action that waits. Says whether one did.
    pub fn step(&mut self) -> (ran: bool)
        requires
            old(self).well_formed(),
        ensures
            final(self).well_formed(),
            ran == (old(self)@.pending.len() > 0),
            final(self)@ == spec_step(old(self)@),
    {
        if self.pending.len() == 0 {
            return false;
        }
        let action = self.pending[0];
        let effects = self.effects(&action);
        let ghost before = self@;
        let ghost e = effects@;
        let Effects { write, schedule, events, actions } = effects;
        match write {
            Some((pos, state_id)) => {
                self.cells.set(pos, state_id);
            },
            None => {},
        }
        match schedule {
            Some(request) => {
                self.ticks.schedule(
                    request.pos,
                    request.block_id,
                    request.due_tick,
                    request.priority,
                );
            },
            None => {},
        }
        let mut events = events;
        self.events.append(&mut events);
        let mut rest = self.pending.split_off(1);
        let mut next = actions;
        next.append(&mut rest);
        self.pending = next;
        proof {
            let spec = spec_step(before);
            assert(self@.pending =~= spec.pending);
            assert(self@.events =~= spec.events);
            assert(self@.cells =~= spec.cells);
            assert(self@.ticks =~= spec.ticks);
        }
        true
    }

    /// Works off the actions that wait, in at most `budget` steps; drops
    /// what still waits after that and reports the cut.
    pub fn run(&mut self, budget: usize)
        requires
            old(self).well_formed(),
        ensures
            final(self).well_formed(),
            final(self)@ == spec_run(old(self)@, budget as nat),
            final(self)@.pending.len() == 0,
    {
        let mut left = budget;
        while self.pending.len() > 0 && left > 0
            invariant
                self.well_formed(),
                spec_run(self@, left as nat) == spec_run(old(self)@, budget as nat),
            decreases left,
        {
            self.step();
            left -= 1;
        }
        if self.pending.len() > 0 {
            self.pending.clear();
            self.events.push(WorldEvent::ChainAborted);
        }
    }

    /// Carries out an action, with all that follows from it, before the
    /// actions that wait.
    pub fn perform(&mut self, action: Action)
        requires
            old(self).well_formed(),
        ensures
            final(self).well_formed(),
            final(self)@ == spec_run(
                WorldView { pending: seq![action] + old(self)@.pending, ..old(self)@ },
                CHAIN_LIMIT as nat,
            ),
    {
        self.pending.insert(0, action);
        assert(self@.pending =~= seq![action] + old(self)@.pending);
        self.run(CHAIN_LIMIT);
    }

    /// Writes a state at a position, with the side effects that the flags
    /// ask for, and gives the state id that the cell held before.
    pub fn set_block_state(&mut self, pos: &BlockPos, state_id: u16, flags: BlockFlags) -> (old_id:
        u16)
        requires
            old(self).well_formed(),
        ensures
            final(self).well_formed(),
            old_id == old(self)@.spec_state_id(*pos),
            final(self)@ == spec_run(
                WorldView {
                    pending: seq![Action::SetBlockState { pos: *pos, state_id, flags }] + old(
                        self,
                    )@.pending,
                    ..old(self)@
                },
                CHAIN_LIMIT as nat,
            ),
    {
        let old_id = self.get_block_state_id(pos);
        self.perform(Action::SetBlockState { pos: *pos, state_id, flags });
        old_id
    }

    /// Removes the block at a position.
    pub fn break_block(&mut self, pos: &BlockPos, flags: BlockFlags)
        requires
            old(self).well_formed(),
        ensures
            final(self).well_formed(),
            final(self)@ == spec_run(
                WorldView {
                    pending: seq![Action::BreakBlock { pos: *pos, flags }] + old(self)@.pending,
                    ..old(self)@
                },
                CHAIN_LIMIT as nat,
            ),
    {
        self.perform(Action::BreakBlock { pos: *pos, flags });
    }

    /// Schedules a tick for a block at a position, `delay` game ticks from
    /// now.
    pub fn schedule_block_tick(
        &mut self,
        block: &OptimizedBlock,
        pos: BlockPos,
        delay: u8,
        priority: TickPriority,
    )
        requires
            old(self).well_formed(),
        ensures
            final(self).well_formed(),
            final(self)@ == spec_run(
                WorldView {
                    pending: seq![
                        Action::ScheduleBlockTick { pos, block_id: block.id, delay, priority },
                    ] + old(self)@.pending,
                    ..old(self)@
                },
                CHAIN_LIMIT as nat,
            ),
    {
        self.perform(Action::ScheduleBlockTick { pos, block_id: block.id, delay, priority });
    }

    /// Tells the block at a position that a neighbour changed.
    pub fn update_neighbor(&mut self, pos: &BlockPos, source_block: &OptimizedBlock)
        requires
            old(self).well_formed(),
        ensures
            final(self).well_formed(),
            final(self)@ == spec_run(
                WorldView {
                    pending: seq![
                        Action::NeighborUpdate { pos: *pos, source_block: source_block.id },
                    ] + old(self)@.pending,
                    ..old(self)@
                },
                CHAIN_LIMIT as nat,
            ),
    {
        self.perform(Action::NeighborUpdate { pos: *pos, source_block: source_block.id });
    }

    /// Tells the neighbours of a position, but the one in direction
    /// `except`, that the block at the position changed.
    pub fn update_neighbors(&mut self, pos: &BlockPos, except: Option<BlockDirection>)
        requires
            old(self).well_formed(),
        ensures
            final(self).well_formed(),
            final(self)@ == spec_run(
                WorldView {
                    pending: seq![Action::UpdateNeighbors { pos: *pos, except }] + old(
                        self,
                    )@.pending,
                    ..old(self)@
                },
                CHAIN_LIMIT as nat,
            ),
    {
        self.perform(Action::UpdateNeighbors { pos: *pos, except });
    }

    /// Lets the block at a position revise its state after its neighbour in
    /// a direction changed.
    pub fn replace_with_state_for_neighbor_update(
        &mut self,
        pos: &BlockPos,
        direction: BlockDirection,
        flags: BlockFlags,
    )
        requires
            old(self).well_formed(),
        ensures
            final(self).well_formed(),
            final(self)@ == spec_run(
                WorldView {
                    pending: seq![
                        Action::ReplaceWithStateForNeighborUpdate { pos: *pos, direction, flags },
                    ] + old(self)@.pending,
                    ..old(self)@
                },
                CHAIN_LIMIT as nat,
            ),
    {
        self.perform(Action::ReplaceWithStateForNeighborUpdate { pos: *pos, direction, flags });
    }

    /// Gives the block at a position a random tick.
    pub fn random_tick(&mut self, pos: &BlockPos)
        requires
            old(self).well_formed(),
        ensures
            final(self).well_formed(),
            final(self)@ == spec_run(
                WorldView {
                    pending: seq![Action::RandomTick { pos: *pos }] + old(self)@.pending,
                    ..old(self)@
                },
                CHAIN_LIMIT as nat,
            ),
    {
        self.perform(Action::RandomTick { pos: *pos });
    }

    /// The state that a block would start with at a position, where it can
    /// be placed there against the side `face`.
    pub open spec fn spec_placement(
        w: WorldView,
        block: &OptimizedBlock,
        pos: BlockPos,
        face: BlockDirection,
        player_facing: HorizontalFacing,
    ) -> Option<u16> {
        if w.registry.spec_can_place_at(w, block, pos, face) {
            Some(w.registry.spec_on_place(w, block, pos, face, player_facing))
        } else {
            None
        }
    }

    /// A player places a block at a position, against the side `face`:
    /// where the block can be there, its starting state is written, with
    /// notices to all, and the block is told that a player placed it. Says
    /// whether the block was placed.
    pub fn place_block(
        &mut self,
        block_id: u16,
        pos: &BlockPos,
        face: BlockDirection,
        player_facing: HorizontalFacing,
    ) -> (placed: bool)
        requires
            old(self).well_formed(),
        ensures
            final(self).well_formed(),
            match spec_block_by_id(old(self)@, block_id) {
                None => !placed && final(self)@ == old(self)@,
                Some(b) => match Self::spec_placement(
                    old(self)@,
                    &old(self).catalog.blocks@[b],
                    *pos,
                    face,
                    player_facing,
                ) {
                    None => !placed && final(self)@ == old(self)@,
                    Some(state_id) => placed && final(self)@ == spec_run(
                        WorldView {
                            pending: seq![
                                Action::SetBlockState {
                                    pos: *pos,
                                    state_id,
                                    flags: BlockFlags { bits: NOTIFY_ALL },
                                },
                                Action::PlayerPlaced { pos: *pos, block_id, state_id, face },
                            ] + old(self)@.pending,
                            ..old(self)@
                        },
                        CHAIN_LIMIT as nat,
                    ),
                },
            },
    {
        proof {
            self.catalog.ids().index_of_first_ensures(block_id);
        }
        let state_id = match self.catalog.from_id(block_id) {
            Some(block) => {
                if !self.registry.can_place_at(self, block, pos, face) {
                    return false;
                }
                self.registry.on_place(self, block, pos, face, player_facing)
            },
            None => {
                return false;
            },
        };
        self.pending.insert(0, Action::PlayerPlaced { pos: *pos, block_id, state_id, face });
        self.pending.insert(
            0,
            Action::SetBlockState { pos: *pos, state_id, flags: BlockFlags::notify_all() },
        );
        assert(self@.pending =~= seq![
            Action::SetBlockState { pos: *pos, state_id, flags: BlockFlags { bits: NOTIFY_ALL } },
            Action::PlayerPlaced { pos: *pos, block_id, state_id, face },
        ] + old(self)@.pending);
        self.run(CHAIN_LIMIT);
        true
    }

    /// Goes on to the next game tick: the scheduled ticks that are due are
    /// run, in firing order, each for the block that it was scheduled for,
    /// if that block still stands at the position.
    pub fn tick(&mut self)
        requires
            old(self).well_formed(),
        ensures
            final(self).well_formed(),
            final(self)@ == spec_run(spec_begin_tick(old(self)@), CHAIN_LIMIT as nat),
    {
        if self.time < u64::MAX {
            self.time = self.time + 1;
        }
        let ghost before = self.ticks.entries@;
        let now = self.time;
        let due = self.ticks.drain(now);
        proof {
            let k = due@.len() as int;
            assert(due@ =~= before.take(k)) by {
                assert forall|i: int| 0 <= i < k implies due@[i] == before[i] by {
                    assert((due@ + self.ticks.entries@)[i] == before[i]);
                }
            }
            assert(self.ticks.entries@ =~= before.skip(k)) by {
                assert forall|i: int| 0 <= i < self.ticks.entries@.len() implies self.ticks.entries@[i]
                    == before[k + i] by {
                    assert((due@ + self.ticks.entries@)[k + i] == before[k + i]);
                }
            }
            assert forall|j: int| 0 <= j < k implies later(before, now)[j] != true by {
                assert(before[j] == due@[j]);
            }
            if k < before.len() {
                assert(before[k] == self.ticks.entries@[0]);
            }
            lemma_index_of_first(later(before, now), true, k);
            assert(due_count(before, now) == k);
        }
        let mut i: usize = 0;
        let ghost waiting = self.pending@;
        while i < due.len()
            invariant
                i <= due.len(),
                self.well_formed(),
                self.pending@ == waiting + tick_actions(due@).take(i as int),
                self.time == now,
                self.ticks.entries@ == before.skip(due@.len() as int),
                self@.catalog == old(self)@.catalog,
                self@.tags == old(self)@.tags,
                self@.registry == old(self)@.registry,
                self@.cells == old(self)@.cells,
                self@.fill == old(self)@.fill,
                self@.next_seq == old(self)@.next_seq,
                self@.events == old(self)@.events,
            decreases due.len() - i,
        {
            self.pending.push(Action::ScheduledTick { pos: due[i].pos, block_id: due[i].block_id });
            proof {
                assert(tick_actions(due@).take(i + 1) =~= tick_actions(due@).take(i as int).push(
                    tick_actions(due@)[i as int],
                ));
            }
            i += 1;
        }
        proof {
            assert(tick_actions(due@).take(i as int) =~= tick_actions(due@));
            assert(self@ == spec_begin_tick(old(self)@));
        }
        self.run(CHAIN_LIMIT);
    }
}

/// The notices to changed neighbours among a list of actions, in order.
pub open spec fn notices_of(actions: Seq<Action>) -> Seq<Action>
    decreases actions.len(),
{
    if actions.len() == 0 {
        Seq::empty()
    } else {
        let before = notices_of(actions.drop_last());
        if actions.last() is NeighborUpdate {
            before.push(actions.last())
        } else {
            before
        }
    }
}

/// The notices among two lists of actions, one after the other, are the
/// notices among the first and then those among the second.
pub proof fn lemma_notices_of_add(a: Seq<Action>, b: Seq<Action>)
    ensures
        notices_of(a + b) == notices_of(a) + notices_of(b),
    decreases b.len(),
{
    if b.len() == 0 {
        assert(a + b =~= a);
        assert(notices_of(a) + notices_of(b) =~= notices_of(a));
    } else {
        lemma_notices_of_add(a, b.drop_last());
        assert((a + b).drop_last() =~= a + b.drop_last());
        assert((a + b).last() == b.last());
        if b.last() is NeighborUpdate {
            assert(notices_of(a) + notices_of(b.drop_last()).push(b.last()) =~= (notices_of(a)
                + notices_of(b.drop_last())).push(b.last()));
        }
    }
}

/// The notices to the neighbours of a position are nothing but notices.
pub proof fn lemma_notices_are_notices(
    pos: BlockPos,
    source_block: u16,
    except: Option<BlockDirection>,
    n: int,
)
    ensures
        notices_of(spec_notices(pos, source_block, except, n)) == spec_notices(
            pos,
            source_block,
            except,
            n,
        ),
    decreases n,
{
    if n > 0 {
        lemma_notices_are_notices(pos, source_block, except, n - 1);
        let before = spec_notices(pos, source_block, except, n - 1);
        let direction = update_order()[n - 1];
        if except != Some(direction) {
            let all = spec_notices(pos, source_block, except, n);
            assert(all.drop_last() =~= before);
        }
    }
}

/// Telling the neighbours of a position tells each of the six neighbours
/// once, in the order west, east, down, up, north, south: six cells, each
/// another than the position and than the other five.
pub proof fn law_notices_visit_each_neighbour_once(pos: BlockPos, source_block: u16)
    ensures
        spec_notices(pos, source_block, None, 6) == Seq::new(
            6,
            |i: int|
                Action::NeighborUpdate {
                    pos: pos.spec_offset(update_order()[i].spec_to_offset()),
                    source_block,
                },
        ),
        forall|i: int|
            0 <= i < 6 ==> pos.spec_offset((#[trigger] update_order()[i]).spec_to_offset()) != pos,
        forall|i: int, j: int|
            0 <= i < j < 6 ==> pos.spec_offset((#[trigger] update_order()[i]).spec_to_offset())
                != pos.spec_offset((#[trigger] update_order()[j]).spec_to_offset()),
{
    let six = Seq::new(
        6,
        |i: int|
            Action::NeighborUpdate {
                pos: pos.spec_offset(update_order()[i].spec_to_offset()),
                source_block,
            },
    );
    assert(spec_notices(pos, source_block, None, 0) =~= six.take(0));
    assert(spec_notices(pos, source_block, None, 1) =~= six.take(1));
    assert(spec_notices(pos, source_block, None, 2) =~= six.take(2));
    assert(spec_notices(pos, source_block, None, 3) =~= six.take(3));
    assert(spec_notices(pos, source_block, None, 4) =~= six.take(4));
    assert(spec_notices(pos, source_block, None, 5) =~= six.take(5));
    assert(spec_notices(pos, source_block, None, 6) =~= six.take(6));
    assert(six.take(6) =~= six);
    assert forall|i: int, j: int| 0 <= i < j < 6 implies pos.spec_offset(
        (#[trigger] update_order()[i]).spec_to_offset(),
    ) != pos.spec_offset((#[trigger] update_order()[j]).spec_to_offset()) by {
        crate::direction::law_update_orders_complete(update_order()[i]);
        crate::direction::law_neighbours_distinct(pos, update_order()[i], update_order()[j]);
    }
    assert forall|i: int| 0 <= i < 6 implies pos.spec_offset(
        (#[trigger] update_order()[i]).spec_to_offset(),
    ) != pos by {
        crate::direction::law_neighbours_distinct(pos, update_order()[i], update_order()[i]);
    }
}

/// A write with the flag to tell the neighbours, of a state that the
/// catalog knows and the cell does not hold, writes the cell, and the
/// notices that follow from it are those to its six neighbours, each once,
/// in the order of updates.
pub proof fn law_write_notifies_neighbours(
    w: WorldView,
    pos: BlockPos,
    state_id: u16,
    flags: BlockFlags,
)
    requires
        flags.spec_contains(NOTIFY_NEIGHBORS),
        w.spec_block_of(state_id) is Some,
        w.spec_state_id(pos) != state_id,
    ensures
        spec_set_block_state(w, pos, state_id, flags).write == Some((pos, state_id)),
        notices_of(spec_set_block_state(w, pos, state_id, flags).actions) == Seq::new(
            6,
            |i: int|
                Action::NeighborUpdate {
                    pos: pos.spec_offset(update_order()[i].spec_to_offset()),
                    source_block: w.catalog.blocks@[w.spec_block_of(state_id)->Some_0].id,
                },
        ),
{
    let nb = w.spec_block_of(state_id)->Some_0;
    let new_id = w.catalog.blocks@[nb].id;
    let old = w.spec_state_id(pos);
    let old_block = w.spec_block_of(old);
    let moved = flags.spec_contains(MOVED);
    let replaced_part = match old_block {
        Some(ob) => if ob != nb && (flags.spec_contains(NOTIFY_NEIGHBORS) || moved) {
            seq![
                Action::StateReplaced {
                    pos,
                    block_id: w.catalog.blocks@[ob].id,
                    old_state_id: old,
                    moved,
                },
            ]
        } else {
            Seq::empty()
        },
        None => Seq::empty(),
    };
    let placed_part = if old_block != Some(nb) {
        seq![Action::Placed { pos, block_id: new_id, state_id, old_state_id: old, moved }]
    } else {
        Seq::empty()
    };
    let notices_part = spec_notices(pos, new_id, None, 6);
    let revise_part = if !flags.spec_contains(FORCE_STATE) {
        seq![
            Action::ReviseNeighbors {
                pos,
                flags: flags.spec_without(NOTIFY_NEIGHBORS).spec_without(SKIP_DROPS),
            },
        ]
    } else {
        Seq::empty()
    };
    let e = spec_set_block_state(w, pos, state_id, flags);
    assert(e.actions == replaced_part + placed_part + notices_part + revise_part);
    lemma_notices_of_add(replaced_part + placed_part + notices_part, revise_part);
    lemma_notices_of_add(replaced_part + placed_part, notices_part);
    lemma_notices_of_add(replaced_part, placed_part);
    lemma_notices_are_notices(pos, new_id, None, 6);
    assert(notices_of(Seq::<Action>::empty()) =~= Seq::<Action>::empty());
    assert(notices_of(replaced_part) =~= Seq::<Action>::empty()) by {
        if replaced_part.len() > 0 {
            assert(replaced_part.drop_last() =~= Seq::<Action>::empty());
        }
    }
    assert(notices_of(placed_part) =~= Seq::<Action>::empty()) by {
        if placed_part.len() > 0 {
            assert(placed_part.drop_last() =~= Seq::<Action>::empty());
        }
    }
    assert(notices_of(revise_part) =~= Seq::<Action>::empty()) by {
        if revise_part.len() > 0 {
            assert(revise_part.drop_last() =~= Seq::<Action>::empty());
        }
    }
    assert(notices_of(e.actions) =~= notices_part);
    law_notices_visit_each_neighbour_once(pos, new_id);
}

/// A write is done before anything is told of it: after the step that
/// carries out a write, the cell holds the new state, every other cell is as
/// it was, and what follows from the write waits, before all that waited
/// already.
pub proof fn law_written_before_told(
    w: WorldView,
    pos: BlockPos,
    state_id: u16,
    flags: BlockFlags,
    q: BlockPos,
)
    requires
        w.pending.len() > 0,
        w.pending[0] == (Action::SetBlockState { pos, state_id, flags }),
        w.spec_block_of(state_id) is Some,
        w.spec_state_id(pos) != state_id,
    ensures
        spec_step(w).spec_state_id(pos) == state_id,
        q != pos ==> spec_step(w).spec_state_id(q) == w.spec_state_id(q),
        spec_step(w).pending == spec_set_block_state(w, pos, state_id, flags).actions
            + w.pending.skip(1),
{
    crate::cells::law_write_one_cell(w.cells, w.fill, pos, state_id, pos);
    crate::cells::law_write_one_cell(w.cells, w.fill, pos, state_id, q);
}

/// Every cell that was written holds a state of a block of the catalog.
pub open spec fn cells_known(w: WorldView) -> bool {
    forall|k: u128| w.cells.contains_key(k) ==> w.spec_block_of(#[trigger] w.cells[k]) is Some
}

/// No action writes a state that the catalog does not know, and none
/// changes the catalog, the tags or the behaviours.
pub proof fn law_step_keeps_cells_known(w: WorldView)
    requires
        cells_known(w),
    ensures
        cells_known(spec_step(w)),
        spec_step(w).catalog == w.catalog,
        spec_step(w).tags == w.tags,
        spec_step(w).registry == w.registry,
        spec_step(w).fill == w.fill,
{
    if w.pending.len() > 0 {
        let e = spec_effects(w, w.pending[0]);
        let after = spec_step(w);
        assert(e.write matches Some((pos, id)) ==> w.spec_block_of(id) is Some);
        assert forall|k: u128| after.cells.contains_key(k) implies after.spec_block_of(
            #[trigger] after.cells[k],
        ) is Some by {
            if w.cells.contains_key(k) {
                assert(w.spec_block_of(w.cells[k]) is Some);
            }
        }
    }
}

/// Working off the actions writes no state that the catalog does not know.
pub proof fn law_run_keeps_cells_known(w: WorldView, fuel: nat)
    requires
        cells_known(w),
    ensures
        cells_known(spec_run(w, fuel)),
        spec_run(w, fuel).catalog == w.catalog,
    decreases fuel,
{
    if w.pending.len() > 0 && fuel > 0 {
        law_step_keeps_cells_known(w);
        law_run_keeps_cells_known(spec_step(w), (fuel - 1) as nat);
    }
}

/// Working off the actions leaves none waiting.
pub proof fn law_run_leaves_nothing(w: WorldView, fuel: nat)
    ensures
        spec_run(w, fuel).pending.len() == 0,
    decreases fuel,
{
    if w.pending.len() > 0 && fuel > 0 {
        law_run_leaves_nothing(spec_step(w), (fuel - 1) as nat);
    }
}

/// The scheduled ticks that a game tick runs are those that are due, in
/// firing order, and the ticks that stay are due later.
pub proof fn law_due_ticks_fire_in_order(ticks: Seq<ScheduledTick>, now: u64)
    requires
        crate::tick::sorted(ticks),
    ensures
        0 <= due_count(ticks, now) <= ticks.len(),
        crate::tick::sorted(ticks.take(due_count(ticks, now))),
        forall|i: int| 0 <= i < due_count(ticks, now) ==> (#[trigger] ticks[i]).due_tick <= now,
        forall|i: int|
            due_count(ticks, now) <= i < ticks.len() ==> (#[trigger] ticks[i]).due_tick > now,
{
    let flags = later(ticks, now);
    flags.index_of_first_ensures(true);
    let k = due_count(ticks, now);
    assert forall|i: int| 0 <= i < k implies (#[trigger] ticks[i]).due_tick <= now by {
        assert(flags[i] != true);
    }
    assert forall|i: int| k <= i < ticks.len() implies (#[trigger] ticks[i]).due_tick > now by {
        match flags.index_of_first(true) {
            Some(f) => {
                assert(flags[f] == true);
                if i > f {
                    assert(ticks[f].before(ticks[i]));
                }
            },
            None => {},
        }
    }
    assert forall|i: int, j: int| 0 <= i < j < k implies (#[trigger] ticks.take(k)[i]).before(
        #[trigger] ticks.take(k)[j],
    ) by {
        assert(ticks[i].before(ticks[j]));
    }
}

} // verus!
