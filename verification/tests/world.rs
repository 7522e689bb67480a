use pumpkin_blocks::action::{Action, CBlockUpdate, Sound, WorldEvent};
use pumpkin_blocks::block::{Block, BlockAssets, BlockState, PistonBehavior};
use pumpkin_blocks::builder::build;
use pumpkin_blocks::direction::{BlockDirection, BlockPos, HorizontalFacing};
use pumpkin_blocks::engine::CHAIN_LIMIT;
use pumpkin_blocks::flags::{
    BlockFlags, FORCE_STATE, NOTIFY_ALL, NOTIFY_LISTENERS, NOTIFY_NEIGHBORS, NO_REDRAW, SKIP_DROPS,
};
use pumpkin_blocks::property::{GeneratedProperty, GeneratedPropertyType};
use pumpkin_blocks::registry::{default_registry, Behavior, BlockRegistry};
use pumpkin_blocks::tags::TagTable;
use pumpkin_blocks::tick::TickPriority;
use pumpkin_blocks::tripwire_hook::{TripwireHookBlock, NO_WIRE};
use pumpkin_blocks::typed::{
    from_state_id, to_state_id, TripwireHookLikeProperties, TripwireLikeProperties,
};
use pumpkin_blocks::world::World;

const AIR: u16 = 0;
const STONE: u16 = 1;
const DIRT: u16 = 2;
const FARMLAND: u16 = 3;
const SOUL_SAND: u16 = 11;
const SOUL_FIRE: u16 = 12;
const BUSH: u16 = 13;
const WIRE: u16 = 14;
const HOOK: u16 = 142;

fn state(id: u16, state_flags: u8, side_flags: u8) -> BlockState {
    BlockState {
        id,
        state_flags,
        side_flags,
        instrument: "harp".to_string(),
        luminance: 0,
        piston_behavior: PistonBehavior::Normal,
        hardness: 0,
        collision_shapes: vec![],
        outline_shapes: vec![],
        opacity: None,
        block_entity_type: None,
    }
}

fn block(
    id: u16,
    name: &str,
    properties: Vec<i32>,
    first: u16,
    count: u16,
    state_flags: u8,
    side_flags: u8,
) -> Block {
    Block {
        id,
        name: name.to_string(),
        translation_key: format!("block.minecraft.{name}"),
        hardness: 0,
        blast_resistance: 0,
        item_id: id,
        loot_table: None,
        slipperiness: 0,
        velocity_multiplier: 0,
        jump_velocity_multiplier: 0,
        properties,
        default_state_id: first,
        states: (0..count).map(|i| state(first + i, state_flags, side_flags)).collect(),
        experience: None,
    }
}

fn boolean(hash_key: i32, name: &str) -> GeneratedProperty {
    GeneratedProperty {
        hash_key,
        enum_name: name.to_string(),
        serialized_name: name.to_string(),
        property_type: GeneratedPropertyType::Boolean,
    }
}

fn table() -> Vec<GeneratedProperty> {
    vec![
        GeneratedProperty {
            hash_key: 1,
            enum_name: "horizontal_facing".to_string(),
            serialized_name: "facing".to_string(),
            property_type: GeneratedPropertyType::Enum {
                values: vec![
                    "north".to_string(),
                    "south".to_string(),
                    "west".to_string(),
                    "east".to_string(),
                ],
            },
        },
        boolean(2, "powered"),
        boolean(3, "attached"),
        GeneratedProperty {
            hash_key: 4,
            enum_name: "moisture".to_string(),
            serialized_name: "moisture".to_string(),
            property_type: GeneratedPropertyType::Int { min: 0, max: 7 },
        },
        boolean(5, "disarmed"),
        boolean(6, "east"),
        boolean(7, "north"),
        boolean(8, "south"),
        boolean(9, "west"),
    ]
}

fn assets() -> BlockAssets {
    BlockAssets {
        blocks: vec![
            block(0, "air", vec![], AIR, 1, 1, 0),
            block(1, "stone", vec![], STONE, 1, 64, 63),
            block(2, "dirt", vec![], DIRT, 1, 64, 63),
            block(3, "farmland", vec![4], FARMLAND, 8, 64, 63),
            block(4, "soul_sand", vec![], SOUL_SAND, 1, 64, 63),
            block(5, "soul_fire", vec![], SOUL_FIRE, 1, 0, 0),
            block(6, "bush", vec![], BUSH, 1, 0, 0),
            block(7, "tripwire", vec![3, 5, 6, 7, 2, 8, 9], WIRE, 128, 0, 0),
            block(8, "tripwire_hook", vec![1, 2, 3], HOOK, 16, 0, 0),
        ],
        shapes: vec![],
        block_entity_types: vec![],
    }
}

fn tags() -> TagTable {
    let mut tags = TagTable::new();
    tags.insert("minecraft:dirt".to_string(), vec![2]);
    tags.insert("minecraft:soul_fire_base_blocks".to_string(), vec![4]);
    tags
}

fn world() -> World {
    World::new(build(&assets(), &table()), tags(), default_registry())
}

fn quiet() -> BlockFlags {
    BlockFlags::new(FORCE_STATE)
}

fn at(x: i32, y: i32, z: i32) -> BlockPos {
    BlockPos::new(x, y, z)
}

fn hook_state(w: &World, facing: HorizontalFacing, powered: bool, attached: bool) -> u16 {
    let hook = w.catalog.from_registry_key("tripwire_hook").unwrap();
    to_state_id(&TripwireHookLikeProperties { facing, powered, attached }, hook)
}

fn wire_state(w: &World, powered: bool, attached: bool) -> u16 {
    let wire = w.catalog.from_registry_key("tripwire").unwrap();
    to_state_id(
        &TripwireLikeProperties {
            attached,
            disarmed: false,
            east: false,
            north: false,
            powered,
            south: false,
            west: false,
        },
        wire,
    )
}

fn hook_at(w: &World, pos: BlockPos) -> TripwireHookLikeProperties {
    let hook = w.catalog.from_registry_key("tripwire_hook").unwrap();
    from_state_id(w.get_block_state_id(&pos), hook)
}

fn wire_at(w: &World, pos: BlockPos) -> TripwireLikeProperties {
    let wire = w.catalog.from_registry_key("tripwire").unwrap();
    from_state_id(w.get_block_state_id(&pos), wire)
}

#[test]
fn new_world_is_air() {
    let w = world();
    assert_eq!(w.get_block_state_id(&at(3, -7, 100)), AIR);
    assert_eq!(w.get_block(&at(0, 0, 0)).unwrap().name, "air");
    assert!(!w.is_solid(&at(0, 0, 0)));
    assert!(w.is_air_state(AIR));
    assert!(!w.is_air_state(STONE));
    assert_eq!(w.default_state("dirt"), DIRT);
    assert_eq!(w.default_state("nothing"), AIR);
    assert_eq!(w.time, 0);
}

#[test]
fn set_block_state_gives_the_old_state() {
    let mut w = world();
    assert_eq!(w.set_block_state(&at(1, 2, 3), STONE, quiet()), AIR);
    assert_eq!(w.set_block_state(&at(1, 2, 3), DIRT, quiet()), STONE);
    assert_eq!(w.get_block_state_id(&at(1, 2, 3)), DIRT);
    assert_eq!(w.get_block_state_id(&at(1, 2, 4)), AIR);
    assert_eq!(w.get_block_state_id(&at(-1, 2, 3)), AIR);
    assert!(w.is_solid(&at(1, 2, 3)));
    assert!(w.is_side_solid(&at(1, 2, 3), BlockDirection::West));
}

#[test]
fn unknown_state_is_not_written() {
    let mut w = world();
    w.set_block_state(&at(0, 0, 0), 9999, BlockFlags::notify_all());
    assert_eq!(w.get_block_state_id(&at(0, 0, 0)), AIR);
    assert!(w.events.is_empty());
}

#[test]
fn notify_neighbors_visits_six_neighbours_in_order() {
    let w = world();
    let pos = at(10, 20, 30);
    let effects = w.effects(&Action::SetBlockState {
        pos,
        state_id: STONE,
        flags: BlockFlags::new(NOTIFY_NEIGHBORS | FORCE_STATE),
    });
    assert_eq!(effects.write, Some((pos, STONE)));
    let notices: Vec<Action> = effects
        .actions
        .iter()
        .copied()
        .filter(|a| matches!(a, Action::NeighborUpdate { .. }))
        .collect();
    assert_eq!(
        notices,
        vec![
            Action::NeighborUpdate { pos: at(9, 20, 30), source_block: 1 },
            Action::NeighborUpdate { pos: at(11, 20, 30), source_block: 1 },
            Action::NeighborUpdate { pos: at(10, 19, 30), source_block: 1 },
            Action::NeighborUpdate { pos: at(10, 21, 30), source_block: 1 },
            Action::NeighborUpdate { pos: at(10, 20, 29), source_block: 1 },
            Action::NeighborUpdate { pos: at(10, 20, 31), source_block: 1 },
        ]
    );
}

#[test]
fn set_block_state_side_effects_follow_the_flags() {
    let w = world();
    let pos = at(0, 0, 0);
    let all = w.effects(&Action::SetBlockState {
        pos,
        state_id: STONE,
        flags: BlockFlags::notify_all(),
    });
    assert_eq!(
        all.events,
        vec![WorldEvent::BlockUpdate(CBlockUpdate { location: pos, block_id: 1 })]
    );
    // air is replaced by stone: the old block is told, the new block is told,
    // six notices, one revision.
    assert_eq!(all.actions.len(), 9);
    assert_eq!(
        all.actions[0],
        Action::StateReplaced { pos, block_id: 0, old_state_id: AIR, moved: false }
    );
    assert_eq!(
        all.actions[1],
        Action::Placed { pos, block_id: 1, state_id: STONE, old_state_id: AIR, moved: false }
    );
    assert_eq!(
        all.actions[8],
        Action::ReviseNeighbors { pos, flags: BlockFlags::new(NOTIFY_LISTENERS) }
    );
    let silent = w.effects(&Action::SetBlockState {
        pos,
        state_id: STONE,
        flags: BlockFlags::new(NOTIFY_LISTENERS | NO_REDRAW | FORCE_STATE),
    });
    assert!(silent.events.is_empty());
    assert_eq!(
        silent.actions,
        vec![Action::Placed { pos, block_id: 1, state_id: STONE, old_state_id: AIR, moved: false }]
    );
    let same = w.effects(&Action::SetBlockState {
        pos,
        state_id: AIR,
        flags: BlockFlags::notify_all(),
    });
    assert_eq!(same.write, None);
    assert!(same.actions.is_empty());
}

#[test]
fn revision_visits_six_neighbours_in_order() {
    let w = world();
    let flags = BlockFlags::new(NOTIFY_LISTENERS);
    let effects = w.effects(&Action::ReviseNeighbors { pos: at(0, 0, 0), flags });
    let expected: Vec<Action> = [
        (at(-1, 0, 0), BlockDirection::East),
        (at(1, 0, 0), BlockDirection::West),
        (at(0, 0, -1), BlockDirection::South),
        (at(0, 0, 1), BlockDirection::North),
        (at(0, -1, 0), BlockDirection::Up),
        (at(0, 1, 0), BlockDirection::Down),
    ]
    .iter()
    .map(|(pos, direction)| Action::ReplaceWithStateForNeighborUpdate {
        pos: *pos,
        direction: *direction,
        flags,
    })
    .collect();
    assert_eq!(effects.actions, expected);
}

#[test]
fn update_neighbors_leaves_out_one_direction() {
    let mut w = world();
    w.set_block_state(&at(0, 0, 0), STONE, quiet());
    let effects = w.effects(&Action::UpdateNeighbors {
        pos: at(0, 0, 0),
        except: Some(BlockDirection::Up),
    });
    assert_eq!(effects.actions.len(), 5);
    assert!(!effects
        .actions
        .contains(&Action::NeighborUpdate { pos: at(0, 1, 0), source_block: 1 }));
    assert_eq!(effects.actions[0], Action::NeighborUpdate { pos: at(-1, 0, 0), source_block: 1 });
}

#[test]
fn farmland_under_a_solid_block_turns_to_dirt() {
    let mut w = world();
    w.set_block_state(&at(0, 0, 0), FARMLAND, quiet());
    w.set_block_state(&at(0, 1, 0), STONE, BlockFlags::notify_all());
    assert_eq!(w.get_block_state_id(&at(0, 0, 0)), FARMLAND);
    assert_eq!(w.ticks.len(), 1);
    assert_eq!(w.ticks.entries[0].pos, at(0, 0, 0));
    assert_eq!(w.ticks.entries[0].block_id, 3);
    assert_eq!(w.ticks.entries[0].due_tick, 1);
    assert_eq!(w.ticks.entries[0].priority, TickPriority::Normal);
    w.tick();
    assert_eq!(w.time, 1);
    assert_eq!(w.get_block_state_id(&at(0, 0, 0)), DIRT);
    assert_eq!(w.ticks.len(), 0);
    assert!(w.pending.is_empty());
}

#[test]
fn farmland_placed_under_a_solid_block_is_dirt() {
    let mut w = world();
    w.set_block_state(&at(0, 1, 0), STONE, quiet());
    assert!(!w.place_block(3, &at(0, 0, 0), BlockDirection::Up, HorizontalFacing::North));
    assert_eq!(w.get_block_state_id(&at(0, 0, 0)), AIR);
    let farmland = w.catalog.from_id(3).unwrap();
    let up = BlockDirection::Up;
    let north = HorizontalFacing::North;
    assert_eq!(w.registry.on_place(&w, farmland, &at(0, 0, 0), up, north), DIRT);
    assert_eq!(w.registry.on_place(&w, farmland, &at(5, 0, 0), up, north), FARMLAND);
    assert!(w.place_block(3, &at(5, 0, 0), BlockDirection::Up, HorizontalFacing::North));
    assert_eq!(w.get_block_state_id(&at(5, 0, 0)), FARMLAND);
    assert!(!w.place_block(77, &at(6, 0, 0), BlockDirection::Up, HorizontalFacing::North));
}

#[test]
fn stale_scheduled_tick_is_dropped() {
    let mut w = world();
    w.set_block_state(&at(0, 0, 0), FARMLAND, quiet());
    let farmland = build(&assets(), &table());
    let block = farmland.from_id(3).unwrap();
    w.schedule_block_tick(block, at(0, 0, 0), 2, TickPriority::Normal);
    w.schedule_block_tick(block, at(0, 0, 0), 5, TickPriority::High);
    assert_eq!(w.ticks.len(), 1);
    assert_eq!(w.ticks.entries[0].due_tick, 2);
    w.set_block_state(&at(0, 0, 0), STONE, quiet());
    w.tick();
    assert_eq!(w.ticks.len(), 1);
    w.tick();
    assert_eq!(w.ticks.len(), 0);
    assert_eq!(w.get_block_state_id(&at(0, 0, 0)), STONE);
}

#[test]
fn soul_fire_without_its_base_turns_to_air() {
    let mut w = world();
    w.set_block_state(&at(0, 0, 0), SOUL_SAND, quiet());
    w.set_block_state(&at(0, 1, 0), SOUL_FIRE, quiet());
    w.set_block_state(&at(0, 0, 0), DIRT, BlockFlags::notify_all());
    assert_eq!(w.get_block_state_id(&at(0, 0, 0)), DIRT);
    assert_eq!(w.get_block_state_id(&at(0, 1, 0)), AIR);
}

#[test]
fn soul_fire_keeps_burning_on_its_base() {
    let mut w = world();
    w.set_block_state(&at(0, 0, 0), SOUL_SAND, quiet());
    w.set_block_state(&at(0, 1, 0), SOUL_FIRE, quiet());
    w.set_block_state(&at(1, 1, 0), STONE, BlockFlags::notify_all());
    assert_eq!(w.get_block_state_id(&at(0, 1, 0)), SOUL_FIRE);
    assert!(!w.place_block(5, &at(9, 9, 9), BlockDirection::Up, HorizontalFacing::North));
    assert!(w.place_block(5, &at(0, 1, 0), BlockDirection::Up, HorizontalFacing::North));
}

#[test]
fn bush_is_removed_with_its_ground_and_drops_loot() {
    let mut w = world();
    w.set_block_state(&at(0, 0, 0), DIRT, quiet());
    w.set_block_state(&at(0, 1, 0), BUSH, quiet());
    w.break_block(&at(0, 0, 0), BlockFlags::new(NOTIFY_ALL | SKIP_DROPS));
    assert_eq!(w.get_block_state_id(&at(0, 0, 0)), AIR);
    assert_eq!(w.get_block_state_id(&at(0, 1, 0)), AIR);
    let drops: Vec<WorldEvent> = w
        .events
        .iter()
        .copied()
        .filter(|e| matches!(e, WorldEvent::DropLoot { .. }))
        .collect();
    assert_eq!(drops, vec![WorldEvent::DropLoot { pos: at(0, 1, 0), block_id: 6 }]);
}

#[test]
fn bush_stands_on_dirt_and_farmland_only() {
    let mut w = world();
    w.set_block_state(&at(0, 0, 0), DIRT, quiet());
    w.set_block_state(&at(1, 0, 0), FARMLAND, quiet());
    w.set_block_state(&at(2, 0, 0), STONE, quiet());
    assert!(w.place_block(6, &at(0, 1, 0), BlockDirection::Up, HorizontalFacing::North));
    assert!(w.place_block(6, &at(1, 1, 0), BlockDirection::Up, HorizontalFacing::North));
    assert!(!w.place_block(6, &at(2, 1, 0), BlockDirection::Up, HorizontalFacing::North));
    assert_eq!(w.get_block_state_id(&at(2, 1, 0)), AIR);
}

#[test]
fn breaking_drops_loot_unless_skipped() {
    let mut w = world();
    w.set_block_state(&at(0, 0, 0), STONE, quiet());
    w.break_block(&at(0, 0, 0), quiet());
    assert_eq!(w.events, vec![WorldEvent::DropLoot { pos: at(0, 0, 0), block_id: 1 }]);
    w.break_block(&at(0, 0, 0), quiet());
    assert_eq!(w.events.len(), 1);
}

#[test]
fn a_chain_over_the_limit_is_cut_off() {
    let mut w = world();
    w.pending.push(Action::PlaySound { sound: Sound::BlockTripwireAttach, pos: at(0, 0, 0) });
    w.pending.push(Action::PlaySound { sound: Sound::BlockTripwireDetach, pos: at(0, 0, 0) });
    w.run(1);
    assert!(w.pending.is_empty());
    assert_eq!(
        w.events,
        vec![
            WorldEvent::Sound { sound: Sound::BlockTripwireAttach, pos: at(0, 0, 0) },
            WorldEvent::ChainAborted,
        ]
    );
    assert!(CHAIN_LIMIT >= 1000);
}

#[test]
fn step_runs_one_action() {
    let mut w = world();
    assert!(!w.step());
    w.pending.push(Action::SetBlockState { pos: at(0, 0, 0), state_id: STONE, flags: quiet() });
    assert!(w.step());
    assert_eq!(w.get_block_state_id(&at(0, 0, 0)), STONE);
    assert_eq!(
        w.pending,
        vec![Action::Placed {
            pos: at(0, 0, 0),
            block_id: 1,
            state_id: STONE,
            old_state_id: AIR,
            moved: false
        }]
    );
}

fn tripwire_line(w: &mut World) {
    w.set_block_state(&at(-1, 0, 0), STONE, quiet());
    w.set_block_state(&at(6, 0, 0), STONE, quiet());
    let a = hook_state(w, HorizontalFacing::East, false, false);
    let b = hook_state(w, HorizontalFacing::West, false, false);
    w.set_block_state(&at(0, 0, 0), a, quiet());
    w.set_block_state(&at(5, 0, 0), b, quiet());
    let wire = wire_state(w, false, false);
    for x in 1..5 {
        w.set_block_state(&at(x, 0, 0), wire, quiet());
    }
}

#[test]
fn stepped_on_wire_powers_both_hooks() {
    let mut w = world();
    tripwire_line(&mut w);
    let stepped = wire_state(&w, true, false);
    let start = w.get_block_state_id(&at(0, 0, 0));
    let actions =
        TripwireHookBlock::update(&w, at(0, 0, 0), start, false, true, 2, Some(stepped));
    for action in actions {
        w.perform(action);
    }
    let a = hook_at(&w, at(0, 0, 0));
    let b = hook_at(&w, at(5, 0, 0));
    assert_eq!(
        a,
        TripwireHookLikeProperties {
            facing: HorizontalFacing::East,
            powered: true,
            attached: true
        }
    );
    assert_eq!(
        b,
        TripwireHookLikeProperties {
            facing: HorizontalFacing::West,
            powered: true,
            attached: true
        }
    );
    for x in 1..5 {
        assert!(wire_at(&w, at(x, 0, 0)).attached);
    }
    let sounds: Vec<WorldEvent> = w
        .events
        .iter()
        .copied()
        .filter(|e| matches!(e, WorldEvent::Sound { .. }))
        .collect();
    assert_eq!(
        sounds,
        vec![
            WorldEvent::Sound { sound: Sound::BlockTripwireClickOn, pos: at(5, 0, 0) },
            WorldEvent::Sound { sound: Sound::BlockTripwireClickOn, pos: at(0, 0, 0) },
        ]
    );
    // the stepped-on wire asks for another look ten game ticks later
    assert_eq!(w.ticks.len(), 1);
    assert_eq!(w.ticks.entries[0].due_tick, 10);
    assert_eq!(w.ticks.entries[0].pos, at(0, 0, 0));

    let hook = w.catalog.from_registry_key("tripwire_hook").unwrap();
    let registry = &w.registry;
    for (pos, facing) in [(at(0, 0, 0), BlockDirection::East), (at(5, 0, 0), BlockDirection::West)]
    {
        let state = w.get_block_state_id(&pos);
        assert!(registry.emits_redstone_power(hook, state, BlockDirection::Up));
        for direction in BlockDirection::all() {
            assert_eq!(registry.get_weak_redstone_power(hook, state, direction), 15);
            let strong = registry.get_strong_redstone_power(hook, state, direction);
            assert_eq!(strong, if direction == facing { 15 } else { 0 });
        }
    }
}

#[test]
fn hooks_attach_without_power() {
    let mut w = world();
    tripwire_line(&mut w);
    let start = w.get_block_state_id(&at(0, 0, 0));
    let actions = TripwireHookBlock::update(&w, at(0, 0, 0), start, false, false, NO_WIRE, None);
    assert_eq!(
        actions[0],
        Action::SetBlockState {
            pos: at(5, 0, 0),
            state_id: hook_state(&w, HorizontalFacing::West, false, true),
            flags: BlockFlags::notify_all(),
        }
    );
    assert_eq!(actions[1], Action::NeighborUpdate { pos: at(5, 0, 0), source_block: 8 });
    assert_eq!(
        actions[2],
        Action::UpdateNeighbors { pos: at(6, 0, 0), except: Some(BlockDirection::West) }
    );
    assert_eq!(
        actions[3],
        Action::PlaySound { sound: Sound::BlockTripwireAttach, pos: at(5, 0, 0) }
    );
    assert_eq!(
        actions[4],
        Action::PlaySound { sound: Sound::BlockTripwireAttach, pos: at(0, 0, 0) }
    );
    assert_eq!(actions.len(), 10);
    for action in actions {
        w.perform(action);
    }
    assert!(hook_at(&w, at(0, 0, 0)).attached);
    assert!(!hook_at(&w, at(0, 0, 0)).powered);
    assert!(hook_at(&w, at(5, 0, 0)).attached);
    assert_eq!(w.ticks.len(), 0);
}

#[test]
fn a_gap_in_the_line_keeps_hooks_detached() {
    let mut w = world();
    tripwire_line(&mut w);
    w.set_block_state(&at(3, 0, 0), AIR, quiet());
    let start = w.get_block_state_id(&at(0, 0, 0));
    let actions = TripwireHookBlock::update(&w, at(0, 0, 0), start, false, false, NO_WIRE, None);
    for action in actions {
        w.perform(action);
    }
    assert!(!hook_at(&w, at(0, 0, 0)).attached);
    assert!(!hook_at(&w, at(5, 0, 0)).attached);
    assert!(w.events.iter().all(|e| !matches!(e, WorldEvent::Sound { .. })));
}

#[test]
fn hook_is_placed_against_a_solid_side() {
    let mut w = world();
    w.set_block_state(&at(1, 0, 0), STONE, quiet());
    // against the block to the east: the hook faces west
    assert!(w.place_block(8, &at(0, 0, 0), BlockDirection::East, HorizontalFacing::North));
    assert_eq!(
        hook_at(&w, at(0, 0, 0)),
        TripwireHookLikeProperties {
            facing: HorizontalFacing::West,
            powered: false,
            attached: false
        }
    );
    assert!(!w.place_block(8, &at(0, 5, 0), BlockDirection::East, HorizontalFacing::North));
    assert!(!w.place_block(8, &at(1, 1, 0), BlockDirection::Down, HorizontalFacing::North));
    assert!(TripwireHookBlock::can_place_at(&w, &at(0, 0, 0), BlockDirection::East));
    assert!(!TripwireHookBlock::can_place_at(&w, &at(0, 0, 0), BlockDirection::West));
}

#[test]
fn hook_without_support_turns_to_air() {
    let mut w = world();
    w.set_block_state(&at(1, 0, 0), STONE, quiet());
    assert!(w.place_block(8, &at(0, 0, 0), BlockDirection::East, HorizontalFacing::North));
    w.set_block_state(&at(1, 0, 0), AIR, BlockFlags::notify_all());
    assert_eq!(w.get_block_state_id(&at(0, 0, 0)), AIR);
}

#[test]
fn replaced_powered_hook_tells_its_neighbours() {
    let w = world();
    let hook = w.catalog.from_registry_key("tripwire_hook").unwrap();
    let powered = hook_state(&w, HorizontalFacing::East, true, false);
    let actions = TripwireHookBlock.on_state_replaced(&w, hook, at(0, 0, 0), powered, false);
    let n = actions.len();
    assert!(n >= 2);
    assert_eq!(actions[n - 2], Action::NeighborUpdate { pos: at(0, 0, 0), source_block: 8 });
    assert_eq!(actions[n - 1], Action::NeighborUpdate { pos: at(-1, 0, 0), source_block: 8 });
    let idle = hook_state(&w, HorizontalFacing::East, false, false);
    assert!(TripwireHookBlock.on_state_replaced(&w, hook, at(0, 0, 0), idle, false).is_empty());
    assert!(TripwireHookBlock.on_state_replaced(&w, hook, at(0, 0, 0), powered, true).is_empty());
}

#[test]
fn replaced_attached_hook_tells_its_neighbours() {
    let w = world();
    let hook = w.catalog.from_registry_key("tripwire_hook").unwrap();
    let told = vec![
        Action::NeighborUpdate { pos: at(4, 5, 6), source_block: 8 },
        Action::NeighborUpdate { pos: at(4, 5, 7), source_block: 8 },
    ];
    let attached = hook_state(&w, HorizontalFacing::North, false, true);
    let actions = TripwireHookBlock.on_state_replaced(&w, hook, at(4, 5, 6), attached, false);
    assert!(actions.len() >= 2);
    assert_eq!(actions[actions.len() - 2..].to_vec(), told);
    let both = hook_state(&w, HorizontalFacing::North, true, true);
    let actions = TripwireHookBlock.on_state_replaced(&w, hook, at(4, 5, 6), both, false);
    assert!(actions.len() >= 2);
    assert_eq!(actions[actions.len() - 2..].to_vec(), told);
    assert!(TripwireHookBlock.on_state_replaced(&w, hook, at(4, 5, 6), attached, true).is_empty());
}

#[test]
fn sounds_of_a_changing_hook() {
    let pos = at(0, 0, 0);
    let sound = |attached, on, detached, off| {
        TripwireHookBlock::play_sound(&pos, attached, on, detached, off)
    };
    assert_eq!(
        sound(true, true, false, false),
        vec![Action::PlaySound { sound: Sound::BlockTripwireClickOn, pos }]
    );
    assert_eq!(
        sound(true, false, true, true),
        vec![Action::PlaySound { sound: Sound::BlockTripwireClickOff, pos }]
    );
    assert_eq!(
        sound(true, false, false, false),
        vec![Action::PlaySound { sound: Sound::BlockTripwireAttach, pos }]
    );
    assert_eq!(
        sound(false, false, true, false),
        vec![Action::PlaySound { sound: Sound::BlockTripwireDetach, pos }]
    );
    assert_eq!(sound(true, true, true, true), vec![]);
}

#[test]
fn registry_answers_for_blocks_without_behaviour() {
    let w = world();
    let stone = w.catalog.from_id(1).unwrap();
    let registry = BlockRegistry::new();
    assert!(registry.get_pumpkin_block(stone).is_none());
    assert!(registry.can_place_at(&w, stone, &at(0, 0, 0), BlockDirection::Up));
    assert_eq!(
        registry.on_place(&w, stone, &at(0, 0, 0), BlockDirection::Up, HorizontalFacing::North),
        STONE
    );
    let answer = registry.get_state_for_neighbor_update(
        &w,
        stone,
        STONE,
        &at(0, 0, 0),
        BlockDirection::Up,
        &at(0, 1, 0),
        AIR,
    );
    assert_eq!(answer, (STONE, vec![]));
    assert!(!registry.emits_redstone_power(stone, STONE, BlockDirection::Up));
    assert_eq!(registry.get_weak_redstone_power(stone, STONE, BlockDirection::Up), 0);
    assert_eq!(registry.get_strong_redstone_power(stone, STONE, BlockDirection::Up), 0);
    assert!(registry.post_process_state(&w, &at(0, 0, 0), stone, quiet()).is_empty());
    assert!(w.registry.on_scheduled_tick(&w, stone, &at(0, 0, 0)).is_empty());
}

#[test]
fn single_notices_and_revisions() {
    let mut w = world();
    w.set_block_state(&at(0, 0, 0), SOUL_SAND, quiet());
    w.set_block_state(&at(0, 1, 0), SOUL_FIRE, quiet());
    let stone = build(&assets(), &table());
    w.update_neighbor(&at(0, 1, 0), stone.from_id(1).unwrap());
    w.update_neighbors(&at(0, 0, 0), None);
    w.random_tick(&at(0, 1, 0));
    assert_eq!(w.get_block_state_id(&at(0, 1, 0)), SOUL_FIRE);
    w.replace_with_state_for_neighbor_update(
        &at(0, 1, 0),
        BlockDirection::Down,
        BlockFlags::notify_all(),
    );
    assert_eq!(w.get_block_state_id(&at(0, 1, 0)), SOUL_FIRE);
    w.set_block_state(&at(0, 0, 0), STONE, quiet());
    w.replace_with_state_for_neighbor_update(
        &at(0, 1, 0),
        BlockDirection::Down,
        BlockFlags::notify_all(),
    );
    assert_eq!(w.get_block_state_id(&at(0, 1, 0)), AIR);
    assert!(w.pending.is_empty());
    assert!(w.ticks.check());
}

#[test]
fn behaviours_answer_by_default() {
    let w = world();
    let stone = w.catalog.from_id(1).unwrap();
    for behaviour in [
        Behavior::FarmLand(pumpkin_blocks::farmland::FarmLandBlock),
        Behavior::Bush(pumpkin_blocks::bush::BushBlock),
        Behavior::TripwireHook(TripwireHookBlock),
    ] {
        assert!(behaviour.should_drop_items_on_explosion());
        assert_eq!(behaviour.get_comparator_output(stone, STONE), None);
        assert!(behaviour.random_tick(stone, &at(0, 0, 0)).is_empty());
    }
}

#[test]
fn post_process_writes_to_each_neighbour() {
    let mut w = world();
    w.set_block_state(&at(0, 0, 0), FARMLAND, quiet());
    let farmland = w.catalog.from_id(3).unwrap();
    let actions = w.registry.post_process_state(&w, &at(0, 0, 0), farmland, quiet());
    assert_eq!(actions.len(), 6);
    assert_eq!(
        actions[1],
        Action::PostProcess {
            pos: at(0, 0, 0),
            block_id: 3,
            state_id: FARMLAND,
            direction: BlockDirection::Up,
            flags: quiet(),
        }
    );
    let effects = w.effects(&actions[1]);
    assert_eq!(
        effects.actions,
        vec![Action::SetBlockState { pos: at(0, 1, 0), state_id: FARMLAND, flags: quiet() }]
    );
}
