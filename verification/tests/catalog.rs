use pumpkin_blocks::block::{Block, BlockAssets, BlockState, PistonBehavior};
use pumpkin_blocks::builder::{broken_rule, build};
use pumpkin_blocks::catalog::Catalog;
use pumpkin_blocks::property::{CodecError, GeneratedProperty, GeneratedPropertyType};
use pumpkin_blocks::rules::BuildError;

fn state(id: u16, state_flags: u8, luminance: u8) -> BlockState {
    BlockState {
        id,
        state_flags,
        side_flags: 0,
        instrument: "harp".to_string(),
        luminance,
        piston_behavior: PistonBehavior::Normal,
        hardness: 0,
        collision_shapes: vec![],
        outline_shapes: vec![],
        opacity: None,
        block_entity_type: None,
    }
}

fn block(id: u16, name: &str, item_id: u16, properties: Vec<i32>, states: Vec<BlockState>) -> Block {
    let default_state_id = states.first().map(|s| s.id).unwrap_or(0);
    Block {
        id,
        name: name.to_string(),
        translation_key: format!("block.minecraft.{name}"),
        hardness: 0,
        blast_resistance: 0,
        item_id,
        loot_table: None,
        slipperiness: 0,
        velocity_multiplier: 0,
        jump_velocity_multiplier: 0,
        properties,
        default_state_id,
        states,
        experience: None,
    }
}

fn states(first: u16, count: u16, state_flags: u8) -> Vec<BlockState> {
    (0..count).map(|i| state(first + i, state_flags, 0)).collect()
}

fn row(hash_key: i32, name: &str, property_type: GeneratedPropertyType) -> GeneratedProperty {
    GeneratedProperty {
        hash_key,
        enum_name: format!("{name}_kind"),
        serialized_name: name.to_string(),
        property_type,
    }
}

fn table() -> Vec<GeneratedProperty> {
    vec![
        row(
            1,
            "facing",
            GeneratedPropertyType::Enum {
                values: vec![
                    "north".to_string(),
                    "south".to_string(),
                    "west".to_string(),
                    "east".to_string(),
                ],
            },
        ),
        row(2, "powered", GeneratedPropertyType::Boolean),
        row(3, "attached", GeneratedPropertyType::Boolean),
        row(4, "moisture", GeneratedPropertyType::Int { min: 0, max: 7 }),
    ]
}

fn assets() -> BlockAssets {
    BlockAssets {
        blocks: vec![
            block(0, "air", 0, vec![], vec![state(0, 1, 0)]),
            block(1, "stone", 1, vec![], vec![state(1, 64, 0)]),
            block(2, "dirt", 2, vec![], vec![state(2, 64, 0)]),
            block(3, "farmland", 3, vec![4], states(3, 8, 64)),
            block(4, "tripwire_hook", 4, vec![1, 2, 3], states(11, 16, 0)),
            block(5, "tripwire_hook_twin", 4, vec![3, 1, 2], states(27, 16, 0)),
        ],
        shapes: vec![],
        block_entity_types: vec!["minecraft:chest".to_string()],
    }
}

fn catalog() -> Catalog {
    assert_eq!(broken_rule(&assets(), &table()), None);
    build(&assets(), &table())
}

#[test]
fn build_keeps_blocks_in_order() {
    let c = catalog();
    assert_eq!(c.blocks.len(), 6);
    assert_eq!(c.blocks[4].name, "tripwire_hook");
    assert_eq!(c.blocks[4].states.len(), 16);
    assert_eq!(c.blocks[4].states[0].id, 11);
    assert_eq!(c.block_entity_types, vec!["minecraft:chest".to_string()]);
}

#[test]
fn build_shares_equal_payloads() {
    let c = catalog();
    // air; solid (stone, dirt, farmland); the hook states.
    assert_eq!(c.states.len(), 3);
    assert_eq!(c.blocks[1].states[0].state_idx, 1);
    assert_eq!(c.blocks[2].states[0].state_idx, 1);
    assert_eq!(c.blocks[3].states[7].state_idx, 1);
    assert_eq!(c.blocks[4].states[5].state_idx, 2);
}

#[test]
fn build_forms_one_group_per_property_set() {
    let c = catalog();
    assert_eq!(c.groups.len(), 2);
    assert_eq!(c.groups[0].data.blocks, vec![("farmland".to_string(), 3)]);
    assert_eq!(
        c.groups[1].data.blocks,
        vec![("tripwire_hook".to_string(), 4), ("tripwire_hook_twin".to_string(), 5)]
    );
    assert_eq!(c.groups[1].data.derive_name(), "tripwire_hook_like");
    assert_eq!(c.groups[1].variants[0].name, "FacingKind");
    assert_eq!(c.groups[0].variants[0].name, "Integer0To7");
}

#[test]
fn state_round_trip_tripwire_hook() {
    let c = catalog();
    let group = &c.groups[1];
    let hook = c.from_registry_key("tripwire_hook").unwrap();
    // facing = east, powered = true, attached = false
    let value = vec![3u16, 0, 1];
    assert_eq!(group.to_state_id_refused(&value, hook), None);
    let id = group.to_state_id(&value, hook);
    assert_eq!(id, 11 + 3 * 4 + 0 * 2 + 1);
    assert_eq!(group.from_state_id_refused(id, hook), None);
    assert_eq!(group.from_state_id(id, hook), value);
    assert!(group.accepts(&value));
    let props = group.to_props(&value);
    assert_eq!(
        props,
        vec![
            ("facing".to_string(), "east".to_string()),
            ("powered".to_string(), "true".to_string()),
            ("attached".to_string(), "false".to_string()),
        ]
    );
}

#[test]
fn index_round_trip_over_all_indices() {
    let c = catalog();
    let group = &c.groups[1];
    let hook = c.from_id(4).unwrap();
    assert_eq!(group.value_count(), 16);
    for i in 0..16u16 {
        let value = group.from_index(i);
        assert_eq!(group.to_index(&value), i);
        assert_eq!(group.to_state_id_refused(&value, hook), None);
        assert_eq!(group.to_state_id(&value, hook), 11 + i);
    }
    assert_eq!(group.from_state_id_refused(26, hook), None);
    assert_eq!(group.from_state_id(26, hook), group.from_index(15));
}

#[test]
fn booleans_number_true_before_false() {
    let c = catalog();
    let group = &c.groups[1];
    assert_eq!(group.to_index(&vec![0, 0, 0]), 0);
    assert_eq!(group.to_index(&vec![0, 0, 1]), 1);
    assert_eq!(group.to_index(&vec![0, 1, 0]), 2);
    assert_eq!(group.to_index(&vec![1, 0, 0]), 4);
    assert_eq!(group.from_index(0), vec![0, 0, 0]);
}

#[test]
fn unhandled_block_is_refused() {
    let c = catalog();
    let group = &c.groups[1];
    let stone = c.from_id(1).unwrap();
    assert!(!group.handles_block_id(1));
    assert!(group.handles_block_id(4));
    let refused = Some(CodecError::BlockNotHandled);
    assert_eq!(group.to_state_id_refused(&vec![0, 0, 0], stone), refused);
    assert_eq!(group.from_state_id_refused(1, stone), refused);
    assert_eq!(group.default_refused(stone), refused);
    assert_eq!(group.from_props_refused(&vec![], stone), refused);
    assert_eq!(c.properties_refused(stone, 1), None);
}

#[test]
fn from_props_starts_from_the_default_state() {
    let c = catalog();
    let group = &c.groups[1];
    let hook = c.from_id(4).unwrap();
    assert_eq!(group.default_refused(hook), None);
    assert_eq!(group.default(hook), vec![0, 0, 0]);
    assert_eq!(
        group.from_props(vec![("facing", "west"), ("attached", "false")], hook),
        vec![2, 0, 1]
    );
    let refused = |props: Vec<(&str, &str)>| group.from_props_refused(&props, hook);
    assert_eq!(refused(vec![("facing", "west"), ("attached", "false")]), None);
    assert_eq!(refused(vec![("colour", "red")]), Some(CodecError::UnknownKey));
    assert_eq!(refused(vec![("facing", "up")]), Some(CodecError::UnknownValue));
    assert_eq!(refused(vec![("powered", "yes")]), Some(CodecError::UnknownValue));
    assert_eq!(
        refused(vec![("facing", "up"), ("colour", "red")]),
        Some(CodecError::UnknownValue)
    );
}

#[test]
fn state_outside_the_block_is_refused() {
    let c = catalog();
    let group = &c.groups[1];
    let hook = c.from_id(4).unwrap();
    assert_eq!(group.from_state_id_refused(10, hook), Some(CodecError::StateOutOfRange));
    assert_eq!(group.from_state_id_refused(27, hook), Some(CodecError::StateOutOfRange));
    assert_eq!(group.from_state_id_refused(11, hook), None);
    assert!(group.accepts(&vec![3, 1, 1]));
    assert!(!group.accepts(&vec![4, 0, 0]));
    assert!(!group.accepts(&vec![0, 0]));
    assert!(!group.accepts(&vec![0, 2, 0]));
    assert_eq!(
        group.to_state_id_refused(&vec![4, 0, 0], hook),
        Some(CodecError::InvalidValues)
    );
}

#[test]
fn integer_properties_serialize_as_decimal() {
    let c = catalog();
    let group = &c.groups[0];
    let farmland = c.from_id(3).unwrap();
    assert_eq!(group.variants[0].values[5], "L5");
    assert_eq!(
        group.to_props(&vec![5]),
        vec![("moisture".to_string(), "5".to_string())]
    );
    assert_eq!(group.from_props(vec![("moisture", "7")], farmland), vec![7]);
    assert_eq!(
        group.from_props_refused(&vec![("moisture", "L7")], farmland),
        Some(CodecError::UnknownValue)
    );
    assert_eq!(group.to_state_id(&vec![7], farmland), 10);
}

#[test]
fn integer_properties_above_one_serialize_as_decimal() {
    let mut t = table();
    t[3].property_type = GeneratedPropertyType::Int { min: 2, max: 9 };
    assert_eq!(broken_rule(&assets(), &t), None);
    let c = build(&assets(), &t);
    let group = &c.groups[0];
    let farmland = c.from_id(3).unwrap();
    assert_eq!(group.variants[0].name, "Integer2To9");
    assert_eq!(group.variants[0].values[0], "L2");
    assert_eq!(group.to_props(&vec![0]), vec![("moisture".to_string(), "2".to_string())]);
    assert_eq!(group.to_props(&vec![7]), vec![("moisture".to_string(), "9".to_string())]);
    assert_eq!(group.from_props(vec![("moisture", "5")], farmland), vec![3]);
    assert_eq!(
        group.from_props_refused(&vec![("moisture", "L5")], farmland),
        Some(CodecError::UnknownValue)
    );
    assert_eq!(
        group.from_props_refused(&vec![("moisture", "1")], farmland),
        Some(CodecError::UnknownValue)
    );
}

#[test]
fn written_pairs_read_back_as_the_value() {
    let c = catalog();
    let hook = c.from_id(4).unwrap();
    let twin = c.from_id(5).unwrap();
    let group = &c.groups[1];
    for i in 0..16u16 {
        let value = group.from_index(i);
        let written = group.to_props(&value);
        let pairs: Vec<(&str, &str)> =
            written.iter().map(|(k, v)| (k.as_str(), v.as_str())).collect();
        assert_eq!(group.from_props_refused(&pairs, hook), None);
        assert_eq!(group.from_props(pairs.clone(), hook), value);
        assert_eq!(group.from_props(pairs, twin), value);
    }
    let farmland = c.from_id(3).unwrap();
    let group = &c.groups[0];
    for i in 0..8u16 {
        let value = group.from_index(i);
        let written = group.to_props(&value);
        assert_eq!(written[0].1, i.to_string());
        let pairs: Vec<(&str, &str)> =
            written.iter().map(|(k, v)| (k.as_str(), v.as_str())).collect();
        assert_eq!(group.from_props(pairs, farmland), value);
    }
}

#[test]
fn families_are_found_by_their_key_sets() {
    let c = catalog();
    // The twin names the hook's properties in another order.
    assert!(c.groups[1].handles_block_id(4));
    assert!(c.groups[1].handles_block_id(5));
    assert!(!c.groups[1].handles_block_id(3));
    assert!(!c.groups[0].handles_block_id(4));
    let mut a = assets();
    a.blocks[5].properties = vec![1, 2];
    a.blocks[5].states.truncate(8);
    assert_eq!(broken_rule(&a, &table()), None);
    let c = build(&a, &table());
    assert_eq!(c.groups.len(), 3);
    assert_eq!(c.groups[2].data.blocks, vec![("tripwire_hook_twin".to_string(), 5)]);
    assert_eq!(c.groups[1].data.blocks, vec![("tripwire_hook".to_string(), 4)]);
}

#[test]
fn lookups_find_blocks() {
    let c = catalog();
    assert_eq!(c.from_id(2).unwrap().name, "dirt");
    assert!(c.from_id(99).is_none());
    assert_eq!(c.from_registry_key("farmland").unwrap().id, 3);
    assert_eq!(c.get_block("minecraft:farmland").unwrap().id, 3);
    assert_eq!(c.get_block("farmland").unwrap().id, 3);
    assert!(c.get_block("minecraft:nothing").is_none());
    assert_eq!(c.from_state_id(10).unwrap().name, "farmland");
    assert_eq!(c.from_state_id(11).unwrap().name, "tripwire_hook");
    assert_eq!(c.from_state_id(42).unwrap().name, "tripwire_hook_twin");
    assert!(c.from_state_id(43).is_none());
    assert_eq!(c.get_block_by_state_id(0).unwrap().name, "air");
    assert_eq!(c.get_block_by_id(0).unwrap().name, "air");
}

#[test]
fn first_block_with_an_item_wins() {
    let c = catalog();
    assert_eq!(c.from_item_id(4).unwrap().name, "tripwire_hook");
    assert_eq!(c.get_block_by_item(4).unwrap().id, 4);
    assert!(c.from_item_id(77).is_none());
}

#[test]
fn state_lookup_restores_the_id() {
    let c = catalog();
    let s = c.get_state_by_state_id(2).unwrap();
    assert_eq!(s.id, 2);
    assert_eq!(s.state_flags, 64);
    let (b, s) = c.get_block_and_state_by_state_id(30).unwrap();
    assert_eq!(b.name, "tripwire_hook_twin");
    assert_eq!(s.id, 30);
    assert!(c.get_state_by_state_id(1000).is_none());
}

#[test]
fn every_asset_state_is_given_back() {
    let mut a = assets();
    a.blocks[3].states[5].luminance = 9;
    a.blocks[3].states[5].collision_shapes = vec![4, 5];
    a.blocks[4].states[2].opacity = Some(3);
    let c = build(&a, &table());
    for block in &a.blocks {
        for state in &block.states {
            let found = c.get_state_by_state_id(state.id).unwrap();
            assert_eq!(found.id, state.id);
            assert!(found.same_payload(state));
            assert_eq!(c.from_state_id(state.id).unwrap().name, block.name);
        }
    }
    assert_eq!(c.get_state_by_state_id(8).unwrap().luminance, 9);
    assert_eq!(c.get_state_by_state_id(8).unwrap().collision_shapes, vec![4, 5]);
    assert_eq!(c.get_state_by_state_id(13).unwrap().opacity, Some(3));
}

#[test]
fn default_states_lie_in_their_blocks() {
    let c = catalog();
    for block in &c.blocks {
        let first = block.states.first().unwrap().id;
        let last = block.states.last().unwrap().id;
        assert!(first <= block.default_state_id && block.default_state_id <= last);
        assert_eq!(last as usize + 1, first as usize + block.states.len());
        assert!(c.has_default_state(block));
        assert_eq!(c.default_state(block).id, block.default_state_id);
        assert_eq!(c.get_state(&block.states[0]).id, block.states[0].id);
        assert_eq!(c.locate(block.default_state_id).map(|i| c.blocks[i].id), Some(block.id));
    }
    for group in &c.groups {
        for (_, id) in &group.data.blocks {
            let block = c.from_id(*id).unwrap();
            assert_eq!(group.value_count() as usize, block.states.len());
        }
    }
}

#[test]
fn solid_states_block_movement() {
    let mut a = assets();
    a.blocks.push(block(6, "cobweb", 6, vec![], vec![state(43, 64, 0)]));
    let c = build(&a, &table());
    assert!(c.blocks_movement(&c.get_state_by_state_id(1).unwrap()));
    assert!(!c.blocks_movement(&c.get_state_by_state_id(0).unwrap()));
    assert!(!c.blocks_movement(&c.get_state_by_state_id(43).unwrap()));
}

#[test]
fn properties_of_a_block() {
    let c = catalog();
    let hook = c.from_id(4).unwrap();
    let stone = c.from_id(1).unwrap();
    assert_eq!(c.properties_refused(hook, 12), None);
    assert_eq!(c.properties(hook, 12), Some(vec![0, 0, 1]));
    assert_eq!(c.properties_refused(hook, 5), Some(CodecError::StateOutOfRange));
    assert_eq!(c.properties(stone, 1), None);
    assert_eq!(c.from_properties_refused(hook, &vec![("powered", "false")]), None);
    assert_eq!(c.from_properties(hook, vec![("powered", "false")]), Some(vec![0, 1, 0]));
    assert_eq!(
        c.from_properties_refused(hook, &vec![("powered", "no")]),
        Some(CodecError::UnknownValue)
    );
    assert_eq!(c.from_properties(stone, vec![]), None);
}

#[test]
fn build_names_the_broken_rule() {
    let t = table();
    let mut a = assets();
    a.blocks[2].id = 1;
    assert_eq!(broken_rule(&a, &t), Some(BuildError::DuplicateBlockId));
    let mut a = assets();
    a.blocks[2].states.clear();
    assert_eq!(broken_rule(&a, &t), Some(BuildError::NoStates));
    let mut a = assets();
    a.blocks[3].states[4].id = 100;
    assert_eq!(broken_rule(&a, &t), Some(BuildError::StatesNotContiguous));
    let mut a = assets();
    a.blocks[3].default_state_id = 11;
    assert_eq!(broken_rule(&a, &t), Some(BuildError::DefaultStateMissing));
    let mut a = assets();
    a.blocks[2].states[0].id = 3;
    a.blocks[2].default_state_id = 3;
    assert_eq!(broken_rule(&a, &t), Some(BuildError::OverlappingStates));
    let mut a = assets();
    a.blocks[3].properties = vec![9];
    assert_eq!(broken_rule(&a, &t), Some(BuildError::UnknownProperty));
    let mut a = assets();
    a.blocks[3].properties = vec![4, 4];
    assert_eq!(broken_rule(&a, &t), Some(BuildError::DuplicateProperty));
    let mut a = assets();
    a.blocks[3].properties = vec![2];
    assert_eq!(broken_rule(&a, &t), Some(BuildError::PropertyRangeMismatch));
    let mut t2 = table();
    t2[3].property_type = GeneratedPropertyType::Int { min: 3, max: 2 };
    assert_eq!(broken_rule(&assets(), &t2), Some(BuildError::InvalidProperty));
}
