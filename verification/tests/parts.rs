use pumpkin_blocks::block::{BlockState, OptimizedBlock, BlockStateRef, PistonBehavior};
use pumpkin_blocks::codec::{decode_index, encode_digits, layout_size};
use pumpkin_blocks::direction::{BlockDirection, BlockPos, Facing, HorizontalFacing, Vector3};
use pumpkin_blocks::flags::{BlockFlags, MOVED, NOTIFY_ALL, NOTIFY_LISTENERS, NOTIFY_NEIGHBORS};
use pumpkin_blocks::group::BlockPropertyStruct;
use pumpkin_blocks::names::{
    const_block_name_from_block_name, enum_name_from_property_name,
    property_group_name_from_derived_name,
};
use pumpkin_blocks::property::{
    CodecError, GeneratedProperty, GeneratedPropertyType, PropertyCollectionData, PropertyStruct,
    PropertyType, PropertyVariantMapping,
};
use pumpkin_blocks::registry::{
    default_registry, Behavior, BlockActionResult, BlockMetadata, BlockRegistry,
};
use pumpkin_blocks::bush::BushBlock;
use pumpkin_blocks::farmland::FarmLandBlock;
use pumpkin_blocks::shelf::ShelfBlock;
use pumpkin_blocks::soul_fire::SoulFireBlock;
use pumpkin_blocks::tags::TagTable;
use pumpkin_blocks::text::{decimal_text, same_strings, same_text};
use pumpkin_blocks::tick::{ScheduledTick, TickPriority, TickScheduler};
use pumpkin_blocks::tripwire_hook::{scan_line, Seen, TripwireHookBlock, REACH};
use pumpkin_blocks::typed::{
    default_of, default_refused, from_index, from_props, from_props_refused, from_state_id,
    from_state_id_refused, to_index, to_props, to_state_id, to_state_id_refused, value_count,
    AcaciaShelfLikeProperties, BlockProperties, SideChain, TripwireHookLikeProperties,
    TripwireLikeProperties,
};

fn at(x: i32, y: i32, z: i32) -> BlockPos {
    BlockPos::new(x, y, z)
}

fn plain_block(id: u16, name: &str, first: u16, count: u16, default_state_id: u16) -> OptimizedBlock {
    OptimizedBlock {
        id,
        name: name.to_string(),
        translation_key: String::new(),
        hardness: 0,
        blast_resistance: 0,
        item_id: 0,
        loot_table: None,
        slipperiness: 0,
        velocity_multiplier: 0,
        jump_velocity_multiplier: 0,
        default_state_id,
        states: (0..count).map(|i| BlockStateRef { id: first + i, state_idx: 0 }).collect(),
        experience: None,
    }
}

#[test]
fn mixed_radix_numbers_the_last_property_fastest() {
    let radices = vec![3u16, 2, 4];
    assert_eq!(layout_size(&radices), Some(24));
    assert_eq!(encode_digits(&radices, &vec![0, 0, 0]), 0);
    assert_eq!(encode_digits(&radices, &vec![0, 0, 3]), 3);
    assert_eq!(encode_digits(&radices, &vec![0, 1, 0]), 4);
    assert_eq!(encode_digits(&radices, &vec![1, 0, 0]), 8);
    assert_eq!(encode_digits(&radices, &vec![2, 1, 3]), 23);
    assert_eq!(decode_index(&radices, 23), vec![2, 1, 3]);
    assert_eq!(decode_index(&radices, 9), vec![1, 0, 1]);
    for i in 0..24u16 {
        assert_eq!(encode_digits(&radices, &decode_index(&radices, i)), i);
    }
}

#[test]
fn layout_size_refuses_bad_layouts() {
    assert_eq!(layout_size(&vec![]), Some(1));
    assert_eq!(layout_size(&vec![2, 0, 2]), None);
    assert_eq!(layout_size(&vec![256, 256]), Some(65536));
    assert_eq!(layout_size(&vec![256, 257]), None);
    assert_eq!(layout_size(&vec![65535, 65535, 0]), None);
}

#[test]
fn decimal_numerals() {
    assert_eq!(decimal_text(0), "0");
    assert_eq!(decimal_text(7), "7");
    assert_eq!(decimal_text(10), "10");
    assert_eq!(decimal_text(99), "99");
    assert_eq!(decimal_text(100), "100");
    assert_eq!(decimal_text(205), "205");
    assert_eq!(decimal_text(255), "255");
    assert!(same_text("abc", "abc"));
    assert!(!same_text("abc", "abd"));
    assert!(same_strings(&vec!["a".to_string()], &vec!["a".to_string()]));
    assert!(!same_strings(&vec!["a".to_string()], &vec![]));
}

#[test]
fn names_are_converted_by_case() {
    assert_eq!(const_block_name_from_block_name("tripwire_hook"), "TRIPWIRE_HOOK");
    assert_eq!(const_block_name_from_block_name("oak_log"), "OAK_LOG");
    assert_eq!(
        property_group_name_from_derived_name("tripwire_hook_like"),
        "TripwireHookLikeProperties"
    );
    assert_eq!(enum_name_from_property_name("integer_0_to_15"), "Integer0To15");
}

#[test]
fn property_rows_are_spelled_out() {
    let row = |property_type| GeneratedProperty {
        hash_key: 9,
        enum_name: "axis".to_string(),
        serialized_name: "axis".to_string(),
        property_type,
    };
    let p = row(GeneratedPropertyType::Boolean).to_property();
    assert_eq!(p.enum_name, "boolean");
    assert_eq!(p.values, vec!["true", "false"]);
    let p = row(GeneratedPropertyType::Int { min: 1, max: 4 }).to_property();
    assert_eq!(p.enum_name, "integer_1_to_4");
    assert_eq!(p.serialized_name, "axis");
    assert_eq!(p.values, vec!["L1", "L2", "L3", "L4"]);
    let p = row(GeneratedPropertyType::Int { min: 250, max: 255 }).to_property();
    assert_eq!(p.values.len(), 6);
    assert_eq!(p.values[5], "L255");
    let p = row(GeneratedPropertyType::Int { min: 5, max: 4 }).to_property();
    assert!(p.values.is_empty());
    let p = row(GeneratedPropertyType::Enum {
        values: vec!["x".to_string(), "y".to_string(), "z".to_string()],
    })
    .to_property();
    assert_eq!(p.enum_name, "axis");
    assert_eq!(p.values, vec!["x", "y", "z"]);
}

#[test]
fn enumeration_of_variants() {
    let axis = PropertyStruct {
        name: "Axis".to_string(),
        values: vec!["x".to_string(), "y".to_string(), "z".to_string()],
    };
    assert_eq!(axis.variant_count(), 3);
    assert!(!axis.is_boolean());
    assert!(!axis.is_number_values());
    assert_eq!(axis.to_value(1), "y");
    assert!(axis.has_value("z"));
    assert_eq!(axis.from_value("z"), 2);
    assert!(!axis.has_value("w"));
    assert_eq!(axis.from_index(2), 2);
    let level = PropertyStruct {
        name: "Integer0To2".to_string(),
        values: vec!["L0".to_string(), "L1".to_string(), "L2".to_string()],
    };
    assert!(level.is_number_values());
    assert_eq!(level.to_value(2), "2");
    assert_eq!(level.from_value("1"), 1);
    assert!(!level.has_value("L1"));
    let truth = PropertyStruct {
        name: "Boolean".to_string(),
        values: vec!["true".to_string(), "false".to_string()],
    };
    assert!(truth.is_boolean());
    assert_eq!(truth.from_value("true"), 0);
    assert_eq!(truth.from_value("false"), 1);
    assert!(!truth.has_value("yes"));
    let copy = truth.duplicate();
    assert_eq!(copy.name, "Boolean");
    assert_eq!(copy.values, truth.values);
}

#[test]
fn numbers_are_written_without_their_letter() {
    let level = PropertyStruct {
        name: "Integer2To4".to_string(),
        values: vec!["L2".to_string(), "L3".to_string(), "L4".to_string()],
    };
    assert!(level.is_number_values());
    assert_eq!(level.to_value(0), "2");
    assert_eq!(level.to_value(1), "3");
    assert_eq!(level.to_value(2), "4");
    assert!(level.has_value("3"));
    assert_eq!(level.from_value("3"), 1);
    assert_eq!(level.from_value("4"), 2);
    assert!(!level.has_value("L3"));
    assert!(!level.has_value("1"));
    let wide = PropertyStruct {
        name: "Integer9To11".to_string(),
        values: vec!["L9".to_string(), "L10".to_string(), "L11".to_string()],
    };
    assert!(wide.is_number_values());
    assert_eq!(wide.to_value(1), "10");
    assert_eq!(wide.from_value("11"), 2);
    let letters = |values: &[&str]| PropertyStruct {
        name: "Mixed".to_string(),
        values: values.iter().map(|v| v.to_string()).collect(),
    };
    assert!(!letters(&["L1", "Lx"]).is_number_values());
    assert!(!letters(&["L"]).is_number_values());
    assert!(!letters(&["L1", "left"]).is_number_values());
    assert!(!letters(&[]).is_number_values());
    assert_eq!(letters(&["L1", "left"]).to_value(0), "L1");
    let row = GeneratedProperty {
        hash_key: 1,
        enum_name: "age".to_string(),
        serialized_name: "age".to_string(),
        property_type: GeneratedPropertyType::Int { min: 2, max: 4 },
    };
    let made = PropertyStruct { name: "Integer2To4".to_string(), values: row.to_property().values };
    assert!(made.is_number_values());
    assert_eq!(made.to_value(2), "4");
}

#[test]
fn family_of_blocks() {
    let mut data = PropertyCollectionData::from_mappings(vec![PropertyVariantMapping {
        original_name: "lit".to_string(),
        property_type: PropertyType::Bool,
    }]);
    assert!(data.blocks.is_empty());
    assert_eq!(data.variant_mappings.len(), 1);
    data.add_block("furnace".to_string(), 7);
    data.add_block("smoker".to_string(), 9);
    assert_eq!(data.blocks, vec![("furnace".to_string(), 7), ("smoker".to_string(), 9)]);
    assert_eq!(data.derive_name(), "furnace_like");
    assert_eq!(
        property_group_name_from_derived_name(&data.derive_name()),
        "FurnaceLikeProperties"
    );
}

#[test]
fn group_is_checked_when_made() {
    let data = || {
        let mut data = PropertyCollectionData::from_mappings(vec![PropertyVariantMapping {
            original_name: "lit".to_string(),
            property_type: PropertyType::Bool,
        }]);
        data.add_block("furnace".to_string(), 7);
        data
    };
    let truth = || PropertyStruct {
        name: "Boolean".to_string(),
        values: vec!["true".to_string(), "false".to_string()],
    };
    let group = BlockPropertyStruct::new(data(), vec![truth()]).unwrap();
    assert!(group.check());
    assert_eq!(group.value_count(), 2);
    assert!(BlockPropertyStruct::new(data(), vec![]).is_none());
    assert!(BlockPropertyStruct::new(data(), vec![truth(), truth()]).is_none());
    let wrong = PropertyStruct { name: "Boolean".to_string(), values: vec!["yes".to_string()] };
    assert!(BlockPropertyStruct::new(data(), vec![wrong]).is_none());
    let empty = PropertyStruct { name: "Boolean".to_string(), values: vec![] };
    assert!(BlockPropertyStruct::new(data(), vec![empty]).is_none());
    let furnace = plain_block(7, "furnace", 40, 2, 41);
    assert_eq!(group.default_refused(&furnace), None);
    assert_eq!(group.default(&furnace), vec![1]);
    assert_eq!(group.to_state_id_refused(&vec![0], &furnace), None);
    assert_eq!(group.to_state_id(&vec![0], &furnace), 40);
    let out_of_range = Some(CodecError::StateOutOfRange);
    let short = plain_block(7, "furnace", 40, 1, 40);
    assert_eq!(group.to_state_id_refused(&vec![1], &short), out_of_range);
    let none = plain_block(7, "furnace", 40, 0, 40);
    assert_eq!(group.to_state_id_refused(&vec![0], &none), out_of_range);
    assert_eq!(group.from_state_id_refused(40, &none), out_of_range);
}

#[test]
fn directions() {
    assert_eq!(BlockDirection::Up.opposite(), BlockDirection::Down);
    assert_eq!(BlockDirection::West.opposite(), BlockDirection::East);
    assert_eq!(BlockDirection::North.to_offset(), Vector3 { x: 0, y: 0, z: -1 });
    assert_eq!(BlockDirection::East.to_offset(), Vector3 { x: 1, y: 0, z: 0 });
    assert!(BlockDirection::South.is_horizontal());
    assert!(!BlockDirection::Down.is_horizontal());
    assert_eq!(BlockDirection::Up.to_horizontal_facing(), None);
    assert_eq!(BlockDirection::West.to_horizontal_facing(), Some(HorizontalFacing::West));
    assert_eq!(BlockDirection::Up.to_cardinal_direction(), HorizontalFacing::North);
    assert_eq!(
        BlockDirection::from_cardinal_direction(HorizontalFacing::South),
        BlockDirection::South
    );
    assert_eq!(
        BlockDirection::update_order(),
        [
            BlockDirection::West,
            BlockDirection::East,
            BlockDirection::Down,
            BlockDirection::Up,
            BlockDirection::North,
            BlockDirection::South
        ]
    );
    assert_eq!(
        BlockDirection::abstract_block_update_order(),
        [
            BlockDirection::West,
            BlockDirection::East,
            BlockDirection::North,
            BlockDirection::South,
            BlockDirection::Down,
            BlockDirection::Up
        ]
    );
    assert_eq!(BlockDirection::all()[0], BlockDirection::Down);
    assert_eq!(Facing::Up.opposite(), Facing::Down);
    assert_eq!(Facing::East.opposite(), Facing::West);
}

#[test]
fn horizontal_facings() {
    assert_eq!(
        HorizontalFacing::all(),
        [
            HorizontalFacing::North,
            HorizontalFacing::South,
            HorizontalFacing::West,
            HorizontalFacing::East
        ]
    );
    for f in HorizontalFacing::all() {
        assert_eq!(f.opposite().opposite(), f);
        assert_eq!(f.rotate_clockwise().rotate_counter_clockwise(), f);
        assert_eq!(f.rotate_clockwise().rotate_clockwise(), f.opposite());
        assert_eq!(HorizontalFacing::from_index(f.to_index()), Some(f));
    }
    assert_eq!(HorizontalFacing::North.rotate_clockwise(), HorizontalFacing::East);
    assert_eq!(HorizontalFacing::West.to_offset(), Vector3 { x: -1, y: 0, z: 0 });
    assert_eq!(HorizontalFacing::from_index(4), None);
}

#[test]
fn positions() {
    let p = at(1, 2, 3);
    assert_eq!(p.up(), at(1, 3, 3));
    assert_eq!(p.down(), at(1, 1, 3));
    assert_eq!(p.offset(Vector3 { x: -4, y: 0, z: 9 }), at(-3, 2, 12));
    assert_eq!(p.offset_dir(Vector3 { x: 1, y: 0, z: 0 }, 41), at(42, 2, 3));
    assert_eq!(at(i32::MAX, 0, 0).offset(Vector3 { x: 1, y: 0, z: 0 }), at(i32::MIN, 0, 0));
}

#[test]
fn flags() {
    let f = BlockFlags::notify_all();
    assert_eq!(f.bits, NOTIFY_ALL);
    assert!(f.contains(NOTIFY_NEIGHBORS));
    assert!(f.contains(NOTIFY_LISTENERS));
    assert!(!f.contains(MOVED));
    assert_eq!(f.without(NOTIFY_NEIGHBORS), BlockFlags::new(NOTIFY_LISTENERS));
    assert_eq!(f.with(MOVED).bits, 67);
    assert!(!BlockFlags::empty().contains(NOTIFY_NEIGHBORS));
}

fn tick(queue: &TickScheduler, i: usize) -> (u16, u64, TickPriority, u64) {
    let t: ScheduledTick = queue.entries[i];
    (t.block_id, t.due_tick, t.priority, t.seq)
}

#[test]
fn higher_priority_fires_first_at_the_same_tick() {
    let mut queue = TickScheduler::new();
    assert!(queue.schedule(at(0, 0, 0), 1, 5, TickPriority::Normal));
    assert!(queue.schedule(at(0, 0, 0), 2, 5, TickPriority::High));
    let due = queue.drain(5);
    assert_eq!(due.len(), 2);
    assert_eq!(due[0].block_id, 2);
    assert_eq!(due[0].priority, TickPriority::High);
    assert_eq!(due[1].block_id, 1);
    assert_eq!(due[1].priority, TickPriority::Normal);
    assert_eq!(queue.len(), 0);
}

#[test]
fn ticks_fire_by_due_tick_priority_and_order_of_scheduling() {
    let mut queue = TickScheduler::new();
    queue.schedule(at(0, 0, 0), 1, 9, TickPriority::ExtremelyHigh);
    queue.schedule(at(1, 0, 0), 1, 3, TickPriority::Low);
    queue.schedule(at(2, 0, 0), 1, 3, TickPriority::Normal);
    queue.schedule(at(3, 0, 0), 1, 3, TickPriority::Normal);
    queue.schedule(at(4, 0, 0), 1, 3, TickPriority::ExtremelyLow);
    queue.schedule(at(5, 0, 0), 1, 1, TickPriority::ExtremelyLow);
    queue.schedule(at(6, 0, 0), 1, 3, TickPriority::ExtremelyHigh);
    assert_eq!(queue.len(), 7);
    assert_eq!(tick(&queue, 0), (1, 1, TickPriority::ExtremelyLow, 5));
    let due = queue.drain(3);
    let order: Vec<i32> = due.iter().map(|t| t.pos.x).collect();
    assert_eq!(order, vec![5, 6, 2, 3, 1, 4]);
    assert_eq!(queue.len(), 1);
    assert_eq!(tick(&queue, 0), (1, 9, TickPriority::ExtremelyHigh, 0));
    assert!(queue.drain(8).is_empty());
    assert_eq!(queue.drain(9).len(), 1);
}

#[test]
fn scheduling_twice_changes_nothing() {
    let mut queue = TickScheduler::new();
    assert!(queue.schedule(at(0, 0, 0), 1, 5, TickPriority::Normal));
    assert!(queue.is_scheduled(at(0, 0, 0), 1));
    assert!(!queue.schedule(at(0, 0, 0), 1, 2, TickPriority::ExtremelyHigh));
    assert_eq!(queue.len(), 1);
    assert_eq!(tick(&queue, 0), (1, 5, TickPriority::Normal, 0));
    assert_eq!(queue.next_seq, 1);
    assert!(!queue.is_scheduled(at(0, 0, 1), 1));
    assert!(!queue.is_scheduled(at(0, 0, 0), 2));
    assert_eq!(TickPriority::default(), TickPriority::Normal);
    assert!(TickPriority::High.rank() < TickPriority::Normal.rank());
}

#[test]
fn typed_groups_number_their_values() {
    let hook = plain_block(8, "tripwire_hook", 100, 16, 100);
    let value = TripwireHookLikeProperties {
        facing: HorizontalFacing::East,
        powered: true,
        attached: false,
    };
    assert_eq!(to_index(&value), 13);
    assert_eq!(to_state_id_refused(&value, &hook), None);
    assert_eq!(to_state_id(&value, &hook), 113);
    assert_eq!(from_state_id_refused::<TripwireHookLikeProperties>(113, &hook), None);
    assert_eq!(from_state_id::<TripwireHookLikeProperties>(113, &hook), value);
    assert_eq!(from_index::<TripwireHookLikeProperties>(13), value);
    assert_eq!(TripwireHookLikeProperties::radices(), vec![4, 2, 2]);
    assert_eq!(default_refused::<TripwireHookLikeProperties>(&hook), None);
    assert_eq!(
        default_of::<TripwireHookLikeProperties>(&hook),
        TripwireHookLikeProperties {
            facing: HorizontalFacing::North,
            powered: true,
            attached: true
        }
    );
    for i in 0..16u16 {
        let v: TripwireHookLikeProperties = from_index(i);
        assert_eq!(to_index(&v), i);
    }
    for i in 0..128u16 {
        let v: TripwireLikeProperties = from_index(i);
        assert_eq!(to_index(&v), i);
    }
    for i in 0..64u16 {
        let v: AcaciaShelfLikeProperties = from_index(i);
        assert_eq!(to_index(&v), i);
    }
    assert_eq!(TripwireLikeProperties::radices(), vec![2; 7]);
    assert_eq!(value_count::<TripwireHookLikeProperties>(), 16);
    assert_eq!(value_count::<TripwireLikeProperties>(), 128);
    assert_eq!(value_count::<AcaciaShelfLikeProperties>(), 64);
}

fn pairs(props: &[(&str, &str)]) -> Vec<(String, String)> {
    props.iter().map(|(k, v)| (k.to_string(), v.to_string())).collect()
}

#[test]
fn tripwire_hook_properties_round_trip() {
    let hook = plain_block(8, "tripwire_hook", 100, 16, 100);
    let value = TripwireHookLikeProperties {
        facing: HorizontalFacing::East,
        powered: true,
        attached: false,
    };
    let id = to_state_id(&value, &hook);
    assert_eq!(from_state_id::<TripwireHookLikeProperties>(id, &hook), value);
    assert_eq!(
        to_props(&value),
        pairs(&[("facing", "east"), ("powered", "true"), ("attached", "false")])
    );
    assert_eq!(
        from_props::<TripwireHookLikeProperties>(
            vec![("attached", "false"), ("facing", "east")],
            &hook
        ),
        value
    );
    assert_eq!(
        from_props_refused::<TripwireHookLikeProperties>(
            &vec![("attached", "false"), ("facing", "east")],
            &hook
        ),
        None
    );
    assert_eq!(
        from_props_refused::<TripwireHookLikeProperties>(&vec![("lit", "true")], &hook),
        Some(CodecError::UnknownKey)
    );
    assert_eq!(
        from_props_refused::<TripwireHookLikeProperties>(&vec![("facing", "up")], &hook),
        Some(CodecError::UnknownValue)
    );
    let stone = plain_block(1, "stone", 1, 1, 1);
    assert_eq!(
        from_props_refused::<TripwireHookLikeProperties>(&vec![], &stone),
        Some(CodecError::BlockNotHandled)
    );
    assert!(TripwireHookLikeProperties::handles_block(&hook));
    assert!(!TripwireHookLikeProperties::handles_block(&stone));
    assert_eq!(TripwireHookLikeProperties::radices(), vec![4, 2, 2]);
}

#[test]
fn typed_groups_serialize_every_field() {
    let wire: TripwireLikeProperties = from_index(0b0101010);
    assert_eq!(
        to_props(&wire),
        pairs(&[
            ("attached", "true"),
            ("disarmed", "false"),
            ("east", "true"),
            ("north", "false"),
            ("powered", "true"),
            ("south", "false"),
            ("west", "true"),
        ])
    );
    let shelf = AcaciaShelfLikeProperties {
        facing: HorizontalFacing::West,
        powered: false,
        side_chain: SideChain::Left,
        waterlogged: true,
    };
    assert_eq!(
        to_props(&shelf),
        pairs(&[
            ("facing", "west"),
            ("powered", "false"),
            ("side_chain", "left"),
            ("waterlogged", "true"),
        ])
    );
    let block = plain_block(20, "birch_shelf", 0, 64, 0);
    assert_eq!(
        from_props::<AcaciaShelfLikeProperties>(
            vec![
                ("facing", "west"),
                ("powered", "false"),
                ("side_chain", "left"),
                ("waterlogged", "true")
            ],
            &block
        ),
        shelf
    );
}

#[test]
fn typed_pairs_read_back_as_the_value() {
    let hook = plain_block(8, "tripwire_hook", 100, 16, 105);
    for i in 0..16u16 {
        let value: TripwireHookLikeProperties = from_index(i);
        let written = to_props(&value);
        let pairs: Vec<(&str, &str)> =
            written.iter().map(|(k, v)| (k.as_str(), v.as_str())).collect();
        assert_eq!(from_props_refused::<TripwireHookLikeProperties>(&pairs, &hook), None);
        assert_eq!(from_props::<TripwireHookLikeProperties>(pairs, &hook), value);
    }
    let shelf = plain_block(20, "oak_shelf", 0, 64, 9);
    for i in 0..64u16 {
        let value: AcaciaShelfLikeProperties = from_index(i);
        let written = to_props(&value);
        let pairs: Vec<(&str, &str)> =
            written.iter().map(|(k, v)| (k.as_str(), v.as_str())).collect();
        assert_eq!(from_props::<AcaciaShelfLikeProperties>(pairs, &shelf), value);
    }
}

#[test]
fn typed_groups_refuse_other_blocks() {
    let stone = plain_block(1, "stone", 1, 1, 1);
    let hook = plain_block(8, "tripwire_hook", 100, 16, 100);
    let value = TripwireHookLikeProperties {
        facing: HorizontalFacing::East,
        powered: true,
        attached: false,
    };
    assert_eq!(to_state_id_refused(&value, &stone), Some(CodecError::BlockNotHandled));
    assert_eq!(
        from_state_id_refused::<TripwireHookLikeProperties>(1, &stone),
        Some(CodecError::BlockNotHandled)
    );
    assert_eq!(
        default_refused::<TripwireLikeProperties>(&hook),
        Some(CodecError::BlockNotHandled)
    );
    assert_eq!(
        from_state_id_refused::<TripwireHookLikeProperties>(99, &hook),
        Some(CodecError::StateOutOfRange)
    );
    assert_eq!(
        from_state_id_refused::<TripwireHookLikeProperties>(116, &hook),
        Some(CodecError::StateOutOfRange)
    );
    assert_eq!(from_state_id_refused::<TripwireHookLikeProperties>(115, &hook), None);
    let short = plain_block(8, "tripwire_hook", 100, 8, 100);
    assert_eq!(to_state_id_refused(&value, &short), Some(CodecError::StateOutOfRange));
}

#[test]
fn shelf_faces_the_player() {
    let shelf = plain_block(20, "oak_shelf", 500, 64, 500 + 21);
    let placed = ShelfBlock.on_place(&shelf, HorizontalFacing::North);
    let props: AcaciaShelfLikeProperties = from_state_id(placed, &shelf);
    let before: AcaciaShelfLikeProperties = default_of(&shelf);
    assert_eq!(props.facing, HorizontalFacing::South);
    assert_eq!(props.powered, before.powered);
    assert_eq!(props.side_chain, before.side_chain);
    assert_eq!(props.waterlogged, before.waterlogged);
    assert_eq!(before.side_chain, SideChain::Center);
    let stone = plain_block(1, "stone", 1, 1, 1);
    assert_eq!(ShelfBlock.on_place(&stone, HorizontalFacing::North), 1);
}

#[test]
fn behaviours_are_registered_under_their_keys() {
    assert_eq!(FarmLandBlock.names(), vec!["minecraft:farmland"]);
    assert_eq!(SoulFireBlock.names(), vec!["minecraft:soul_fire"]);
    assert_eq!(BushBlock.names(), vec!["minecraft:bush", "minecraft:firefly_bush"]);
    assert_eq!(TripwireHookBlock.names(), vec!["minecraft:tripwire_hook"]);
    assert_eq!(ShelfBlock.names().len(), 12);
    assert_eq!(ShelfBlock.names()[8], "minecraft:oak_shelf");
    assert_eq!(BushBlock.namespace(), "minecraft");
    assert_eq!(BushBlock.ids(), vec!["bush", "firefly_bush"]);
    let registry = default_registry();
    let get = |name: &str| registry.get_pumpkin_block(&plain_block(0, name, 0, 1, 0)).copied();
    assert_eq!(get("farmland"), Some(Behavior::FarmLand(FarmLandBlock)));
    assert_eq!(get("firefly_bush"), Some(Behavior::Bush(BushBlock)));
    assert_eq!(get("soul_fire"), Some(Behavior::SoulFire(SoulFireBlock)));
    assert_eq!(get("tripwire_hook"), Some(Behavior::TripwireHook(TripwireHookBlock)));
    assert_eq!(get("cherry_shelf"), Some(Behavior::Shelf(ShelfBlock)));
    assert_eq!(get("stone"), None);
}

#[test]
fn later_registration_takes_the_key() {
    let mut registry = BlockRegistry::new();
    let bush = plain_block(0, "bush", 0, 1, 0);
    assert!(registry.get_pumpkin_block(&bush).is_none());
    registry.register(Behavior::Bush(BushBlock));
    assert_eq!(registry.get_pumpkin_block(&bush), Some(&Behavior::Bush(BushBlock)));
    assert_eq!(registry.blocks.len(), 2);
}

#[test]
fn hooks_without_behaviour_answer_by_default() {
    let registry = default_registry();
    let stone = plain_block(1, "stone", 1, 1, 1);
    assert!(!registry.on_synced_block_event(&stone, &at(0, 0, 0), 1, 2));
    assert!(!registry.can_update_at(&stone, 1, &at(0, 0, 0), BlockDirection::Up));
    assert_eq!(registry.use_with_item(&stone, at(0, 0, 0), 5), BlockActionResult::Continue);
    assert!(registry.on_use(&stone, at(0, 0, 0)).is_empty());
    assert!(registry.explode(&stone, at(0, 0, 0)).is_empty());
    assert!(registry.on_entity_collision(&stone, at(0, 0, 0), 1).is_empty());
    assert!(registry.on_placed(&stone, 1, &at(0, 0, 0), 0, false).is_empty());
    assert!(registry.broken(&stone, at(0, 0, 0), 1).is_empty());
    assert!(registry.prepare(&at(0, 0, 0), &stone, 1, BlockFlags::empty()).is_empty());
    assert!(registry.on_neighbor_update(&stone, &at(0, 0, 0), 1, false).is_empty());
    assert_eq!(registry.update_neighbors(&at(0, 0, 0), BlockFlags::empty()).len(), 6);
}

#[test]
fn tags_name_sets_of_blocks() {
    let mut tags = TagTable::new();
    assert!(!tags.is_tagged_with(2, "minecraft:dirt"));
    tags.insert("minecraft:dirt".to_string(), vec![2, 9]);
    assert!(tags.is_tagged_with(2, "minecraft:dirt"));
    assert!(tags.is_tagged_with(9, "minecraft:dirt"));
    assert!(!tags.is_tagged_with(3, "minecraft:dirt"));
    assert!(!tags.is_tagged_with(2, "minecraft:sand"));
}

#[test]
fn scan_stops_at_the_first_hook() {
    let wire = TripwireLikeProperties {
        attached: false,
        disarmed: false,
        east: false,
        north: false,
        powered: false,
        south: false,
        west: false,
    };
    let partner = TripwireHookLikeProperties {
        facing: HorizontalFacing::West,
        powered: false,
        attached: false,
    };
    let mut line = vec![Seen::Other; REACH];
    line[0] = Seen::Wire(wire);
    line[1] = Seen::Wire(TripwireLikeProperties { powered: true, ..wire });
    line[2] = Seen::Hook(partner);
    line[3] = Seen::Wire(wire);
    let s = scan_line(&line, HorizontalFacing::East, -1, false);
    assert!(s.done);
    assert_eq!(s.end, 3);
    assert!(s.can_attach);
    assert!(s.wire_attached);
    assert!(!s.touched);
    assert_eq!(s.wires.len(), REACH + 1);
    assert_eq!(s.wires[1], Some(wire));
    assert_eq!(s.wires[4], None);
    // a hook that faces elsewhere ends the line without a partner
    line[2] = Seen::Hook(TripwireHookLikeProperties { facing: HorizontalFacing::North, ..partner });
    let s = scan_line(&line, HorizontalFacing::East, -1, false);
    assert_eq!(s.end, 0);
    // the wire that was stepped on is disarmed
    line[1] = Seen::Wire(TripwireLikeProperties { disarmed: true, ..wire });
    let s = scan_line(&line, HorizontalFacing::East, 2, false);
    assert!(s.touched);
    assert!(!s.can_attach);
    assert!(!s.wire_attached);
    // nothing can attach while the hook is being replaced
    let s = scan_line(&line, HorizontalFacing::East, -1, true);
    assert!(!s.can_attach);
}

#[test]
fn block_state_payloads() {
    let s = BlockState {
        id: 4,
        state_flags: 65,
        side_flags: 0,
        instrument: "harp".to_string(),
        luminance: 3,
        piston_behavior: PistonBehavior::PushOnly,
        hardness: 0x3f80_0000,
        collision_shapes: vec![1, 2],
        outline_shapes: vec![],
        opacity: Some(15),
        block_entity_type: None,
    };
    let t = s.with_id(9);
    assert_eq!(t.id, 9);
    assert_eq!(t.collision_shapes, vec![1, 2]);
    assert!(s.same_payload(&t));
    assert!(s.is_air());
    assert!(s.is_solid());
    let mut u = s.with_id(4);
    u.collision_shapes.push(3);
    assert!(!s.same_payload(&u));
    let mut v = s.with_id(4);
    v.side_flags = 1;
    assert!(!s.same_payload(&v));
}
