//! Families of blocks: blocks that name the same set of properties share
//! one property group, which takes the order of its properties from the
//! first such block of the asset table.

use std::collections::HashSet;
use vstd::prelude::*;
use crate::block::{Block, BlockView};
use crate::codec::{layout_size, product, valid_layout};
use crate::group::BlockPropertyStruct;
use crate::names::{enum_name_from_property_name, upper_camel_case};
use crate::property::{
    boolean_values, GeneratedProperty, GeneratedPropertyType, Property,
    PropertyCollectionData, PropertyStruct, PropertyType, PropertyVariantMapping,
};
use crate::text::texts;
use crate::rules::{all_properties_known, block_views, find_property, row_of, table_has};

verus! {

broadcast use vstd::std_specs::hash::group_hash_axioms;

/// The property lists of the blocks.
pub open spec fn property_lists(blocks: Seq<BlockView>) -> Seq<Seq<i32>> {
    Seq::new(blocks.len(), |b: int| blocks[b].properties)
}

/// Two lists name the same set of properties.
pub open spec fn same_keys(a: Seq<i32>, b: Seq<i32>) -> bool {
    forall|k: i32| a.contains(k) <==> b.contains(k)
}

/// Block `b` names properties, and no block before it names the same set.
pub open spec fn is_leader(lists: Seq<Seq<i32>>, b: int) -> bool {
    &&& lists[b].len() > 0
    &&& forall|a: int| 0 <= a < b ==> !same_keys(#[trigger] lists[a], lists[b])
}

/// The leaders among the first `n` blocks, in rising order.
pub open spec fn leaders(lists: Seq<Seq<i32>>, n: int) -> Seq<int>
    decreases n,
{
    if n <= 0 {
        Seq::empty()
    } else if is_leader(lists, n - 1) {
        leaders(lists, n - 1).push(n - 1)
    } else {
        leaders(lists, n - 1)
    }
}

/// Block `b` names properties, and they are the set `keys`.
pub open spec fn is_member(lists: Seq<Seq<i32>>, keys: Seq<i32>, b: int) -> bool {
    lists[b].len() > 0 && same_keys(lists[b], keys)
}

/// Those of the first `n` blocks that are members of the family with the
/// properties `keys`, in rising order.
pub open spec fn members(lists: Seq<Seq<i32>>, keys: Seq<i32>, n: int) -> Seq<int>
    decreases n,
{
    if n <= 0 {
        Seq::empty()
    } else if is_member(lists, keys, n - 1) {
        members(lists, keys, n - 1).push(n - 1)
    } else {
        members(lists, keys, n - 1)
    }
}

/// The number of variants of each property of a list, in the list's order.
pub open spec fn block_radices(table: Seq<GeneratedProperty>, keys: Seq<i32>) -> Seq<u16> {
    Seq::new(keys.len(), |i: int| table[row_of(table, keys[i])->Some_0].spec_values().len() as u16)
}

/// Each property of the list has between 1 and 65535 variants, and the
/// values of the list can be numbered with 16 bits.
pub open spec fn layout_ok(table: Seq<GeneratedProperty>, keys: Seq<i32>) -> bool {
    &&& forall|i: int|
        0 <= i < keys.len() ==> 1 <= table[row_of(
            table,
            #[trigger] keys[i],
        )->Some_0].spec_values().len() <= u16::MAX
    &&& valid_layout(block_radices(table, keys))
}

/// Every block's property list can be laid out.
pub open spec fn all_layouts_ok(blocks: Seq<BlockView>, table: Seq<GeneratedProperty>) -> bool {
    forall|b: int| 0 <= b < blocks.len() ==> layout_ok(table, (#[trigger] blocks[b]).properties)
}

/// Every member of a family has one state for each value of the family's
/// properties.
pub open spec fn sizes_match(blocks: Seq<BlockView>, table: Seq<GeneratedProperty>) -> bool {
    forall|l: int, b: int|
        #![trigger blocks[l], blocks[b]]
        0 <= l < blocks.len() && 0 <= b < blocks.len() && is_leader(property_lists(blocks), l)
            && is_member(property_lists(blocks), blocks[l].properties, b)
            ==> blocks[b].states.len() == product(block_radices(table, blocks[l].properties))
}

/// A property of a group and its enumeration say what the row of the
/// property table says.
pub open spec fn describes(
    mapping: PropertyVariantMapping,
    variants: PropertyStruct,
    row: GeneratedProperty,
) -> bool {
    &&& mapping.original_name@ == row.serialized_name@
    &&& variants.name@ == upper_camel_case(row.spec_enum_name())
    &&& variants.variants() == row.spec_values()
    &&& match mapping.property_type {
        PropertyType::Bool => row.spec_values() == boolean_values(),
        PropertyType::Enum { name } => row.spec_values() != boolean_values() && name@
            == upper_camel_case(row.spec_enum_name()),
    }
}

/// The group is that of the family led by block `leader`: its properties are
/// those of the leader, in the leader's order, and its blocks are the
/// family's members, in rising order.
pub open spec fn group_stands_for(
    group: BlockPropertyStruct,
    blocks: Seq<BlockView>,
    table: Seq<GeneratedProperty>,
    leader: int,
) -> bool {
    let keys = blocks[leader].properties;
    let family = members(property_lists(blocks), keys, blocks.len() as int);
    &&& group.variants@.len() == keys.len()
    &&& group.data.variant_mappings@.len() == keys.len()
    &&& forall|i: int|
        0 <= i < keys.len() ==> row_of(table, #[trigger] keys[i]) is Some && describes(
            group.data.variant_mappings@[i],
            group.variants@[i],
            table[row_of(table, keys[i])->Some_0],
        )
    &&& group.data.blocks@.len() == family.len()
    &&& forall|k: int|
        0 <= k < family.len() ==> (#[trigger] group.data.blocks@[k]).0@ == blocks[family[k]].name
            && group.data.blocks@[k].1 == blocks[family[k]].id
}

/// What `leaders` lists are leaders, below `n`.
pub proof fn lemma_leaders(lists: Seq<Seq<i32>>, n: int, g: int)
    requires
        0 <= g < leaders(lists, n).len(),
    ensures
        0 <= leaders(lists, n)[g] < n,
        is_leader(lists, leaders(lists, n)[g]),
    decreases n,
{
    if n > 0 {
        if g < leaders(lists, n - 1).len() {
            lemma_leaders(lists, n - 1, g);
        }
    }
}

/// What `members` lists are members, below `n`.
pub proof fn lemma_members(lists: Seq<Seq<i32>>, keys: Seq<i32>, n: int, k: int)
    requires
        0 <= k < members(lists, keys, n).len(),
    ensures
        0 <= members(lists, keys, n)[k] < n,
        is_member(lists, keys, members(lists, keys, n)[k]),
    decreases n,
{
    if n > 0 {
        if k < members(lists, keys, n - 1).len() {
            lemma_members(lists, keys, n - 1, k);
        }
    }
}

/// The set of the keys of a list.
fn key_set(keys: &Vec<i32>) -> (r: HashSet<i32>)
    ensures
        forall|k: i32| r@.contains(k) <==> keys@.contains(k),
{
    let mut set: HashSet<i32> = HashSet::new();
    let mut i: usize = 0;
    while i < keys.len()
        invariant
            i <= keys.len(),
            forall|k: i32| set@.contains(k) <==> keys@.take(i as int).contains(k),
        decreases keys.len() - i,
    {
        let ghost before = keys@.take(i as int);
        let ghost after = keys@.take(i + 1);
        set.insert(keys[i]);
        proof {
            assert(after =~= before.push(keys@[i as int]));
            assert forall|k: i32| set@.contains(k) <==> after.contains(k) by {
                if before.contains(k) {
                    let j = choose|j: int| 0 <= j < before.len() && before[j] == k;
                    assert(after[j] == k);
                }
                if k == keys@[i as int] {
                    assert(after[i as int] == k);
                }
            }
        }
        i += 1;
    }
    proof {
        assert(keys@.take(i as int) =~= keys@);
    }
    set
}

/// Whether every key of a list is in a set.
fn all_in(keys: &Vec<i32>, set: &HashSet<i32>) -> (r: bool)
    ensures
        r == (forall|k: i32| keys@.contains(k) ==> set@.contains(k)),
{
    let mut i: usize = 0;
    while i < keys.len()
        invariant
            i <= keys.len(),
            forall|j: int| 0 <= j < i ==> set@.contains(#[trigger] keys@[j]),
        decreases keys.len() - i,
    {
        if !set.contains(&keys[i]) {
            assert(keys@.contains(keys@[i as int]));
            return false;
        }
        i += 1;
    }
    true
}

/// Whether two lists name the same set of properties.
pub fn same_key_set(a: &Vec<i32>, b: &Vec<i32>) -> (r: bool)
    ensures
        r == same_keys(a@, b@),
{
    let in_a = key_set(a);
    let in_b = key_set(b);
    all_in(a, &in_b) && all_in(b, &in_a)
}

/// Whether a block leads a family.
pub fn leads(blocks: &Vec<Block>, b: usize) -> (r: bool)
    requires
        b < blocks.len(),
    ensures
        r == is_leader(property_lists(block_views(blocks@)), b as int),
{
    let ghost lists = property_lists(block_views(blocks@));
    assert(lists[b as int] == blocks@[b as int].properties@);
    if blocks[b].properties.len() == 0 {
        return false;
    }
    let mut a: usize = 0;
    while a < b
        invariant
            a <= b < blocks.len(),
            lists == property_lists(block_views(blocks@)),
            lists[b as int] == blocks@[b as int].properties@,
            forall|x: int| 0 <= x < a ==> !same_keys(#[trigger] lists[x], lists[b as int]),
        decreases b - a,
    {
        assert(lists[a as int] == blocks@[a as int].properties@);
        if same_key_set(&blocks[a].properties, &blocks[b].properties) {
            return false;
        }
        a += 1;
    }
    true
}

/// The number of variants of a row of the property table.
pub fn value_count(row: &GeneratedProperty) -> (r: usize)
    ensures
        r == row.spec_values().len(),
{
    match &row.property_type {
        GeneratedPropertyType::Boolean => {
            assert(boolean_values().len() == 2);
            2
        },
        GeneratedPropertyType::Int { min, max } => {
            if *min <= *max {
                (*max - *min) as usize + 1
            } else {
                0
            }
        },
        GeneratedPropertyType::Enum { values } => values.len(),
    }
}

/// The number of values of a property list, where it can be laid out.
pub fn layout_of(table: &Vec<GeneratedProperty>, keys: &Vec<i32>) -> (r: Option<u32>)
    requires
        forall|i: int| 0 <= i < keys@.len() ==> table_has(table@, #[trigger] keys@[i]),
    ensures
        r is Some <==> layout_ok(table@, keys@),
        r matches Some(n) ==> n == product(block_radices(table@, keys@)),
{
    let mut radices: Vec<u16> = Vec::new();
    let mut i: usize = 0;
    while i < keys.len()
        invariant
            i <= keys.len(),
            forall|j: int| 0 <= j < keys@.len() ==> table_has(table@, #[trigger] keys@[j]),
            radices@ == block_radices(table@, keys@).take(i as int),
            forall|j: int|
                0 <= j < i ==> 1 <= table@[row_of(
                    table@,
                    #[trigger] keys@[j],
                )->Some_0].spec_values().len() <= u16::MAX,
        decreases keys.len() - i,
    {
        assert(table_has(table@, keys@[i as int]));
        let p = find_property(table, keys[i]);
        let n = value_count(&table[p]);
        if n == 0 || n > 65535 {
            return None;
        }
        radices.push(n as u16);
        proof {
            assert(block_radices(table@, keys@).take(i + 1) =~= block_radices(
                table@,
                keys@,
            ).take(i as int).push(n as u16));
        }
        i += 1;
    }
    proof {
        assert(block_radices(table@, keys@).take(i as int) =~= block_radices(table@, keys@));
    }
    layout_size(&radices)
}

/// Whether every block's property list can be laid out.
pub fn check_layouts(blocks: &Vec<Block>, table: &Vec<GeneratedProperty>) -> (ok: bool)
    requires
        all_properties_known(block_views(blocks@), table@),
    ensures
        ok == all_layouts_ok(block_views(blocks@), table@),
{
    let mut b: usize = 0;
    while b < blocks.len()
        invariant
            b <= blocks.len(),
            all_properties_known(block_views(blocks@), table@),
            forall|x: int|
                0 <= x < b ==> layout_ok(table@, (#[trigger] block_views(blocks@)[x]).properties),
        decreases blocks.len() - b,
    {
        proof {
            let views = block_views(blocks@);
            assert(views[b as int].properties == blocks@[b as int].properties@);
            assert forall|i: int| 0 <= i < blocks@[b as int].properties@.len() implies table_has(
                table@,
                #[trigger] blocks@[b as int].properties@[i],
            ) by {
                assert(table_has(table@, views[b as int].properties[i]));
            }
        }
        if layout_of(table, &blocks[b].properties).is_none() {
            return false;
        }
        b += 1;
    }
    true
}

/// Whether every member of a family has one state for each value of the
/// family's properties.
pub fn check_sizes(blocks: &Vec<Block>, table: &Vec<GeneratedProperty>) -> (ok: bool)
    requires
        all_properties_known(block_views(blocks@), table@),
        all_layouts_ok(block_views(blocks@), table@),
    ensures
        ok == sizes_match(block_views(blocks@), table@),
{
    let ghost views = block_views(blocks@);
    let ghost lists = property_lists(views);
    let mut l: usize = 0;
    while l < blocks.len()
        invariant
            l <= blocks.len(),
            views == block_views(blocks@),
            lists == property_lists(views),
            all_properties_known(views, table@),
            all_layouts_ok(views, table@),
            forall|x: int, y: int|
                #![trigger views[x], views[y]]
                0 <= x < l && 0 <= y < blocks.len() && is_leader(lists, x) && is_member(
                    lists,
                    views[x].properties,
                    y,
                ) ==> views[y].states.len() == product(block_radices(table@, views[x].properties)),
        decreases blocks.len() - l,
    {
        if leads(blocks, l) {
            proof {
                assert(views[l as int].properties == blocks@[l as int].properties@);
                assert(layout_ok(table@, views[l as int].properties));
                assert forall|i: int|
                    0 <= i < blocks@[l as int].properties@.len() implies table_has(
                    table@,
                    #[trigger] blocks@[l as int].properties@[i],
                ) by {
                    assert(table_has(table@, views[l as int].properties[i]));
                }
            }
            let size = match layout_of(table, &blocks[l].properties) {
                Some(size) => size,
                None => 0,
            };
            let mut b: usize = 0;
            while b < blocks.len()
                invariant
                    b <= blocks.len(),
                    l < blocks.len(),
                    views == block_views(blocks@),
                    lists == property_lists(views),
                    is_leader(lists, l as int),
                    size == product(block_radices(table@, views[l as int].properties)),
                    views[l as int].properties == blocks@[l as int].properties@,
                    forall|y: int|
                        0 <= y < b && is_member(lists, views[l as int].properties, y) ==> (
                        #[trigger] views[y]).states.len() == size,
                decreases blocks.len() - b,
            {
                proof {
                    assert(views[b as int].properties == blocks@[b as int].properties@);
                    assert(lists[b as int] == blocks@[b as int].properties@);
                    assert(views[b as int].states.len() == blocks@[b as int].states@.len());
                }
                if blocks[b].properties.len() > 0 && same_key_set(
                    &blocks[b].properties,
                    &blocks[l].properties,
                ) && blocks[b].states.len() != size as usize {
                    proof {
                        assert(is_member(lists, views[l as int].properties, b as int));
                        assert(views[b as int].states.len() != product(
                            block_radices(table@, views[l as int].properties),
                        ));
                    }
                    return false;
                }
                b += 1;
            }
        }
        l += 1;
    }
    true
}

/// The positions of the blocks that lead a family, in rising order.
pub fn find_leaders(blocks: &Vec<Block>) -> (r: Vec<usize>)
    ensures
        r@.len() == leaders(property_lists(block_views(blocks@)), blocks@.len() as int).len(),
        forall|g: int|
            0 <= g < r@.len() ==> (#[trigger] r@[g]) == leaders(
                property_lists(block_views(blocks@)),
                blocks@.len() as int,
            )[g],
{
    let ghost lists = property_lists(block_views(blocks@));
    let mut r: Vec<usize> = Vec::new();
    let mut b: usize = 0;
    while b < blocks.len()
        invariant
            b <= blocks.len(),
            lists == property_lists(block_views(blocks@)),
            r@.len() == leaders(lists, b as int).len(),
            forall|g: int| 0 <= g < r@.len() ==> (#[trigger] r@[g]) == leaders(lists, b as int)[g],
        decreases blocks.len() - b,
    {
        if leads(blocks, b) {
            r.push(b);
        }
        b += 1;
    }
    r
}

/// The property of a group and its enumeration that a row of the property
/// table describes.
pub fn describe(row: &GeneratedProperty) -> (r: (PropertyVariantMapping, PropertyStruct))
    ensures
        describes(r.0, r.1, *row),
{
    let property = row.to_property();
    let renamed = enum_name_from_property_name(property.enum_name.as_str());
    describe_as(property, renamed)
}

/// The property of a group and its enumeration for a spelled-out property,
/// given the name of the enumeration: a property with the variants `true`
/// and `false` is typed as a truth value, any other as a variant of the
/// enumeration.
pub fn describe_as(property: Property, renamed: String) -> (r: (
    PropertyVariantMapping,
    PropertyStruct,
))
    ensures
        r.0.original_name@ == property.serialized_name@,
        r.1.name@ == renamed@,
        r.1.variants() == texts(property.values@),
        match r.0.property_type {
            PropertyType::Bool => texts(property.values@) == boolean_values(),
            PropertyType::Enum { name } => texts(property.values@) != boolean_values() && name@
                == renamed@,
        },
{
    let variants = PropertyStruct { name: renamed, values: property.values };
    let property_type = if variants.is_boolean() {
        PropertyType::Bool
    } else {
        PropertyType::Enum { name: variants.name.clone() }
    };
    (PropertyVariantMapping { original_name: property.serialized_name, property_type }, variants)
}

/// The property group of the family that a block leads.
pub fn make_group(blocks: &Vec<Block>, table: &Vec<GeneratedProperty>, leader: usize) -> (r:
    BlockPropertyStruct)
    requires
        leader < blocks.len(),
        all_properties_known(block_views(blocks@), table@),
        all_layouts_ok(block_views(blocks@), table@),
    ensures
        group_stands_for(r, block_views(blocks@), table@, leader as int),
        r.well_formed(),
        r.radices() == block_radices(table@, blocks@[leader as int].properties@),
{
    let ghost views = block_views(blocks@);
    let ghost lists = property_lists(views);
    let keys = &blocks[leader].properties;
    proof {
        assert(views[leader as int].properties == keys@);
        assert(layout_ok(table@, views[leader as int].properties));
    }
    let mut mappings: Vec<PropertyVariantMapping> = Vec::new();
    let mut variants: Vec<PropertyStruct> = Vec::new();
    let mut i: usize = 0;
    while i < keys.len()
        invariant
            i <= keys.len(),
            leader < blocks.len(),
            views == block_views(blocks@),
            views[leader as int].properties == keys@,
            all_properties_known(views, table@),
            layout_ok(table@, keys@),
            mappings@.len() == i,
            variants@.len() == i,
            forall|j: int|
                0 <= j < i ==> row_of(table@, #[trigger] keys@[j]) is Some && describes(
                    mappings@[j],
                    variants@[j],
                    table@[row_of(table@, keys@[j])->Some_0],
                ),
        decreases keys.len() - i,
    {
        assert(table_has(table@, views[leader as int].properties[i as int]));
        let p = find_property(table, keys[i]);
        let (mapping, variant) = describe(&table[p]);
        mappings.push(mapping);
        variants.push(variant);
        i += 1;
    }
    let mut family: Vec<(String, u16)> = Vec::new();
    let mut b: usize = 0;
    while b < blocks.len()
        invariant
            b <= blocks.len(),
            leader < blocks.len(),
            views == block_views(blocks@),
            lists == property_lists(views),
            *keys == blocks@[leader as int].properties,
            family@.len() == members(lists, keys@, b as int).len(),
            forall|k: int|
                0 <= k < family@.len() ==> (#[trigger] family@[k]).0@ == views[members(
                    lists,
                    keys@,
                    b as int,
                )[k]].name && family@[k].1 == views[members(lists, keys@, b as int)[k]].id,
        decreases blocks.len() - b,
    {
        proof {
            assert(lists[b as int] == blocks@[b as int].properties@);
            assert(views[b as int].name == blocks@[b as int].name@);
        }
        if blocks[b].properties.len() > 0 && same_key_set(&blocks[b].properties, keys) {
            family.push((blocks[b].name.clone(), blocks[b].id));
        }
        b += 1;
    }
    let group = BlockPropertyStruct {
        data: PropertyCollectionData { variant_mappings: mappings, blocks: family },
        variants,
    };
    proof {
        assert(group.radices() =~= block_radices(table@, keys@)) by {
            assert forall|j: int| 0 <= j < keys@.len() implies group.radices()[j] == block_radices(
                table@,
                keys@,
            )[j] by {
                assert(row_of(table@, keys@[j]) is Some);
                assert(group.variants@[j].variants().len() == group.variants@[j].values@.len());
            }
        }
        assert forall|j: int| 0 <= j < group.variants@.len() implies 1 <= (
        #[trigger] group.variants@[j]).values@.len() <= u16::MAX by {
            assert(row_of(table@, keys@[j]) is Some);
            assert(group.variants@[j].variants().len() == group.variants@[j].values@.len());
        }
        assert forall|j: int|
            0 <= j < group.variants@.len() && (
            #[trigger] group.data.variant_mappings@[j]).property_type is Bool implies group.variants@[j].variants()
            == boolean_values() by {
            assert(row_of(table@, keys@[j]) is Some);
        }
    }
    group
}

} // verus!
