//! Building the catalog from the asset tables.

use vstd::prelude::*;
use crate::block::{Block, BlockAssets, BlockState, CollisionShape, OptimizedBlock};
use crate::catalog::Catalog;
use crate::families::{
    all_layouts_ok, block_radices, check_layouts, check_sizes, find_leaders, group_stands_for,
    is_leader, is_member, leaders, lemma_leaders, lemma_members, make_group, members,
    property_lists, sizes_match,
};
use crate::group::BlockPropertyStruct;
use crate::property::GeneratedProperty;
use crate::rules::{
    all_apart, all_contiguous, all_defaults_in_range, all_have_states, all_properties_known,
    block_ids, block_views, check_apart, check_defaults, check_distinct_ids,
    check_distinct_properties, check_properties_known, check_states_contiguous,
    check_states_present, distinct_ids, no_duplicate_properties, BuildError,
};
use crate::states::{
    add_states, distinct_states, lemma_table_fits, optimize, stands_for, state_views,
};
use crate::text::{copy_strings, texts};

verus! {

/// The first rule, in the order of `BuildError`, that the asset tables
/// break; `None` where they keep them all.
pub open spec fn first_violation(assets: &BlockAssets, table: Seq<GeneratedProperty>) -> Option<
    BuildError,
> {
    let blocks = block_views(assets.blocks@);
    if !distinct_ids(blocks) {
        Some(BuildError::DuplicateBlockId)
    } else if !all_have_states(blocks) {
        Some(BuildError::NoStates)
    } else if !all_contiguous(blocks) {
        Some(BuildError::StatesNotContiguous)
    } else if !all_defaults_in_range(blocks) {
        Some(BuildError::DefaultStateMissing)
    } else if !all_apart(blocks) {
        Some(BuildError::OverlappingStates)
    } else if !all_properties_known(blocks, table) {
        Some(BuildError::UnknownProperty)
    } else if !no_duplicate_properties(blocks) {
        Some(BuildError::DuplicateProperty)
    } else if !all_layouts_ok(blocks, table) {
        Some(BuildError::InvalidProperty)
    } else if !sizes_match(blocks, table) {
        Some(BuildError::PropertyRangeMismatch)
    } else {
        None
    }
}

/// The catalog holds what the asset tables describe: the table of distinct
/// state payloads; for each block of the asset table, in its order, the
/// block that stands for it; the shapes and block entity types as they are;
/// and for each family of blocks, in the order of their leaders, its
/// property group.
pub open spec fn built_from(
    catalog: &Catalog,
    assets: &BlockAssets,
    table: Seq<GeneratedProperty>,
) -> bool {
    let blocks = block_views(assets.blocks@);
    let lead = leaders(property_lists(blocks), blocks.len() as int);
    &&& state_views(catalog.states@) == distinct_states(blocks)
    &&& catalog.blocks@.len() == blocks.len()
    &&& forall|b: int|
        0 <= b < blocks.len() ==> stands_for(
            (#[trigger] catalog.blocks@[b])@,
            blocks[b],
            distinct_states(blocks),
        )
    &&& catalog.shapes@ == assets.shapes@
    &&& texts(catalog.block_entity_types@) == texts(assets.block_entity_types@)
    &&& catalog.groups@.len() == lead.len()
    &&& forall|g: int|
        0 <= g < lead.len() ==> group_stands_for(
            #[trigger] catalog.groups@[g],
            blocks,
            table,
            lead[g],
        )
}

/// A copy of the shape table.
fn copy_shapes(v: &Vec<CollisionShape>) -> (r: Vec<CollisionShape>)
    ensures
        r@ == v@,
{
    let mut r: Vec<CollisionShape> = Vec::new();
    let mut i: usize = 0;
    while i < v.len()
        invariant
            i <= v.len(),
            r@ == v@.take(i as int),
        decreases v.len() - i,
    {
        r.push(v[i]);
        proof {
            assert(v@.take(i + 1) =~= v@.take(i as int).push(v@[i as int]));
        }
        i += 1;
    }
    proof {
        assert(v@.take(i as int) =~= v@);
    }
    r
}

/// The table of distinct state payloads and, for each state of each block,
/// the place of its payload in the table.
fn collect_states(blocks: &Vec<Block>) -> (r: (Vec<BlockState>, Vec<Vec<usize>>))
    ensures
        state_views(r.0@) == distinct_states(block_views(blocks@)),
        r.1@.len() == blocks@.len(),
        forall|b: int|
            0 <= b < blocks@.len() ==> (#[trigger] r.1@[b])@.len() == blocks@[b].states@.len(),
        forall|b: int, j: int|
            0 <= b < blocks@.len() && 0 <= j < r.1@[b]@.len() ==> (#[trigger] r.1@[b]@[j])
                < r.0@.len() && r.0@[r.1@[b]@[j] as int]@.same_payload(
                blocks@[b].states@[j]@,
            ),
{
    let ghost views = block_views(blocks@);
    let mut table: Vec<BlockState> = Vec::new();
    let mut rows: Vec<Vec<usize>> = Vec::new();
    let mut b: usize = 0;
    proof {
        assert(views.take(0) =~= Seq::empty());
        assert(state_views(table@) =~= distinct_states(views.take(0)));
    }
    while b < blocks.len()
        invariant
            b <= blocks.len(),
            views == block_views(blocks@),
            state_views(table@) == distinct_states(views.take(b as int)),
            rows@.len() == b,
            forall|x: int| 0 <= x < b ==> (#[trigger] rows@[x])@.len() == blocks@[x].states@.len(),
            forall|x: int, j: int|
                0 <= x < b && 0 <= j < rows@[x]@.len() ==> (#[trigger] rows@[x]@[j]) < table@.len()
                    && table@[rows@[x]@[j] as int]@.same_payload(blocks@[x].states@[j]@),
        decreases blocks.len() - b,
    {
        let ghost before = table@;
        let ghost old_rows = rows@;
        let row = add_states(&mut table, &blocks[b]);
        proof {
            assert(views.take(b + 1).drop_last() =~= views.take(b as int));
            assert(views.take(b + 1).last() == blocks@[b as int]@);
        }
        rows.push(row);
        proof {
            assert forall|x: int, j: int| 0 <= x < b + 1 && 0 <= j < rows@[x]@.len() implies (
            #[trigger] rows@[x]@[j]) < table@.len() && table@[rows@[x]@[j] as int]@.same_payload(
                blocks@[x].states@[j]@,
            ) by {
                if x < b {
                    assert(rows@[x] == old_rows[x]);
                    assert(old_rows[x]@[j] < before.len());
                    assert(table@[old_rows[x]@[j] as int] == before[old_rows[x]@[j] as int]);
                }
            }
        }
        b += 1;
    }
    proof {
        assert(views.take(b as int) =~= views);
    }
    (table, rows)
}

/// The first rule that the asset tables break; `None` where they keep them
/// all, so that a catalog can be built from them.
pub fn broken_rule(assets: &BlockAssets, generated_properties: &Vec<GeneratedProperty>) -> (r:
    Option<BuildError>)
    ensures
        r == first_violation(assets, generated_properties@),
{
    let blocks = &assets.blocks;
    if !check_distinct_ids(blocks) {
        return Some(BuildError::DuplicateBlockId);
    }
    if !check_states_present(blocks) {
        return Some(BuildError::NoStates);
    }
    if !check_states_contiguous(blocks) {
        return Some(BuildError::StatesNotContiguous);
    }
    if !check_defaults(blocks) {
        return Some(BuildError::DefaultStateMissing);
    }
    if !check_apart(blocks) {
        return Some(BuildError::OverlappingStates);
    }
    if !check_properties_known(blocks, generated_properties) {
        return Some(BuildError::UnknownProperty);
    }
    if !check_distinct_properties(blocks) {
        return Some(BuildError::DuplicateProperty);
    }
    if !check_layouts(blocks, generated_properties) {
        return Some(BuildError::InvalidProperty);
    }
    if !check_sizes(blocks, generated_properties) {
        return Some(BuildError::PropertyRangeMismatch);
    }
    None
}

/// Builds the catalog from asset tables that keep the rules: every block
/// has its states, with its default state among them, and names only
/// properties of the property table.
pub fn build(assets: &BlockAssets, generated_properties: &Vec<GeneratedProperty>) -> (catalog:
    Catalog)
    requires
        first_violation(assets, generated_properties@) is None,
    ensures
        built_from(&catalog, assets, generated_properties@),
        catalog.valid(),
{
    let blocks = &assets.blocks;
    let ghost views = block_views(blocks@);
    let ghost lists = property_lists(views);
    let (states, rows) = collect_states(blocks);
    proof {
        lemma_table_fits(views);
        assert(state_views(states@).len() == states@.len());
    }
    let mut optimized: Vec<OptimizedBlock> = Vec::new();
    let mut b: usize = 0;
    while b < blocks.len()
        invariant
            b <= blocks.len(),
            views == block_views(blocks@),
            states@.len() <= 65536,
            rows@.len() == blocks@.len(),
            forall|x: int|
                0 <= x < blocks@.len() ==> (#[trigger] rows@[x])@.len() == blocks@[x].states@.len(),
            forall|x: int, j: int|
                0 <= x < blocks@.len() && 0 <= j < rows@[x]@.len() ==> (#[trigger] rows@[x]@[j])
                    < states@.len() && states@[rows@[x]@[j] as int]@.same_payload(
                    blocks@[x].states@[j]@,
                ),
            optimized@.len() == b,
            forall|x: int|
                0 <= x < b ==> stands_for(
                    (#[trigger] optimized@[x])@,
                    views[x],
                    state_views(states@),
                ),
        decreases blocks.len() - b,
    {
        let row = &rows[b];
        proof {
            assert(row@.len() == blocks@[b as int].states@.len());
            assert forall|j: int| 0 <= j < row@.len() implies (#[trigger] row@[j]) < states@.len()
                && states@[row@[j] as int]@.same_payload(blocks@[b as int].states@[j]@) by {
                assert(rows@[b as int]@[j] < states@.len());
            }
        }
        let block = optimize(&blocks[b], row, &states);
        optimized.push(block);
        b += 1;
    }
    let lead = find_leaders(blocks);
    let mut groups: Vec<BlockPropertyStruct> = Vec::new();
    let mut g: usize = 0;
    while g < lead.len()
        invariant
            g <= lead.len(),
            views == block_views(blocks@),
            lists == property_lists(views),
            all_properties_known(views, generated_properties@),
            all_layouts_ok(views, generated_properties@),
            lead@.len() == leaders(lists, blocks@.len() as int).len(),
            forall|x: int|
                0 <= x < lead@.len() ==> (#[trigger] lead@[x]) == leaders(
                    lists,
                    blocks@.len() as int,
                )[x],
            groups@.len() == g,
            forall|x: int|
                0 <= x < g ==> {
                    &&& group_stands_for(
                        #[trigger] groups@[x],
                        views,
                        generated_properties@,
                        leaders(lists, blocks@.len() as int)[x],
                    )
                    &&& groups@[x].well_formed()
                    &&& groups@[x].radices() == block_radices(
                        generated_properties@,
                        views[leaders(lists, blocks@.len() as int)[x]].properties,
                    )
                },
        decreases lead.len() - g,
    {
        proof {
            lemma_leaders(lists, blocks@.len() as int, g as int);
            assert(lead@[g as int] == leaders(lists, blocks@.len() as int)[g as int]);
            assert(views[lead@[g as int] as int].properties == blocks@[lead@[g as int] as int].properties@);
        }
        let group = make_group(blocks, generated_properties, lead[g]);
        groups.push(group);
        g += 1;
    }
    let catalog = Catalog {
        blocks: optimized,
        states,
        shapes: copy_shapes(&assets.shapes),
        block_entity_types: copy_strings(&assets.block_entity_types),
        groups,
    };
    proof {
        lemma_built_catalog_valid(&catalog, views, generated_properties@);
    }
    catalog
}

/// A catalog that holds what rule-keeping asset tables describe is valid.
proof fn lemma_built_catalog_valid(
    catalog: &Catalog,
    blocks: Seq<crate::block::BlockView>,
    table: Seq<GeneratedProperty>,
)
    requires
        distinct_ids(blocks),
        all_have_states(blocks),
        all_contiguous(blocks),
        all_defaults_in_range(blocks),
        all_apart(blocks),
        sizes_match(blocks, table),
        catalog.blocks@.len() == blocks.len(),
        forall|b: int|
            0 <= b < blocks.len() ==> stands_for(
                (#[trigger] catalog.blocks@[b])@,
                blocks[b],
                state_views(catalog.states@),
            ),
        catalog.groups@.len() == leaders(property_lists(blocks), blocks.len() as int).len(),
        forall|g: int|
            0 <= g < catalog.groups@.len() ==> {
                &&& group_stands_for(
                    #[trigger] catalog.groups@[g],
                    blocks,
                    table,
                    leaders(property_lists(blocks), blocks.len() as int)[g],
                )
                &&& catalog.groups@[g].well_formed()
                &&& catalog.groups@[g].radices() == block_radices(
                    table,
                    blocks[leaders(property_lists(blocks), blocks.len() as int)[g]].properties,
                )
            },
    ensures
        catalog.valid(),
{
    let lists = property_lists(blocks);
    let n = blocks.len() as int;
    assert forall|b: int| 0 <= b < catalog.blocks@.len() implies (
    #[trigger] catalog.blocks@[b])@.contiguous() && catalog.blocks@[b]@.owns_state(
        catalog.blocks@[b].default_state_id as int,
    ) && catalog.blocks@[b]@.first_state_id() == blocks[b].first_state_id()
        && catalog.blocks@[b]@.last_state_id() == blocks[b].last_state_id() by {
        let cb = catalog.blocks@[b]@;
        let ab = blocks[b];
        assert(stands_for(cb, ab, state_views(catalog.states@)));
        assert(ab.states.len() >= 1);
        assert(ab.contiguous());
        assert(ab.default_in_range());
        assert(cb.states[0].id == ab.states[0].id);
        assert(cb.states[cb.states.len() - 1].id == ab.states[ab.states.len() - 1].id);
        assert forall|i: int| 0 <= i < cb.states.len() implies (#[trigger] cb.states[i]).id
            == cb.states[0].id + i by {
            assert(ab.states[i].id == ab.states[0].id + i);
        }
    }
    assert forall|a: int, b: int| 0 <= a < b < catalog.blocks@.len() implies (
    #[trigger] catalog.blocks@[a])@.last_state_id() < (
    #[trigger] catalog.blocks@[b])@.first_state_id() || catalog.blocks@[b]@.last_state_id()
        < catalog.blocks@[a]@.first_state_id() by {
        assert(blocks[a].apart_from(blocks[b]));
    }
    assert(catalog.ids() =~= block_ids(blocks)) by {
        assert forall|b: int| 0 <= b < blocks.len() implies catalog.ids()[b] == block_ids(
            blocks,
        )[b] by {
            assert(stands_for(catalog.blocks@[b]@, blocks[b], state_views(catalog.states@)));
        }
    }
    assert forall|b: int, j: int|
        0 <= b < catalog.blocks@.len() && 0 <= j < catalog.blocks@[b].states@.len() implies (
    #[trigger] catalog.blocks@[b].states@[j]).state_idx < catalog.states@.len() by {
        assert(stands_for(catalog.blocks@[b]@, blocks[b], state_views(catalog.states@)));
        assert(catalog.blocks@[b]@.states[j].state_idx < state_views(catalog.states@).len());
    }
    assert forall|g: int, b: int|
        0 <= g < catalog.groups@.len() && 0 <= b < catalog.blocks@.len() && (
        #[trigger] catalog.groups@[g]).handles(
            (#[trigger] catalog.blocks@[b]).id,
        ) implies catalog.blocks@[b].states@.len() == catalog.groups@[g].size() by {
        let group = catalog.groups@[g];
        let l = leaders(lists, n)[g];
        lemma_leaders(lists, n, g);
        let keys = blocks[l].properties;
        let family = members(lists, keys, n);
        assert(group_stands_for(group, blocks, table, l));
        let ids = group.data.block_ids();
        let id = catalog.blocks@[b].id;
        let k = choose|k: int| 0 <= k < ids.len() && ids[k] == id;
        lemma_members(lists, keys, n, k);
        let m = family[k];
        assert(group.data.blocks@[k].1 == blocks[m].id);
        assert(stands_for(catalog.blocks@[b]@, blocks[b], state_views(catalog.states@)));
        assert(block_ids(blocks)[m] == block_ids(blocks)[b]);
        assert(m == b);
        assert(is_member(lists, blocks[l].properties, b));
        assert(is_leader(lists, l));
        assert(blocks[b].states.len() == product_of(table, blocks[l].properties));
    }
}

/// The catalog gives every state of the asset table back as it stands
/// there: looked up by its id, a state has the payload and the id that the
/// asset table gives it.
pub proof fn law_catalog_keeps_states(
    catalog: &Catalog,
    assets: &BlockAssets,
    table: Seq<GeneratedProperty>,
    b: int,
    j: int,
)
    requires
        first_violation(assets, table) is None,
        built_from(catalog, assets, table),
        catalog.valid(),
        0 <= b < assets.blocks@.len(),
        0 <= j < assets.blocks@[b].states@.len(),
    ensures
        catalog.spec_state(assets.blocks@[b].states@[j].id) == Some(assets.blocks@[b].states@[j]@),
{
    let blocks = block_views(assets.blocks@);
    let asset = blocks[b];
    let state = asset.states[j];
    assert(state == assets.blocks@[b].states@[j]@);
    let id = state.id;
    let block = catalog.blocks@[b]@;
    assert(stands_for(block, asset, distinct_states(blocks)));
    assert(block.contiguous());
    assert(block.states[j].id == id);
    assert(block.states[block.states.len() - 1].id == block.states[0].id + block.states.len() - 1);
    assert(block.owns_state(id as int));
    crate::catalog::law_state_lookup(catalog, id, b);
    let ids = crate::catalog::ref_ids(catalog.blocks@[b].states@);
    assert forall|k: int| 0 <= k < j implies ids[k] != id by {
        assert(block.states[k].id == block.states[0].id + k);
    }
    crate::search::lemma_index_of_first(ids, id, j);
    let r = catalog.blocks@[b].states@[j];
    assert(r == block.states[j]);
    assert(r.state_idx < catalog.states@.len()) by {
        assert(state_views(catalog.states@).len() == catalog.states@.len());
    }
    let kept = catalog.states@[r.state_idx as int]@;
    assert(kept == state_views(catalog.states@)[r.state_idx as int]);
    assert(kept.same_payload(state));
    assert(kept.with_id(id) == state);
}

/// The number of values of a property list.
pub open spec fn product_of(table: Seq<GeneratedProperty>, keys: Seq<i32>) -> int {
    crate::codec::product(block_radices(table, keys))
}

} // verus!
