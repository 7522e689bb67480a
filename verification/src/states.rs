//! The table of distinct state payloads: states that differ in nothing but
//! their ids are kept once, and each block's states refer to the table.

use vstd::prelude::*;
use vstd::set_lib::{lemma_int_range, lemma_len_subset, lemma_set_disjoint_lens, set_int_range};
use crate::rules::{all_apart, all_contiguous, all_have_states};
use crate::block::{
    Block, BlockState, BlockStateRef, BlockStateView, BlockView, OptimizedBlock,
    OptimizedBlockView,
};

verus! {

/// What a list of states holds.
pub open spec fn state_views(states: Seq<BlockState>) -> Seq<BlockStateView> {
    Seq::new(states.len(), |i: int| states[i]@)
}

/// The table holds a state with the same payload.
pub open spec fn has_payload(table: Seq<BlockStateView>, state: BlockStateView) -> bool {
    exists|k: int| 0 <= k < table.len() && (#[trigger] table[k]).same_payload(state)
}

/// The table after the given states were offered to it, one after the
/// other: a state whose payload the table does not hold yet is added at the
/// end, any other is passed over.
pub open spec fn extended(table: Seq<BlockStateView>, states: Seq<BlockStateView>) -> Seq<
    BlockStateView,
>
    decreases states.len(),
{
    if states.len() == 0 {
        table
    } else {
        let before = extended(table, states.drop_last());
        if has_payload(before, states.last()) {
            before
        } else {
            before.push(states.last())
        }
    }
}

/// The table of distinct payloads of all states of all blocks, each in the
/// place of its first occurrence.
pub open spec fn distinct_states(blocks: Seq<BlockView>) -> Seq<BlockStateView>
    decreases blocks.len(),
{
    if blocks.len() == 0 {
        Seq::empty()
    } else {
        extended(distinct_states(blocks.drop_last()), blocks.last().states)
    }
}

/// No two entries of the table have the same payload.
pub open spec fn payloads_differ(table: Seq<BlockStateView>) -> bool {
    forall|i: int, j: int|
        0 <= i < j < table.len() ==> !(#[trigger] table[i]).same_payload(#[trigger] table[j])
}

/// Offering states to a table whose payloads differ gives a table whose
/// payloads differ, with the entries of the first at their places.
pub proof fn lemma_extended_differ(table: Seq<BlockStateView>, states: Seq<BlockStateView>)
    requires
        payloads_differ(table),
    ensures
        payloads_differ(extended(table, states)),
        table.len() <= extended(table, states).len(),
        forall|i: int| 0 <= i < table.len() ==> extended(table, states)[i] == table[i],
    decreases states.len(),
{
    if states.len() > 0 {
        lemma_extended_differ(table, states.drop_last());
        let before = extended(table, states.drop_last());
        if !has_payload(before, states.last()) {
            let after = before.push(states.last());
            assert forall|i: int, j: int| 0 <= i < j < after.len() implies !(
            #[trigger] after[i]).same_payload(#[trigger] after[j]) by {
                if j == before.len() {
                    assert(!before[i].same_payload(states.last()));
                } else {
                    assert(!before[i].same_payload(before[j]));
                }
            }
        }
    }
}

/// The table of distinct payloads holds no payload twice: a state refers to
/// the one place of its payload.
pub proof fn law_distinct_payloads(blocks: Seq<BlockView>)
    ensures
        payloads_differ(distinct_states(blocks)),
    decreases blocks.len(),
{
    if blocks.len() > 0 {
        law_distinct_payloads(blocks.drop_last());
        lemma_extended_differ(distinct_states(blocks.drop_last()), blocks.last().states);
    }
}

/// The number of states of all blocks together.
pub open spec fn total_states(blocks: Seq<BlockView>) -> int
    decreases blocks.len(),
{
    if blocks.len() == 0 {
        0
    } else {
        total_states(blocks.drop_last()) + blocks.last().states.len()
    }
}

/// The state ids of the first `n` blocks.
pub open spec fn state_ids(blocks: Seq<BlockView>, n: int) -> Set<int>
    decreases n,
{
    if n <= 0 {
        Set::empty()
    } else {
        state_ids(blocks, n - 1) + set_int_range(
            blocks[n - 1].first_state_id(),
            blocks[n - 1].first_state_id() + blocks[n - 1].states.len(),
        )
    }
}

/// Offering states to a table adds no more entries than states are offered.
pub proof fn lemma_extended_len(table: Seq<BlockStateView>, states: Seq<BlockStateView>)
    ensures
        table.len() <= extended(table, states).len() <= table.len() + states.len(),
    decreases states.len(),
{
    if states.len() > 0 {
        lemma_extended_len(table, states.drop_last());
    }
}

/// There are no more distinct payloads than states.
pub proof fn lemma_distinct_len(blocks: Seq<BlockView>)
    ensures
        distinct_states(blocks).len() <= total_states(blocks),
    decreases blocks.len(),
{
    if blocks.len() > 0 {
        lemma_distinct_len(blocks.drop_last());
        lemma_extended_len(distinct_states(blocks.drop_last()), blocks.last().states);
    }
}

/// The state ids of blocks whose states follow one another and that share
/// no state id are as many as the blocks have states, and all of them are
/// numbers of 16 bits.
pub proof fn lemma_state_ids(blocks: Seq<BlockView>, n: int)
    requires
        all_have_states(blocks),
        all_contiguous(blocks),
        all_apart(blocks),
        0 <= n <= blocks.len(),
    ensures
        state_ids(blocks, n).finite(),
        state_ids(blocks, n).len() == total_states(blocks.take(n)),
        state_ids(blocks, n).subset_of(set_int_range(0, 65536)),
        forall|x: int|
            state_ids(blocks, n).contains(x) ==> exists|a: int|
                0 <= a < n && (#[trigger] blocks[a]).first_state_id() <= x
                    <= blocks[a].last_state_id(),
    decreases n,
{
    if n <= 0 {
        assert(blocks.take(0) =~= Seq::<BlockView>::empty());
    } else {
        lemma_state_ids(blocks, n - 1);
        let before = state_ids(blocks, n - 1);
        let block = blocks[n - 1];
        let first = block.first_state_id();
        let count = block.states.len() as int;
        assert(block.states.len() >= 1);
        assert(block.contiguous());
        assert(block.states[count - 1].id == block.states[0].id + count - 1);
        assert(block.last_state_id() == first + count - 1);
        let range = set_int_range(first, first + count);
        lemma_int_range(first, first + count);
        assert(before.disjoint(range)) by {
            assert forall|x: int| before.contains(x) implies !range.contains(x) by {
                let a = choose|a: int|
                    0 <= a < n - 1 && (#[trigger] blocks[a]).first_state_id() <= x
                        <= blocks[a].last_state_id();
                assert(blocks[a].apart_from(blocks[n - 1]));
            }
        }
        lemma_set_disjoint_lens(before, range);
        assert(blocks.take(n).drop_last() =~= blocks.take(n - 1));
        assert(blocks.take(n).last() == block);
        assert forall|x: int| state_ids(blocks, n).contains(x) implies exists|a: int|
            0 <= a < n && (#[trigger] blocks[a]).first_state_id() <= x
                <= blocks[a].last_state_id() by {
            if before.contains(x) {
                let a = choose|a: int|
                    0 <= a < n - 1 && (#[trigger] blocks[a]).first_state_id() <= x
                        <= blocks[a].last_state_id();
                assert(0 <= a < n && blocks[a].first_state_id() <= x <= blocks[a].last_state_id());
            } else {
                assert(range.contains(x));
                assert(blocks[n - 1].first_state_id() <= x <= blocks[n - 1].last_state_id());
            }
        }
        assert(state_ids(blocks, n).subset_of(set_int_range(0, 65536))) by {
            assert forall|x: int| state_ids(blocks, n).contains(x) implies set_int_range(
                0,
                65536,
            ).contains(x) by {
                if !before.contains(x) {
                    assert(range.contains(x));
                }
            }
        }
    }
}

/// The table of distinct payloads of blocks whose states follow one
/// another and that share no state id has at most as many entries as there
/// are state ids.
pub proof fn lemma_table_fits(blocks: Seq<BlockView>)
    requires
        all_have_states(blocks),
        all_contiguous(blocks),
        all_apart(blocks),
    ensures
        distinct_states(blocks).len() <= 65536,
{
    lemma_distinct_len(blocks);
    lemma_state_ids(blocks, blocks.len() as int);
    assert(blocks.take(blocks.len() as int) =~= blocks);
    lemma_int_range(0, 65536);
    lemma_len_subset(state_ids(blocks, blocks.len() as int), set_int_range(0, 65536));
}

/// A block of the catalog stands for a block of the asset table: it has the
/// same attributes, and each of its states has the id of the asset's state
/// and refers to that state's payload in the table.
pub open spec fn stands_for(
    block: OptimizedBlockView,
    asset: BlockView,
    table: Seq<BlockStateView>,
) -> bool {
    &&& block.id == asset.id
    &&& block.name == asset.name
    &&& block.translation_key == asset.translation_key
    &&& block.hardness == asset.hardness
    &&& block.blast_resistance == asset.blast_resistance
    &&& block.item_id == asset.item_id
    &&& block.loot_table == asset.loot_table
    &&& block.slipperiness == asset.slipperiness
    &&& block.velocity_multiplier == asset.velocity_multiplier
    &&& block.jump_velocity_multiplier == asset.jump_velocity_multiplier
    &&& block.default_state_id == asset.default_state_id
    &&& block.experience == asset.experience
    &&& block.states.len() == asset.states.len()
    &&& forall|j: int|
        0 <= j < asset.states.len() ==> {
            &&& (#[trigger] block.states[j]).id == asset.states[j].id
            &&& block.states[j].state_idx < table.len()
            &&& table[block.states[j].state_idx as int].same_payload(asset.states[j])
        }
}

/// Position of the first state of the table with the payload of `state`;
/// the length of the table where there is none.
pub fn find_payload(table: &Vec<BlockState>, state: &BlockState) -> (r: usize)
    ensures
        r <= table.len(),
        r < table.len() ==> table@[r as int]@.same_payload(state@),
        r == table.len() <==> !has_payload(state_views(table@), state@),
{
    let mut k: usize = 0;
    while k < table.len()
        invariant
            k <= table.len(),
            forall|x: int| 0 <= x < k ==> !(#[trigger] state_views(table@)[x]).same_payload(state@),
        decreases table.len() - k,
    {
        if table[k].same_payload(state) {
            assert(state_views(table@)[k as int].same_payload(state@));
            return k;
        }
        k += 1;
    }
    k
}

/// Offers the states of a block to the table, and gives for each of them
/// the place of its payload in the table.
pub fn add_states(table: &mut Vec<BlockState>, block: &Block) -> (row: Vec<usize>)
    ensures
        state_views(final(table)@) == extended(state_views(old(table)@), block@.states),
        final(table)@.len() >= old(table)@.len(),
        forall|i: int| 0 <= i < old(table)@.len() ==> final(table)@[i] == old(table)@[i],
        row@.len() == block.states@.len(),
        forall|j: int|
            0 <= j < row@.len() ==> (#[trigger] row@[j]) < final(table)@.len()
                && final(table)@[row@[j] as int]@.same_payload(block.states@[j]@),
{
    let mut row: Vec<usize> = Vec::new();
    let mut j: usize = 0;
    while j < block.states.len()
        invariant
            j <= block.states.len(),
            state_views(table@) == extended(state_views(old(table)@), block@.states.take(j as int)),
            table@.len() >= old(table)@.len(),
            forall|i: int| 0 <= i < old(table)@.len() ==> table@[i] == old(table)@[i],
            row@.len() == j,
            forall|k: int|
                0 <= k < j ==> (#[trigger] row@[k]) < table@.len() && table@[row@[k] as int]@.same_payload(
                    block.states@[k]@,
                ),
        decreases block.states.len() - j,
    {
        let state = &block.states[j];
        let ghost before = state_views(table@);
        proof {
            assert(block@.states.take(j + 1).drop_last() =~= block@.states.take(j as int));
            assert(block@.states.take(j + 1).last() == state@);
        }
        let at = find_payload(table, state);
        if at == table.len() {
            table.push(state.with_id(state.id));
            proof {
                assert(state@.with_id(state.id) == state@);
                assert(state_views(table@) =~= before.push(state@));
                assert(state@.same_payload(state@));
            }
        }
        row.push(at);
        j += 1;
    }
    proof {
        assert(block@.states.take(j as int) =~= block@.states);
    }
    row
}

/// The block of the catalog that stands for a block of the asset table,
/// given the places of its states' payloads in the table.
pub fn optimize(block: &Block, row: &Vec<usize>, table: &Vec<BlockState>) -> (r: OptimizedBlock)
    requires
        table@.len() <= 65536,
        row@.len() == block.states@.len(),
        forall|j: int|
            0 <= j < row@.len() ==> (#[trigger] row@[j]) < table@.len() && table@[row@[j] as int]@.same_payload(
                block.states@[j]@,
            ),
    ensures
        stands_for(r@, block@, state_views(table@)),
{
    let mut states: Vec<BlockStateRef> = Vec::new();
    let mut j: usize = 0;
    while j < block.states.len()
        invariant
            j <= block.states.len(),
            table@.len() <= 65536,
            row@.len() == block.states@.len(),
            forall|k: int|
                0 <= k < row@.len() ==> (#[trigger] row@[k]) < table@.len() && table@[row@[k] as int]@.same_payload(
                    block.states@[k]@,
                ),
            states@.len() == j,
            forall|k: int|
                0 <= k < j ==> (#[trigger] states@[k]).id == block.states@[k].id
                    && states@[k].state_idx == row@[k],
        decreases block.states.len() - j,
    {
        assert(row@[j as int] < table@.len());
        states.push(BlockStateRef { id: block.states[j].id, state_idx: row[j] as u16 });
        j += 1;
    }
    let r = OptimizedBlock {
        id: block.id,
        name: block.name.clone(),
        translation_key: block.translation_key.clone(),
        hardness: block.hardness,
        blast_resistance: block.blast_resistance,
        item_id: block.item_id,
        loot_table: block.loot_table,
        slipperiness: block.slipperiness,
        velocity_multiplier: block.velocity_multiplier,
        jump_velocity_multiplier: block.jump_velocity_multiplier,
        default_state_id: block.default_state_id,
        states,
        experience: block.experience,
    };
    proof {
        assert forall|k: int| 0 <= k < block@.states.len() implies {
            &&& (#[trigger] r@.states[k]).id == block@.states[k].id
            &&& r@.states[k].state_idx < state_views(table@).len()
            &&& state_views(table@)[r@.states[k].state_idx as int].same_payload(block@.states[k])
        } by {
            assert(row@[k] < table@.len());
        }
    }
    r
}

} // verus!
