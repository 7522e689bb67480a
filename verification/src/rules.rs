//! The rules an asset table must keep for a catalog to be built from it.

use std::collections::HashSet;
use vstd::prelude::*;
use crate::block::{Block, BlockView};
use crate::property::GeneratedProperty;
use crate::search::lemma_index_of_first;

verus! {

broadcast use vstd::std_specs::hash::group_hash_axioms;

/// The rule of the asset tables that a build found broken.
#[derive(Clone, Copy, Debug, PartialEq, Eq, Structural)]
pub enum BuildError {
    /// Two blocks have the same numeric id.
    DuplicateBlockId,
    /// A block has no state.
    NoStates,
    /// The ids of a block's states do not follow one another.
    StatesNotContiguous,
    /// A block's default state is not one of its states.
    DefaultStateMissing,
    /// Two blocks share a state id.
    OverlappingStates,
    /// A block names a property that the property table does not have.
    UnknownProperty,
    /// A block names a property twice.
    DuplicateProperty,
    /// A property has no variant, or the variants of a block's properties
    /// combine to more values than a state id can number.
    InvalidProperty,
    /// A block does not have one state for each value of its properties.
    PropertyRangeMismatch,
}

/// What a list of blocks holds.
pub open spec fn block_views(blocks: Seq<Block>) -> Seq<BlockView> {
    Seq::new(blocks.len(), |i: int| blocks[i]@)
}

impl BlockView {
    /// Id of the block's first state.
    pub open spec fn first_state_id(self) -> int {
        self.states[0].id as int
    }

    /// Id of the block's last state.
    pub open spec fn last_state_id(self) -> int {
        self.states.last().id as int
    }

    /// The ids of the block's states follow one another.
    pub open spec fn contiguous(self) -> bool {
        forall|i: int|
            0 <= i < self.states.len() ==> (#[trigger] self.states[i]).id == self.states[0].id + i
    }

    /// The default state is one of the block's states.
    pub open spec fn default_in_range(self) -> bool {
        self.first_state_id() <= self.default_state_id <= self.last_state_id()
    }

    /// The two blocks share no state id.
    pub open spec fn apart_from(self, other: BlockView) -> bool {
        self.last_state_id() < other.first_state_id() || other.last_state_id()
            < self.first_state_id()
    }
}

/// Every block has a state.
pub open spec fn all_have_states(blocks: Seq<BlockView>) -> bool {
    forall|b: int| 0 <= b < blocks.len() ==> (#[trigger] blocks[b]).states.len() >= 1
}

/// In every block the ids of the states follow one another.
pub open spec fn all_contiguous(blocks: Seq<BlockView>) -> bool {
    forall|b: int| 0 <= b < blocks.len() ==> (#[trigger] blocks[b]).contiguous()
}

/// Every block's default state is one of its states.
pub open spec fn all_defaults_in_range(blocks: Seq<BlockView>) -> bool {
    forall|b: int| 0 <= b < blocks.len() ==> (#[trigger] blocks[b]).default_in_range()
}

/// No two blocks share a state id.
pub open spec fn all_apart(blocks: Seq<BlockView>) -> bool {
    forall|a: int, b: int|
        0 <= a < b < blocks.len() ==> (#[trigger] blocks[a]).apart_from(#[trigger] blocks[b])
}

/// The property table has a row with the hash key.
pub open spec fn table_has(table: Seq<GeneratedProperty>, key: i32) -> bool {
    exists|p: int| 0 <= p < table.len() && (#[trigger] table[p]).hash_key == key
}

/// Every property that a block names is in the property table.
pub open spec fn all_properties_known(blocks: Seq<BlockView>, table: Seq<GeneratedProperty>) -> bool {
    forall|b: int, i: int|
        0 <= b < blocks.len() && 0 <= i < blocks[b].properties.len() ==> table_has(
            table,
            #[trigger] blocks[b].properties[i],
        )
}

/// No block names a property twice.
pub open spec fn no_duplicate_properties(blocks: Seq<BlockView>) -> bool {
    forall|b: int| 0 <= b < blocks.len() ==> (#[trigger] blocks[b]).properties.no_duplicates()
}

/// Whether every block has a state.
pub fn check_states_present(blocks: &Vec<Block>) -> (ok: bool)
    ensures
        ok == all_have_states(block_views(blocks@)),
{
    let mut b: usize = 0;
    while b < blocks.len()
        invariant
            b <= blocks.len(),
            all_have_states(block_views(blocks@).take(b as int)),
        decreases blocks.len() - b,
    {
        if blocks[b].states.len() == 0 {
            assert(block_views(blocks@)[b as int].states.len() == 0);
            return false;
        }
        proof {
            let views = block_views(blocks@);
            assert forall|k: int| 0 <= k < b + 1 implies (#[trigger] views.take(b + 1)[k]).states.len()
                >= 1 by {
                if k < b {
                    assert(views.take(b as int)[k] == views[k]);
                }
            }
        }
        b += 1;
    }
    proof {
        assert(block_views(blocks@).take(b as int) =~= block_views(blocks@));
    }
    true
}

/// Whether the ids of one block's states follow one another.
fn check_block_contiguous(block: &Block) -> (ok: bool)
    requires
        block.states@.len() >= 1,
    ensures
        ok == block@.contiguous(),
{
    let first = block.states[0].id;
    let mut i: usize = 0;
    while i < block.states.len()
        invariant
            i <= block.states.len(),
            first == block@.states[0].id,
            forall|j: int| 0 <= j < i ==> (#[trigger] block@.states[j]).id == first + j,
        decreases block.states.len() - i,
    {
        let id = block.states[i].id;
        assert(block@.states[i as int].id == id);
        if i > 65535 || id as usize != first as usize + i {
            return false;
        }
        i += 1;
    }
    true
}

/// Whether in every block the ids of the states follow one another.
pub fn check_states_contiguous(blocks: &Vec<Block>) -> (ok: bool)
    requires
        all_have_states(block_views(blocks@)),
    ensures
        ok == all_contiguous(block_views(blocks@)),
{
    let mut b: usize = 0;
    while b < blocks.len()
        invariant
            b <= blocks.len(),
            all_have_states(block_views(blocks@)),
            forall|k: int| 0 <= k < b ==> (#[trigger] block_views(blocks@)[k]).contiguous(),
        decreases blocks.len() - b,
    {
        assert(block_views(blocks@)[b as int] == blocks@[b as int]@);
        if !check_block_contiguous(&blocks[b]) {
            return false;
        }
        b += 1;
    }
    true
}

/// Whether every block's default state is one of its states.
pub fn check_defaults(blocks: &Vec<Block>) -> (ok: bool)
    requires
        all_have_states(block_views(blocks@)),
    ensures
        ok == all_defaults_in_range(block_views(blocks@)),
{
    let mut b: usize = 0;
    while b < blocks.len()
        invariant
            b <= blocks.len(),
            all_have_states(block_views(blocks@)),
            forall|k: int| 0 <= k < b ==> (#[trigger] block_views(blocks@)[k]).default_in_range(),
        decreases blocks.len() - b,
    {
        let block = &blocks[b];
        assert(block_views(blocks@)[b as int] == block@);
        let n = block.states.len();
        let first = block.states[0].id;
        let last = block.states[n - 1].id;
        assert(block@.states[0].id == first && block@.states.last().id == last);
        if block.default_state_id < first || block.default_state_id > last {
            return false;
        }
        b += 1;
    }
    true
}

/// Whether no two blocks share a state id.
pub fn check_apart(blocks: &Vec<Block>) -> (ok: bool)
    requires
        all_have_states(block_views(blocks@)),
    ensures
        ok == all_apart(block_views(blocks@)),
{
    let mut b: usize = 0;
    while b < blocks.len()
        invariant
            b <= blocks.len(),
            all_have_states(block_views(blocks@)),
            forall|x: int, y: int|
                0 <= x < y < b ==> (#[trigger] block_views(blocks@)[x]).apart_from(
                    #[trigger] block_views(blocks@)[y],
                ),
        decreases blocks.len() - b,
    {
        let block = &blocks[b];
        assert(block_views(blocks@)[b as int] == block@);
        let first = block.states[0].id;
        let last = block.states[block.states.len() - 1].id;
        assert(block@.states[0].id == first && block@.states.last().id == last);
        let mut a: usize = 0;
        while a < b
            invariant
                a <= b < blocks.len(),
                all_have_states(block_views(blocks@)),
                block_views(blocks@)[b as int].first_state_id() == first,
                block_views(blocks@)[b as int].last_state_id() == last,
                forall|x: int|
                    0 <= x < a ==> (#[trigger] block_views(blocks@)[x]).apart_from(
                        block_views(blocks@)[b as int],
                    ),
            decreases b - a,
        {
            let other = &blocks[a];
            assert(block_views(blocks@)[a as int] == other@);
            let other_first = other.states[0].id;
            let other_last = other.states[other.states.len() - 1].id;
            assert(other@.states[0].id == other_first && other@.states.last().id == other_last);
            if !(other_last < first || last < other_first) {
                return false;
            }
            a += 1;
        }
        b += 1;
    }
    true
}

/// The hash keys of the rows of the property table.
pub open spec fn table_keys(table: Seq<GeneratedProperty>) -> Seq<i32> {
    Seq::new(table.len(), |p: int| table[p].hash_key)
}

/// The first row of the property table with a hash key.
pub open spec fn row_of(table: Seq<GeneratedProperty>, key: i32) -> Option<int> {
    table_keys(table).index_of_first(key)
}

/// Position of the first row of the property table with a hash key; the
/// number of rows where there is none.
pub fn find_property(table: &Vec<GeneratedProperty>, key: i32) -> (r: usize)
    ensures
        r <= table.len(),
        r < table.len() ==> row_of(table@, key) == Some(r as int),
        r == table.len() ==> row_of(table@, key) is None,
        r < table.len() <==> table_has(table@, key),
{
    let mut p: usize = 0;
    while p < table.len()
        invariant
            p <= table.len(),
            forall|q: int| 0 <= q < p ==> (#[trigger] table@[q]).hash_key != key,
            forall|q: int| 0 <= q < p ==> table_keys(table@)[q] != key,
        decreases table.len() - p,
    {
        if table[p].hash_key == key {
            proof {
                lemma_index_of_first(table_keys(table@), key, p as int);
            }
            return p;
        }
        p += 1;
    }
    proof {
        lemma_index_of_first(table_keys(table@), key, p as int);
    }
    p
}

/// The blocks' numeric ids.
pub open spec fn block_ids(blocks: Seq<BlockView>) -> Seq<u16> {
    Seq::new(blocks.len(), |b: int| blocks[b].id)
}

/// No two blocks have the same numeric id.
pub open spec fn distinct_ids(blocks: Seq<BlockView>) -> bool {
    block_ids(blocks).no_duplicates()
}

/// Whether no two blocks have the same numeric id.
pub fn check_distinct_ids(blocks: &Vec<Block>) -> (ok: bool)
    ensures
        ok == distinct_ids(block_views(blocks@)),
{
    let ghost ids = block_ids(block_views(blocks@));
    let mut b: usize = 0;
    while b < blocks.len()
        invariant
            b <= blocks.len(),
            ids == block_ids(block_views(blocks@)),
            forall|x: int, y: int| 0 <= x < y < b ==> ids[x] != ids[y],
        decreases blocks.len() - b,
    {
        let mut a: usize = 0;
        while a < b
            invariant
                a <= b < blocks.len(),
                ids == block_ids(block_views(blocks@)),
                forall|x: int| 0 <= x < a ==> ids[x] != ids[b as int],
            decreases b - a,
        {
            if blocks[a].id == blocks[b].id {
                assert(ids[a as int] == ids[b as int]);
                return false;
            }
            a += 1;
        }
        b += 1;
    }
    true
}

/// Whether every property that a block names is in the property table.
pub fn check_properties_known(blocks: &Vec<Block>, table: &Vec<GeneratedProperty>) -> (ok: bool)
    ensures
        ok == all_properties_known(block_views(blocks@), table@),
{
    let mut b: usize = 0;
    while b < blocks.len()
        invariant
            b <= blocks.len(),
            forall|x: int, i: int|
                0 <= x < b && 0 <= i < block_views(blocks@)[x].properties.len() ==> table_has(
                    table@,
                    #[trigger] block_views(blocks@)[x].properties[i],
                ),
        decreases blocks.len() - b,
    {
        let block = &blocks[b];
        assert(block_views(blocks@)[b as int] == block@);
        let mut i: usize = 0;
        while i < block.properties.len()
            invariant
                i <= block.properties.len(),
                b < blocks.len(),
                block_views(blocks@)[b as int].properties == block.properties@,
                forall|j: int| 0 <= j < i ==> table_has(table@, #[trigger] block.properties@[j]),
            decreases block.properties.len() - i,
        {
            if find_property(table, block.properties[i]) >= table.len() {
                assert(!table_has(table@, block_views(blocks@)[b as int].properties[i as int]));
                return false;
            }
            i += 1;
        }
        b += 1;
    }
    true
}

/// Whether a list of hash keys names no key twice: each key is new to the
/// set of the keys before it.
fn check_distinct(keys: &Vec<i32>) -> (ok: bool)
    ensures
        ok == keys@.no_duplicates(),
{
    let mut seen: HashSet<i32> = HashSet::new();
    let mut i: usize = 0;
    while i < keys.len()
        invariant
            i <= keys.len(),
            forall|k: i32| seen@.contains(k) <==> keys@.take(i as int).contains(k),
            forall|x: int, y: int| 0 <= x < y < i ==> keys@[x] != keys@[y],
        decreases keys.len() - i,
    {
        let ghost before = keys@.take(i as int);
        let ghost after = keys@.take(i + 1);
        let fresh = seen.insert(keys[i]);
        proof {
            assert(after =~= before.push(keys@[i as int]));
            assert forall|k: i32| seen@.contains(k) <==> after.contains(k) by {
                if before.contains(k) {
                    let j = choose|j: int| 0 <= j < before.len() && before[j] == k;
                    assert(after[j] == k);
                }
                if k == keys@[i as int] {
                    assert(after[i as int] == k);
                }
            }
        }
        if !fresh {
            proof {
                let j = choose|j: int| 0 <= j < before.len() && before[j] == keys@[i as int];
                assert(keys@[j] == keys@[i as int]);
            }
            return false;
        }
        proof {
            assert forall|x: int| 0 <= x < i implies keys@[x] != keys@[i as int] by {
                assert(before[x] == keys@[x]);
            }
        }
        i += 1;
    }
    true
}

/// Whether no block names a property twice.
pub fn check_distinct_properties(blocks: &Vec<Block>) -> (ok: bool)
    ensures
        ok == no_duplicate_properties(block_views(blocks@)),
{
    let mut b: usize = 0;
    while b < blocks.len()
        invariant
            b <= blocks.len(),
            forall|x: int|
                0 <= x < b ==> (#[trigger] block_views(blocks@)[x]).properties.no_duplicates(),
        decreases blocks.len() - b,
    {
        assert(block_views(blocks@)[b as int] == blocks@[b as int]@);
        if !check_distinct(&blocks[b].properties) {
            return false;
        }
        b += 1;
    }
    true
}

} // verus!
