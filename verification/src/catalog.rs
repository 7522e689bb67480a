//! The block catalog: the read-only table of blocks, distinct states and
//! property groups, and the look-ups it answers.

use vstd::prelude::*;
use crate::block::{
    BlockState, BlockStateRef, BlockStateView, CollisionShape, OptimizedBlock,
};
use crate::group::{pair_texts, refusal, BlockPropertyStruct};
use crate::property::CodecError;
use crate::search::lemma_index_of_first;
use crate::text::same_text;

verus! {

/// The catalog of blocks.
#[derive(Debug)]
pub struct Catalog {
    /// The blocks, in the order of the asset table.
    pub blocks: Vec<OptimizedBlock>,
    /// The distinct state payloads that the blocks' states refer to.
    pub states: Vec<BlockState>,
    pub shapes: Vec<CollisionShape>,
    pub block_entity_types: Vec<String>,
    /// The property groups, in the order in which their first blocks stand
    /// in the asset table.
    pub groups: Vec<BlockPropertyStruct>,
}

/// The ids of a list of state references.
pub open spec fn ref_ids(refs: Seq<BlockStateRef>) -> Seq<u16> {
    Seq::new(refs.len(), |j: int| refs[j].id)
}

/// The registry key without its `minecraft:` namespace, where it has one.
pub open spec fn strip_namespace(key: Seq<char>) -> Seq<char> {
    if key.len() >= 10 && key.take(10) == "minecraft:"@ {
        key.skip(10)
    } else {
        key
    }
}

/// A look-up's answer is the block at a place of the catalog; none where
/// there is no place.
pub open spec fn found(r: Option<&OptimizedBlock>, blocks: Seq<OptimizedBlock>, at: Option<int>) -> bool {
    match (r, at) {
        (Some(b), Some(i)) => 0 <= i < blocks.len() && *b == blocks[i],
        (None, None) => true,
        _ => false,
    }
}

impl Catalog {
    /// The blocks' numeric ids, in catalog order.
    pub open spec fn ids(&self) -> Seq<u16> {
        Seq::new(self.blocks@.len(), |b: int| self.blocks@[b].id)
    }

    /// The blocks' names, in catalog order.
    pub open spec fn names(&self) -> Seq<Seq<char>> {
        Seq::new(self.blocks@.len(), |b: int| self.blocks@[b].name@)
    }

    /// The blocks' item ids, in catalog order.
    pub open spec fn item_ids(&self) -> Seq<u16> {
        Seq::new(self.blocks@.len(), |b: int| self.blocks@[b].item_id)
    }

    /// For each block, whether the state id is one of its states.
    pub open spec fn owners(&self, state_id: u16) -> Seq<bool> {
        Seq::new(
            self.blocks@.len(),
            |b: int|
                self.blocks@[b]@.states.len() >= 1 && self.blocks@[b]@.owns_state(state_id as int),
        )
    }

    /// For each property group, whether the block is of its family.
    pub open spec fn handlers(&self, block_id: u16) -> Seq<bool> {
        Seq::new(self.groups@.len(), |g: int| self.groups@[g].handles(block_id))
    }

    /// Every property group is well formed.
    pub open spec fn groups_well_formed(&self) -> bool {
        forall|g: int| 0 <= g < self.groups@.len() ==> (#[trigger] self.groups@[g]).well_formed()
    }

    /// What holds of every catalog that was built: each block has its states
    /// under ids that follow one another, with its default state among them;
    /// no two blocks share a state id; no two blocks share a numeric id;
    /// every state refers to a payload of the table; every property group is
    /// well formed, and a block of a group's family has one state for each
    /// value of the group.
    pub open spec fn valid(&self) -> bool {
        &&& forall|b: int| 0 <= b < self.blocks@.len() ==> (#[trigger] self.blocks@[b])@.contiguous()
        &&& forall|b: int|
            0 <= b < self.blocks@.len() ==> (#[trigger] self.blocks@[b])@.owns_state(
                self.blocks@[b].default_state_id as int,
            )
        &&& forall|a: int, b: int|
            0 <= a < b < self.blocks@.len() ==> (#[trigger] self.blocks@[a])@.last_state_id() < (
            #[trigger] self.blocks@[b])@.first_state_id() || self.blocks@[b]@.last_state_id()
                < self.blocks@[a]@.first_state_id()
        &&& self.ids().no_duplicates()
        &&& forall|b: int, j: int|
            0 <= b < self.blocks@.len() && 0 <= j < self.blocks@[b].states@.len() ==> (
            #[trigger] self.blocks@[b].states@[j]).state_idx < self.states@.len()
        &&& self.groups_well_formed()
        &&& forall|g: int, b: int|
            0 <= g < self.groups@.len() && 0 <= b < self.blocks@.len() && (
            #[trigger] self.groups@[g]).handles((#[trigger] self.blocks@[b]).id)
                ==> self.blocks@[b].states@.len() == self.groups@[g].size()
    }

    /// The state with an id, as the catalog has it: the payload that the
    /// owning block's reference points at, under the reference's id.
    pub open spec fn spec_state(&self, state_id: u16) -> Option<BlockStateView> {
        match self.owners(state_id).index_of_first(true) {
            None => None,
            Some(b) => match ref_ids(self.blocks@[b].states@).index_of_first(state_id) {
                None => None,
                Some(j) => {
                    let r = self.blocks@[b].states@[j];
                    if r.state_idx < self.states@.len() {
                        Some(self.states@[r.state_idx as int]@.with_id(r.id))
                    } else {
                        None
                    }
                },
            },
        }
    }

    /// Whether a state stops movement: it is solid, and its block is neither
    /// cobweb nor a bamboo sapling.
    pub open spec fn spec_blocks_movement(&self, state: BlockStateView) -> bool {
        state.is_solid() && match self.owners(state.id).index_of_first(true) {
            None => false,
            Some(b) => self.blocks@[b].name@ != "cobweb"@ && self.blocks@[b].name@
                != "bamboo_sapling"@,
        }
    }

    /// The property values of a state of a block: `None` where the block has
    /// no property group.
    pub open spec fn spec_properties(&self, block: &OptimizedBlock, state_id: u16) -> Option<
        Result<Seq<u16>, CodecError>,
    > {
        match self.handlers(block.id).index_of_first(true) {
            None => None,
            Some(g) => Some(self.groups@[g].spec_from_state_id(state_id, block@)),
        }
    }

    /// The property values that serialized pairs give for a block: `None`
    /// where the block has no property group.
    pub open spec fn spec_from_properties(
        &self,
        block: &OptimizedBlock,
        props: Seq<(Seq<char>, Seq<char>)>,
    ) -> Option<Result<Seq<u16>, CodecError>> {
        match self.handlers(block.id).index_of_first(true) {
            None => None,
            Some(g) => Some(self.groups@[g].spec_from_props(props, block@)),
        }
    }

    fn index_of_id(&self, id: u16) -> (r: Option<usize>)
        ensures
            r matches Some(i) ==> self.ids().index_of_first(id) == Some(i as int),
            r is None ==> self.ids().index_of_first(id) is None,
    {
        let mut b: usize = 0;
        while b < self.blocks.len()
            invariant
                b <= self.blocks.len(),
                forall|k: int| 0 <= k < b ==> self.ids()[k] != id,
            decreases self.blocks.len() - b,
        {
            if self.blocks[b].id == id {
                proof {
                    lemma_index_of_first(self.ids(), id, b as int);
                }
                return Some(b);
            }
            b += 1;
        }
        proof {
            lemma_index_of_first(self.ids(), id, b as int);
        }
        None
    }

    fn index_of_name(&self, name: &str) -> (r: Option<usize>)
        ensures
            r matches Some(i) ==> self.names().index_of_first(name@) == Some(i as int),
            r is None ==> self.names().index_of_first(name@) is None,
    {
        let mut b: usize = 0;
        while b < self.blocks.len()
            invariant
                b <= self.blocks.len(),
                forall|k: int| 0 <= k < b ==> self.names()[k] != name@,
            decreases self.blocks.len() - b,
        {
            if same_text(self.blocks[b].name.as_str(), name) {
                proof {
                    lemma_index_of_first(self.names(), name@, b as int);
                }
                return Some(b);
            }
            b += 1;
        }
        proof {
            lemma_index_of_first(self.names(), name@, b as int);
        }
        None
    }

    fn index_of_item(&self, id: u16) -> (r: Option<usize>)
        ensures
            r matches Some(i) ==> self.item_ids().index_of_first(id) == Some(i as int),
            r is None ==> self.item_ids().index_of_first(id) is None,
    {
        let mut b: usize = 0;
        while b < self.blocks.len()
            invariant
                b <= self.blocks.len(),
                forall|k: int| 0 <= k < b ==> self.item_ids()[k] != id,
            decreases self.blocks.len() - b,
        {
            if self.blocks[b].item_id == id {
                proof {
                    lemma_index_of_first(self.item_ids(), id, b as int);
                }
                return Some(b);
            }
            b += 1;
        }
        proof {
            lemma_index_of_first(self.item_ids(), id, b as int);
        }
        None
    }

    fn index_of_state(&self, state_id: u16) -> (r: Option<usize>)
        ensures
            r matches Some(i) ==> self.owners(state_id).index_of_first(true) == Some(i as int),
            r is None ==> self.owners(state_id).index_of_first(true) is None,
    {
        let mut b: usize = 0;
        while b < self.blocks.len()
            invariant
                b <= self.blocks.len(),
                forall|k: int| 0 <= k < b ==> self.owners(state_id)[k] != true,
            decreases self.blocks.len() - b,
        {
            let block = &self.blocks[b];
            let n = block.states.len();
            if n >= 1 && block.states[0].id <= state_id && state_id <= block.states[n - 1].id {
                proof {
                    lemma_index_of_first(self.owners(state_id), true, b as int);
                }
                return Some(b);
            }
            b += 1;
        }
        proof {
            lemma_index_of_first(self.owners(state_id), true, b as int);
        }
        None
    }

    fn index_of_group(&self, block_id: u16) -> (r: Option<usize>)
        ensures
            r matches Some(i) ==> self.handlers(block_id).index_of_first(true) == Some(i as int),
            r is None ==> self.handlers(block_id).index_of_first(true) is None,
    {
        let mut g: usize = 0;
        while g < self.groups.len()
            invariant
                g <= self.groups.len(),
                forall|k: int| 0 <= k < g ==> self.handlers(block_id)[k] != true,
            decreases self.groups.len() - g,
        {
            if self.groups[g].handles_block_id(block_id) {
                proof {
                    lemma_index_of_first(self.handlers(block_id), true, g as int);
                }
                return Some(g);
            }
            g += 1;
        }
        proof {
            lemma_index_of_first(self.handlers(block_id), true, g as int);
        }
        None
    }

    /// The place in the catalog of the block that has a state id among its
    /// states.
    pub fn locate(&self, state_id: u16) -> (r: Option<usize>)
        ensures
            r matches Some(i) ==> i < self.blocks@.len() && self.owners(state_id).index_of_first(
                true,
            ) == Some(i as int),
            r is None ==> self.owners(state_id).index_of_first(true) is None,
    {
        let r = self.index_of_state(state_id);
        proof {
            self.owners(state_id).index_of_first_ensures(true);
        }
        r
    }

    /// The first block with a numeric id.
    pub fn from_id(&self, id: u16) -> (r: Option<&OptimizedBlock>)
        ensures
            found(r, self.blocks@, self.ids().index_of_first(id)),
    {
        match self.index_of_id(id) {
            Some(b) => {
                proof {
                    self.ids().index_of_first_ensures(id);
                }
                Some(&self.blocks[b])
            },
            None => None,
        }
    }

    /// The first block with a name.
    pub fn from_registry_key(&self, name: &str) -> (r: Option<&OptimizedBlock>)
        ensures
            found(r, self.blocks@, self.names().index_of_first(name@)),
    {
        match self.index_of_name(name) {
            Some(b) => {
                proof {
                    self.names().index_of_first_ensures(name@);
                }
                Some(&self.blocks[b])
            },
            None => None,
        }
    }

    /// The block that has a state id among its states.
    pub fn from_state_id(&self, id: u16) -> (r: Option<&OptimizedBlock>)
        ensures
            found(r, self.blocks@, self.owners(id).index_of_first(true)),
    {
        match self.index_of_state(id) {
            Some(b) => {
                proof {
                    self.owners(id).index_of_first_ensures(true);
                }
                Some(&self.blocks[b])
            },
            None => None,
        }
    }

    /// The first block, in catalog order, that drops an item.
    pub fn from_item_id(&self, id: u16) -> (r: Option<&OptimizedBlock>)
        ensures
            found(r, self.blocks@, self.item_ids().index_of_first(id)),
    {
        match self.index_of_item(id) {
            Some(b) => {
                proof {
                    self.item_ids().index_of_first_ensures(id);
                }
                Some(&self.blocks[b])
            },
            None => None,
        }
    }

    /// The block with a registry key, with or without the `minecraft:`
    /// namespace.
    pub fn get_block(&self, registry_id: &str) -> (r: Option<&OptimizedBlock>)
        ensures
            found(r, self.blocks@, self.names().index_of_first(strip_namespace(registry_id@))),
    {
        let n = registry_id.unicode_len();
        proof {
            reveal_strlit("minecraft:");
        }
        if n >= 10 {
            let head = registry_id.substring_char(0, 10);
            assert(registry_id@.subrange(0, 10) =~= registry_id@.take(10));
            if same_text(head, "minecraft:") {
                let key = registry_id.substring_char(10, n);
                assert(registry_id@.subrange(10, n as int) =~= registry_id@.skip(10));
                return self.from_registry_key(key);
            }
        }
        self.from_registry_key(registry_id)
    }

    /// The block with a numeric id.
    pub fn get_block_by_id(&self, id: u16) -> (r: Option<&OptimizedBlock>)
        ensures
            found(r, self.blocks@, self.ids().index_of_first(id)),
    {
        self.from_id(id)
    }

    /// The block that has a state id among its states.
    pub fn get_block_by_state_id(&self, id: u16) -> (r: Option<&OptimizedBlock>)
        ensures
            found(r, self.blocks@, self.owners(id).index_of_first(true)),
    {
        self.from_state_id(id)
    }

    /// The first block that drops an item.
    pub fn get_block_by_item(&self, item_id: u16) -> (r: Option<&OptimizedBlock>)
        ensures
            found(r, self.blocks@, self.item_ids().index_of_first(item_id)),
    {
        self.from_item_id(item_id)
    }

    /// The state that a reference into the table stands for: its payload
    /// under its id.
    pub fn get_state(&self, state: &BlockStateRef) -> (r: BlockState)
        requires
            state.state_idx < self.states@.len(),
        ensures
            r@ == self.states@[state.state_idx as int]@.with_id(state.id),
    {
        self.states[state.state_idx as usize].with_id(state.id)
    }

    /// The state that a reference stands for, where it refers into the
    /// table.
    fn state_of(&self, state: &BlockStateRef) -> (r: Option<BlockState>)
        ensures
            state.state_idx < self.states@.len() ==> (r matches Some(s) && s@
                == self.states@[state.state_idx as int]@.with_id(state.id)),
            state.state_idx >= self.states@.len() ==> r is None,
    {
        if (state.state_idx as usize) < self.states.len() {
            Some(self.states[state.state_idx as usize].with_id(state.id))
        } else {
            None
        }
    }

    /// The default state of a block: the state that the first of the
    /// block's references with the default state's id stands for.
    pub open spec fn spec_default_state(&self, block: &OptimizedBlock) -> Option<BlockStateView> {
        match ref_ids(block.states@).index_of_first(block.default_state_id) {
            None => None,
            Some(j) => {
                let r = block.states@[j];
                if r.state_idx < self.states@.len() {
                    Some(self.states@[r.state_idx as int]@.with_id(r.id))
                } else {
                    None
                }
            },
        }
    }

    /// Whether a block has a default state: one of its states carries the
    /// default state's id and refers to a payload of the table.
    pub fn has_default_state(&self, block: &OptimizedBlock) -> (r: bool)
        ensures
            r == (self.spec_default_state(block) is Some),
    {
        self.find_default_state(block).is_some()
    }

    /// The default state of a block that has one.
    pub fn default_state(&self, block: &OptimizedBlock) -> (r: BlockState)
        requires
            self.spec_default_state(block) is Some,
        ensures
            self.spec_default_state(block) == Some(r@),
    {
        match self.find_default_state(block) {
            Some(state) => state,
            None => vstd::pervasive::unreached(),
        }
    }

    /// The default state of a block, where it has one.
    fn find_default_state(&self, block: &OptimizedBlock) -> (r: Option<BlockState>)
        ensures
            match r {
                Some(s) => self.spec_default_state(block) == Some(s@),
                None => self.spec_default_state(block) is None,
            },
    {
        let ghost ids = ref_ids(block.states@);
        let mut j: usize = 0;
        while j < block.states.len()
            invariant
                j <= block.states.len(),
                ids == ref_ids(block.states@),
                forall|k: int| 0 <= k < j ==> ids[k] != block.default_state_id,
            decreases block.states.len() - j,
        {
            if block.states[j].id == block.default_state_id {
                proof {
                    lemma_index_of_first(ids, block.default_state_id, j as int);
                }
                return self.state_of(&block.states[j]);
            }
            j += 1;
        }
        proof {
            lemma_index_of_first(ids, block.default_state_id, j as int);
        }
        None
    }

    /// The state with an id, and the position of its block.
    fn locate_state(&self, id: u16) -> (r: Option<(usize, BlockState)>)
        ensures
            match r {
                Some((b, s)) => self.spec_state(id) == Some(s@) && self.owners(
                    id,
                ).index_of_first(true) == Some(b as int) && b < self.blocks@.len(),
                None => self.spec_state(id) is None,
            },
    {
        let b = match self.index_of_state(id) {
            Some(b) => b,
            None => {
                return None;
            },
        };
        proof {
            self.owners(id).index_of_first_ensures(true);
        }
        let block = &self.blocks[b];
        let ghost ids = ref_ids(block.states@);
        let mut j: usize = 0;
        while j < block.states.len()
            invariant
                j <= block.states.len(),
                ids == ref_ids(block.states@),
                b < self.blocks@.len(),
                *block == self.blocks@[b as int],
                self.owners(id).index_of_first(true) == Some(b as int),
                forall|k: int| 0 <= k < j ==> ids[k] != id,
            decreases block.states.len() - j,
        {
            if block.states[j].id == id {
                proof {
                    lemma_index_of_first(ids, id, j as int);
                }
                return match self.state_of(&block.states[j]) {
                    Some(s) => Some((b, s)),
                    None => None,
                };
            }
            j += 1;
        }
        proof {
            lemma_index_of_first(ids, id, j as int);
        }
        None
    }

    /// The state with an id.
    pub fn get_state_by_state_id(&self, id: u16) -> (r: Option<BlockState>)
        ensures
            match r {
                Some(s) => self.spec_state(id) == Some(s@),
                None => self.spec_state(id) is None,
            },
    {
        match self.locate_state(id) {
            Some((_, s)) => Some(s),
            None => None,
        }
    }

    /// The state with an id, together with its block.
    pub fn get_block_and_state_by_state_id(&self, id: u16) -> (r: Option<
        (&OptimizedBlock, BlockState),
    >)
        ensures
            match r {
                Some((b, s)) => self.spec_state(id) == Some(s@) && found(
                    Some(b),
                    self.blocks@,
                    self.owners(id).index_of_first(true),
                ),
                None => self.spec_state(id) is None,
            },
    {
        match self.locate_state(id) {
            Some((b, s)) => Some((&self.blocks[b], s)),
            None => None,
        }
    }

    /// Whether a state stops movement.
    pub fn blocks_movement(&self, block_state: &BlockState) -> (r: bool)
        ensures
            r == self.spec_blocks_movement(block_state@),
    {
        if block_state.is_solid() {
            match self.index_of_state(block_state.id) {
                Some(b) => {
                    proof {
                        self.owners(block_state.id).index_of_first_ensures(true);
                    }
                    let name = self.blocks[b].name.as_str();
                    return !same_text(name, "cobweb") && !same_text(name, "bamboo_sapling");
                },
                None => {
                    return false;
                },
            }
        }
        false
    }

    /// Why `properties` cannot be called with a block and a state id: the
    /// reason for which the block's property group refuses the state; `None`
    /// where it can.
    pub fn properties_refused(&self, block: &OptimizedBlock, state_id: u16) -> (r: Option<
        CodecError,
    >)
        requires
            self.groups_well_formed(),
        ensures
            r == match self.spec_properties(block, state_id) {
                Some(tried) => refusal(tried),
                None => None,
            },
    {
        match self.index_of_group(block.id) {
            Some(g) => {
                proof {
                    self.handlers(block.id).index_of_first_ensures(true);
                }
                self.groups[g].from_state_id_refused(state_id, block)
            },
            None => None,
        }
    }

    /// The property values of a state of a block; `None` for a block
    /// without properties. The state is one of the block's states.
    pub fn properties(&self, block: &OptimizedBlock, state_id: u16) -> (r: Option<Vec<u16>>)
        requires
            self.groups_well_formed(),
            !(self.spec_properties(block, state_id) matches Some(Err(_))),
        ensures
            match (r, self.spec_properties(block, state_id)) {
                (Some(a), Some(Ok(b))) => a@ == b,
                (None, None) => true,
                _ => false,
            },
    {
        match self.index_of_group(block.id) {
            Some(g) => {
                proof {
                    self.handlers(block.id).index_of_first_ensures(true);
                }
                Some(self.groups[g].from_state_id(state_id, block))
            },
            None => None,
        }
    }

    /// Why `from_properties` cannot be called with a block and pairs: the
    /// reason for which the block's property group refuses them; `None`
    /// where it can.
    pub fn from_properties_refused(&self, block: &OptimizedBlock, props: &Vec<(&str, &str)>) -> (r:
        Option<CodecError>)
        requires
            self.groups_well_formed(),
        ensures
            r == match self.spec_from_properties(block, pair_texts(props@)) {
                Some(tried) => refusal(tried),
                None => None,
            },
    {
        match self.index_of_group(block.id) {
            Some(g) => {
                proof {
                    self.handlers(block.id).index_of_first_ensures(true);
                }
                self.groups[g].from_props_refused(props, block)
            },
            None => None,
        }
    }

    /// The property values that serialized pairs give for a block; `None`
    /// for a block without properties. Every name is that of a property of
    /// the block, and every value the text of one of its variants.
    pub fn from_properties(&self, block: &OptimizedBlock, props: Vec<(&str, &str)>) -> (r: Option<
        Vec<u16>,
    >)
        requires
            self.groups_well_formed(),
            !(self.spec_from_properties(block, pair_texts(props@)) matches Some(Err(_))),
        ensures
            match (r, self.spec_from_properties(block, pair_texts(props@))) {
                (Some(a), Some(Ok(b))) => a@ == b,
                (None, None) => true,
                _ => false,
            },
    {
        match self.index_of_group(block.id) {
            Some(g) => {
                proof {
                    self.handlers(block.id).index_of_first_ensures(true);
                }
                Some(self.groups[g].from_props(props, block))
            },
            None => None,
        }
    }
}

/// A state id belongs to at most one block.
pub proof fn law_state_owner_unique(catalog: &Catalog, state_id: u16, a: int, b: int)
    requires
        catalog.valid(),
        0 <= a < catalog.blocks@.len(),
        0 <= b < catalog.blocks@.len(),
        catalog.blocks@[a]@.owns_state(state_id as int),
        catalog.blocks@[b]@.owns_state(state_id as int),
    ensures
        a == b,
{
    if a < b {
        assert(catalog.blocks@[a]@.last_state_id() < catalog.blocks@[b]@.first_state_id()
            || catalog.blocks@[b]@.last_state_id() < catalog.blocks@[a]@.first_state_id());
    } else if b < a {
        assert(catalog.blocks@[b]@.last_state_id() < catalog.blocks@[a]@.first_state_id()
            || catalog.blocks@[a]@.last_state_id() < catalog.blocks@[b]@.first_state_id());
    }
}

/// The block that the look-up by state id gives is the one block that has
/// the state, and where it gives none, no block has it.
pub proof fn law_state_lookup(catalog: &Catalog, state_id: u16, b: int)
    requires
        catalog.valid(),
        0 <= b < catalog.blocks@.len(),
    ensures
        catalog.blocks@[b]@.owns_state(state_id as int) <==> catalog.owners(
            state_id,
        ).index_of_first(true) == Some(b),
{
    let owners = catalog.owners(state_id);
    owners.index_of_first_ensures(true);
    assert(catalog.blocks@[b]@.contiguous());
    if catalog.blocks@[b]@.owns_state(state_id as int) {
        assert(owners[b] == true);
        assert(owners.contains(true));
        let k = owners.index_of_first(true)->Some_0;
        law_state_owner_unique(catalog, state_id, k, b);
    }
}

/// A block of a group's family has one state for each value of the group:
/// the id of its first state plus the number of values is the id of its
/// last state plus one. Every index below that number gives a value; the
/// value's index is that index; its state id is the id of the first state
/// plus the index, one of the block's states; and that state's value is the
/// value.
pub proof fn law_group_covers_block(catalog: &Catalog, g: int, b: int, index: u16)
    requires
        catalog.valid(),
        0 <= g < catalog.groups@.len(),
        0 <= b < catalog.blocks@.len(),
        catalog.groups@[g].handles(catalog.blocks@[b].id),
        index < catalog.groups@[g].size(),
    ensures
        catalog.blocks@[b]@.first_state_id() + catalog.groups@[g].size()
            == catalog.blocks@[b]@.last_state_id() + 1,
        catalog.groups@[g].spec_from_index(index) is Ok,
        catalog.groups@[g].spec_to_index(catalog.groups@[g].spec_from_index(index)->Ok_0) == Ok::<
            u16,
            CodecError,
        >(index),
        catalog.groups@[g].spec_to_state_id(
            catalog.groups@[g].spec_from_index(index)->Ok_0,
            catalog.blocks@[b]@,
        ) == Ok::<u16, CodecError>((catalog.blocks@[b]@.first_state_id() + index) as u16),
        catalog.blocks@[b]@.owns_state(catalog.blocks@[b]@.first_state_id() + index),
        catalog.groups@[g].spec_from_state_id(
            (catalog.blocks@[b]@.first_state_id() + index) as u16,
            catalog.blocks@[b]@,
        ) == catalog.groups@[g].spec_from_index(index),
{
    let group = &catalog.groups@[g];
    let block = catalog.blocks@[b]@;
    assert(group.well_formed());
    assert(block.contiguous());
    assert(catalog.blocks@[b].states@.len() == group.size());
    law_state_range(catalog, b);
    crate::group::law_index_round_trip(group, index);
    crate::group::law_index_to_state(group, index, block);
}

/// Every block's default state is one of its states, and the catalog has
/// it: the look-up of the default state gives a state, under the default
/// state's id.
pub proof fn law_default_state_in_range(catalog: &Catalog, b: int)
    requires
        catalog.valid(),
        0 <= b < catalog.blocks@.len(),
    ensures
        catalog.blocks@[b]@.first_state_id() <= catalog.blocks@[b].default_state_id
            <= catalog.blocks@[b]@.last_state_id(),
        catalog.spec_default_state(&catalog.blocks@[b]) is Some,
        catalog.spec_default_state(&catalog.blocks@[b])->Some_0.id
            == catalog.blocks@[b].default_state_id,
{
    let block = catalog.blocks@[b];
    let ids = ref_ids(block.states@);
    let at = block.default_state_id - block@.first_state_id();
    law_state_range(catalog, b);
    assert(block@.contiguous());
    assert(block@.owns_state(block.default_state_id as int));
    assert(block@.states[at].id == block.default_state_id);
    assert(ids[at] == block.default_state_id);
    ids.index_of_first_ensures(block.default_state_id);
    let j = ids.index_of_first(block.default_state_id)->Some_0;
    assert(block.states@[j].id == ids[j]);
    assert(block.states@[j].state_idx < catalog.states@.len());
}

/// The ids of a block's states run from the first state's id to the last
/// state's id, which is the first plus the number of states less one.
pub proof fn law_state_range(catalog: &Catalog, b: int)
    requires
        catalog.valid(),
        0 <= b < catalog.blocks@.len(),
    ensures
        catalog.blocks@[b]@.first_state_id() + catalog.blocks@[b].states@.len()
            == catalog.blocks@[b]@.last_state_id() + 1,
{
    let block = catalog.blocks@[b]@;
    assert(block.contiguous());
    assert(block.states[block.states.len() - 1].id == block.states[0].id + block.states.len() - 1);
}

} // verus!
