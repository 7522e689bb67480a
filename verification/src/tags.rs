//! Tags: named sets of blocks.

use vstd::prelude::*;
use vstd::hash_map::StringHashMap;

verus! {

/// The tags of a world, each with the numeric ids of its blocks.
pub struct TagTable {
    pub tags: StringHashMap<Vec<u16>>,
}

impl TagTable {
    /// The block is in the set of the tag. No block is in the set of a tag
    /// that the table does not have.
    pub open spec fn spec_is_tagged_with(&self, block_id: u16, tag: Seq<char>) -> bool {
        self.tags@.contains_key(tag) && self.tags@[tag]@.contains(block_id)
    }

    /// A table without tags.
    pub fn new() -> (r: TagTable)
        ensures
            forall|id: u16, tag: Seq<char>| !r.spec_is_tagged_with(id, tag),
    {
        TagTable { tags: StringHashMap::new() }
    }

    /// Sets the blocks of a tag.
    pub fn insert(&mut self, tag: String, block_ids: Vec<u16>)
        ensures
            forall|id: u16, name: Seq<char>|
                #[trigger] final(self).spec_is_tagged_with(id, name) == if name == tag@ {
                    block_ids@.contains(id)
                } else {
                    old(self).spec_is_tagged_with(id, name)
                },
    {
        self.tags.insert(tag, block_ids);
    }

    /// Whether the block is in the set of the tag.
    pub fn is_tagged_with(&self, block_id: u16, tag: &str) -> (r: bool)
        ensures
            r == self.spec_is_tagged_with(block_id, tag@),
    {
        match self.tags.get(tag) {
            Some(ids) => {
                let mut i: usize = 0;
                while i < ids.len()
                    invariant
                        i <= ids.len(),
                        self.tags@.contains_key(tag@),
                        *ids == self.tags@[tag@],
                        forall|j: int| 0 <= j < i ==> ids@[j] != block_id,
                    decreases ids.len() - i,
                {
                    if ids[i] == block_id {
                        assert(ids@[i as int] == block_id);
                        return true;
                    }
                    i += 1;
                }
                false
            },
            None => false,
        }
    }
}

} // verus!
