//! The registry of block behaviours: which behaviour stands for which
//! registry key, and the hooks through which the world asks a block's
//! behaviour what to do.

use vstd::prelude::*;
use vstd::hash_map::StringHashMap;
use crate::block::OptimizedBlock;
use crate::farmland::FarmLandBlock;
use crate::soul_fire::SoulFireBlock;
use crate::bush::BushBlock;
use crate::tripwire_hook::TripwireHookBlock;
use crate::shelf::ShelfBlock;

verus! {

/// What the use of a block by a player leads to.
#[derive(Clone, Copy, Debug, PartialEq, Eq, Structural)]
pub enum BlockActionResult {
    /// Allow other actions to be executed.
    Continue,
    /// Block other actions.
    Consume,
}

/// The registry key of a block: its namespace, a colon, its name.
pub open spec fn qualified(namespace: Seq<char>, id: Seq<char>) -> Seq<char> {
    namespace + seq![':'] + id
}

/// The names under which something is registered.
pub trait BlockMetadata {
    spec fn spec_namespace(&self) -> Seq<char>;

    spec fn spec_ids(&self) -> Seq<Seq<char>>;

    fn namespace(&self) -> (r: &'static str)
        ensures
            r@ == self.spec_namespace(),
    ;

    fn ids(&self) -> (r: Vec<&'static str>)
        ensures
            r@.len() == self.spec_ids().len(),
            forall|i: int| 0 <= i < r@.len() ==> (#[trigger] r@[i])@ == self.spec_ids()[i],
    ;

    /// The registry keys: each id behind the namespace and a colon.
    fn names(&self) -> (r: Vec<String>)
        ensures
            r@.len() == self.spec_ids().len(),
            forall|i: int|
                0 <= i < r@.len() ==> (#[trigger] r@[i])@ == qualified(
                    self.spec_namespace(),
                    self.spec_ids()[i],
                ),
    {
        let namespace = self.namespace();
        let ids = self.ids();
        let mut names: Vec<String> = Vec::new();
        let mut i: usize = 0;
        while i < ids.len()
            invariant
                i <= ids.len(),
                namespace@ == self.spec_namespace(),
                ids@.len() == self.spec_ids().len(),
                forall|j: int| 0 <= j < ids@.len() ==> (#[trigger] ids@[j])@ == self.spec_ids()[j],
                names@.len() == i,
                forall|j: int|
                    0 <= j < i ==> (#[trigger] names@[j])@ == qualified(
                        self.spec_namespace(),
                        self.spec_ids()[j],
                    ),
            decreases ids.len() - i,
        {
            let mut name = String::from_str(namespace);
            name.append(":");
            name.append(ids[i]);
            proof {
                reveal_strlit(":");
                assert(":"@ =~= seq![':']);
            }
            names.push(name);
            i += 1;
        }
        names
    }
}

/// The behaviour of a block: one of the behaviours that the library has.
#[derive(Clone, Copy, Debug, PartialEq, Eq)]
pub enum Behavior {
    FarmLand(FarmLandBlock),
    SoulFire(SoulFireBlock),
    Bush(BushBlock),
    TripwireHook(TripwireHookBlock),
    Shelf(ShelfBlock),
}

impl BlockMetadata for Behavior {
    open spec fn spec_namespace(&self) -> Seq<char> {
        match self {
            Behavior::FarmLand(b) => b.spec_namespace(),
            Behavior::SoulFire(b) => b.spec_namespace(),
            Behavior::Bush(b) => b.spec_namespace(),
            Behavior::TripwireHook(b) => b.spec_namespace(),
            Behavior::Shelf(b) => b.spec_namespace(),
        }
    }

    open spec fn spec_ids(&self) -> Seq<Seq<char>> {
        match self {
            Behavior::FarmLand(b) => b.spec_ids(),
            Behavior::SoulFire(b) => b.spec_ids(),
            Behavior::Bush(b) => b.spec_ids(),
            Behavior::TripwireHook(b) => b.spec_ids(),
            Behavior::Shelf(b) => b.spec_ids(),
        }
    }

    fn namespace(&self) -> (r: &'static str) {
        match self {
            Behavior::FarmLand(b) => b.namespace(),
            Behavior::SoulFire(b) => b.namespace(),
            Behavior::Bush(b) => b.namespace(),
            Behavior::TripwireHook(b) => b.namespace(),
            Behavior::Shelf(b) => b.namespace(),
        }
    }

    fn ids(&self) -> (r: Vec<&'static str>) {
        match self {
            Behavior::FarmLand(b) => b.ids(),
            Behavior::SoulFire(b) => b.ids(),
            Behavior::Bush(b) => b.ids(),
            Behavior::TripwireHook(b) => b.ids(),
            Behavior::Shelf(b) => b.ids(),
        }
    }
}

/// The registry keys under which a behaviour is registered.
pub open spec fn keys_of(block: Behavior) -> Seq<Seq<char>> {
    Seq::new(
        block.spec_ids().len(),
        |i: int| qualified(block.spec_namespace(), block.spec_ids()[i]),
    )
}

/// The table with a behaviour entered under each of the given keys.
pub open spec fn entered(
    table: Map<Seq<char>, Behavior>,
    keys: Seq<Seq<char>>,
    block: Behavior,
) -> Map<Seq<char>, Behavior>
    decreases keys.len(),
{
    if keys.len() == 0 {
        table
    } else {
        entered(table, keys.drop_last(), block).insert(keys.last(), block)
    }
}

/// The behaviours that the library registers by default, under their keys.
pub open spec fn default_table() -> Map<Seq<char>, Behavior> {
    let t0 = Map::<Seq<char>, Behavior>::empty();
    let t1 = entered(t0, keys_of(Behavior::FarmLand(FarmLandBlock)), Behavior::FarmLand(FarmLandBlock));
    let t2 = entered(t1, keys_of(Behavior::Bush(BushBlock)), Behavior::Bush(BushBlock));
    let t3 = entered(t2, keys_of(Behavior::SoulFire(SoulFireBlock)), Behavior::SoulFire(SoulFireBlock));
    let t4 = entered(
        t3,
        keys_of(Behavior::TripwireHook(TripwireHookBlock)),
        Behavior::TripwireHook(TripwireHookBlock),
    );
    entered(t4, keys_of(Behavior::Shelf(ShelfBlock)), Behavior::Shelf(ShelfBlock))
}

/// The registry of block behaviours.
pub struct BlockRegistry {
    pub blocks: StringHashMap<Behavior>,
}

impl BlockRegistry {
    /// The behaviour registered for a block, where there is one.
    pub open spec fn spec_behavior(&self, name: Seq<char>) -> Option<Behavior> {
        let key = qualified("minecraft"@, name);
        if self.blocks@.contains_key(key) {
            Some(self.blocks@[key])
        } else {
            None
        }
    }

    /// A registry without behaviours.
    pub fn new() -> (r: BlockRegistry)
        ensures
            r.blocks@ == Map::<Seq<char>, Behavior>::empty(),
    {
        BlockRegistry { blocks: StringHashMap::new() }
    }

    /// Registers a behaviour under each of its keys; a key that was taken
    /// goes over to the new behaviour.
    pub fn register(&mut self, block: Behavior)
        ensures
            final(self).blocks@ == entered(old(self).blocks@, keys_of(block), block),
    {
        let names = block.names();
        let ghost keys = keys_of(block);
        let mut i: usize = 0;
        proof {
            assert(keys.take(0) =~= Seq::<Seq<char>>::empty());
        }
        while i < names.len()
            invariant
                i <= names.len(),
                names@.len() == keys.len(),
                forall|j: int| 0 <= j < names@.len() ==> (#[trigger] names@[j])@ == keys[j],
                self.blocks@ == entered(old(self).blocks@, keys.take(i as int), block),
            decreases names.len() - i,
        {
            let name = names[i].clone();
            proof {
                assert(keys.take(i + 1).drop_last() =~= keys.take(i as int));
                assert(keys.take(i + 1).last() == keys[i as int]);
                assert(name@ == keys[i as int]);
            }
            self.blocks.insert(name, block);
            i += 1;
        }
        proof {
            assert(keys.take(i as int) =~= keys);
        }
    }

    /// The behaviour registered for a block, where there is one.
    pub fn get_pumpkin_block(&self, block: &OptimizedBlock) -> (r: Option<&Behavior>)
        ensures
            match r {
                Some(b) => self.spec_behavior(block.name@) == Some(*b),
                None => self.spec_behavior(block.name@) is None,
            },
    {
        let mut key = String::from_str("minecraft:");
        key.append(block.name.as_str());
        proof {
            reveal_strlit("minecraft:");
            reveal_strlit("minecraft");
            assert(key@ =~= qualified("minecraft"@, block.name@));
        }
        self.blocks.get(key.as_str())
    }
}

/// The registry with the behaviours that the library has.
pub fn default_registry() -> (r: BlockRegistry)
    ensures
        r.blocks@ == default_table(),
{
    let mut manager = BlockRegistry::new();
    manager.register(Behavior::FarmLand(FarmLandBlock));
    manager.register(Behavior::Bush(BushBlock));
    manager.register(Behavior::SoulFire(SoulFireBlock));
    manager.register(Behavior::TripwireHook(TripwireHookBlock));
    manager.register(Behavior::Shelf(ShelfBlock));
    manager
}

} // verus!
