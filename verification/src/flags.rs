//! The flags that shape the side effects of writing a block state.

use vstd::prelude::*;

verus! {

/// A set of flags, one bit each.
#[derive(Clone, Copy, Debug, PartialEq, Eq, Structural)]
pub struct BlockFlags {
    pub bits: u32,
}

/// Tell the neighbours of the change.
pub const NOTIFY_NEIGHBORS: u32 = 1;

/// Tell the clients that watch the cell.
pub const NOTIFY_LISTENERS: u32 = 2;

/// Both of `NOTIFY_NEIGHBORS` and `NOTIFY_LISTENERS`.
pub const NOTIFY_ALL: u32 = 3;

/// Do not have the clients draw the cell again.
pub const NO_REDRAW: u32 = 4;

/// Keep the state as written: the neighbours may not revise their states.
pub const FORCE_STATE: u32 = 16;

/// Do not drop the loot of a block that the write removes.
pub const SKIP_DROPS: u32 = 32;

/// The block was moved, as by a piston.
pub const MOVED: u32 = 64;

impl BlockFlags {
    /// Every flag of `other` is set.
    pub open spec fn spec_contains(self, other: u32) -> bool {
        self.bits & other == other
    }

    /// The flags of `self` that are not flags of `other`.
    pub open spec fn spec_without(self, other: u32) -> BlockFlags {
        BlockFlags { bits: self.bits & !other }
    }

    /// The flags of both.
    pub open spec fn spec_with(self, other: u32) -> BlockFlags {
        BlockFlags { bits: self.bits | other }
    }

    /// The set with the given bits.
    pub fn new(bits: u32) -> (r: BlockFlags)
        ensures
            r.bits == bits,
    {
        BlockFlags { bits }
    }

    /// The empty set.
    pub fn empty() -> (r: BlockFlags)
        ensures
            r.bits == 0,
    {
        BlockFlags { bits: 0 }
    }

    /// `NOTIFY_NEIGHBORS` and `NOTIFY_LISTENERS`.
    pub fn notify_all() -> (r: BlockFlags)
        ensures
            r.bits == NOTIFY_ALL,
    {
        BlockFlags { bits: NOTIFY_ALL }
    }

    /// Whether every flag of `other` is set.
    pub fn contains(&self, other: u32) -> (r: bool)
        ensures
            r == self.spec_contains(other),
    {
        self.bits & other == other
    }

    /// The set without the flags of `other`.
    pub fn without(&self, other: u32) -> (r: BlockFlags)
        ensures
            r == self.spec_without(other),
    {
        BlockFlags { bits: self.bits & !other }
    }

    /// The set with the flags of `other` added.
    pub fn with(&self, other: u32) -> (r: BlockFlags)
        ensures
            r == self.spec_with(other),
    {
        BlockFlags { bits: self.bits | other }
    }
}

/// A flag that was added is set, a flag that was taken out is not, and
/// neither changes another single flag.
pub proof fn law_flags(flags: BlockFlags, a: u32, b: u32)
    requires
        a == NOTIFY_NEIGHBORS || a == NOTIFY_LISTENERS || a == NO_REDRAW || a == FORCE_STATE || a
            == SKIP_DROPS || a == MOVED,
        b == NOTIFY_NEIGHBORS || b == NOTIFY_LISTENERS || b == NO_REDRAW || b == FORCE_STATE || b
            == SKIP_DROPS || b == MOVED,
    ensures
        flags.spec_with(a).spec_contains(a),
        !flags.spec_without(a).spec_contains(a),
        a != b ==> flags.spec_with(a).spec_contains(b) == flags.spec_contains(b),
        a != b ==> flags.spec_without(a).spec_contains(b) == flags.spec_contains(b),
        flags.spec_contains(NOTIFY_ALL) == (flags.spec_contains(NOTIFY_NEIGHBORS)
            && flags.spec_contains(NOTIFY_LISTENERS)),
{
    let x = flags.bits;
    assert((x | a) & a == a) by (bit_vector);
    assert((a == 1 || a == 2 || a == 4 || a == 16 || a == 32 || a == 64) ==> (x & !a) & a != a)
        by (bit_vector);
    assert((a == 1 || a == 2 || a == 4 || a == 16 || a == 32 || a == 64) && (b == 1 || b == 2 || b
        == 4 || b == 16 || b == 32 || b == 64) && a != b ==> (((x | a) & b == b) == (x & b == b)))
        by (bit_vector);
    assert((a == 1 || a == 2 || a == 4 || a == 16 || a == 32 || a == 64) && (b == 1 || b == 2 || b
        == 4 || b == 16 || b == 32 || b == 64) && a != b ==> (((x & !a) & b == b) == (x & b
        == b))) by (bit_vector);
    assert((x & 3 == 3) == ((x & 1 == 1) && (x & 2 == 2))) by (bit_vector);
}

} // verus!
