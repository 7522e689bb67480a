//! The cells of a world: a state id for each position, with one state id
//! for all the positions that were never written.

use vstd::prelude::*;
use std::collections::HashMap;
use crate::direction::BlockPos;

verus! {

broadcast use vstd::std_specs::hash::group_hash_axioms;

/// The number under which a position is kept: its three coordinates, each
/// moved into the range of 32 unsigned bits, side by side.
pub open spec fn key_of(pos: BlockPos) -> u128 {
    ((pos.x + 0x8000_0000) * 0x1_0000_0000_0000_0000 + (pos.y + 0x8000_0000) * 0x1_0000_0000 + (
    pos.z + 0x8000_0000)) as u128
}

/// Two positions are kept under the same number only if they are the same
/// position.
pub proof fn lemma_key_decides(p: BlockPos, q: BlockPos)
    requires
        key_of(p) == key_of(q),
    ensures
        p == q,
{
    let px = p.x + 0x8000_0000;
    let py = p.y + 0x8000_0000;
    let pz = p.z + 0x8000_0000;
    let qx = q.x + 0x8000_0000;
    let qy = q.y + 0x8000_0000;
    let qz = q.z + 0x8000_0000;
    assert(px * 0x1_0000_0000_0000_0000 + py * 0x1_0000_0000 + pz == qx * 0x1_0000_0000_0000_0000
        + qy * 0x1_0000_0000 + qz);
    assert(px == qx && py == qy && pz == qz) by (nonlinear_arith)
        requires
            0 <= px < 0x1_0000_0000,
            0 <= py < 0x1_0000_0000,
            0 <= pz < 0x1_0000_0000,
            0 <= qx < 0x1_0000_0000,
            0 <= qy < 0x1_0000_0000,
            0 <= qz < 0x1_0000_0000,
            px * 0x1_0000_0000_0000_0000 + py * 0x1_0000_0000 + pz == qx
                * 0x1_0000_0000_0000_0000 + qy * 0x1_0000_0000 + qz,
    ;
}

/// The number under which a position is kept.
pub fn pack(pos: BlockPos) -> (k: u128)
    ensures
        k == key_of(pos),
{
    let x: u128 = (pos.x as i64 + 0x8000_0000) as u128;
    let y: u128 = (pos.y as i64 + 0x8000_0000) as u128;
    let z: u128 = (pos.z as i64 + 0x8000_0000) as u128;
    x * 0x1_0000_0000_0000_0000 + y * 0x1_0000_0000 + z
}

/// The state ids of the cells of a world.
pub struct Cells {
    /// The cells that were written, each under the number of its position.
    pub map: HashMap<u128, u16>,
    /// The state id of every cell that was never written.
    pub fill: u16,
}

/// The state id at a position, given the written cells by the numbers of
/// their positions and the state id of the others.
pub open spec fn state_at(written: Map<u128, u16>, fill: u16, pos: BlockPos) -> u16 {
    if written.contains_key(key_of(pos)) {
        written[key_of(pos)]
    } else {
        fill
    }
}

/// Writing a cell changes the state id at its position and at no other.
pub proof fn law_write_one_cell(written: Map<u128, u16>, fill: u16, pos: BlockPos, id: u16, q: BlockPos)
    ensures
        state_at(written.insert(key_of(pos), id), fill, q) == if q == pos {
            id
        } else {
            state_at(written, fill, q)
        },
{
    if key_of(q) == key_of(pos) {
        lemma_key_decides(q, pos);
    }
}

impl Cells {
    /// The state id at a position.
    pub open spec fn spec_get(&self, pos: BlockPos) -> u16 {
        state_at(self.map@, self.fill, pos)
    }

    /// Cells that all hold the state id `fill`.
    pub fn new(fill: u16) -> (r: Cells)
        ensures
            r.fill == fill,
            r.map@ == Map::<u128, u16>::empty(),
            forall|pos: BlockPos| r.spec_get(pos) == fill,
    {
        Cells { map: HashMap::new(), fill }
    }

    /// The state id at a position.
    pub fn get(&self, pos: BlockPos) -> (r: u16)
        ensures
            r == self.spec_get(pos),
    {
        let key = pack(pos);
        match self.map.get(&key) {
            Some(id) => *id,
            None => self.fill,
        }
    }

    /// Writes the state id at a position; every other cell stays as it is.
    pub fn set(&mut self, pos: BlockPos, state_id: u16)
        ensures
            final(self).fill == old(self).fill,
            final(self).map@ == old(self).map@.insert(key_of(pos), state_id),
            forall|q: BlockPos|
                #[trigger] final(self).spec_get(q) == if q == pos {
                    state_id
                } else {
                    old(self).spec_get(q)
                },
    {
        let key = pack(pos);
        self.map.insert(key, state_id);
        proof {
            assert forall|q: BlockPos| #[trigger] self.spec_get(q) == if q == pos {
                state_id
            } else {
                old(self).spec_get(q)
            } by {
                if key_of(q) == key_of(pos) {
                    lemma_key_decides(q, pos);
                }
            }
        }
    }
}

} // verus!
