//! Scheduled block ticks: deferred per-position callbacks, kept in the
//! order in which they fire.

use vstd::prelude::*;
use crate::direction::BlockPos;
use crate::search::lemma_index_of_first;

verus! {

/// How early among the ticks of one game tick a scheduled tick fires.
#[derive(Clone, Copy, Debug, PartialEq, Eq, Structural)]
pub enum TickPriority {
    ExtremelyHigh,
    High,
    Normal,
    Low,
    ExtremelyLow,
}

impl TickPriority {
    /// The place of the priority: lower fires earlier.
    pub open spec fn spec_rank(self) -> int {
        match self {
            TickPriority::ExtremelyHigh => 0,
            TickPriority::High => 1,
            TickPriority::Normal => 2,
            TickPriority::Low => 3,
            TickPriority::ExtremelyLow => 4,
        }
    }

    /// The place of the priority: lower fires earlier.
    pub fn rank(&self) -> (r: u8)
        ensures
            r == self.spec_rank(),
    {
        match self {
            TickPriority::ExtremelyHigh => 0,
            TickPriority::High => 1,
            TickPriority::Normal => 2,
            TickPriority::Low => 3,
            TickPriority::ExtremelyLow => 4,
        }
    }
}

impl Default for TickPriority {
    fn default() -> (r: TickPriority)
        ensures
            r == TickPriority::Normal,
    {
        TickPriority::Normal
    }
}

/// A scheduled tick: the block at a position is to be ticked at a game tick.
#[derive(Clone, Copy, Debug, PartialEq, Eq, Structural)]
pub struct ScheduledTick {
    pub pos: BlockPos,
    pub block_id: u16,
    pub due_tick: u64,
    pub priority: TickPriority,
    /// The number of the tick in the order of scheduling.
    pub seq: u64,
}

impl ScheduledTick {
    /// `self` fires before `other`: it is due earlier; or due at the same
    /// tick with a higher priority; or, with the same priority too, it was
    /// scheduled earlier.
    pub open spec fn before(self, other: ScheduledTick) -> bool {
        ||| self.due_tick < other.due_tick
        ||| self.due_tick == other.due_tick && self.priority.spec_rank()
            < other.priority.spec_rank()
        ||| self.due_tick == other.due_tick && self.priority == other.priority && self.seq
            < other.seq
    }

    /// Whether `self` fires before `other`.
    pub fn fires_before(&self, other: &ScheduledTick) -> (r: bool)
        ensures
            r == self.before(*other),
    {
        if self.due_tick != other.due_tick {
            return self.due_tick < other.due_tick;
        }
        let a = self.priority.rank();
        let b = other.priority.rank();
        if a != b {
            return a < b;
        }
        self.seq < other.seq
    }
}

/// Each entry fires before every later one.
pub open spec fn sorted(entries: Seq<ScheduledTick>) -> bool {
    forall|i: int, j: int|
        0 <= i < j < entries.len() ==> (#[trigger] entries[i]).before(#[trigger] entries[j])
}

/// An entry stands for the block at the position.
pub open spec fn has_entry(entries: Seq<ScheduledTick>, pos: BlockPos, block_id: u16) -> bool {
    exists|i: int|
        0 <= i < entries.len() && (#[trigger] entries[i]).pos == pos && entries[i].block_id
            == block_id
}

/// For each entry, whether it fires before `tick`.
pub open spec fn earlier(entries: Seq<ScheduledTick>, tick: ScheduledTick) -> Seq<bool> {
    Seq::new(entries.len(), |i: int| entries[i].before(tick))
}

/// The place of a new tick in the queue: behind the entries that fire
/// before it.
pub open spec fn slot(entries: Seq<ScheduledTick>, tick: ScheduledTick) -> int {
    match earlier(entries, tick).index_of_first(false) {
        Some(i) => i,
        None => entries.len() as int,
    }
}

/// The queue of scheduled ticks of a world.
#[derive(Debug)]
pub struct TickScheduler {
    /// The scheduled ticks, in the order in which they fire.
    pub entries: Vec<ScheduledTick>,
    /// The number that the next scheduled tick gets.
    pub next_seq: u64,
}

impl TickScheduler {
    /// The queue is in firing order; no block at a position has two entries;
    /// and every entry was numbered before the next to come.
    pub open spec fn well_formed(&self) -> bool {
        &&& sorted(self.entries@)
        &&& forall|i: int, j: int|
            0 <= i < j < self.entries@.len() ==> !((#[trigger] self.entries@[i]).pos == (
            #[trigger] self.entries@[j]).pos && self.entries@[i].block_id
                == self.entries@[j].block_id)
        &&& forall|i: int|
            0 <= i < self.entries@.len() ==> (#[trigger] self.entries@[i]).seq < self.next_seq
    }

    /// An empty queue.
    pub fn new() -> (r: TickScheduler)
        ensures
            r.well_formed(),
            r.entries@.len() == 0,
            r.next_seq == 0,
    {
        TickScheduler { entries: Vec::new(), next_seq: 0 }
    }

    /// Whether the queue is well formed.
    pub fn check(&self) -> (r: bool)
        ensures
            r == self.well_formed(),
    {
        let n = self.entries.len();
        let mut j: usize = 0;
        while j < n
            invariant
                j <= n,
                n == self.entries@.len(),
                forall|x: int, y: int|
                    0 <= x < y < j ==> (#[trigger] self.entries@[x]).before(
                        #[trigger] self.entries@[y],
                    ) && !(self.entries@[x].pos == self.entries@[y].pos && self.entries@[x].block_id
                        == self.entries@[y].block_id),
                forall|x: int| 0 <= x < j ==> (#[trigger] self.entries@[x]).seq < self.next_seq,
            decreases n - j,
        {
            if self.entries[j].seq >= self.next_seq {
                return false;
            }
            let mut i: usize = 0;
            while i < j
                invariant
                    i <= j < n,
                    n == self.entries@.len(),
                    forall|x: int|
                        0 <= x < i ==> (#[trigger] self.entries@[x]).before(self.entries@[j as int])
                            && !(self.entries@[x].pos == self.entries@[j as int].pos
                            && self.entries@[x].block_id == self.entries@[j as int].block_id),
                decreases j - i,
            {
                let a = &self.entries[i];
                let b = &self.entries[j];
                if !a.fires_before(b) || (a.pos == b.pos && a.block_id == b.block_id) {
                    return false;
                }
                i += 1;
            }
            j += 1;
        }
        true
    }

    /// The number of scheduled ticks.
    pub fn len(&self) -> (r: usize)
        ensures
            r == self.entries@.len(),
    {
        self.entries.len()
    }

    /// Whether a tick is scheduled for the block at the position.
    pub fn is_scheduled(&self, pos: BlockPos, block_id: u16) -> (r: bool)
        ensures
            r == has_entry(self.entries@, pos, block_id),
    {
        let mut i: usize = 0;
        while i < self.entries.len()
            invariant
                i <= self.entries.len(),
                forall|j: int|
                    0 <= j < i ==> !((#[trigger] self.entries@[j]).pos == pos
                        && self.entries@[j].block_id == block_id),
            decreases self.entries.len() - i,
        {
            if self.entries[i].pos == pos && self.entries[i].block_id == block_id {
                return true;
            }
            i += 1;
        }
        false
    }

    /// Schedules a tick for the block at a position, unless one is scheduled
    /// for it already or the numbering is used up. Says whether it did.
    pub fn schedule(
        &mut self,
        pos: BlockPos,
        block_id: u16,
        due_tick: u64,
        priority: TickPriority,
    ) -> (scheduled: bool)
        requires
            old(self).well_formed(),
        ensures
            final(self).well_formed(),
            scheduled == (!has_entry(old(self).entries@, pos, block_id) && old(self).next_seq
                < u64::MAX),
            !scheduled ==> *final(self) == *old(self),
            scheduled ==> {
                let tick = ScheduledTick { pos, block_id, due_tick, priority, seq: old(self).next_seq };
                &&& final(self).next_seq == old(self).next_seq + 1
                &&& final(self).entries@ == old(self).entries@.insert(
                    slot(old(self).entries@, tick),
                    tick,
                )
            },
    {
        if self.next_seq == u64::MAX || self.is_scheduled(pos, block_id) {
            return false;
        }
        let tick = ScheduledTick { pos, block_id, due_tick, priority, seq: self.next_seq };
        let ghost before = self.entries@;
        let mut i: usize = 0;
        while i < self.entries.len() && self.entries[i].fires_before(&tick)
            invariant
                i <= self.entries.len(),
                self.entries@ == before,
                forall|j: int| 0 <= j < i ==> earlier(before, tick)[j] != false,
            decreases self.entries.len() - i,
        {
            i += 1;
        }
        proof {
            lemma_index_of_first(earlier(before, tick), false, i as int);
            assert(slot(before, tick) == i);
        }
        self.entries.insert(i, tick);
        self.next_seq = self.next_seq + 1;
        proof {
            let after = self.entries@;
            assert forall|x: int, y: int| 0 <= x < y < after.len() implies (
            #[trigger] after[x]).before(#[trigger] after[y]) by {
                if y == i {
                    assert(earlier(before, tick)[x] != false);
                } else if x == i {
                    let k = y - 1;
                    assert(after[y] == before[k]);
                    assert(before[i as int].seq < tick.seq);
                    assert(!before[i as int].before(tick));
                    if k > i {
                        assert(before[i as int].before(before[k]));
                    }
                } else {
                    let a = if x < i {
                        x
                    } else {
                        x - 1
                    };
                    let b = if y < i {
                        y
                    } else {
                        y - 1
                    };
                    assert(before[a].before(before[b]));
                }
            }
            assert forall|x: int, y: int| 0 <= x < y < after.len() implies !((
            #[trigger] after[x]).pos == (#[trigger] after[y]).pos && after[x].block_id
                == after[y].block_id) by {
                let a = if x < i {
                    x
                } else {
                    x - 1
                };
                let b = if y < i {
                    y
                } else {
                    y - 1
                };
                if x != i && y != i {
                    assert(!(before[a].pos == before[b].pos && before[a].block_id
                        == before[b].block_id));
                } else if x == i {
                    assert(!(before[b].pos == pos && before[b].block_id == block_id));
                } else {
                    assert(!(before[a].pos == pos && before[a].block_id == block_id));
                }
            }
            assert forall|x: int| 0 <= x < after.len() implies (#[trigger] after[x]).seq
                < self.next_seq by {
                if x < i {
                    assert(after[x] == before[x]);
                } else if x > i {
                    assert(after[x] == before[x - 1]);
                }
            }
        }
        true
    }

    /// Takes out the ticks that are due at `now`, in the order in which they
    /// fire, and leaves the others.
    pub fn drain(&mut self, now: u64) -> (due: Vec<ScheduledTick>)
        requires
            old(self).well_formed(),
        ensures
            final(self).well_formed(),
            final(self).next_seq == old(self).next_seq,
            due@ + final(self).entries@ == old(self).entries@,
            forall|i: int| 0 <= i < due@.len() ==> (#[trigger] due@[i]).due_tick <= now,
            forall|i: int|
                0 <= i < final(self).entries@.len() ==> (#[trigger] final(self).entries@[i]).due_tick
                    > now,
            sorted(due@),
    {
        let ghost before = self.entries@;
        let mut k: usize = 0;
        while k < self.entries.len() && self.entries[k].due_tick <= now
            invariant
                k <= self.entries.len(),
                self.entries@ == before,
                forall|i: int| 0 <= i < k ==> (#[trigger] before[i]).due_tick <= now,
            decreases self.entries.len() - k,
        {
            k += 1;
        }
        let rest = self.entries.split_off(k);
        let mut due: Vec<ScheduledTick> = Vec::new();
        std::mem::swap(&mut due, &mut self.entries);
        self.entries = rest;
        proof {
            assert(due@ =~= before.take(k as int));
            assert(self.entries@ =~= before.skip(k as int));
            assert(due@ + self.entries@ =~= before);
            assert forall|i: int| 0 <= i < self.entries@.len() implies (
            #[trigger] self.entries@[i]).due_tick > now by {
                assert(self.entries@[i] == before[k + i]);
                if i > 0 {
                    assert(before[k as int].before(before[k + i]));
                }
            }
            assert forall|x: int, y: int| 0 <= x < y < self.entries@.len() implies (
            #[trigger] self.entries@[x]).before(#[trigger] self.entries@[y]) by {
                assert(before[k + x].before(before[k + y]));
            }
            assert forall|x: int, y: int| 0 <= x < y < self.entries@.len() implies !((
            #[trigger] self.entries@[x]).pos == (#[trigger] self.entries@[y]).pos
                && self.entries@[x].block_id == self.entries@[y].block_id) by {
                assert(!(before[k + x].pos == before[k + y].pos && before[k + x].block_id
                    == before[k + y].block_id));
            }
            assert forall|x: int| 0 <= x < self.entries@.len() implies (
            #[trigger] self.entries@[x]).seq < self.next_seq by {
                assert(self.entries@[x] == before[k + x]);
            }
            assert forall|x: int, y: int| 0 <= x < y < due@.len() implies (#[trigger] due@[x]).before(
                #[trigger] due@[y],
            ) by {
                assert(before[x].before(before[y]));
            }
        }
        due
    }
}

/// However ticks were scheduled, the ticks that a drain gives are in firing
/// order: by due tick, then by priority, then by the order of scheduling.
pub proof fn law_drain_order(due: Seq<ScheduledTick>, i: int, j: int)
    requires
        sorted(due),
        0 <= i < j < due.len(),
    ensures
        due[i].due_tick <= due[j].due_tick,
        due[i].due_tick == due[j].due_tick ==> due[i].priority.spec_rank()
            <= due[j].priority.spec_rank(),
        due[i].due_tick == due[j].due_tick && due[i].priority == due[j].priority ==> due[i].seq
            < due[j].seq,
{
    assert(due[i].before(due[j]));
}

} // verus!
