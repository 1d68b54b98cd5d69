//! The slot table as a mathematical value, and what holds of it.
//!
//! The scheduler keeps its tasks in a table of at most [`CAPACITY`] slots.
//! The vacant slots form a list through their `next_vacant` fields; a
//! registration takes the head of the list, and a slot that is given up
//! becomes the head.
//!
//! A task that is registered is fresh: it takes no part in the turn under
//! way.  The beginning of a turn lets the fresh tasks join the others.

use vstd::prelude::*;
use crate::slots::CoreSlot;
use crate::slots::CAPACITY;
use crate::task::SlotEntry;

verus! {

/// The slot table as a value: the slots in order, the head of the free
/// list, and the free list itself, which is the vacant slots in the order
/// in which registrations will take them.
#[verifier::ext_equal]
pub struct Table {
    pub slots: Seq<CoreSlot>,
    pub next_slot: usize,
    pub free: Seq<usize>,
}

impl Table {
    /// The table with no slot.
    pub open spec fn empty() -> Table {
        Table { slots: Seq::empty(), next_slot: 0, free: Seq::empty() }
    }

    /// The `i`-th slot of the free list, or the index just past the table
    /// where the list has no such slot.
    pub open spec fn link(self, i: int) -> usize {
        if 0 <= i < self.free.len() {
            self.free[i]
        } else {
            self.slots.len() as usize
        }
    }

    /// The free list is sound: it names each vacant slot once and nothing
    /// else, every vacant slot points at the one that follows it in the
    /// list, the last points just past the table, and the head of the list
    /// is the slot that the next registration takes.  The table never
    /// holds more than [`CAPACITY`] slots.
    pub open spec fn wf(self) -> bool {
        &&& self.slots.len() <= CAPACITY
        &&& self.free.no_duplicates()
        &&& self.next_slot == self.link(0)
        &&& forall|i: int|
            0 <= i < self.free.len() ==> 0 <= #[trigger] self.free[i] < self.slots.len()
                && self.slots[self.free[i] as int] == (CoreSlot::Vacant {
                next_vacant: self.link(i + 1),
            })
        &&& forall|j: int|
            0 <= j < self.slots.len() && (#[trigger] self.slots[j]) is Vacant
                ==> self.free.contains(j as usize)
    }

    /// No task is out for its run step.
    pub open spec fn quiescent(self) -> bool {
        forall|j: int| 0 <= j < self.slots.len() ==> !(#[trigger] self.slots[j]).checked_out()
    }

    /// Every task in the table may be called or polled.
    pub open spec fn callable(self) -> bool {
        forall|j: int|
            0 <= j < self.slots.len() ==> (match #[trigger] self.slots[j] {
                CoreSlot::Occupied(Some(entry), _) => entry.callable(),
                _ => true,
            })
    }

    /// A registration will succeed: a slot is vacant, or the table can
    /// grow.
    pub open spec fn has_room(self) -> bool {
        self.free.len() > 0 || self.slots.len() < CAPACITY
    }

    /// The task in slot `idx`, where the slot holds one, fresh or not.
    pub open spec fn entry_at(self, idx: int) -> SlotEntry {
        self.slots[idx]->Occupied_0->0
    }

    /// The table after `entry` has been registered: the entry sits, as a
    /// fresh task, in the head of the free list, or, where no slot is
    /// vacant, in a new slot at the end.
    pub open spec fn add(self, entry: SlotEntry) -> Table {
        if self.free.len() > 0 {
            Table {
                slots: self.slots.update(self.free[0] as int, CoreSlot::Occupied(Some(entry), true)),
                next_slot: self.link(1),
                free: self.free.drop_first(),
            }
        } else {
            Table {
                slots: self.slots.push(CoreSlot::Occupied(Some(entry), true)),
                next_slot: (self.slots.len() + 1) as usize,
                free: self.free,
            }
        }
    }

    /// The table after a registration of `entry` that is given up where
    /// the table has no room.
    pub open spec fn add_if_room(self, entry: SlotEntry) -> Table {
        if self.has_room() {
            self.add(entry)
        } else {
            self
        }
    }

    /// The table after the tasks of `entries` have been registered in
    /// order, those left out that found no room.
    pub open spec fn add_each(self, entries: Seq<SlotEntry>) -> Table
        decreases entries.len(),
    {
        if entries.len() == 0 {
            self
        } else {
            self.add_if_room(entries[0]).add_each(entries.drop_first())
        }
    }

    /// How many of the tasks of `entries`, registered in order, find no
    /// room.
    pub open spec fn refused(self, entries: Seq<SlotEntry>) -> nat
        decreases entries.len(),
    {
        if entries.len() == 0 {
            0
        } else if self.has_room() {
            self.add(entries[0]).refused(entries.drop_first())
        } else {
            1 + self.refused(entries.drop_first())
        }
    }

    /// The table after a turn has begun: the fresh tasks take part.
    pub open spec fn begin_turn(self) -> Table {
        Table { slots: Seq::new(self.slots.len(), |j: int| self.slots[j].promoted()), ..self }
    }

    /// The table after the slots below `upto` have been given up in order.
    pub open spec fn vacated(self, upto: int) -> Table
        decreases upto,
    {
        if upto <= 0 {
            self
        } else {
            self.vacated(upto - 1).vacate(upto - 1)
        }
    }

    /// The table after the task in slot `idx` has been taken out for its
    /// run step.
    pub open spec fn check_out(self, idx: int) -> Table {
        Table { slots: self.slots.update(idx, CoreSlot::Occupied(None, false)), ..self }
    }

    /// The table after slot `idx` has been given up: the slot is vacant and
    /// at the head of the free list.
    pub open spec fn vacate(self, idx: int) -> Table {
        Table {
            slots: self.slots.update(idx, CoreSlot::Vacant { next_vacant: self.next_slot }),
            next_slot: idx as usize,
            free: seq![idx as usize] + self.free,
        }
    }

    /// The table after `entry` has been put back into slot `idx`.
    pub open spec fn restore(self, idx: int, entry: SlotEntry) -> Table {
        Table { slots: self.slots.update(idx, CoreSlot::Occupied(Some(entry), false)), ..self }
    }

    /// The table after the run step of the task from slot `idx` has ended.
    pub open spec fn check_in(self, idx: int, entry: SlotEntry, completed: bool) -> Table {
        if completed {
            self.vacate(idx)
        } else {
            self.restore(idx, entry)
        }
    }
}

/// A registration into a sound table with room leaves a sound table.
pub proof fn lemma_add_keeps_wf(table: Table, entry: SlotEntry)
    requires
        table.wf(),
        table.has_room(),
    ensures
        table.add(entry).wf(),
{
    let after = table.add(entry);
    if table.free.len() > 0 {
        let head = table.free[0];
        assert forall|i: int| 0 <= i < after.free.len() implies 0 <= #[trigger] after.free[i]
            < after.slots.len() && after.slots[after.free[i] as int] == (CoreSlot::Vacant {
            next_vacant: after.link(i + 1),
        }) by {
            assert(after.free[i] == table.free[i + 1]);
            assert(table.free[i + 1] != table.free[0]);
            assert(after.link(i + 1) == table.link(i + 2));
        }
        assert forall|j: int|
            0 <= j < after.slots.len() && (#[trigger] after.slots[j]) is Vacant implies after.free.contains(
            j as usize,
        ) by {
            // The slot was vacant before, and not the head of the list.
            assert(j != head);
            assert(table.slots[j] is Vacant);
            let k = choose|k: int| 0 <= k < table.free.len() && table.free[k] == j as usize;
            assert(k > 0);
            assert(after.free[k - 1] == j as usize);
        }
        assert(after.free.no_duplicates());
    } else {
        assert forall|j: int|
            0 <= j < after.slots.len() && (#[trigger] after.slots[j]) is Vacant implies after.free.contains(
            j as usize,
        ) by {
            assert(j < table.slots.len());
            assert(table.slots[j] is Vacant);
        }
    }
}

/// A registration puts the task into the slot that was the head of the free
/// list and touches no other slot that the table had.
pub proof fn lemma_add_lands_at_head(table: Table, entry: SlotEntry)
    requires
        table.wf(),
        table.has_room(),
    ensures
        table.add(entry).entry_at(table.next_slot as int) == entry,
        table.add(entry).slots[table.next_slot as int] == CoreSlot::Occupied(Some(entry), true),
        forall|j: int|
            0 <= j < table.slots.len() && j != table.next_slot ==> table.add(entry).slots[j]
                == table.slots[j],
{
}

/// Taking a task out of a sound table leaves a sound table.
pub proof fn lemma_check_out_keeps_wf(table: Table, idx: int)
    requires
        table.wf(),
        0 <= idx < table.slots.len(),
        table.slots[idx].holds_task(),
    ensures
        table.check_out(idx).wf(),
{
    lemma_occupied_is_not_free(table, idx);
}

/// Putting a task back into the slot that it was taken from leaves a sound
/// table.
pub proof fn lemma_restore_keeps_wf(table: Table, idx: int, entry: SlotEntry)
    requires
        table.wf(),
        0 <= idx < table.slots.len(),
        table.slots[idx] is Occupied,
    ensures
        table.restore(idx, entry).wf(),
{
    lemma_occupied_is_not_free(table, idx);
}

/// A slot that belongs to a task is not on the free list.
pub proof fn lemma_occupied_is_not_free(table: Table, idx: int)
    requires
        table.wf(),
        0 <= idx < table.slots.len(),
        table.slots[idx] is Occupied,
    ensures
        !table.free.contains(idx as usize),
        forall|i: int| 0 <= i < table.free.len() ==> table.free[i] != idx,
{
    assert forall|i: int| 0 <= i < table.free.len() implies table.free[i] != idx by {
        assert(table.slots[table.free[i] as int] is Vacant);
    }
}

/// Giving up a slot that belongs to a task leaves a sound table.
pub proof fn lemma_vacate_keeps_wf(table: Table, idx: int)
    requires
        table.wf(),
        0 <= idx < table.slots.len(),
        table.slots[idx] is Occupied,
    ensures
        table.vacate(idx).wf(),
{
    let after = table.vacate(idx);
    lemma_occupied_is_not_free(table, idx);
    assert forall|j: int|
        0 <= j < after.slots.len() && (#[trigger] after.slots[j]) is Vacant implies after.free.contains(
        j as usize,
    ) by {
        if j == idx {
            assert(after.free[0] == idx as usize);
        } else {
            // The slot was vacant before; the list has moved up by one.
            let k = choose|k: int| 0 <= k < table.free.len() && table.free[k] == j as usize;
            assert(after.free[k + 1] == j as usize);
        }
    }
}

impl Table {
    /// The table after the tasks of `entries` have been registered, the
    /// first of them first.
    pub open spec fn add_all(self, entries: Seq<SlotEntry>) -> Table
        decreases entries.len(),
    {
        if entries.len() == 0 {
            self
        } else {
            self.add_all(entries.drop_last()).add(entries.last())
        }
    }

    /// Each of the registrations of `entries`, made in turn, finds room.
    pub open spec fn can_add_all(self, entries: Seq<SlotEntry>) -> bool
        decreases entries.len(),
    {
        entries.len() == 0 || (self.can_add_all(entries.drop_last()) && self.add_all(
            entries.drop_last(),
        ).has_room())
    }
}

/// A table with no vacant slot takes as many registrations as it has slots
/// left below its capacity, and not one more.  Each of them grows the table
/// by the slot that holds the task.
pub proof fn lemma_capacity(table: Table, entries: Seq<SlotEntry>)
    requires
        table.wf(),
        table.free.len() == 0,
        table.slots.len() + entries.len() <= CAPACITY,
    ensures
        table.can_add_all(entries),
        table.add_all(entries).wf(),
        table.add_all(entries).free.len() == 0,
        table.add_all(entries).slots == table.slots + entries.map_values(
            |entry: SlotEntry| CoreSlot::Occupied(Some(entry), true),
        ),
        table.slots.len() + entries.len() == CAPACITY ==> !table.add_all(entries).has_room(),
    decreases entries.len(),
{
    if entries.len() > 0 {
        lemma_capacity(table, entries.drop_last());
        lemma_add_keeps_wf(table.add_all(entries.drop_last()), entries.last());
    }
}

/// From the table with no slot, [`CAPACITY`] registrations succeed and the
/// next one finds no room.
pub proof fn lemma_capacity_from_empty(entries: Seq<SlotEntry>)
    requires
        entries.len() == CAPACITY,
    ensures
        Table::empty().can_add_all(entries),
        Table::empty().add_all(entries).wf(),
        !Table::empty().add_all(entries).has_room(),
{
    lemma_capacity(Table::empty(), entries);
}

/// Registrations take the vacant slots in the order of the free list, which
/// is the reverse of the order in which the slots were given up, and do not
/// grow the table while a slot is vacant.  No other slot changes.
pub proof fn lemma_reuse_is_lifo(table: Table, entries: Seq<SlotEntry>)
    requires
        table.wf(),
        entries.len() <= table.free.len(),
    ensures
        table.can_add_all(entries),
        table.add_all(entries).wf(),
        table.add_all(entries).slots.len() == table.slots.len(),
        table.add_all(entries).free == table.free.skip(entries.len() as int),
        forall|i: int|
            0 <= i < entries.len() ==> table.add_all(entries).slots[(#[trigger] table.free[i]) as int]
                == CoreSlot::Occupied(Some(entries[i]), true),
        forall|j: int|
            0 <= j < table.slots.len() && !table.free.take(entries.len() as int).contains(
                j as usize,
            ) ==> (#[trigger] table.add_all(entries).slots[j]) == table.slots[j],
    decreases entries.len(),
{
    let after = table.add_all(entries);
    if entries.len() > 0 {
        let front = entries.drop_last();
        let k = front.len() as int;
        lemma_reuse_is_lifo(table, front);
        lemma_add_keeps_wf(table.add_all(front), entries.last());
        // The last registration takes slot `free[k]`, which none of the
        // earlier ones took.
        assert(after.free =~= table.free.skip(entries.len() as int));
        assert forall|i: int| 0 <= i < entries.len() implies after.slots[(
        #[trigger] table.free[i]) as int] == CoreSlot::Occupied(Some(entries[i]), true) by {
            if i < k {
                assert(front[i] == entries[i]);
            }
        }
        assert forall|j: int|
            0 <= j < table.slots.len() && !table.free.take(entries.len() as int).contains(
                j as usize,
            ) implies (#[trigger] after.slots[j]) == table.slots[j] by {
            assert(table.free.take(entries.len() as int)[k] == table.free[k]);
            if table.free.take(k).contains(j as usize) {
                let w = choose|w: int| 0 <= w < k && table.free.take(k)[w] == j as usize;
                assert(table.free.take(entries.len() as int)[w] == j as usize);
            }
        }
    }
}

/// Giving up the slots below `upto` of a sound table, each of which
/// belongs to a task, leaves a sound table with those slots at the head of
/// the free list, the highest first.
pub proof fn lemma_vacated(table: Table, upto: int)
    requires
        table.wf(),
        0 <= upto <= table.slots.len(),
        forall|j: int| 0 <= j < upto ==> (#[trigger] table.slots[j]) is Occupied,
    ensures
        table.vacated(upto).wf(),
        table.vacated(upto).slots.len() == table.slots.len(),
        table.vacated(upto).free == Seq::new(upto as nat, |i: int| (upto - 1 - i) as usize)
            + table.free,
        forall|j: int| 0 <= j < upto ==> (#[trigger] table.vacated(upto).slots[j]) is Vacant,
        forall|j: int|
            upto <= j < table.slots.len() ==> (#[trigger] table.vacated(upto).slots[j])
                == table.slots[j],
    decreases upto,
{
    if upto > 0 {
        lemma_vacated(table, upto - 1);
        let mid = table.vacated(upto - 1);
        let after = table.vacated(upto);
        assert(mid.slots[upto - 1] == table.slots[upto - 1]);
        lemma_vacate_keeps_wf(mid, upto - 1);
        assert(after == mid.vacate(upto - 1));
        assert(after.free == seq![(upto - 1) as usize] + mid.free);
        assert(after.free =~= Seq::new(upto as nat, |i: int| (upto - 1 - i) as usize)
            + table.free) by {
            let target = Seq::new(upto as nat, |i: int| (upto - 1 - i) as usize) + table.free;
            assert(after.free.len() == target.len());
            assert forall|i: int| 0 <= i < after.free.len() implies after.free[i] == target[i] by {
                if i > 0 {
                    assert(after.free[i] == mid.free[i - 1]);
                }
            }
        }
        assert forall|j: int| 0 <= j < upto implies (#[trigger] after.slots[j]) is Vacant by {
            if j < upto - 1 {
                assert(mid.slots[j] is Vacant);
            }
        }
    } else {
        assert(table.free =~= Seq::new(0nat, |i: int| (upto - 1 - i) as usize) + table.free);
    }
}

/// A task that is registered is fresh, whenever it is registered and
/// whichever slot it takes: it sits in the slot that was the head of the
/// free list, no slot that held no task before holds one that takes part in
/// the turn under way, and every other slot is as it was.  A task that
/// registers another during its own run step therefore finds its own slot
/// as it left it, and the turn under way, which hands out only tasks that
/// take part in it, does not run the new task.
pub proof fn lemma_registration_during_turn(table: Table, entry: SlotEntry)
    requires
        table.wf(),
        table.has_room(),
    ensures
        table.add(entry).wf(),
        table.add(entry).slots[table.next_slot as int] == CoreSlot::Occupied(Some(entry), true),
        !table.add(entry).slots[table.next_slot as int].holds_task(),
        forall|j: int|
            0 <= j < table.slots.len() && j != table.next_slot ==> table.add(entry).slots[j]
                == table.slots[j],
        forall|j: int|
            0 <= j < table.add(entry).slots.len() && (#[trigger] table.add(entry).slots[j]).holds_task()
                ==> j < table.slots.len() && table.slots[j] == table.add(entry).slots[j],
        forall|j: int|
            0 <= j < table.slots.len() && (#[trigger] table.slots[j]).checked_out()
                ==> table.add(entry).slots[j].checked_out(),
{
    lemma_add_keeps_wf(table, entry);
    if table.free.len() > 0 {
        assert(table.slots[table.free[0] as int] is Vacant);
    }
}

/// Registrations leave a sound table sound, and they leave every slot that
/// belongs to a task as it is: whatever is registered, no task is added to
/// those that take part in the turn under way, and none is taken from
/// them.
pub proof fn lemma_add_each(table: Table, entries: Seq<SlotEntry>)
    requires
        table.wf(),
    ensures
        table.add_each(entries).wf(),
        table.add_each(entries).slots.len() >= table.slots.len(),
        table.refused(entries) <= entries.len(),
        forall|j: int|
            0 <= j < table.slots.len() && !((#[trigger] table.slots[j]) is Vacant)
                ==> table.add_each(entries).slots[j] == table.slots[j],
        forall|j: int|
            0 <= j < table.add_each(entries).slots.len() && (
            #[trigger] table.add_each(entries).slots[j]).holds_task() ==> j < table.slots.len()
                && table.slots[j] == table.add_each(entries).slots[j],
        forall|j: int|
            0 <= j < table.add_each(entries).slots.len() && (
            #[trigger] table.add_each(entries).slots[j]).checked_out() ==> j < table.slots.len()
                && table.slots[j].checked_out(),
        table.callable() && (forall|i: int| 0 <= i < entries.len() ==> (
        #[trigger] entries[i]).callable()) ==> table.add_each(entries).callable(),
        entries.len() == 0 ==> table.add_each(entries) == table,
    decreases entries.len(),
{
    if entries.len() > 0 {
        let next = table.add_if_room(entries[0]);
        if table.has_room() {
            lemma_registration_during_turn(table, entries[0]);
        }
        lemma_add_each(next, entries.drop_first());
        let after = table.add_each(entries);
        assert forall|j: int|
            0 <= j < table.slots.len() && !((#[trigger] table.slots[j]) is Vacant) implies after.slots[j]
            == table.slots[j] by {
            if table.has_room() && table.free.len() > 0 {
                assert(table.slots[table.free[0] as int] is Vacant);
            }
            assert(next.slots[j] == table.slots[j]);
        }
        if table.callable() && (forall|i: int|
            0 <= i < entries.len() ==> (#[trigger] entries[i]).callable()) {
            assert(entries[0].callable());
            assert(next.callable());
            assert forall|i: int| 0 <= i < entries.drop_first().len() implies (
            #[trigger] entries.drop_first()[i]).callable() by {
                assert(entries[i + 1].callable());
            }
        }
    }
}

/// The beginning of a turn leaves a sound table sound and leaves no fresh
/// task behind.
pub proof fn lemma_begin_turn(table: Table)
    requires
        table.wf(),
    ensures
        table.begin_turn().wf(),
        table.callable() ==> table.begin_turn().callable(),
        table.quiescent() ==> table.begin_turn().quiescent(),
        forall|j: int|
            0 <= j < table.slots.len() ==> !(#[trigger] table.begin_turn().slots[j]).holds_fresh_task(),
{
    let after = table.begin_turn();
    assert forall|j: int|
        0 <= j < after.slots.len() && (#[trigger] after.slots[j]) is Vacant implies after.free.contains(
        j as usize,
    ) by {
        assert(table.slots[j] is Vacant);
    }
    if table.callable() {
        assert forall|j: int| 0 <= j < after.slots.len() implies (match #[trigger] after.slots[j] {
            CoreSlot::Occupied(Some(entry), _) => entry.callable(),
            _ => true,
        }) by {
            assert(after.slots[j] == table.slots[j].promoted());
        }
    }
    if table.quiescent() {
        assert forall|j: int| 0 <= j < after.slots.len() implies !(
        #[trigger] after.slots[j]).checked_out() by {
            assert(after.slots[j] == table.slots[j].promoted());
        }
    }
}

} // verus!
