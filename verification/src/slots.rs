//! The storage of the scheduler: a vector of slots with a fixed capacity.

use vstd::prelude::*;
use arrayvec::ArrayVec;
use arrayvec::CapacityError;
use crate::task::SlotEntry;

verus! {

/// The number of slots that the scheduler can hold.
pub const CAPACITY: usize = 8;

/// A slot of the scheduler.
pub enum CoreSlot {
    /// The slot holds no task; `next_vacant` is the slot that follows it in
    /// the free list.
    Vacant { next_vacant: usize },
    /// The slot belongs to a task.  The task itself is absent only while
    /// it is checked out to run.  The mark says that the task is fresh: it
    /// has been registered since the last turn began and takes no part in
    /// the turn under way; it joins the others when the next turn begins.
    Occupied(Option<SlotEntry>, bool),
}

impl CoreSlot {
    /// The slot belongs to a task that is out for its run step.
    pub open spec fn checked_out(self) -> bool {
        self matches CoreSlot::Occupied(None, _)
    }

    /// The slot holds a task that takes part in the turn under way.
    pub open spec fn holds_task(self) -> bool {
        self matches CoreSlot::Occupied(Some(_), false)
    }

    /// The slot holds a task that waits for the next turn.
    pub open spec fn holds_fresh_task(self) -> bool {
        self matches CoreSlot::Occupied(Some(_), true)
    }

    /// The slot as the beginning of a turn leaves it: a task that waited
    /// for the turn takes part in it, and any other slot is as it was.
    pub open spec fn promoted(self) -> CoreSlot {
        match self {
            CoreSlot::Occupied(task, _) => CoreSlot::Occupied(task, false),
            _ => self,
        }
    }
}

/// `arrayvec::CapacityError`: what a push into a full `ArrayVec` fails
/// with.  Nothing is said of what it holds.
#[verifier::external_type_specification]
#[verifier::external_body]
#[verifier::reject_recursive_types(T)]
pub struct ExCapacityError<T>(CapacityError<T>);

/// The slots, in an `arrayvec::ArrayVec` of capacity [`CAPACITY`].  What
/// the vector holds is known through [`slot_seq`] alone.
#[verifier::external_body]
pub struct SlotVec {
    slots: ArrayVec<[CoreSlot; 8]>,
}

/// The slots that a [`SlotVec`] holds, in order.
pub uninterp spec fn slot_seq(slots: SlotVec) -> Seq<CoreSlot>;

/// `ArrayVec::new`: a vector that holds nothing.
#[verifier::external_body]
pub(crate) fn slots_new() -> (slots: SlotVec)
    ensures
        slot_seq(slots) == Seq::<CoreSlot>::empty(),
{
    SlotVec { slots: ArrayVec::new() }
}

/// `ArrayVec::len`: the number of elements held.
#[verifier::external_body]
pub(crate) fn slots_len(slots: &SlotVec) -> (len: usize)
    ensures
        len == slot_seq(*slots).len(),
{
    slots.slots.len()
}

/// `ArrayVec::try_push`: below capacity the element is appended and the
/// call succeeds; at capacity the vector is left as it was and the call
/// fails.
#[verifier::external_body]
pub(crate) fn slots_try_push(slots: &mut SlotVec, slot: CoreSlot) -> (pushed: Result<
    (),
    CapacityError<CoreSlot>,
>)
    ensures
        pushed is Ok <==> slot_seq(*old(slots)).len() < CAPACITY,
        pushed is Ok ==> slot_seq(*final(slots)) == slot_seq(*old(slots)).push(slot),
        pushed is Err ==> slot_seq(*final(slots)) == slot_seq(*old(slots)),
{
    slots.slots.try_push(slot)
}

/// `get` on the slice that an `ArrayVec` dereferences to: the element at
/// `idx`, or nothing where `idx` is not below the length.
#[verifier::external_body]
pub(crate) fn slots_get(slots: &SlotVec, idx: usize) -> (slot: Option<&CoreSlot>)
    ensures
        slot is Some <==> idx < slot_seq(*slots).len(),
        slot is Some ==> *slot->0 == slot_seq(*slots)[idx as int],
{
    slots.slots.get(idx)
}

/// `get_mut` on the slice that an `ArrayVec` dereferences to: the element
/// at `idx`, open to change, or nothing where `idx` is not below the
/// length.  No other element changes.
#[verifier::external_body]
pub(crate) fn slots_get_mut(slots: &mut SlotVec, idx: usize) -> (slot: Option<&mut CoreSlot>)
    ensures
        slot is Some <==> idx < slot_seq(*old(slots)).len(),
        slot is Some ==> *slot->0 == slot_seq(*old(slots))[idx as int] && slot_seq(*final(slots))
            == slot_seq(*old(slots)).update(idx as int, *final(slot->0)),
        slot is None ==> slot_seq(*final(slots)) == slot_seq(*old(slots)),
{
    slots.slots.get_mut(idx)
}

} // verus!
