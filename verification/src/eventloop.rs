//! The scheduler: a table of task slots with a free list, and the turn that
//! runs every task once.

use vstd::prelude::*;
use vstd::pervasive::unreached;
use crate::fcpu::INTERRUPT_EVERY_1_HZ_1024_PRESCALER;
use crate::mcu::Mcu;
use crate::mcu::McuState;
use crate::mcu::OCF1A;
use crate::mcu::OCIE1A;
use crate::mcu::Op;
use crate::mutex::entered;
use crate::mutex::lemma_section_restores;
use crate::mutex::Mutex;
use crate::mutex::MutexGuard;
use crate::sleep::idles;
use crate::sleep::set_event_pending;
use crate::sleep::wait_for_event;
use crate::sleep::waited;
use crate::sleep::SleepMode;
use crate::slots::slot_seq;
use crate::slots::slots_get;
use crate::slots::slots_get_mut;
use crate::slots::slots_len;
use crate::slots::slots_new;
use crate::slots::slots_try_push;
use crate::slots::CoreSlot;
use crate::slots::SlotVec;
use crate::table::lemma_add_each;
use crate::table::lemma_add_keeps_wf;
use crate::table::lemma_add_lands_at_head;
use crate::table::lemma_begin_turn;
use crate::table::lemma_check_out_keeps_wf;
use crate::table::lemma_reuse_is_lifo;
use crate::table::lemma_restore_keeps_wf;
use crate::table::lemma_vacate_keeps_wf;
use crate::table::lemma_vacated;
use crate::table::Table;
use crate::task::Pollable;
use crate::task::PollableSequence;
use crate::task::SlotEntry;
use crate::timer1::ClockSource;
use crate::timer1::Timer;
use crate::timer1::WaveformGenerationMode;

pub use crate::ticks::Ticks;

verus! {

/// Why a task could not be registered.
#[derive(Copy, Clone, Debug, PartialEq, Eq, Structural)]
pub enum SpawnError {
    /// Every slot of the table is taken.
    CapacityExceeded,
    /// No storage could be had for the task.
    AllocationFailed,
}

/// The state after the tick timer has been configured in `state`: timer 1
/// counts the core clock through the prescaler of 1024, clears its counter
/// at a match with the compare value of the tick rate, and raises the
/// compare match interrupt.
pub open spec fn tick_timer_configured(state: McuState) -> McuState {
    McuState {
        tccr1a: 0x00,
        tccr1b: 0x0d,
        tccr1c: 0x00,
        tcnt1: 0,
        ocr1a: INTERRUPT_EVERY_1_HZ_1024_PRESCALER,
        timsk1: OCIE1A,
        ..state
    }
}

/// The handler of the tick interrupt: advances the tick counter by one,
/// wrapping at the end of its range, then marks an event as pending.
pub fn timer1_compare_a(mcu: &mut Mcu)
    ensures
        final(mcu)@ == old(mcu)@.tick(),
        final(mcu).trace() == old(mcu).trace().push(Op::WritePending(true)),
{
    mcu.advance_ticks();
    set_event_pending(mcu);
}

/// Serves the compare match interrupt of timer 1 where one is due and
/// interrupts are enabled: clears the flag of the compare match and runs
/// the tick handler.  The result says whether the interrupt was served.
pub fn serve_interrupts(mcu: &mut Mcu) -> (served: bool)
    ensures
        served == (old(mcu)@.interrupts_enabled() && old(mcu)@.interrupt_due()),
        final(mcu)@ == if served {
            old(mcu)@.served()
        } else {
            old(mcu)@
        },
        final(mcu).trace() == if served {
            old(mcu).trace().push(Op::WritePending(true))
        } else {
            old(mcu).trace()
        },
{
    if mcu.interrupts_enabled() && mcu.interrupt_due() {
        mcu.set_tifr1(mcu.tifr1() & !OCF1A);
        timer1_compare_a(mcu);
        true
    } else {
        false
    }
}

/// A compare match of timer 1: the timer sets the flag of the compare
/// match, and the interrupt is served at once where it is enabled.
pub fn timer1_compare_match(mcu: &mut Mcu) -> (served: bool)
    ensures
        served == (old(mcu)@.interrupts_enabled() && old(mcu)@.timsk1 & OCIE1A != 0),
        final(mcu)@ == if served {
            old(mcu)@.served()
        } else {
            old(mcu)@.flagged()
        },
{
    let tifr1 = mcu.tifr1();
    assert((tifr1 | 0x02) & 0x02 != 0 && ((tifr1 | 0x02) & !0x02u8) == (tifr1 & !0x02u8))
        by (bit_vector);
    mcu.set_tifr1(tifr1 | OCF1A);
    serve_interrupts(mcu)
}

/// The slot table of the scheduler.
pub struct EventLoopCore {
    slots: SlotVec,
    next_slot: usize,
    free: Ghost<Seq<usize>>,
}

impl View for EventLoopCore {
    type V = Table;

    closed spec fn view(&self) -> Table {
        Table { slots: slot_seq(self.slots), next_slot: self.next_slot, free: self.free@ }
    }
}

impl EventLoopCore {
    /// A table with no slot.
    pub fn new() -> (core: EventLoopCore)
        ensures
            core@ == Table::empty(),
            core@.wf(),
    {
        EventLoopCore { slots: slots_new(), next_slot: 0, free: Ghost(Seq::empty()) }
    }

    /// Sets timer 1 up as the source of the tick interrupt.
    pub fn configure_timer(&mut self, mcu: &mut Mcu)
        ensures
            final(self)@ == old(self)@,
            final(mcu)@ == tick_timer_configured(old(mcu)@),
    {
        proof {
            assert((0u8 | ((4u8 & 0x0c) << 1) as u8) | 5u8 == 0x0d && (0u8 | (4u8 & 0x03)) == 0)
                by (bit_vector);
        }
        Timer::new().waveform_generation_mode(
            WaveformGenerationMode::ClearOnTimerMatchOutputCompare,
        ).clock_source(ClockSource::Prescale1024).output_compare_1(
            INTERRUPT_EVERY_1_HZ_1024_PRESCALER,
        ).configure(mcu);
    }

    /// The number of slots, vacant ones included.
    pub fn len(&self) -> (len: usize)
        ensures
            len == self@.slots.len(),
    {
        slots_len(&self.slots)
    }

    /// The slot that the next registration takes.
    pub fn next_slot(&self) -> (idx: usize)
        ensures
            idx == self@.next_slot,
    {
        self.next_slot
    }

    /// The slot at `idx`, or nothing where the table has no such slot.
    pub fn get(&self, idx: usize) -> (slot: Option<&CoreSlot>)
        ensures
            slot is Some <==> idx < self@.slots.len(),
            slot is Some ==> *slot->0 == self@.slots[idx as int],
    {
        slots_get(&self.slots, idx)
    }

    /// Begins a turn: every task that has been registered since the turn
    /// before began takes part from now on.  The result is the number of
    /// slots, over which the turn goes.
    pub fn begin_turn(&mut self) -> (len: usize)
        requires
            old(self)@.wf(),
        ensures
            final(self)@ == old(self)@.begin_turn(),
            final(self)@.wf(),
            len == old(self)@.slots.len(),
    {
        let ghost before = self@;
        let len = slots_len(&self.slots);
        let mut idx: usize = 0;
        while idx < len
            invariant
                idx <= len,
                len == before.slots.len(),
                self@.slots.len() == len,
                self@.next_slot == before.next_slot,
                self@.free == before.free,
                forall|j: int| 0 <= j < idx ==> self@.slots[j] == before.slots[j].promoted(),
                forall|j: int| idx <= j < len ==> self@.slots[j] == before.slots[j],
            decreases len - idx,
        {
            match slots_get_mut(&mut self.slots, idx) {
                Some(CoreSlot::Occupied(_, fresh)) => {
                    *fresh = false;
                },
                _ => {},
            }
            idx += 1;
        }
        proof {
            lemma_begin_turn(before);
            assert(self@.slots =~= before.begin_turn().slots);
        }
        len
    }

    /// Registers the tasks of `entries` in order and says how many of them
    /// found no room.
    pub fn add_slots(&mut self, entries: Vec<SlotEntry>) -> (refused: usize)
        requires
            old(self)@.wf(),
        ensures
            final(self)@ == old(self)@.add_each(entries@),
            final(self)@.wf(),
            refused == old(self)@.refused(entries@),
    {
        let ghost before = self@;
        let ghost all = entries@;
        let mut rest = entries;
        let total = rest.len();
        let mut refused: usize = 0;
        while rest.len() > 0
            invariant
                all.len() == total,
                self@.wf(),
                self@.add_each(rest@) == before.add_each(all),
                refused + self@.refused(rest@) == before.refused(all),
                refused + rest.len() <= all.len(),
            decreases rest.len(),
        {
            let ghost queue = rest@;
            let entry = rest.remove(0);
            assert(rest@ =~= queue.drop_first());
            match self.add_slot(entry) {
                Ok(()) => {},
                Err(_) => {
                    refused += 1;
                },
            }
        }
        refused
    }

    /// Registers `slot`: in the head of the free list where a slot is
    /// vacant, else in a new slot at the end of the table, and not at all
    /// where the table is full.  The task is fresh: it takes no part in
    /// the turn under way.
    pub fn add_slot(&mut self, slot: SlotEntry) -> (added: Result<(), SpawnError>)
        requires
            old(self)@.wf(),
        ensures
            added is Ok <==> old(self)@.has_room(),
            added is Ok ==> final(self)@ == old(self)@.add(slot),
            added is Err ==> added == Err::<(), SpawnError>(SpawnError::CapacityExceeded)
                && final(self)@ == old(self)@,
            final(self)@.wf(),
    {
        let idx = self.next_slot;
        let ghost before = self@;
        match slots_get_mut(&mut self.slots, idx) {
            Some(CoreSlot::Vacant { next_vacant }) => {
                self.next_slot = *next_vacant;
            },
            Some(_) => {
                proof {
                    assert(before.free.len() > 0);
                    assert(before.slots[before.free[0] as int] is Vacant);
                }
                unreached::<()>()
            },
            None => {
                match slots_try_push(&mut self.slots, CoreSlot::Vacant { next_vacant: 0 }) {
                    Ok(()) => {},
                    Err(_) => {
                        return Err(SpawnError::CapacityExceeded);
                    },
                }
                self.next_slot = idx + 1;
            },
        }
        match slots_get_mut(&mut self.slots, idx) {
            Some(place) => {
                *place = CoreSlot::Occupied(Some(slot), true);
            },
            None => unreached::<()>(),
        }
        proof {
            if before.free.len() > 0 {
                self.free = Ghost(before.free.drop_first());
            }
            lemma_add_keeps_wf(before, slot);
            assert(self@.slots =~= before.add(slot).slots);
        }
        Ok(())
    }

    /// Takes the task in slot `idx` out for its run step.  Nothing is
    /// taken, and nothing changes, where `idx` is not a slot of the table or
    /// the slot holds no task that takes part in the turn under way; a
    /// fresh task stays where it is.
    pub fn check_out(&mut self, idx: usize) -> (entry: Option<SlotEntry>)
        requires
            old(self)@.wf(),
        ensures
            entry is Some <==> idx < old(self)@.slots.len() && old(self)@.slots[idx as int].holds_task(),
            entry is Some ==> old(self)@.slots[idx as int] == CoreSlot::Occupied(entry, false)
                && final(self)@ == old(self)@.check_out(idx as int),
            entry is None ==> final(self)@ == old(self)@,
            final(self)@.wf(),
    {
        let ghost before = self@;
        let entry = match slots_get_mut(&mut self.slots, idx) {
            Some(CoreSlot::Occupied(opt_slot, false)) => opt_slot.take(),
            _ => None,
        };
        proof {
            if entry is Some {
                lemma_check_out_keeps_wf(before, idx as int);
                assert(self@.slots =~= before.check_out(idx as int).slots);
            } else {
                assert(self@.slots =~= before.slots);
            }
        }
        entry
    }

    /// Ends the run step of the task from slot `idx`: the slot is given up
    /// and becomes the head of the free list where the task is done, and
    /// the task goes back into the slot where it is not.
    pub fn check_in(&mut self, idx: usize, slot: SlotEntry, completed: bool)
        requires
            old(self)@.wf(),
            idx < old(self)@.slots.len(),
            old(self)@.slots[idx as int].checked_out(),
        ensures
            final(self)@ == old(self)@.check_in(idx as int, slot, completed),
            final(self)@.wf(),
    {
        let ghost before = self@;
        let next_slot = self.next_slot;
        match slots_get_mut(&mut self.slots, idx) {
            Some(place) => {
                if completed {
                    *place = CoreSlot::Vacant { next_vacant: next_slot };
                } else {
                    *place = CoreSlot::Occupied(Some(slot), false);
                }
            },
            None => unreached::<()>(),
        }
        if completed {
            self.next_slot = idx;
            proof {
                self.free = Ghost(seq![idx] + before.free);
                lemma_vacate_keeps_wf(before, idx as int);
            }
        } else {
            proof {
                lemma_restore_keeps_wf(before, idx as int, slot);
            }
        }
        assert(self@.slots =~= before.check_in(idx as int, slot, completed).slots);
    }
}

/// A source of the tasks that run steps register.  A callback has no hold
/// on the scheduler while the scheduler runs it; what it wants registered
/// it leaves with the source, and the scheduler asks the source after
/// every run step, while the slot of the task that ran is still its own.
pub trait Outbox {
    /// The source may be asked, and what it hands over may be called or
    /// polled.
    spec fn callable(&self) -> bool;

    /// What holds once the source has handed over `handed`.
    spec fn handed(&self, handed: Seq<SlotEntry>) -> bool;

    fn take(&mut self) -> (handed: Vec<SlotEntry>)
        requires
            old(self).callable(),
        ensures
            final(self).callable(),
            old(self).handed(handed@),
            forall|i: int| 0 <= i < handed.len() ==> (#[trigger] handed[i]).callable(),
            forall|any: Seq<SlotEntry>| #[trigger] final(self).handed(any) == old(self).handed(any),
    ;
}

/// A closure in the place of an [`Outbox`]: to ask the source is to call
/// the closure.
pub struct OutboxFn<F: FnMut() -> Vec<SlotEntry>> {
    pub func: F,
}

impl<F: FnMut() -> Vec<SlotEntry>> Outbox for OutboxFn<F> {
    open spec fn callable(&self) -> bool {
        &&& call_requires(self.func, ())
        &&& forall|handed: Vec<SlotEntry>, i: int|
            call_ensures(self.func, (), handed) && 0 <= i < handed.len() ==> (
            #[trigger] handed[i]).callable()
    }

    open spec fn handed(&self, handed: Seq<SlotEntry>) -> bool {
        exists|taken: Vec<SlotEntry>| taken@ == handed && call_ensures(self.func, (), taken)
    }

    fn take(&mut self) -> (handed: Vec<SlotEntry>) {
        (self.func)()
    }
}

/// The source that a scheduler asks.
pub struct Source {
    pub outbox: Box<dyn Outbox>,
}

/// A run step that the scheduler has made: the slot whose task ran, and
/// the status register while it ran.
pub struct Run {
    pub slot: usize,
    pub sreg: u8,
}

/// How far the scheduler has come: its slot table, the run steps that it
/// has made, and the number of tasks from run steps that found no room.
pub struct Progress {
    pub table: Table,
    pub ran: Seq<Run>,
    pub refused: usize,
}

/// A count that has grown by `more` and stays at the greatest number where
/// it would pass it.
pub open spec fn counted(count: usize, more: nat) -> usize {
    if count + more > usize::MAX {
        usize::MAX
    } else {
        (count + more) as usize
    }
}

/// The run step of the task in slot `idx` takes the scheduler from
/// `before` to `after`.  The task is out of its slot while it runs, with
/// the status register at `sreg`; its step is as [`SlotEntry::steps_to`]
/// says, and leaves the task as `done` with the verdict `completed`.  The
/// tasks of `spawned`, which the step has registered, are registered while
/// the slot is still the task's own, and those that find no room are
/// counted.  Then the slot is given up where the task is done, and takes
/// the task back where it is not.
pub open spec fn ran_step(
    before: Progress,
    after: Progress,
    idx: int,
    sreg: u8,
    now: Ticks,
    elapsed: Ticks,
    done: SlotEntry,
    completed: bool,
    spawned: Seq<SlotEntry>,
) -> bool {
    &&& before.table.entry_at(idx).steps_to(done, now, elapsed, completed)
    &&& done.callable()
    &&& forall|i: int| 0 <= i < spawned.len() ==> (#[trigger] spawned[i]).callable()
    &&& after.table == before.table.check_out(idx).add_each(spawned).check_in(
        idx,
        done,
        completed,
    )
    &&& after.ran == before.ran.push(Run { slot: idx as usize, sreg })
    &&& after.refused == counted(before.refused, before.table.check_out(idx).refused(spawned))
}

/// The turn's visit to slot `idx` takes the scheduler from `before` to
/// `after`.  A slot that holds a task that takes part in the turn gets its
/// run step; any other slot, a fresh task's too, is passed over and
/// nothing changes.  What the run step registers is what the source hands
/// over, as `rule` says; a scheduler without a source registers nothing.
pub open spec fn visited(
    before: Progress,
    after: Progress,
    idx: int,
    sreg: u8,
    now: Ticks,
    elapsed: Ticks,
    rule: spec_fn(Seq<SlotEntry>) -> bool,
) -> bool {
    if 0 <= idx < before.table.slots.len() && before.table.slots[idx].holds_task() {
        exists|done: SlotEntry, completed: bool, spawned: Seq<SlotEntry>|
            rule(spawned) && #[trigger] ran_step(
                before,
                after,
                idx,
                sreg,
                now,
                elapsed,
                done,
                completed,
                spawned,
            )
    } else {
        after == before
    }
}

/// The first `upto` visits of a turn take the scheduler from `before` to
/// `after`.  The turn begins by letting the fresh tasks take part, and
/// then visits the slots in order.
pub open spec fn turned_upto(
    before: Progress,
    after: Progress,
    sreg: u8,
    now: Ticks,
    elapsed: Ticks,
    rule: spec_fn(Seq<SlotEntry>) -> bool,
    upto: int,
) -> bool
    decreases upto,
{
    if upto <= 0 {
        after == (Progress { table: before.table.begin_turn(), ..before })
    } else {
        exists|mid: Progress|
            turned_upto(before, mid, sreg, now, elapsed, rule, upto - 1) && #[trigger] visited(
                mid,
                after,
                upto - 1,
                sreg,
                now,
                elapsed,
                rule,
            )
    }
}

/// A turn at tick `now`, `elapsed` ticks after the turn before, takes the
/// scheduler from `before` to `after`: it visits the slots that the table
/// had when the turn began, each once, in order.
pub open spec fn turned(
    before: Progress,
    after: Progress,
    sreg: u8,
    now: Ticks,
    elapsed: Ticks,
    rule: spec_fn(Seq<SlotEntry>) -> bool,
) -> bool {
    turned_upto(before, after, sreg, now, elapsed, rule, before.table.slots.len() as int)
}

/// One pass of the main loop takes the scheduler from `before` to `after`.
/// The pass starts with the device in `state` and counts from the tick
/// `last`: its turn is a turn at the tick that `state` holds, with the
/// ticks elapsed since `last`, and its run steps are made with the status
/// register as `state` holds it.
pub open spec fn passed(
    before: Progress,
    after: Progress,
    state: McuState,
    last: Ticks,
    rule: spec_fn(Seq<SlotEntry>) -> bool,
) -> bool {
    turned(before, after, state.sreg, state.ticks, state.ticks.minus(last), rule)
}

/// The state of the device after `passes` passes of the main loop that
/// started in `state`: each pass ends with the idle sequence.
pub open spec fn idled(state: McuState, passes: nat) -> McuState
    decreases passes,
{
    if passes == 0 {
        state
    } else {
        waited(idled(state, (passes - 1) as nat), SleepMode::Idle)
    }
}

/// The tick from which the pass after `passes` passes counts: the tick
/// that the pass before it read, or `last` where there is none before it.
pub open spec fn counted_from(state: McuState, last: Ticks, passes: nat) -> Ticks {
    if passes == 0 {
        last
    } else {
        idled(state, (passes - 1) as nat).ticks
    }
}

/// `passes` passes of the main loop take the scheduler from `before` to
/// `after`, the first of them starting with the device in `state` and
/// counting from the tick `last`.
pub open spec fn passed_times(
    before: Progress,
    after: Progress,
    state: McuState,
    last: Ticks,
    rule: spec_fn(Seq<SlotEntry>) -> bool,
    passes: nat,
) -> bool
    decreases passes,
{
    if passes == 0 {
        after == before
    } else {
        exists|mid: Progress|
            passed_times(before, mid, state, last, rule, (passes - 1) as nat)
                && #[trigger] passed(
                mid,
                after,
                idled(state, (passes - 1) as nat),
                counted_from(state, last, (passes - 1) as nat),
                rule,
            )
    }
}

/// The scheduler.
pub struct EventLoop {
    inner: Mutex<EventLoopCore>,
    source: Option<Source>,
    refused: usize,
    ran: Ghost<Seq<Run>>,
}

impl EventLoop {
    /// The slot table.
    pub closed spec fn table(&self) -> Table {
        self.inner.data()@
    }

    /// The run steps that the scheduler has made, in order.
    pub closed spec fn ran(&self) -> Seq<Run> {
        self.ran@
    }

    /// The source of the tasks that run steps register, if there is one.
    pub closed spec fn source(&self) -> Option<Source> {
        self.source
    }

    /// What a run step may register: what the source hands over, and
    /// nothing where there is no source.
    pub closed spec fn rule(&self) -> spec_fn(Seq<SlotEntry>) -> bool {
        |spawned: Seq<SlotEntry>|
            match self.source {
                Some(source) => source.outbox.handed(spawned),
                None => spawned.len() == 0,
            }
    }

    /// The number of tasks from run steps that found no room.
    pub closed spec fn spec_refused(&self) -> usize {
        self.refused
    }

    /// How far the scheduler has come.
    pub open spec fn progress(&self) -> Progress {
        Progress { table: self.table(), ran: self.ran(), refused: self.spec_refused() }
    }

    /// The table is sound, no task is out for its run step, and every
    /// task in the table and the source may be called.
    pub open spec fn wf(&self) -> bool {
        &&& self.table().wf()
        &&& self.table().quiescent()
        &&& self.table().callable()
        &&& self.source() matches Some(source) ==> source.outbox.callable()
    }

    /// A scheduler with no task and no source.
    pub fn new() -> (events: EventLoop)
        ensures
            events.table() == Table::empty(),
            events.ran() == Seq::<Run>::empty(),
            events.source() is None,
            forall|spawned: Seq<SlotEntry>| #[trigger]
                events.rule()(spawned) == (spawned.len() == 0),
            events.spec_refused() == 0,
            events.wf(),
    {
        Self {
            inner: Mutex::new(EventLoopCore::new()),
            source: None,
            refused: 0,
            ran: Ghost(Seq::empty()),
        }
    }

    /// Gives the scheduler the source of the tasks that run steps
    /// register: `f` is called after every run step and hands over what
    /// the step has left with it.
    pub fn set_outbox<F>(&mut self, f: F)
        where F: FnMut() -> Vec<SlotEntry> + 'static
        requires
            old(self).wf(),
            call_requires(f, ()),
            forall|handed: Vec<SlotEntry>, i: int|
                call_ensures(f, (), handed) && 0 <= i < handed.len() ==> (
                #[trigger] handed[i]).callable(),
        ensures
            final(self).wf(),
            final(self).progress() == old(self).progress(),
            final(self).source() is Some,
            forall|handed: Seq<SlotEntry>| #[trigger]
                final(self).rule()(handed) == (exists|taken: Vec<SlotEntry>|
                    taken@ == handed && call_ensures(f, (), taken)),
    {
        self.source = Some(Source { outbox: Box::new(OutboxFn { func: f }) });
    }

    /// The number of tasks that run steps have registered and that found
    /// no room; the count stays at the greatest number once it is there.
    pub fn refused(&self) -> (refused: usize)
        ensures
            refused == self.spec_refused(),
    {
        self.refused
    }

    /// The slot table, for reading, inside the critical section of
    /// `guard`, with interrupts disabled.
    pub fn inner(&self, guard: &MutexGuard, mcu: &Mcu) -> (inner: &EventLoopCore)
        requires
            !mcu@.interrupts_enabled(),
        ensures
            inner@ == self.table(),
    {
        self.inner.get(guard, mcu)
    }

    /// Enters a critical section for access to the slot table.
    pub fn lock(&self, mcu: &mut Mcu) -> (guard: MutexGuard)
        ensures
            guard.saved() == old(mcu)@.sreg,
            final(mcu)@ == entered(old(mcu)@),
            !final(mcu)@.interrupts_enabled(),
    {
        self.inner.lock(mcu)
    }

    /// Sets up the tick timer, inside a critical section.
    pub fn configure(&mut self, mcu: &mut Mcu)
        ensures
            final(self).progress() == old(self).progress(),
            final(self).source() == old(self).source(),
            final(self).rule() == old(self).rule(),
            final(mcu)@ == tick_timer_configured(old(mcu)@),
    {
        let guard = self.inner.lock(mcu);
        self.inner.get_mut(&guard, mcu).configure_timer(mcu);
        guard.unlock(mcu);
    }

    /// Makes the scheduler ready to run: sets up the tick timer and
    /// enables interrupts.  The result is the tick from which the first
    /// turn counts.
    pub fn start(&mut self, mcu: &mut Mcu) -> (last_tick: Ticks)
        ensures
            final(self).progress() == old(self).progress(),
            final(self).source() == old(self).source(),
            final(self).rule() == old(self).rule(),
            final(mcu)@ == tick_timer_configured(old(mcu)@).sei(),
            final(mcu)@.interrupts_enabled(),
            last_tick == old(mcu)@.ticks,
    {
        self.configure(mcu);
        mcu.sei();
        Ticks::current(mcu)
    }

    /// One pass of the main loop: reads the tick counter, runs a turn with
    /// the ticks elapsed since `last_tick`, then idles until there is an
    /// event.  The result is the tick that was read, from which the next
    /// pass counts, and whether the core has slept.
    pub fn run_once(&mut self, mcu: &mut Mcu, last_tick: Ticks) -> (pass: (Ticks, bool))
        requires
            old(self).wf(),
        ensures
            final(self).wf(),
            final(self).rule() == old(self).rule(),
            pass.0 == old(mcu)@.ticks,
            pass.1 == idles(old(mcu)@),
            passed(
                old(self).progress(),
                final(self).progress(),
                old(mcu)@,
                last_tick,
                old(self).rule(),
            ),
            final(mcu)@ == waited(old(mcu)@, SleepMode::Idle),
    {
        let now_tick = Ticks::current(mcu);
        let elapsed_ticks = now_tick - last_tick;

        self.turn(mcu, now_tick, elapsed_ticks);

        let slept = wait_for_event(mcu, SleepMode::Idle);
        (now_tick, slept)
    }

    /// Runs the scheduler for `passes` passes of the main loop: sets up the
    /// tick timer, enables interrupts, and then, pass after pass, reads
    /// the tick counter, runs a turn with the ticks elapsed since the pass
    /// before, and idles until there is an event.  On the device the loop
    /// has no end.
    pub fn run(&mut self, mcu: &mut Mcu, passes: usize)
        requires
            old(self).wf(),
        ensures
            final(self).wf(),
            final(self).rule() == old(self).rule(),
            passed_times(
                old(self).progress(),
                final(self).progress(),
                tick_timer_configured(old(mcu)@).sei(),
                old(mcu)@.ticks,
                old(self).rule(),
                passes as nat,
            ),
            final(mcu)@ == idled(tick_timer_configured(old(mcu)@).sei(), passes as nat),
    {
        let ghost before = self.progress();
        let ghost rule = self.rule();
        let mut last_tick = self.start(mcu);
        let ghost started = mcu@;
        let ghost first_last = last_tick;

        let mut pass: usize = 0;
        while pass < passes
            invariant
                pass <= passes,
                self.wf(),
                self.rule() == rule,
                mcu@ == idled(started, pass as nat),
                last_tick == counted_from(started, first_last, pass as nat),
                passed_times(
                    before,
                    self.progress(),
                    started,
                    first_last,
                    rule,
                    pass as nat,
                ),
            decreases passes - pass,
        {
            let ghost mid = self.progress();
            let (now_tick, _) = self.run_once(mcu, last_tick);
            last_tick = now_tick;
            pass += 1;
            assert(passed_times(
                before,
                self.progress(),
                started,
                first_last,
                rule,
                pass as nat,
            )) by {
                assert(passed_times(
                    before,
                    mid,
                    started,
                    first_last,
                    rule,
                    (pass - 1) as nat,
                ));
                assert(passed(
                    mid,
                    self.progress(),
                    idled(started, (pass - 1) as nat),
                    counted_from(started, first_last, (pass - 1) as nat),
                    rule,
                ));
            }
        }
    }

    /// Registers `task`, or reports that no storage could be had for it
    /// where `task` is `None`.  The table is changed inside a critical
    /// section.  The task is fresh: it takes part from the next turn on.
    pub fn register(&mut self, mcu: &mut Mcu, task: Option<SlotEntry>) -> (registered: Result<
        (),
        SpawnError,
    >)
        requires
            old(self).wf(),
            task matches Some(entry) ==> entry.callable(),
        ensures
            final(self).wf(),
            final(self).ran() == old(self).ran(),
            final(self).spec_refused() == old(self).spec_refused(),
            final(self).source() == old(self).source(),
            final(self).rule() == old(self).rule(),
            final(mcu)@ == old(mcu)@,
            registered is Ok <==> task is Some && old(self).table().has_room(),
            registered is Ok ==> final(self).table() == old(self).table().add(task->0),
            registered is Err ==> final(self).table() == old(self).table(),
            registered is Err ==> registered->Err_0 == (if task is None {
                SpawnError::AllocationFailed
            } else {
                SpawnError::CapacityExceeded
            }),
    {
        proof {
            lemma_section_restores(mcu@);
        }
        let guard = self.inner.lock(mcu);
        let registered = match task {
            Some(entry) => self.inner.get_mut(&guard, mcu).add_slot(entry),
            None => Err(SpawnError::AllocationFailed),
        };
        guard.unlock(mcu);
        registered
    }

    /// Registers a callback that runs on every turn with the present tick
    /// and the ticks elapsed since the previous turn.
    pub fn add_callback<F>(&mut self, mcu: &mut Mcu, f: F) -> (registered: Result<(), SpawnError>)
        where F: FnMut(Ticks, Ticks) + 'static
        requires
            old(self).wf(),
            forall|now: Ticks, elapsed: Ticks| call_requires(f, (now, elapsed)),
        ensures
            final(self).wf(),
            final(self).ran() == old(self).ran(),
            final(self).spec_refused() == old(self).spec_refused(),
            final(self).source() == old(self).source(),
            final(self).rule() == old(self).rule(),
            final(mcu)@ == old(mcu)@,
            registered is Ok <==> old(self).table().has_room(),
            registered is Ok ==> ({
                let entry = final(self).table().entry_at(old(self).table().next_slot as int);
                &&& final(self).table() == old(self).table().add(entry)
                &&& entry.is_every(f)
            }),
            registered is Err ==> registered->Err_0 == SpawnError::CapacityExceeded
                && final(self).table() == old(self).table(),
    {
        let entry = SlotEntry::every(f);
        proof {
            if self.table().has_room() {
                lemma_add_lands_at_head(self.table(), entry);
            }
        }
        self.register(mcu, Some(entry))
    }

    /// Registers a unit of work that is polled on every turn until it
    /// reports a terminal outcome.
    pub fn spawn<P>(&mut self, mcu: &mut Mcu, f: P) -> (registered: Result<(), SpawnError>)
        where P: Pollable + 'static
        requires
            old(self).wf(),
            f.callable(),
        ensures
            final(self).wf(),
            final(self).ran() == old(self).ran(),
            final(self).spec_refused() == old(self).spec_refused(),
            final(self).source() == old(self).source(),
            final(self).rule() == old(self).rule(),
            final(mcu)@ == old(mcu)@,
            registered is Ok <==> old(self).table().has_room(),
            registered is Ok ==> ({
                let entry = final(self).table().entry_at(old(self).table().next_slot as int);
                &&& final(self).table() == old(self).table().add(entry)
                &&& entry.is_future(f)
            }),
            registered is Err ==> registered->Err_0 == SpawnError::CapacityExceeded
                && final(self).table() == old(self).table(),
    {
        let entry = SlotEntry::future(f);
        proof {
            if self.table().has_room() {
                lemma_add_lands_at_head(self.table(), entry);
            }
        }
        self.register(mcu, Some(entry))
    }

    /// Registers a sequence that is polled on every turn until it ends.
    pub fn spawn_stream<S>(&mut self, mcu: &mut Mcu, s: S) -> (registered: Result<(), SpawnError>)
        where S: PollableSequence + 'static
        requires
            old(self).wf(),
            s.callable(),
        ensures
            final(self).wf(),
            final(self).ran() == old(self).ran(),
            final(self).spec_refused() == old(self).spec_refused(),
            final(self).source() == old(self).source(),
            final(self).rule() == old(self).rule(),
            final(mcu)@ == old(mcu)@,
            registered is Ok <==> old(self).table().has_room(),
            registered is Ok ==> ({
                let entry = final(self).table().entry_at(old(self).table().next_slot as int);
                &&& final(self).table() == old(self).table().add(entry)
                &&& entry.is_stream(s)
            }),
            registered is Err ==> registered->Err_0 == SpawnError::CapacityExceeded
                && final(self).table() == old(self).table(),
    {
        let entry = SlotEntry::stream(s);
        proof {
            if self.table().has_room() {
                lemma_add_lands_at_head(self.table(), entry);
            }
        }
        self.register(mcu, Some(entry))
    }

    /// Registers a callback that runs once: on the first turn whose
    /// elapsed ticks exceed what remains of `after`, every earlier turn
    /// having taken its elapsed ticks off what remains.
    pub fn spawn_after<F>(&mut self, mcu: &mut Mcu, f: F, after: Ticks) -> (registered: Result<
        (),
        SpawnError,
    >)
        where F: FnMut(Ticks) + 'static
        requires
            old(self).wf(),
            forall|now: Ticks| call_requires(f, (now,)),
        ensures
            final(self).wf(),
            final(self).ran() == old(self).ran(),
            final(self).spec_refused() == old(self).spec_refused(),
            final(self).source() == old(self).source(),
            final(self).rule() == old(self).rule(),
            final(mcu)@ == old(mcu)@,
            registered is Ok <==> old(self).table().has_room(),
            registered is Ok ==> ({
                let entry = final(self).table().entry_at(old(self).table().next_slot as int);
                &&& final(self).table() == old(self).table().add(entry)
                &&& entry.is_countdown(f, after, Ticks { ticks: 0 })
            }),
            registered is Err ==> registered->Err_0 == SpawnError::CapacityExceeded
                && final(self).table() == old(self).table(),
    {
        let entry = SlotEntry::countdown(f, after, Ticks::default());
        proof {
            if self.table().has_room() {
                lemma_add_lands_at_head(self.table(), entry);
            }
        }
        self.register(mcu, Some(entry))
    }

    /// Registers a callback that runs again and again: on each turn whose
    /// elapsed ticks exceed what remains of `every`, after which `every`
    /// ticks remain once more.
    pub fn spawn_repeating<F>(&mut self, mcu: &mut Mcu, f: F, every: Ticks) -> (registered:
        Result<(), SpawnError>)
        where F: FnMut(Ticks) + 'static
        requires
            old(self).wf(),
            forall|now: Ticks| call_requires(f, (now,)),
        ensures
            final(self).wf(),
            final(self).ran() == old(self).ran(),
            final(self).spec_refused() == old(self).spec_refused(),
            final(self).source() == old(self).source(),
            final(self).rule() == old(self).rule(),
            final(mcu)@ == old(mcu)@,
            registered is Ok <==> old(self).table().has_room(),
            registered is Ok ==> ({
                let entry = final(self).table().entry_at(old(self).table().next_slot as int);
                &&& final(self).table() == old(self).table().add(entry)
                &&& entry.is_countdown(f, every, every)
            }),
            registered is Err ==> registered->Err_0 == SpawnError::CapacityExceeded
                && final(self).table() == old(self).table(),
    {
        let entry = SlotEntry::countdown(f, every, every);
        proof {
            if self.table().has_room() {
                lemma_add_lands_at_head(self.table(), entry);
            }
        }
        self.register(mcu, Some(entry))
    }

    /// Runs every task that takes part in the turn once, in the order of
    /// the slots.  The table is read and changed inside critical sections
    /// only, and no task runs inside one: each runs with the status
    /// register as the turn found it.  What a run step has registered is
    /// registered before the slot of its task is given up or filled again,
    /// and takes no part in this turn.
    pub fn turn(&mut self, mcu: &mut Mcu, current_tick: Ticks, elapsed_ticks: Ticks)
        requires
            old(self).wf(),
        ensures
            final(self).wf(),
            final(self).rule() == old(self).rule(),
            final(mcu)@ == old(mcu)@,
            turned(
                old(self).progress(),
                final(self).progress(),
                old(mcu)@.sreg,
                current_tick,
                elapsed_ticks,
                old(self).rule(),
            ),
    {
        proof {
            lemma_section_restores(mcu@);
            lemma_begin_turn(self.table());
        }
        let ghost before = self.progress();
        let ghost rule = self.rule();
        let ghost sreg = mcu@.sreg;
        let guard = self.inner.lock(mcu);
        let num_slots = self.inner.get_mut(&guard, mcu).begin_turn();
        guard.unlock(mcu);

        let mut idx: usize = 0;
        while idx < num_slots
            invariant
                idx <= num_slots,
                num_slots == before.table.slots.len(),
                self.wf(),
                self.rule() == rule,
                mcu@ == old(mcu)@,
                sreg == old(mcu)@.sreg,
                turned_upto(
                    before,
                    self.progress(),
                    sreg,
                    current_tick,
                    elapsed_ticks,
                    rule,
                    idx as int,
                ),
            decreases num_slots - idx,
        {
            proof {
                lemma_section_restores(mcu@);
            }
            let ghost at_head = self.progress();
            let guard = self.inner.lock(mcu);
            let checked_out = self.inner.get_mut(&guard, mcu).check_out(idx);
            guard.unlock(mcu);

            if let Some(mut slot) = checked_out {
                let completed = slot.run(current_tick, elapsed_ticks);
                proof {
                    self.ran = Ghost(self.ran@.push(Run { slot: idx, sreg: mcu@.sreg }));
                }
                let spawned = match &mut self.source {
                    Some(source) => source.outbox.take(),
                    None => Vec::new(),
                };
                assert(self.rule() =~= rule);
                assert(rule(spawned@));
                proof {
                    let out = at_head.table.check_out(idx as int);
                    lemma_add_each(out, spawned@);
                    assert(out.slots[idx as int].checked_out());
                    assert(out.add_each(spawned@).slots[idx as int] == out.slots[idx as int]);
                    assert forall|j: int|
                        0 <= j < out.add_each(spawned@).slots.len() && j != idx implies !(
                    #[trigger] out.add_each(spawned@).slots[j]).checked_out() by {
                        if out.add_each(spawned@).slots[j].checked_out() {
                            assert(out.slots[j].checked_out());
                            assert(at_head.table.slots[j] == out.slots[j]);
                        }
                    }
                }

                let guard = self.inner.lock(mcu);
                let refused = self.inner.get_mut(&guard, mcu).add_slots(spawned);
                self.inner.get_mut(&guard, mcu).check_in(idx, slot, completed);
                guard.unlock(mcu);
                self.refused = self.refused.saturating_add(refused);
                proof {
                    lemma_checked_in(
                        at_head.table.check_out(idx as int).add_each(spawned@),
                        idx as int,
                        slot,
                        completed,
                    );
                    assert(ran_step(
                        at_head,
                        self.progress(),
                        idx as int,
                        sreg,
                        current_tick,
                        elapsed_ticks,
                        slot,
                        completed,
                        spawned@,
                    ));
                }
            }
            proof {
                let upto = idx + 1;
                assert(visited(
                    at_head,
                    self.progress(),
                    upto - 1,
                    sreg,
                    current_tick,
                    elapsed_ticks,
                    rule,
                ));
                assert(turned_upto(
                    before,
                    self.progress(),
                    sreg,
                    current_tick,
                    elapsed_ticks,
                    rule,
                    upto,
                ));
            }
            idx += 1;
        }
    }
}

/// The end of a run step leaves the table sound, with no task out and
/// every task fit to be called, where the table was so but for the slot of
/// the task that ran.
pub proof fn lemma_checked_in(table: Table, idx: int, entry: SlotEntry, completed: bool)
    requires
        table.wf(),
        0 <= idx < table.slots.len(),
        table.slots[idx].checked_out(),
        entry.callable(),
        table.callable(),
        forall|j: int|
            0 <= j < table.slots.len() && j != idx ==> !(#[trigger] table.slots[j]).checked_out(),
    ensures
        table.check_in(idx, entry, completed).wf(),
        table.check_in(idx, entry, completed).quiescent(),
        table.check_in(idx, entry, completed).callable(),
{
    let after = table.check_in(idx, entry, completed);
    if completed {
        lemma_vacate_keeps_wf(table, idx);
    } else {
        lemma_restore_keeps_wf(table, idx, entry);
    }
    assert forall|j: int| 0 <= j < after.slots.len() implies !(
    #[trigger] after.slots[j]).checked_out() by {
        if j != idx {
            assert(after.slots[j] == table.slots[j]);
        }
    }
    assert forall|j: int| 0 <= j < after.slots.len() implies (match #[trigger] after.slots[j] {
        CoreSlot::Occupied(Some(e), _) => e.callable(),
        _ => true,
    }) by {
        if j != idx {
            assert(after.slots[j] == table.slots[j]);
        }
    }
}

/// A visit of a turn adds no task to those that take part in the turn:
/// whatever the run step registers is fresh.  It makes at most one run
/// step, that of the slot it visits, and leaves the table sound.
pub proof fn lemma_visit_spares_fresh_tasks(
    before: Progress,
    after: Progress,
    idx: int,
    sreg: u8,
    now: Ticks,
    elapsed: Ticks,
    rule: spec_fn(Seq<SlotEntry>) -> bool,
)
    requires
        before.table.wf(),
        before.table.quiescent(),
        visited(before, after, idx, sreg, now, elapsed, rule),
    ensures
        after.table.wf(),
        after.table.quiescent(),
        after.table.slots.len() >= before.table.slots.len(),
        forall|j: int|
            0 <= j < after.table.slots.len() && j != idx && (
            #[trigger] after.table.slots[j]).holds_task() ==> j < before.table.slots.len()
                && before.table.slots[j] == after.table.slots[j],
        after.ran == before.ran || (before.table.slots[idx].holds_task() && after.ran
            == before.ran.push(Run { slot: idx as usize, sreg })),
{
    if 0 <= idx < before.table.slots.len() && before.table.slots[idx].holds_task() {
        let (done, completed, spawned) = choose|
            done: SlotEntry,
            completed: bool,
            spawned: Seq<SlotEntry>,
        |
            rule(spawned) && #[trigger] ran_step(
                before,
                after,
                idx,
                sreg,
                now,
                elapsed,
                done,
                completed,
                spawned,
            );
        let out = before.table.check_out(idx);
        lemma_check_out_keeps_wf(before.table, idx);
        lemma_add_each(out, spawned);
        let filled = out.add_each(spawned);
        assert(out.slots[idx].checked_out());
        assert(filled.slots[idx] == out.slots[idx]);
        if completed {
            lemma_vacate_keeps_wf(filled, idx);
        } else {
            lemma_restore_keeps_wf(filled, idx, done);
        }
        assert forall|j: int|
            0 <= j < after.table.slots.len() && j != idx && (
            #[trigger] after.table.slots[j]).holds_task() implies j < before.table.slots.len()
            && before.table.slots[j] == after.table.slots[j] by {
            assert(after.table.slots[j] == filled.slots[j]);
            assert(filled.slots[j].holds_task());
            assert(out.slots[j] == before.table.slots[j]);
        }
        assert forall|j: int| 0 <= j < after.table.slots.len() implies !(
        #[trigger] after.table.slots[j]).checked_out() by {
            if j != idx {
                assert(after.table.slots[j] == filled.slots[j]);
                if filled.slots[j].checked_out() {
                    assert(out.slots[j].checked_out());
                    assert(out.slots[j] == before.table.slots[j]);
                }
            }
        }
    }
}

/// A turn runs only tasks that took part when it began, each at most once
/// and in the order of the slots.  A task that is registered while the turn
/// is under way, by a run step or otherwise, is fresh and is not run before
/// the next turn, whichever slot it takes.
pub proof fn lemma_turn_runs_what_it_began_with(
    before: Progress,
    after: Progress,
    sreg: u8,
    now: Ticks,
    elapsed: Ticks,
    rule: spec_fn(Seq<SlotEntry>) -> bool,
    upto: int,
)
    requires
        before.table.wf(),
        before.table.quiescent(),
        0 <= upto <= before.table.slots.len(),
        turned_upto(before, after, sreg, now, elapsed, rule, upto),
    ensures
        after.table.wf(),
        after.table.quiescent(),
        after.table.slots.len() >= before.table.slots.len(),
        before.ran.len() <= after.ran.len() <= before.ran.len() + upto,
        forall|k: int| 0 <= k < before.ran.len() ==> after.ran[k] == before.ran[k],
        forall|k: int|
            before.ran.len() <= k < after.ran.len() ==> (#[trigger] after.ran[k]).slot < upto
                && before.table.begin_turn().slots[after.ran[k].slot as int].holds_task(),
        forall|k: int, l: int|
            before.ran.len() <= k < l < after.ran.len() ==> (#[trigger] after.ran[k]).slot < (
            #[trigger] after.ran[l]).slot,
        forall|j: int|
            upto <= j < after.table.slots.len() && (#[trigger] after.table.slots[j]).holds_task()
                ==> j < before.table.slots.len() && before.table.begin_turn().slots[j]
                == after.table.slots[j],
    decreases upto,
{
    lemma_begin_turn(before.table);
    if upto > 0 {
        let mid = choose|mid: Progress|
            turned_upto(before, mid, sreg, now, elapsed, rule, upto - 1) && #[trigger] visited(
                mid,
                after,
                upto - 1,
                sreg,
                now,
                elapsed,
                rule,
            );
        lemma_turn_runs_what_it_began_with(before, mid, sreg, now, elapsed, rule, upto - 1);
        lemma_visit_spares_fresh_tasks(mid, after, upto - 1, sreg, now, elapsed, rule);
        if after.ran != mid.ran {
            assert(mid.table.slots[upto - 1].holds_task());
            assert(after.ran[after.ran.len() - 1].slot == upto - 1);
        }
        assert forall|j: int|
            upto <= j < after.table.slots.len() && (
            #[trigger] after.table.slots[j]).holds_task() implies j < before.table.slots.len()
            && before.table.begin_turn().slots[j] == after.table.slots[j] by {
            assert(mid.table.slots[j] == after.table.slots[j]);
            assert(mid.table.slots[j].holds_task());
        }
    }
}

/// Every task of the table is done after its run step of a turn at tick
/// `now`, `elapsed` ticks after the turn before.
pub open spec fn all_finish(table: Table, now: Ticks, elapsed: Ticks) -> bool {
    forall|j: int|
        0 <= j < table.slots.len() ==> (#[trigger] table.begin_turn().slots[j]).holds_task() && (
        forall|done: SlotEntry, completed: bool| #[trigger]
            table.begin_turn().entry_at(j).steps_to(done, now, elapsed, completed) ==> completed)
}

/// Where every task is done after its run step and no run step registers
/// anything, the first visits of a turn give up the slots that they visit,
/// in order.
pub proof fn lemma_turn_of_finishing_tasks(
    before: Progress,
    after: Progress,
    sreg: u8,
    now: Ticks,
    elapsed: Ticks,
    rule: spec_fn(Seq<SlotEntry>) -> bool,
    upto: int,
)
    requires
        before.table.wf(),
        0 <= upto <= before.table.slots.len(),
        all_finish(before.table, now, elapsed),
        forall|spawned: Seq<SlotEntry>| #[trigger] rule(spawned) ==> spawned.len() == 0,
        turned_upto(before, after, sreg, now, elapsed, rule, upto),
    ensures
        after.table == before.table.begin_turn().vacated(upto),
    decreases upto,
{
    let begin = before.table.begin_turn();
    lemma_begin_turn(before.table);
    if upto > 0 {
        let idx = upto - 1;
        let mid = choose|mid: Progress|
            turned_upto(before, mid, sreg, now, elapsed, rule, upto - 1) && #[trigger] visited(
                mid,
                after,
                upto - 1,
                sreg,
                now,
                elapsed,
                rule,
            );
        lemma_turn_of_finishing_tasks(before, mid, sreg, now, elapsed, rule, upto - 1);
        assert forall|j: int| 0 <= j < upto - 1 implies (#[trigger] begin.slots[j]) is Occupied by {
            assert(begin.slots[j].holds_task());
        }
        lemma_vacated(begin, upto - 1);
        assert(begin.slots[idx].holds_task());
        assert(mid.table.slots[idx] == begin.slots[idx]);
        let (done, completed, spawned) = choose|
            done: SlotEntry,
            completed: bool,
            spawned: Seq<SlotEntry>,
        |
            rule(spawned) && #[trigger] ran_step(
                mid,
                after,
                idx,
                sreg,
                now,
                elapsed,
                done,
                completed,
                spawned,
            );
        assert(mid.table.entry_at(idx) == begin.entry_at(idx));
        assert(completed);
        let out = mid.table.check_out(idx);
        assert(out.add_each(spawned) == out);
        assert(out.vacate(idx).slots =~= mid.table.vacate(idx).slots);
        assert(after.table == mid.table.vacate(idx));
    }
}

/// Where every task of a table without a vacant slot is done in one turn
/// and no run step registers anything, as many registrations as the table
/// has slots succeed afterwards without growing the table, and they take
/// the slots in the reverse of the order in which the turn gave them up:
/// the first registration takes the last slot, the last registration the
/// first.
pub proof fn lemma_turnover_reuses_slots(
    before: Progress,
    after: Progress,
    sreg: u8,
    now: Ticks,
    elapsed: Ticks,
    rule: spec_fn(Seq<SlotEntry>) -> bool,
    entries: Seq<SlotEntry>,
)
    requires
        before.table.wf(),
        before.table.free.len() == 0,
        all_finish(before.table, now, elapsed),
        forall|spawned: Seq<SlotEntry>| #[trigger] rule(spawned) ==> spawned.len() == 0,
        turned(before, after, sreg, now, elapsed, rule),
        entries.len() == before.table.slots.len(),
    ensures
        forall|j: int| 0 <= j < after.table.slots.len() ==> (#[trigger] after.table.slots[j]) is Vacant,
        after.table.can_add_all(entries),
        after.table.add_all(entries).wf(),
        after.table.add_all(entries).slots.len() == before.table.slots.len(),
        after.table.add_all(entries).free.len() == 0,
        forall|i: int|
            0 <= i < entries.len() ==> after.table.add_all(entries).slots[entries.len() - 1 - i]
                == CoreSlot::Occupied(Some(#[trigger] entries[i]), true),
{
    let n = before.table.slots.len() as int;
    let begin = before.table.begin_turn();
    lemma_begin_turn(before.table);
    lemma_turn_of_finishing_tasks(before, after, sreg, now, elapsed, rule, n);
    assert forall|j: int| 0 <= j < n implies (#[trigger] begin.slots[j]) is Occupied by {
        assert(begin.slots[j].holds_task());
    }
    lemma_vacated(begin, n);
    assert(after.table.free =~= Seq::new(n as nat, |i: int| (n - 1 - i) as usize));
    lemma_reuse_is_lifo(after.table, entries);
    assert forall|i: int| 0 <= i < entries.len() implies after.table.add_all(
        entries,
    ).slots[entries.len() - 1 - i] == CoreSlot::Occupied(Some(#[trigger] entries[i]), true) by {
        assert(after.table.free[i] == (n - 1 - i) as usize);
    }
}

} // verus!
