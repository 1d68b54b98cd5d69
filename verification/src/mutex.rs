//! Critical sections and the mutex built on them.
//!
//! On a single core the only rival of the main loop is an interrupt
//! handler, so exclusive access is had by holding interrupts off.  A
//! critical section remembers the status register as it found it and puts
//! that value back when it ends; ending an inner section therefore leaves
//! interrupts off, and only the end of the outermost one lets them in
//! again.

use vstd::prelude::*;
use crate::mcu::Mcu;
use crate::mcu::McuState;
use crate::mcu::Op;

verus! {

/// The state once a critical section has been entered from `state`.
pub open spec fn entered(state: McuState) -> McuState {
    state.cli()
}

/// The state once a critical section that found the status register at
/// `saved` has ended in `state`.
pub open spec fn left(state: McuState, saved: u8) -> McuState {
    state.with_sreg(saved)
}

/// A stretch of execution with interrupts held off.
pub struct CriticalSection {
    sreg: u8,
}

impl CriticalSection {
    /// The status register as the section found it.
    pub closed spec fn saved(&self) -> u8 {
        self.sreg
    }

    /// Enters a critical section: takes note of the status register, then
    /// disables interrupts.
    pub fn new(mcu: &mut Mcu) -> (cs: CriticalSection)
        ensures
            cs.saved() == old(mcu)@.sreg,
            final(mcu)@ == entered(old(mcu)@),
            !final(mcu)@.interrupts_enabled(),
            final(mcu).trace() == old(mcu).trace().push(Op::Cli),
    {
        let sreg = mcu.sreg();
        mcu.cli();
        CriticalSection { sreg }
    }

    /// Ends the critical section: puts the status register back to what
    /// the section found.  Interrupts are enabled by this only if they
    /// were enabled when the section was entered.
    pub fn release(self, mcu: &mut Mcu)
        ensures
            final(mcu)@ == left(old(mcu)@, self.saved()),
            final(mcu).trace() == old(mcu).trace().push(Op::WriteSreg(self.saved())),
    {
        mcu.set_sreg(self.sreg);
    }
}

/// Runs `f` once, inside a critical section that ends when `f` is done.
pub fn interrupt_free<F: Fn(&CriticalSection)>(mcu: &mut Mcu, f: F)
    requires
        forall|cs: CriticalSection| cs.saved() == old(mcu)@.sreg ==> call_requires(f, (&cs,)),
    ensures
        final(mcu)@ == old(mcu)@,
        final(mcu).trace() == old(mcu).trace().push(Op::Cli).push(Op::WriteSreg(old(mcu)@.sreg)),
        exists|cs: CriticalSection| cs.saved() == old(mcu)@.sreg && call_ensures(f, (&cs,), ()),
{
    let cs = CriticalSection::new(mcu);
    f(&cs);
    assert(call_ensures(f, (&cs,), ()));
    cs.release(mcu);
}

/// Data that is reached only from inside a critical section: every access
/// asks for the guard of a lock and for a device with interrupts disabled.
/// There is no waiting and no poisoning: to lock is to enter a critical
/// section.
pub struct Mutex<T> {
    data: T,
}

/// The critical section that a locked mutex is held by.
#[must_use]
pub struct MutexGuard {
    cs: CriticalSection,
}

impl<T> Mutex<T> {
    /// What the mutex guards.
    pub closed spec fn data(&self) -> T {
        self.data
    }

    pub fn new(t: T) -> (mutex: Mutex<T>)
        ensures
            mutex.data() == t,
    {
        Self { data: t }
    }

    /// Enters a critical section for access to the data.
    pub fn lock(&self, mcu: &mut Mcu) -> (guard: MutexGuard)
        ensures
            guard.saved() == old(mcu)@.sreg,
            final(mcu)@ == entered(old(mcu)@),
            !final(mcu)@.interrupts_enabled(),
            final(mcu).trace() == old(mcu).trace().push(Op::Cli),
    {
        MutexGuard { cs: CriticalSection::new(mcu) }
    }

    /// The data, for reading, while `guard` is held and interrupts are
    /// disabled.
    pub fn get(&self, guard: &MutexGuard, mcu: &Mcu) -> (data: &T)
        requires
            !mcu@.interrupts_enabled(),
        ensures
            *data == self.data(),
    {
        &self.data
    }

    /// The data, for writing, while `guard` is held and interrupts are
    /// disabled.
    pub fn get_mut(&mut self, guard: &MutexGuard, mcu: &Mcu) -> (data: &mut T)
        requires
            !mcu@.interrupts_enabled(),
        ensures
            *data == old(self).data(),
            final(self).data() == *final(data),
    {
        &mut self.data
    }
}

impl<T: Default> Default for Mutex<T> {
    /// A mutex around the default value of `T`.
    fn default() -> (mutex: Mutex<T>)
        ensures
            call_ensures(T::default, (), mutex.data()),
    {
        Mutex::new(T::default())
    }
}

impl MutexGuard {
    /// The status register as it was when the mutex was locked.
    pub closed spec fn saved(&self) -> u8 {
        self.cs.saved()
    }

    /// Gives the mutex up and ends the critical section.
    pub fn unlock(self, mcu: &mut Mcu)
        ensures
            final(mcu)@ == left(old(mcu)@, self.saved()),
            final(mcu).trace() == old(mcu).trace().push(Op::WriteSreg(self.saved())),
    {
        self.cs.release(mcu);
    }
}

/// A critical section inside another: the end of the inner one leaves
/// interrupts disabled, and the end of the outer one puts the state back to
/// what it was before either began, interrupts enabled or not.
pub proof fn lemma_nested_critical_sections(state: McuState)
    ensures
        !entered(state).interrupts_enabled(),
        !entered(entered(state)).interrupts_enabled(),
        !left(entered(entered(state)), entered(state).sreg).interrupts_enabled(),
        left(left(entered(entered(state)), entered(state).sreg), state.sreg) == state,
{
    let sreg = state.sreg;
    assert(((sreg & !0x80u8) & 0x80u8) == 0) by (bit_vector);
    assert(((sreg & !0x80u8) & !0x80u8) == (sreg & !0x80u8)) by (bit_vector);
}

/// Locking and unlocking a mutex leaves the state as it was.
pub proof fn lemma_section_restores(state: McuState)
    ensures
        left(entered(state), state.sreg) == state,
{
}

} // verus!
