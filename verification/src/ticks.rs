//! The tick: the time quantum of the runtime, both an instant and a duration.

use vstd::prelude::*;
use crate::fcpu::TICKS_PER_MS;
use crate::mcu::Mcu;
use crate::mcu::Op;
use crate::mutex::CriticalSection;
use crate::mutex::lemma_section_restores;

verus! {

/// A value of the tick counter.  Instants and durations share the type;
/// addition and subtraction are taken modulo the counter's range, so that
/// `now - last` is the elapsed time even when the counter has wrapped in
/// between, as long as the gap is shorter than the range.
#[derive(Copy, Clone, Debug, PartialOrd, Ord, Eq, PartialEq, Structural)]
pub struct Ticks {
    pub ticks: u16,
}

/// Sum of two counter values modulo the counter's range.
pub open spec fn wrapping_sum(a: u16, b: u16) -> u16 {
    ((a + b) % 0x1_0000) as u16
}

/// Difference of two counter values modulo the counter's range.
pub open spec fn wrapping_difference(a: u16, b: u16) -> u16 {
    ((a - b) % 0x1_0000) as u16
}

impl Ticks {
    /// What `self + other` is.
    pub open spec fn plus(self, other: Ticks) -> Ticks {
        Ticks { ticks: wrapping_sum(self.ticks, other.ticks) }
    }

    /// What `self - other` is.
    pub open spec fn minus(self, other: Ticks) -> Ticks {
        Ticks { ticks: wrapping_difference(self.ticks, other.ticks) }
    }

    /// The present value of the tick counter.  The counter is read inside
    /// a critical section, so that the tick interrupt cannot change it
    /// between the reads of its two bytes: the record shows the read
    /// between the disabling of interrupts and the write that puts the
    /// status register back.
    pub fn current(mcu: &mut Mcu) -> (now: Self)
        ensures
            now == old(mcu)@.ticks,
            final(mcu)@ == old(mcu)@,
            final(mcu).trace() == old(mcu).trace().push(Op::Cli).push(Op::ReadTicks).push(
                Op::WriteSreg(old(mcu)@.sreg),
            ),
    {
        proof {
            lemma_section_restores(mcu@);
        }
        let cs = CriticalSection::new(mcu);
        let now = mcu.read_ticks();
        cs.release(mcu);
        now
    }

    /// The duration of `ms` milliseconds.
    pub fn milliseconds(ms: u16) -> (r: Self)
        requires
            ms * TICKS_PER_MS <= u16::MAX,
        ensures
            r.ticks == ms * TICKS_PER_MS,
    {
        Self { ticks: ms * TICKS_PER_MS }
    }

    pub fn new(ticks: u16) -> (r: Ticks)
        ensures
            r.ticks == ticks,
    {
        Self { ticks }
    }

    #[inline]
    pub fn is_zero(&self) -> (r: bool)
        ensures
            r == (self.ticks == 0),
    {
        self.ticks == 0
    }
}

impl Default for Ticks {
    fn default() -> (r: Ticks)
        ensures
            r.ticks == 0,
    {
        Ticks { ticks: 0 }
    }
}

impl vstd::std_specs::ops::SubSpecImpl for Ticks {
    open spec fn obeys_sub_spec() -> bool {
        true
    }

    open spec fn sub_req(self, other: Ticks) -> bool {
        true
    }

    open spec fn sub_spec(self, other: Ticks) -> Ticks {
        self.minus(other)
    }
}

impl std::ops::Sub for Ticks {
    type Output = Ticks;

    fn sub(self, other: Ticks) -> (r: Ticks) {
        Ticks::new(self.ticks.wrapping_sub(other.ticks))
    }
}

impl vstd::std_specs::ops::AddSpecImpl for Ticks {
    open spec fn obeys_add_spec() -> bool {
        true
    }

    open spec fn add_req(self, other: Ticks) -> bool {
        true
    }

    open spec fn add_spec(self, other: Ticks) -> Ticks {
        self.plus(other)
    }
}

impl std::ops::Add for Ticks {
    type Output = Ticks;

    fn add(self, other: Ticks) -> (r: Ticks) {
        Ticks::new(self.ticks.wrapping_add(other.ticks))
    }
}

impl std::ops::SubAssign for Ticks {
    fn sub_assign(&mut self, other: Ticks)
        ensures
            final(self).ticks == wrapping_difference(old(self).ticks, other.ticks),
    {
        self.ticks = self.ticks.wrapping_sub(other.ticks);
    }
}

impl std::ops::AddAssign for Ticks {
    fn add_assign(&mut self, other: Ticks)
        ensures
            final(self).ticks == wrapping_sum(old(self).ticks, other.ticks),
    {
        self.ticks = self.ticks.wrapping_add(other.ticks);
    }
}

/// Subtraction undoes addition whatever the operands: a span added to an
/// instant is recovered as the elapsed time, also when the counter wrapped
/// in between.
pub proof fn lemma_elapsed_recovers_span(last: Ticks, span: Ticks)
    ensures
        last.plus(span).minus(last) == span,
{
}

/// Adding back what was subtracted restores the instant.
pub proof fn lemma_add_restores_instant(now: Ticks, last: Ticks)
    ensures
        now.minus(last).plus(last) == now,
{
}

} // verus!
