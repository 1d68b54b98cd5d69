//! The part of the microcontroller that the runtime works on: the status
//! register with the global interrupt flag, the sleep mode control register,
//! the registers of timer 1, and the two cells that the tick interrupt
//! handler shares with the main loop.
//!
//! The state is owned by one value, created at start-up and handed to every
//! routine that reads or changes it.
//!
//! The compare match interrupt of timer 1 is the one interrupt that the
//! state knows of.  A compare match sets a flag in the interrupt flag
//! register of the timer; the interrupt is served, and the flag cleared,
//! once interrupts are enabled both globally and for the compare match.
//! To serve it is to run the tick handler.
//!
//! The state keeps a record of what the core has done to the status
//! register, the sleep mode control register, the event-pending flag and
//! the tick counter, and of its sleep instructions, in the order in which
//! it has done it.
//! Where the order of the steps matters, a routine says what it adds to the
//! record.

use vstd::prelude::*;
use crate::ticks::Ticks;

verus! {

/// The global interrupt enable flag in the status register.
pub const SREG_I: u8 = 0x80;

/// The sleep enable bit in the sleep mode control register.
pub const SMCR_SE: u8 = 0x01;

/// The sleep mode select bits in the sleep mode control register.
pub const SMCR_SM: u8 = 0x0e;

/// Output compare A match interrupt enable, in the interrupt mask register
/// of timer 1.
pub const OCIE1A: u8 = 0x02;

/// Output compare A match flag, in the interrupt flag register of timer 1.
pub const OCF1A: u8 = 0x02;

/// A step of the core that bears on interrupts and sleep.
pub enum Op {
    /// The instruction that disables interrupts.
    Cli,
    /// The instruction that enables interrupts.
    Sei,
    /// A write of the status register.
    WriteSreg(u8),
    /// A write of the sleep mode control register.
    WriteSmcr(u8),
    /// A read of the event-pending flag, and what it gave.
    ReadPending(bool),
    /// A write of the event-pending flag.
    WritePending(bool),
    /// The sleep instruction.
    Sleep,
    /// A read of the tick counter.
    ReadTicks,
}

/// What an [`Mcu`] holds.
pub struct McuState {
    /// Status register.
    pub sreg: u8,
    /// Sleep mode control register.
    pub smcr: u8,
    /// Timer 1 control register A.
    pub tccr1a: u8,
    /// Timer 1 control register B.
    pub tccr1b: u8,
    /// Timer 1 control register C.
    pub tccr1c: u8,
    /// Timer 1 counter.
    pub tcnt1: u16,
    /// Timer 1 output compare register A.
    pub ocr1a: u16,
    /// Timer 1 interrupt mask register.
    pub timsk1: u8,
    /// Timer 1 interrupt flag register.
    pub tifr1: u8,
    /// The tick counter.
    pub ticks: Ticks,
    /// The event-pending flag.
    pub pending: bool,
}

impl McuState {
    /// Interrupts are delivered.
    pub open spec fn interrupts_enabled(self) -> bool {
        self.sreg & SREG_I != 0
    }

    /// The sleep instruction will suspend the core.
    pub open spec fn sleep_enabled(self) -> bool {
        self.smcr & SMCR_SE != 0
    }

    /// The state with another status register.
    pub open spec fn with_sreg(self, sreg: u8) -> McuState {
        McuState { sreg, ..self }
    }

    /// The state with another sleep mode control register.
    pub open spec fn with_smcr(self, smcr: u8) -> McuState {
        McuState { smcr, ..self }
    }

    /// The state with another value of the event-pending flag.
    pub open spec fn with_pending(self, pending: bool) -> McuState {
        McuState { pending, ..self }
    }

    /// The state after the instruction that disables interrupts.
    pub open spec fn cli(self) -> McuState {
        self.with_sreg(self.sreg & !SREG_I)
    }

    /// The state after the instruction that enables interrupts.
    pub open spec fn sei(self) -> McuState {
        self.with_sreg(self.sreg | SREG_I)
    }

    /// The state after the tick interrupt handler has run: the counter has
    /// advanced by one, wrapping at the end of its range, and an event is
    /// pending.
    pub open spec fn tick(self) -> McuState {
        McuState { ticks: self.ticks.plus(Ticks { ticks: 1 }), pending: true, ..self }
    }

    /// A compare match of timer 1 waits to be served: its flag is set and
    /// its interrupt is enabled in the mask register.
    pub open spec fn interrupt_due(self) -> bool {
        self.timsk1 & OCIE1A != 0 && self.tifr1 & OCF1A != 0
    }

    /// The state after a compare match of timer 1: its flag is set.
    pub open spec fn flagged(self) -> McuState {
        McuState { tifr1: self.tifr1 | OCF1A, ..self }
    }

    /// The state after the compare match interrupt has been served: its
    /// flag is clear and the tick handler has run.
    pub open spec fn served(self) -> McuState {
        McuState { tifr1: self.tifr1 & !OCF1A, ..self.tick() }
    }

    /// The state at start-up.
    pub open spec fn reset() -> McuState {
        McuState {
            sreg: 0,
            smcr: 0,
            tccr1a: 0,
            tccr1b: 0,
            tccr1c: 0,
            tcnt1: 0,
            ocr1a: 0,
            timsk1: 0,
            tifr1: 0,
            ticks: Ticks { ticks: 0 },
            pending: false,
        }
    }
}

/// The state of the microcontroller.
pub struct Mcu {
    sreg: u8,
    smcr: u8,
    tccr1a: u8,
    tccr1b: u8,
    tccr1c: u8,
    tcnt1: u16,
    ocr1a: u16,
    timsk1: u8,
    tifr1: u8,
    ticks: Ticks,
    pending: bool,
    trace: Ghost<Seq<Op>>,
}

impl View for Mcu {
    type V = McuState;

    closed spec fn view(&self) -> McuState {
        McuState {
            sreg: self.sreg,
            smcr: self.smcr,
            tccr1a: self.tccr1a,
            tccr1b: self.tccr1b,
            tccr1c: self.tccr1c,
            tcnt1: self.tcnt1,
            ocr1a: self.ocr1a,
            timsk1: self.timsk1,
            tifr1: self.tifr1,
            ticks: self.ticks,
            pending: self.pending,
        }
    }
}

impl Mcu {
    /// The record of the steps of the core that bear on interrupts and
    /// sleep, the first step first.
    pub closed spec fn trace(&self) -> Seq<Op> {
        self.trace@
    }

    /// The microcontroller at start-up: interrupts disabled, every register
    /// cleared, the tick counter at zero, no event pending and nothing on
    /// record.
    pub fn new() -> (mcu: Mcu)
        ensures
            mcu@ == McuState::reset(),
            mcu.trace() == Seq::<Op>::empty(),
    {
        Mcu {
            sreg: 0,
            smcr: 0,
            tccr1a: 0,
            tccr1b: 0,
            tccr1c: 0,
            tcnt1: 0,
            ocr1a: 0,
            timsk1: 0,
            tifr1: 0,
            ticks: Ticks::new(0),
            pending: false,
            trace: Ghost(Seq::empty()),
        }
    }

    /// Reads the status register.
    pub fn sreg(&self) -> (sreg: u8)
        ensures
            sreg == self@.sreg,
    {
        self.sreg
    }

    /// Writes the status register.
    pub fn set_sreg(&mut self, sreg: u8)
        ensures
            final(self)@ == old(self)@.with_sreg(sreg),
            final(self).trace() == old(self).trace().push(Op::WriteSreg(sreg)),
    {
        proof {
            self.trace = Ghost(self.trace@.push(Op::WriteSreg(sreg)));
        }
        self.sreg = sreg;
    }

    /// Whether interrupts are delivered.
    pub fn interrupts_enabled(&self) -> (enabled: bool)
        ensures
            enabled == self@.interrupts_enabled(),
    {
        self.sreg & SREG_I != 0
    }

    /// Disables interrupts.
    pub fn cli(&mut self)
        ensures
            final(self)@ == old(self)@.cli(),
            !final(self)@.interrupts_enabled(),
            final(self).trace() == old(self).trace().push(Op::Cli),
    {
        proof {
            self.trace = Ghost(self.trace@.push(Op::Cli));
        }
        let sreg: u8 = self.sreg;
        assert(((sreg & !SREG_I) & SREG_I) == 0) by (bit_vector)
            requires
                SREG_I == 0x80u8,
        ;
        self.sreg = sreg & !SREG_I;
    }

    /// Enables interrupts.
    pub fn sei(&mut self)
        ensures
            final(self)@ == old(self)@.sei(),
            final(self)@.interrupts_enabled(),
            final(self).trace() == old(self).trace().push(Op::Sei),
    {
        proof {
            self.trace = Ghost(self.trace@.push(Op::Sei));
        }
        let sreg: u8 = self.sreg;
        assert(((sreg | SREG_I) & SREG_I) != 0) by (bit_vector)
            requires
                SREG_I == 0x80u8,
        ;
        self.sreg = sreg | SREG_I;
    }

    /// Reads the sleep mode control register.
    pub fn smcr(&self) -> (smcr: u8)
        ensures
            smcr == self@.smcr,
    {
        self.smcr
    }

    /// Writes the sleep mode control register.
    pub fn set_smcr(&mut self, smcr: u8)
        ensures
            final(self)@ == old(self)@.with_smcr(smcr),
            final(self).trace() == old(self).trace().push(Op::WriteSmcr(smcr)),
    {
        proof {
            self.trace = Ghost(self.trace@.push(Op::WriteSmcr(smcr)));
        }
        self.smcr = smcr;
    }

    /// Reads the tick counter.
    pub fn ticks(&self) -> (ticks: Ticks)
        ensures
            ticks == self@.ticks,
    {
        self.ticks
    }

    /// Reads the event-pending flag.
    pub fn event_pending(&self) -> (pending: bool)
        ensures
            pending == self@.pending,
    {
        self.pending
    }

    /// Reads the tick counter and puts the read on record.
    pub fn read_ticks(&mut self) -> (ticks: Ticks)
        ensures
            ticks == old(self)@.ticks,
            final(self)@ == old(self)@,
            final(self).trace() == old(self).trace().push(Op::ReadTicks),
    {
        proof {
            self.trace = Ghost(self.trace@.push(Op::ReadTicks));
        }
        self.ticks
    }

    /// Reads the event-pending flag and puts the read on record.
    pub fn read_pending(&mut self) -> (pending: bool)
        ensures
            pending == old(self)@.pending,
            final(self)@ == old(self)@,
            final(self).trace() == old(self).trace().push(Op::ReadPending(pending)),
    {
        proof {
            self.trace = Ghost(self.trace@.push(Op::ReadPending(self.pending)));
        }
        self.pending
    }

    /// Puts a sleep instruction on record.  What the instruction does to
    /// the core is in [`crate::sleep::sleep_cpu`].
    pub fn sleep_instruction(&mut self)
        ensures
            final(self)@ == old(self)@,
            final(self).trace() == old(self).trace().push(Op::Sleep),
    {
        proof {
            self.trace = Ghost(self.trace@.push(Op::Sleep));
        }
    }

    /// Writes the event-pending flag.
    pub fn set_pending(&mut self, pending: bool)
        ensures
            final(self)@ == old(self)@.with_pending(pending),
            final(self).trace() == old(self).trace().push(Op::WritePending(pending)),
    {
        proof {
            self.trace = Ghost(self.trace@.push(Op::WritePending(pending)));
        }
        self.pending = pending;
    }

    /// Advances the tick counter by one, wrapping at the end of its range.
    pub fn advance_ticks(&mut self)
        ensures
            final(self)@ == (McuState { ticks: old(self)@.ticks.plus(Ticks { ticks: 1 }), ..old(self)@ }),
            final(self).trace() == old(self).trace(),
    {
        self.ticks = self.ticks + Ticks::new(1);
    }

    /// Reads timer 1 control register A.
    pub fn tccr1a(&self) -> (value: u8)
        ensures
            value == self@.tccr1a,
    {
        self.tccr1a
    }

    /// Reads timer 1 control register B.
    pub fn tccr1b(&self) -> (value: u8)
        ensures
            value == self@.tccr1b,
    {
        self.tccr1b
    }

    /// Reads timer 1 control register C.
    pub fn tccr1c(&self) -> (value: u8)
        ensures
            value == self@.tccr1c,
    {
        self.tccr1c
    }

    /// Reads the counter of timer 1.
    pub fn tcnt1(&self) -> (value: u16)
        ensures
            value == self@.tcnt1,
    {
        self.tcnt1
    }

    /// Reads timer 1 output compare register A.
    pub fn ocr1a(&self) -> (value: u16)
        ensures
            value == self@.ocr1a,
    {
        self.ocr1a
    }

    /// Reads the interrupt mask register of timer 1.
    pub fn timsk1(&self) -> (value: u8)
        ensures
            value == self@.timsk1,
    {
        self.timsk1
    }

    /// Reads the interrupt flag register of timer 1.
    pub fn tifr1(&self) -> (value: u8)
        ensures
            value == self@.tifr1,
    {
        self.tifr1
    }

    /// Whether a compare match of timer 1 waits to be served.
    pub fn interrupt_due(&self) -> (due: bool)
        ensures
            due == self@.interrupt_due(),
    {
        self.timsk1 & OCIE1A != 0 && self.tifr1 & OCF1A != 0
    }

    /// Writes timer 1 control register A.
    pub fn set_tccr1a(&mut self, value: u8)
        ensures
            final(self)@ == (McuState { tccr1a: value, ..old(self)@ }),
    {
        self.tccr1a = value;
    }

    /// Writes timer 1 control register B.
    pub fn set_tccr1b(&mut self, value: u8)
        ensures
            final(self)@ == (McuState { tccr1b: value, ..old(self)@ }),
    {
        self.tccr1b = value;
    }

    /// Writes timer 1 control register C.
    pub fn set_tccr1c(&mut self, value: u8)
        ensures
            final(self)@ == (McuState { tccr1c: value, ..old(self)@ }),
    {
        self.tccr1c = value;
    }

    /// Writes the counter of timer 1.
    pub fn set_tcnt1(&mut self, value: u16)
        ensures
            final(self)@ == (McuState { tcnt1: value, ..old(self)@ }),
    {
        self.tcnt1 = value;
    }

    /// Writes timer 1 output compare register A.
    pub fn set_ocr1a(&mut self, value: u16)
        ensures
            final(self)@ == (McuState { ocr1a: value, ..old(self)@ }),
    {
        self.ocr1a = value;
    }

    /// Writes the interrupt mask register of timer 1.
    pub fn set_timsk1(&mut self, value: u8)
        ensures
            final(self)@ == (McuState { timsk1: value, ..old(self)@ }),
    {
        self.timsk1 = value;
    }

    /// Writes the interrupt flag register of timer 1.
    pub fn set_tifr1(&mut self, value: u8)
        ensures
            final(self)@ == (McuState { tifr1: value, ..old(self)@ }),
            final(self).trace() == old(self).trace(),
    {
        self.tifr1 = value;
    }
}

} // verus!
