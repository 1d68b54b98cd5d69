//! Sleep modes and the idle sequence that cannot sleep through an event.
//!
//! An interrupt handler that has made work for the main loop marks an event
//! as pending.  The main loop idles with [`wait_for_event`], which looks at
//! the mark with interrupts held off and puts the core to sleep only where
//! there is none, with interrupts let in again by the instruction just
//! before the sleep instruction.
//!
//! An interrupt that is requested while interrupts are held off waits; the
//! device runs the instruction that follows the enabling of interrupts
//! before it serves a waiting interrupt, so a waiting interrupt finds the
//! core in its sleep instruction and wakes it at once.  Whenever the
//! interrupt was requested, before the look at the mark or after it, the
//! core does not sleep through it.

use vstd::prelude::*;
use crate::eventloop::serve_interrupts;
use crate::mcu::Mcu;
use crate::mcu::McuState;
use crate::mcu::Op;
use crate::mcu::SMCR_SE;
use crate::mcu::SMCR_SM;
use crate::mcu::SREG_I;

verus! {

/// The low-power modes of the device.
#[derive(Copy, Clone, Debug, PartialEq, Eq, Structural)]
pub enum SleepMode {
    Idle,
    ADCNoiseReduction,
    PowerDown,
    PowerSave,
    StandyBy,
    ExtendedStandBy,
}

impl SleepMode {
    /// The sleep mode select bits of the mode.
    pub open spec fn spec_bits(self) -> u8 {
        match self {
            SleepMode::Idle => 0x00,
            SleepMode::ADCNoiseReduction => 0x02,
            SleepMode::PowerDown => 0x04,
            SleepMode::PowerSave => 0x06,
            SleepMode::StandyBy => 0x0c,
            SleepMode::ExtendedStandBy => 0x0e,
        }
    }

    /// The sleep mode select bits of the mode, as they stand in the sleep
    /// mode control register.
    pub fn bits(&self) -> (bits: u8)
        ensures
            bits == self.spec_bits(),
            bits & SMCR_SM == bits,
    {
        let bits: u8 = match *self {
            SleepMode::Idle => 0x00,
            SleepMode::ADCNoiseReduction => 0x02,
            SleepMode::PowerDown => 0x04,
            SleepMode::PowerSave => 0x06,
            SleepMode::StandyBy => 0x0c,
            SleepMode::ExtendedStandBy => 0x0e,
        };
        assert(bits & 0x0e == bits) by (bit_vector)
            requires
                bits == 0x00 || bits == 0x02 || bits == 0x04 || bits == 0x06 || bits == 0x0c
                    || bits == 0x0e,
        ;
        bits
    }
}

/// The sleep mode control register with `mode` selected: the sleep enable
/// bit is as in `smcr`, the mode select bits are those of `mode`, and every
/// other bit is clear.
pub open spec fn mode_selected(smcr: u8, mode: SleepMode) -> u8 {
    (smcr & SMCR_SE) | mode.spec_bits()
}

/// The idle sequence that starts from `state` suspends the core: no event
/// is pending and no interrupt waits to be served.
pub open spec fn idles(state: McuState) -> bool {
    !state.pending && !state.interrupt_due()
}

/// The state after the idle sequence has run from `state` with `mode`.
/// The mode is selected, no event is pending and interrupts are enabled.
/// Where an event was pending the sleep enable bit is as it was; where none
/// was, the core has reached its sleep instruction and the bit is clear.
/// An interrupt that waited to be served while no event was pending has
/// been served from the sleep instruction.
pub open spec fn waited(state: McuState, mode: SleepMode) -> McuState {
    if state.pending {
        McuState {
            sreg: state.sreg | SREG_I,
            smcr: mode_selected(state.smcr, mode),
            pending: false,
            ..state
        }
    } else if state.interrupt_due() {
        McuState {
            sreg: state.sreg | SREG_I,
            smcr: mode.spec_bits(),
            pending: false,
            ..state.served()
        }
    } else {
        McuState { sreg: state.sreg | SREG_I, smcr: mode.spec_bits(), pending: false, ..state }
    }
}

/// What the idle sequence that starts from `state` with `mode` puts on
/// record, in order.  The mode is selected and interrupts are disabled
/// before the event-pending flag is read.  Where no event is pending, sleep
/// is enabled, interrupts are enabled, and the sleep instruction is the
/// very next step; a waiting interrupt is served from it, and its handler
/// marks an event; then sleep is disabled.  Last, the flag is cleared and
/// interrupts are enabled.
pub open spec fn waited_ops(state: McuState, mode: SleepMode) -> Seq<Op> {
    let selected = mode_selected(state.smcr, mode);
    let look = seq![Op::WriteSmcr(selected), Op::Cli, Op::ReadPending(state.pending)];
    let leave = seq![Op::WritePending(false), Op::Sei];
    if state.pending {
        look + leave
    } else {
        let sleep = seq![Op::WriteSmcr(selected | SMCR_SE), Op::Sei, Op::Sleep];
        let wake = seq![Op::WriteSmcr((selected | SMCR_SE) & !SMCR_SE)];
        if state.interrupt_due() {
            look + sleep + seq![Op::WritePending(true)] + wake + leave
        } else {
            look + sleep + wake + leave
        }
    }
}

/// What the sleep mode control register holds once `mode` has been selected
/// in a register that held `smcr`.
pub fn select_mode(smcr: u8, mode: SleepMode) -> (selected: u8)
    ensures
        selected == mode_selected(smcr, mode),
        selected & SMCR_SE == smcr & SMCR_SE,
        selected & SMCR_SM == mode.spec_bits(),
{
    let flags = mode.bits();
    assert((((smcr & 0x01) | flags) & 0x01) == (smcr & 0x01) && (((smcr & 0x01) | flags) & 0x0e)
        == flags) by (bit_vector)
        requires
            flags & 0x0e == flags,
    ;
    (smcr & SMCR_SE) | flags
}

/// Selects the sleep mode.  The sleep enable bit is left as it is: to
/// select a mode and to enable sleep are two steps.
pub fn set_sleep_mode(mcu: &mut Mcu, mode: SleepMode)
    ensures
        final(mcu)@ == old(mcu)@.with_smcr(mode_selected(old(mcu)@.smcr, mode)),
        final(mcu)@.sleep_enabled() == old(mcu)@.sleep_enabled(),
        final(mcu)@.smcr & SMCR_SM == mode.spec_bits(),
        final(mcu).trace() == old(mcu).trace().push(
            Op::WriteSmcr(mode_selected(old(mcu)@.smcr, mode)),
        ),
{
    let selected = select_mode(mcu.smcr(), mode);
    mcu.set_smcr(selected);
}

/// Sets the sleep enable bit.
pub fn sleep_enable(mcu: &mut Mcu)
    ensures
        final(mcu)@ == old(mcu)@.with_smcr(old(mcu)@.smcr | SMCR_SE),
        final(mcu)@.sleep_enabled(),
        final(mcu).trace() == old(mcu).trace().push(Op::WriteSmcr(old(mcu)@.smcr | SMCR_SE)),
{
    let smcr = mcu.smcr();
    assert(((smcr | 0x01) & 0x01) != 0) by (bit_vector);
    mcu.set_smcr(smcr | SMCR_SE);
}

/// Clears the sleep enable bit.
pub fn sleep_disable(mcu: &mut Mcu)
    ensures
        final(mcu)@ == old(mcu)@.with_smcr(old(mcu)@.smcr & !SMCR_SE),
        !final(mcu)@.sleep_enabled(),
        final(mcu).trace() == old(mcu).trace().push(Op::WriteSmcr(old(mcu)@.smcr & !SMCR_SE)),
{
    let smcr = mcu.smcr();
    assert(((smcr & !0x01u8) & 0x01) == 0) by (bit_vector);
    mcu.set_smcr(smcr & !SMCR_SE);
}

/// The sleep instruction, and whether it has suspended the core.  With the
/// sleep enable bit clear it does nothing.  With the bit set, an interrupt
/// that waits to be served is served at once and the core goes on; where
/// none waits, the core is suspended until an interrupt comes.  A suspended
/// core is woken by an interrupt only, so with the bit set the instruction
/// is only to be reached with interrupts enabled.
pub fn sleep_cpu(mcu: &mut Mcu) -> (slept: bool)
    requires
        old(mcu)@.sleep_enabled() ==> old(mcu)@.interrupts_enabled(),
    ensures
        slept == (old(mcu)@.sleep_enabled() && !old(mcu)@.interrupt_due()),
        final(mcu)@ == if old(mcu)@.sleep_enabled() && old(mcu)@.interrupt_due() {
            old(mcu)@.served()
        } else {
            old(mcu)@
        },
        final(mcu).trace() == if old(mcu)@.sleep_enabled() && old(mcu)@.interrupt_due() {
            old(mcu).trace().push(Op::Sleep).push(Op::WritePending(true))
        } else {
            old(mcu).trace().push(Op::Sleep)
        },
{
    mcu.sleep_instruction();
    if mcu.smcr() & SMCR_SE != 0 {
        !serve_interrupts(mcu)
    } else {
        false
    }
}

/// Marks an event as pending.  This is for an interrupt handler that has
/// made work for the main loop; the mark keeps the next [`wait_for_event`]
/// from putting the core to sleep.
pub fn set_event_pending(mcu: &mut Mcu)
    ensures
        final(mcu)@ == old(mcu)@.with_pending(true),
        final(mcu).trace() == old(mcu).trace().push(Op::WritePending(true)),
{
    mcu.set_pending(true);
}

/// Idles until there is an event, and says whether the core has slept.
///
/// The mode is selected and interrupts are disabled.  Then the pending
/// mark is read.  Where no event is pending, sleep is enabled, interrupts
/// are enabled, the core sleeps at the very next step, and sleep is
/// disabled once it wakes.  The pending mark is then cleared and
/// interrupts are enabled.  The steps are put on record in this order.  An event that was marked before the call keeps
/// the core awake, and so does an interrupt that waits to be served.
pub fn wait_for_event(mcu: &mut Mcu, mode: SleepMode) -> (slept: bool)
    ensures
        slept == idles(old(mcu)@),
        final(mcu)@ == waited(old(mcu)@, mode),
        final(mcu)@.interrupts_enabled(),
        !final(mcu)@.pending,
        final(mcu).trace() == old(mcu).trace() + waited_ops(old(mcu)@, mode),
{
    set_sleep_mode(mcu, mode);
    mcu.cli();
    let mut slept = false;
    if !mcu.read_pending() {
        sleep_enable(mcu);
        mcu.sei();
        slept = sleep_cpu(mcu);
        sleep_disable(mcu);
    }
    mcu.set_pending(false);
    mcu.sei();
    proof {
        assert(mcu.trace() =~= old(mcu).trace() + waited_ops(old(mcu)@, mode));
        let sreg = old(mcu)@.sreg;
        assert((((sreg & !0x80u8) | 0x80) | 0x80) == (sreg | 0x80) && ((sreg & !0x80u8) | 0x80) == (
        sreg | 0x80)) by (bit_vector);
        let smcr = old(mcu)@.smcr;
        let flags = mode.spec_bits();
        assert(flags & 0x0e == flags) by (bit_vector)
            requires
                flags == 0x00 || flags == 0x02 || flags == 0x04 || flags == 0x06 || flags
                    == 0x0c || flags == 0x0e,
        ;
        assert(((((smcr & 0x01) | flags) | 0x01) & !0x01u8) == flags) by (bit_vector)
            requires
                flags & 0x0e == flags,
        ;
    }
    slept
}

/// A mode that has been selected is the mode that the register holds,
/// whatever the register held before, and selecting it a second time
/// changes nothing.
pub proof fn lemma_mode_selected(smcr: u8, mode: SleepMode)
    ensures
        mode_selected(smcr, mode) & SMCR_SM == mode.spec_bits(),
        mode_selected(smcr, mode) & SMCR_SE == smcr & SMCR_SE,
        mode_selected(mode_selected(smcr, mode), mode) == mode_selected(smcr, mode),
{
    let flags = mode.spec_bits();
    assert(flags & 0x0e == flags) by (bit_vector)
        requires
            flags == 0x00 || flags == 0x02 || flags == 0x04 || flags == 0x06 || flags == 0x0c
                || flags == 0x0e,
    ;
    assert((((smcr & 0x01) | flags) & 0x0e) == flags && (((smcr & 0x01) | flags) & 0x01) == (smcr
        & 0x01) && (((((smcr & 0x01) | flags) & 0x01) | flags) == ((smcr & 0x01) | flags)))
        by (bit_vector)
        requires
            flags & 0x0e == flags,
    ;
}

} // verus!
