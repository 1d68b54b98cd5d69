//! Clock configuration of the board and the tick rate derived from it.

use vstd::prelude::*;

verus! {

/// Core clock frequency in Hz.
pub const F_CPU: u32 = 8_000_000;

/// Rate of the tick interrupt in Hz.
pub const DESIRED_HZ_TIM1: u32 = 50;

/// Prescaler applied to the core clock before it drives timer 1.
pub const TIM1_PRESCALER: u32 = 1024;

/// Factor by which [`crate::ticks::Ticks::milliseconds`] scales a
/// millisecond count.
pub const TICKS_PER_MS: u16 = 20;

/// Compare value that makes timer 1 raise its interrupt at
/// `DESIRED_HZ_TIM1` when it is clocked through `TIM1_PRESCALER`.
pub const INTERRUPT_EVERY_1_HZ_1024_PRESCALER: u16 = 155;

/// Core clock cycles in a millisecond.
pub const CYCLES_PER_MS: u16 = 8_000;

/// Core clock cycles that one round of the innermost loop of a busy wait
/// takes.
pub const CYCLES_PER_INNER_LOOP: u16 = 6;

/// Rounds of the innermost loop of a busy wait that fill a millisecond.
pub const INNER_LOOP_ITERATIONS: u16 = 1_333;

/// The tick configuration is consistent: the millisecond factor is at least
/// one, it is the quotient of a second by the tick rate, and the compare
/// value is the number of prescaled clock cycles in one tick period, less
/// one.
pub proof fn lemma_tick_configuration()
    ensures
        TICKS_PER_MS >= 1,
        TICKS_PER_MS == 1000int / (DESIRED_HZ_TIM1 as int),
        INTERRUPT_EVERY_1_HZ_1024_PRESCALER == (F_CPU as int) / (DESIRED_HZ_TIM1 * TIM1_PRESCALER)
            - 1,
{
    assert(DESIRED_HZ_TIM1 * TIM1_PRESCALER == 51_200);
    assert(8_000_000int / 51_200 == 156);
}

/// The busy wait is calibrated to the core clock: a millisecond holds a
/// thousandth of the cycles of a second, and the innermost loop runs as
/// often as its rounds fit into a millisecond.
pub proof fn lemma_busy_wait_calibration()
    ensures
        CYCLES_PER_MS == (F_CPU as int) / 1000,
        INNER_LOOP_ITERATIONS == (CYCLES_PER_MS as int) / (CYCLES_PER_INNER_LOOP as int),
{
}

} // verus!
