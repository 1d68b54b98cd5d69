//! The settings of the watchdog timer.

use vstd::prelude::*;

verus! {

/// Watchdog system reset enable, in the watchdog control register.
pub const WDE: u8 = 0x08;

/// Watchdog change enable, in the watchdog control register.
pub const WDCE: u8 = 0x10;

/// How long the watchdog waits, roughly.
#[derive(Copy, Clone, Debug, PartialEq, Eq, Structural)]
pub enum Duration {
    Approx15ms,
    Approx30ms,
    Approx60ms,
    Approx120ms,
    Approx250ms,
    Approx500ms,
    Approx1s,
    Approx2s,
    Approx4s,
    Approx8s,
}

impl Duration {
    /// The duration in milliseconds, as its name gives it.
    pub open spec fn spec_millis(self) -> u16 {
        match self {
            Duration::Approx15ms => 15,
            Duration::Approx30ms => 30,
            Duration::Approx60ms => 60,
            Duration::Approx120ms => 120,
            Duration::Approx250ms => 250,
            Duration::Approx500ms => 500,
            Duration::Approx1s => 1000,
            Duration::Approx2s => 2000,
            Duration::Approx4s => 4000,
            Duration::Approx8s => 8000,
        }
    }

    /// The number of the prescaler setting: the watchdog waits for 2048
    /// cycles of its oscillator, doubled as many times as the number says.
    pub open spec fn select(self) -> u8 {
        match self {
            Duration::Approx15ms => 0,
            Duration::Approx30ms => 1,
            Duration::Approx60ms => 2,
            Duration::Approx120ms => 3,
            Duration::Approx250ms => 4,
            Duration::Approx500ms => 5,
            Duration::Approx1s => 6,
            Duration::Approx2s => 7,
            Duration::Approx4s => 8,
            Duration::Approx8s => 9,
        }
    }

    /// The prescaler bits of the duration as they stand in the watchdog
    /// control register: bits 0 to 2 of the setting's number at bits 0 to 2
    /// of the register, and bit 3 of the number at bit 5.
    pub open spec fn spec_prescale_bits(self) -> u8 {
        (self.select() & 0x07) | ((self.select() & 0x08) << 2)
    }

    /// The duration in milliseconds.
    pub fn millis(&self) -> (millis: u16)
        ensures
            millis == self.spec_millis(),
    {
        match *self {
            Duration::Approx15ms => 15,
            Duration::Approx30ms => 30,
            Duration::Approx60ms => 60,
            Duration::Approx120ms => 120,
            Duration::Approx250ms => 250,
            Duration::Approx500ms => 500,
            Duration::Approx1s => 1000,
            Duration::Approx2s => 2000,
            Duration::Approx4s => 4000,
            Duration::Approx8s => 8000,
        }
    }

    /// The prescaler bits of the duration.
    pub fn prescale_bits(&self) -> (bits: u8)
        ensures
            bits == self.spec_prescale_bits(),
            bits & (WDE | WDCE) == 0,
    {
        let select: u8 = match *self {
            Duration::Approx15ms => 0,
            Duration::Approx30ms => 1,
            Duration::Approx60ms => 2,
            Duration::Approx120ms => 3,
            Duration::Approx250ms => 4,
            Duration::Approx500ms => 5,
            Duration::Approx1s => 6,
            Duration::Approx2s => 7,
            Duration::Approx4s => 8,
            Duration::Approx8s => 9,
        };
        assert((((select & 0x07) | ((select & 0x08) << 2)) & (0x08u8 | 0x10u8)) == 0)
            by (bit_vector);
        (select & 0x07) | ((select & 0x08) << 2)
    }
}

} // verus!
