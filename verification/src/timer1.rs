//! Configuration of timer 1, the source of the tick interrupt.

use vstd::prelude::*;
use crate::mcu::Mcu;
use crate::mcu::McuState;
use crate::mcu::OCIE1A;
use crate::mutex::CriticalSection;

verus! {

/// Waveform generation mode bit 0, in control register A.
pub const WGM10: u8 = 0x01;

/// Waveform generation mode bit 1, in control register A.
pub const WGM11: u8 = 0x02;

/// Waveform generation mode bit 2, in control register B.
pub const WGM12: u8 = 0x08;

/// Waveform generation mode bit 3, in control register B.
pub const WGM13: u8 = 0x10;

/// What drives the counter.
#[derive(Copy, Clone, Debug, PartialEq, Eq, Structural)]
pub enum ClockSource {
    /// No clock: the counter stands still.
    Stopped,
    Prescale1,
    Prescale8,
    Prescale64,
    Prescale256,
    Prescale1024,
    ExternalFalling,
    ExternalRising,
}

impl ClockSource {
    /// The clock select bits of the source.
    pub open spec fn spec_bits(self) -> u8 {
        match self {
            ClockSource::Stopped => 0,
            ClockSource::Prescale1 => 1,
            ClockSource::Prescale8 => 2,
            ClockSource::Prescale64 => 3,
            ClockSource::Prescale256 => 4,
            ClockSource::Prescale1024 => 5,
            ClockSource::ExternalFalling => 6,
            ClockSource::ExternalRising => 7,
        }
    }

    /// The clock select bits of the source, as they stand in control
    /// register B.
    #[inline]
    pub fn bits(&self) -> (bits: u8)
        ensures
            bits == self.spec_bits(),
    {
        match *self {
            ClockSource::Stopped => 0,
            ClockSource::Prescale1 => 1,
            ClockSource::Prescale8 => 2,
            ClockSource::Prescale64 => 3,
            ClockSource::Prescale256 => 4,
            ClockSource::Prescale1024 => 5,
            ClockSource::ExternalFalling => 6,
            ClockSource::ExternalRising => 7,
        }
    }
}

/// How the counter counts and what it does at a match.
#[derive(Copy, Clone, Debug, PartialEq, Eq, Structural)]
pub enum WaveformGenerationMode {
    Normal,
    PwmPhaseCorrect8Bit,
    PwmPhaseCorrect9Bit,
    PwmPhaseCorrect10Bit,
    ClearOnTimerMatchOutputCompare,
    FastPwm8Bit,
    FastPwm9Bit,
    FastPwm10Bit,
    PwmPhaseAndFrequencyCorrectInputCapture,
    PwmPhaseAndFrequencyCorrectOutputCompare,
    PwmPhaseCorrectInputCapture,
    PwmPhaseCorrectOutputCompare,
    ClearOnTimerMatchInputCapture,
    FastPwmInputCapture,
    FastPwmOutputCompare,
}

impl WaveformGenerationMode {
    /// The number of the mode: its four mode bits read as a number, bit 3
    /// first.
    pub open spec fn number(self) -> u8 {
        match self {
            WaveformGenerationMode::Normal => 0,
            WaveformGenerationMode::PwmPhaseCorrect8Bit => 1,
            WaveformGenerationMode::PwmPhaseCorrect9Bit => 2,
            WaveformGenerationMode::PwmPhaseCorrect10Bit => 3,
            WaveformGenerationMode::ClearOnTimerMatchOutputCompare => 4,
            WaveformGenerationMode::FastPwm8Bit => 5,
            WaveformGenerationMode::FastPwm9Bit => 6,
            WaveformGenerationMode::FastPwm10Bit => 7,
            WaveformGenerationMode::PwmPhaseAndFrequencyCorrectInputCapture => 8,
            WaveformGenerationMode::PwmPhaseAndFrequencyCorrectOutputCompare => 9,
            WaveformGenerationMode::PwmPhaseCorrectInputCapture => 10,
            WaveformGenerationMode::PwmPhaseCorrectOutputCompare => 11,
            WaveformGenerationMode::ClearOnTimerMatchInputCapture => 12,
            WaveformGenerationMode::FastPwmInputCapture => 14,
            WaveformGenerationMode::FastPwmOutputCompare => 15,
        }
    }

    /// The mode bits that stand in control register B: bits 2 and 3 of the
    /// mode number, at the places of `WGM12` and `WGM13`.
    pub open spec fn spec_b_bits(self) -> u8 {
        ((self.number() & 0x0c) << 1) as u8
    }

    /// The mode bits that stand in control register A: bits 0 and 1 of the
    /// mode number, at the places of `WGM10` and `WGM11`.
    pub open spec fn spec_a_bits(self) -> u8 {
        self.number() & 0x03
    }

    /// The mode bits of the mode: first those of control register B, then
    /// those of control register A.
    #[inline]
    pub fn bits(&self) -> (bits: (u8, u8))
        ensures
            bits.0 == self.spec_b_bits(),
            bits.1 == self.spec_a_bits(),
    {
        proof {
            assert(((0u8 & 0x0c) << 1) as u8 == 0 && (0u8 & 0x03) == 0) by (bit_vector);
            assert(((1u8 & 0x0c) << 1) as u8 == 0 && (1u8 & 0x03) == 1) by (bit_vector);
            assert(((2u8 & 0x0c) << 1) as u8 == 0 && (2u8 & 0x03) == 2) by (bit_vector);
            assert(((3u8 & 0x0c) << 1) as u8 == 0 && (3u8 & 0x03) == 3) by (bit_vector);
            assert(((4u8 & 0x0c) << 1) as u8 == 0x08 && (4u8 & 0x03) == 0) by (bit_vector);
            assert(((5u8 & 0x0c) << 1) as u8 == 0x08 && (5u8 & 0x03) == 1) by (bit_vector);
            assert(((6u8 & 0x0c) << 1) as u8 == 0x08 && (6u8 & 0x03) == 2) by (bit_vector);
            assert(((7u8 & 0x0c) << 1) as u8 == 0x08 && (7u8 & 0x03) == 3) by (bit_vector);
            assert(((8u8 & 0x0c) << 1) as u8 == 0x10 && (8u8 & 0x03) == 0) by (bit_vector);
            assert(((9u8 & 0x0c) << 1) as u8 == 0x10 && (9u8 & 0x03) == 1) by (bit_vector);
            assert(((10u8 & 0x0c) << 1) as u8 == 0x10 && (10u8 & 0x03) == 2) by (bit_vector);
            assert(((11u8 & 0x0c) << 1) as u8 == 0x10 && (11u8 & 0x03) == 3) by (bit_vector);
            assert(((12u8 & 0x0c) << 1) as u8 == 0x18 && (12u8 & 0x03) == 0) by (bit_vector);
            assert(((14u8 & 0x0c) << 1) as u8 == 0x18 && (14u8 & 0x03) == 2) by (bit_vector);
            assert(((15u8 & 0x0c) << 1) as u8 == 0x18 && (15u8 & 0x03) == 3) by (bit_vector);
            assert((0x02u8 | 0x01u8) == 3 && (0x10u8 | 0x08u8) == 0x18) by (bit_vector);
        }
        match *self {
            WaveformGenerationMode::Normal => (0, 0),
            WaveformGenerationMode::PwmPhaseCorrect8Bit => (0, WGM10),
            WaveformGenerationMode::PwmPhaseCorrect9Bit => (0, WGM11),
            WaveformGenerationMode::PwmPhaseCorrect10Bit => (0, WGM11 | WGM10),
            WaveformGenerationMode::ClearOnTimerMatchOutputCompare => (WGM12, 0),
            WaveformGenerationMode::FastPwm8Bit => (WGM12, WGM10),
            WaveformGenerationMode::FastPwm9Bit => (WGM12, WGM11),
            WaveformGenerationMode::FastPwm10Bit => (WGM12, WGM11 | WGM10),
            WaveformGenerationMode::PwmPhaseAndFrequencyCorrectInputCapture => (WGM13, 0),
            WaveformGenerationMode::PwmPhaseAndFrequencyCorrectOutputCompare => (WGM13, WGM10),
            WaveformGenerationMode::PwmPhaseCorrectInputCapture => (WGM13, WGM11),
            WaveformGenerationMode::PwmPhaseCorrectOutputCompare => (WGM13, WGM11 | WGM10),
            WaveformGenerationMode::ClearOnTimerMatchInputCapture => (WGM13 | WGM12, 0),
            // Reserved                              => (WGM13 | WGM12, WGM10),
            WaveformGenerationMode::FastPwmInputCapture => (WGM13 | WGM12, WGM11),
            WaveformGenerationMode::FastPwmOutputCompare => (WGM13 | WGM12, WGM11 | WGM10),
        }
    }
}

/// The settings of timer 1, gathered before they are written.
pub struct Timer {
    a: u8,
    b: u8,
    c: u8,
    compare: Option<u16>,
}

impl Timer {
    /// What will be written to control register A.
    pub closed spec fn a(&self) -> u8 {
        self.a
    }

    /// What will be written to control register B.
    pub closed spec fn b(&self) -> u8 {
        self.b
    }

    /// What will be written to control register C.
    pub closed spec fn c(&self) -> u8 {
        self.c
    }

    /// What will be written to output compare register A, if anything.
    pub closed spec fn compare(&self) -> Option<u16> {
        self.compare
    }

    /// The settings of control register A.
    pub fn control_a(&self) -> (value: u8)
        ensures
            value == self.a(),
    {
        self.a
    }

    /// The settings of control register B.
    pub fn control_b(&self) -> (value: u8)
        ensures
            value == self.b(),
    {
        self.b
    }

    /// The settings of control register C.
    pub fn control_c(&self) -> (value: u8)
        ensures
            value == self.c(),
    {
        self.c
    }

    /// The compare value, if one is set.
    pub fn output_compare(&self) -> (value: Option<u16>)
        ensures
            value == self.compare(),
    {
        self.compare
    }

    /// The state after the settings have been written in `state`: the
    /// three control registers hold the settings and the counter is zero;
    /// where a compare value is set, output compare register A holds it and
    /// the compare match interrupt is the one enabled interrupt of the
    /// timer.
    pub open spec fn configured(&self, state: McuState) -> McuState {
        McuState {
            tccr1a: self.a(),
            tccr1b: self.b(),
            tccr1c: self.c(),
            tcnt1: 0,
            ocr1a: match self.compare() {
                Some(compare) => compare,
                None => state.ocr1a,
            },
            timsk1: match self.compare() {
                Some(_) => OCIE1A,
                None => state.timsk1,
            },
            ..state
        }
    }

    /// Settings with every bit clear and no compare value.
    pub fn new() -> (timer: Self)
        ensures
            timer.a() == 0,
            timer.b() == 0,
            timer.c() == 0,
            timer.compare() is None,
    {
        Self { a: 0, b: 0, c: 0, compare: None }
    }

    /// Adds the bits of the waveform generation mode.
    pub fn waveform_generation_mode(self, wgm: WaveformGenerationMode) -> (timer: Self)
        ensures
            timer.a() == self.a() | wgm.spec_a_bits(),
            timer.b() == self.b() | wgm.spec_b_bits(),
            timer.c() == self.c(),
            timer.compare() == self.compare(),
    {
        let (b, a) = wgm.bits();

        Self { a: self.a | a, b: self.b | b, ..self }
    }

    /// Adds the bits of the clock source.
    pub fn clock_source(self, src: ClockSource) -> (timer: Self)
        ensures
            timer.a() == self.a(),
            timer.b() == self.b() | src.spec_bits(),
            timer.c() == self.c(),
            timer.compare() == self.compare(),
    {
        Self { b: self.b | src.bits(), ..self }
    }

    /// Sets the compare value.
    pub fn output_compare_1(self, value: u16) -> (timer: Self)
        ensures
            timer.a() == self.a(),
            timer.b() == self.b(),
            timer.c() == self.c(),
            timer.compare() == Some(value),
    {
        Self { compare: Some(value), ..self }
    }

    /// Writes the settings to the timer, inside a critical section.
    pub fn configure(self, mcu: &mut Mcu)
        ensures
            final(mcu)@ == self.configured(old(mcu)@),
    {
        let cs = CriticalSection::new(mcu);
        mcu.set_tccr1a(self.a);
        mcu.set_tccr1b(self.b);
        mcu.set_tccr1c(self.c);
        mcu.set_tcnt1(0);

        if let Some(compare) = self.compare {
            mcu.set_ocr1a(compare);
            mcu.set_timsk1(OCIE1A);
        }
        cs.release(mcu);
    }
}

} // verus!
