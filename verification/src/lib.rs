//! A cooperative task runtime for a single-core microcontroller.
//!
//! The runtime is a scheduler of fixed capacity that is driven by a
//! hardware tick interrupt.  It shares state with interrupt handlers only
//! inside critical sections, and it idles the core between turns with a
//! sleep sequence that cannot sleep through an event.
//!
//! The state of the device that the runtime works on is an explicitly
//! owned [`mcu::Mcu`] value, so that every routine says exactly what it
//! does to the interrupt flag, the sleep control register, the timer, the
//! tick counter and the event-pending flag.
//!
//! - [`ticks`]: the tick and its wrapping arithmetic.
//! - [`fcpu`]: the clock of the board and the tick rate.
//! - [`mcu`]: the registers and cells of the device.
//! - [`mutex`]: critical sections and the mutex.
//! - [`sleep`]: sleep modes and the idle sequence.
//! - [`timer1`]: the settings of the tick timer.
//! - [`wdt`]: the settings of the watchdog timer.
//! - [`task`]: the kinds of task and their run step.
//! - [`slots`]: the storage of the slot table.
//! - [`table`]: the slot table as a value, and its laws.
//! - [`eventloop`]: the scheduler.

pub mod eventloop;
pub mod fcpu;
pub mod mcu;
pub mod mutex;
pub mod sleep;
pub mod slots;
pub mod table;
pub mod task;
pub mod ticks;
pub mod timer1;
pub mod wdt;
