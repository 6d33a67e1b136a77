//! A CHIP-8 / SUPER-CHIP virtual machine core.
//!
//! The crate holds the fetch-decode-execute engine, the XOR-sprite display
//! compositor with collision detection, and the two countdown timers. ROM
//! loading, rendering, the physical keyboard and the wall clock stay outside:
//! callers inject key state through the [`chip::Keypad`] capability and pass
//! the current time in milliseconds to anything that needs a clock.

pub mod chip;
pub mod display;
pub mod font;
pub mod timer;
