//! The core of a countdown timer for the terminal.
//!
//! A duration is given as text, `[[[d:]h:]m:]s[.ms]`, and read by
//! [`parse::parse_duration`]. A [`timer::Timer`] then counts it down: it takes
//! ticks, keys and interrupts as [`timer::Event`]s, one at a time, and answers
//! each with the [`timer::Action`] that its driver is to carry out on the
//! terminal. [`display::DurationDisplay`] writes a duration out for people.
//!
//! Nothing here waits, reads or draws. The library decides; the program
//! around it ticks the clock, listens to the keyboard and talks to the
//! terminal.

pub mod display;
pub mod duration;
pub mod error;
pub mod number;
pub mod parse;
pub mod terminal;
pub mod timer;
