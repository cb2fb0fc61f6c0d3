//! A timed sequence stepper: an ordered list of frames, each held for its own
//! duration, and gates that report the entry into a frame exactly once.
//!
//! - [`sequencer`]: the list of durations, the active frame and its
//!   countdown; one step per tick.
//! - [`gate`]: the guard that fires once per entry into its frame.
//! - [`dispatch`]: the gates of all watched frames, evaluated together.
//! - [`driver`]: one tick of sequencer and gates, with or without a
//!   sequencer.
//! - [`actions`]: the lines that a program prints.
//! - [`index`]: how frame indices read in contracts.

pub mod actions;
pub mod dispatch;
pub mod driver;
pub mod gate;
pub mod index;
pub mod sequencer;
mod timer;
