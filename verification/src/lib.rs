//! A discrete-event simulator for a party of fire mages fighting one target.
//!
//! All quantities are fixed-point integers: time is counted in ticks of one
//! microsecond, damage in billionths of a point, and chances and multipliers
//! in parts per million ([`units`]).
//!
//! A trial is a [`state::State`]: a clock, the target's debuffs, and one lane
//! of countdowns per mage.  Its rules are functions on the mathematical view
//! of that state ([`mechanics`]); the scheduler carries them out one event at
//! a time, the earliest first and simultaneous ones in a fixed order
//! ([`schedule`], [`progress`]).  What holds of every trial is proved in
//! [`laws`].
//!
//! Between events a decider picks each mage's next action, from an opener
//! and then from a fallback or a list of rules ([`decisions`], [`apl`]).
//! Trials are set up from parameters or from a team sheet
//! ([`orchestration`], [`legacy_config`], [`json`]), summed up one by one and
//! gathered into batches ([`batch`]).  The tables of the game are in
//! [`constants`]; [`text`] puts the words of a fault together.

pub mod units;
pub mod text;
pub mod constants;
pub mod schedule;
pub mod state;
pub mod orchestration;
pub mod mechanics;
pub mod laws;
pub mod json;
pub mod apl;
pub mod decisions;
pub mod progress;
pub mod legacy_config;
pub mod batch;
