//! The simulation core of an incremental game.
//!
//! A session holds one currency counter (the ledger), a catalog of powers
//! that can be bought, a flag for each power that says whether it is
//! unlocked, and the running state of the unlocked powers: how many units
//! are owned and a timer that paces production. Time is counted in whole
//! nanoseconds.
//!
//! - [`power`], [`catalog`]: the powers and their built-in catalog.
//! - [`ledger`]: the currency counter.
//! - [`unlock`]: the unlock flags.
//! - [`timer`]: the repeating production timer.
//! - [`model`]: the session as mathematics, and what each operation makes
//!   of it.
//! - [`simulation`]: the session itself, proved against the model.
//! - [`save`]: what of a session is saved, and how it is taken up again.
//! - [`laws`]: what holds of every session.

pub mod catalog;
pub mod laws;
pub mod ledger;
pub mod model;
pub mod power;
pub mod save;
pub mod simulation;
pub mod timer;
pub mod unlock;
