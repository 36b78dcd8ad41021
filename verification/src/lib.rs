//! A deterministic simulation engine for a falling-block matching puzzle
//! on a fixed 8 x 7 grid.
//!
//! The engine owns a board of optional cells and a phase, and advances one
//! phase's worth of work per `next` call: a gravity pass, a scoring analysis
//! pass, an elimination pass, or an idle pass, selected by the current phase.

pub mod board;
pub mod engine;
pub mod falling;
pub mod laws;
