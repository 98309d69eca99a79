//! Core of a graphing calculator: a user types formulas in at most
//! one free variable; the library compiles them, validates their
//! arity, lays out the sampling grid for plotting, runs the sample
//! index of the audio signal each formula doubles as, and keeps the
//! collection of formula entries that the surrounding interface adds,
//! edits, removes, serializes into a bookmarkable text fragment and
//! restores from one.
pub mod audio;
pub mod encode;
pub mod entry;
pub mod expr;
pub mod grapher;
pub mod plot;
