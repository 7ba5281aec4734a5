//! Core of a step sequencer: the cell grammar, the undo history of patterns,
//! and the sample clock that schedules voice triggers.
use vstd::prelude::*;

pub mod decimal;
pub mod editor;
pub mod engine;
pub mod grammar;
pub mod history;
pub mod pattern;
pub mod text;

verus! {

} // verus!
