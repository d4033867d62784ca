//! Coordinates several progress bars that share one region of a terminal.
//!
//! The library holds the line registry and the redraw rules; whoever owns the
//! terminal writes the strings that the coordinator hands back.
use vstd::prelude::*;

pub mod lemmas;
pub mod multi;
pub mod tty;

verus! {

} // verus!
