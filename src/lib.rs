//! Path discovery over an anonymizing network: the decisions of the prober,
//! proved with Verus. Bootstrapping the overlay client, sending requests and
//! printing stay with the program that drives this library.
use vstd::prelude::*;

pub mod probe;
pub mod report;
pub mod run;
pub mod laws;
pub mod sanitize;

verus! {

} // verus!
