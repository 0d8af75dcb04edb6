//! Decides, frame by frame, what a controller overlay draws: configuration
//! values read from text (colors, conditions, layout bindings), the sets of
//! condition values that hold for the controllers' latest readings, which
//! items those sets activate, and a store that hands complete collections of
//! readings from the reading side to the drawing side.
use vstd::prelude::*;

pub mod activation;
pub mod color;
pub mod condition;
pub mod config;
pub mod error;
pub mod frame;
pub mod state;
pub mod store;

verus! {

} // verus!
