//! Rules of a real-time strategy prototype, stated as contracts and proved.
//!
//! Every module is plain data and pure decisions: the engine side (rendering,
//! the entity store, floating-point geometry) hands integers, flags and
//! identifiers in and gets verified answers back.
use vstd::prelude::*;

pub mod benchmark;
pub mod combat;
pub mod replay;
pub mod scenario;
pub mod selection;
pub mod session;
pub mod spatial;
pub mod game_over;
pub mod ui;
pub mod units;
pub mod economy;
pub mod production;
pub mod orders;
pub mod fog;
pub mod navigation;
pub mod structures;
pub mod text;

verus! {

} // verus!
