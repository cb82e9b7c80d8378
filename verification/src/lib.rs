use vstd::prelude::*;

pub mod auth;
pub mod board;
pub mod events;
pub mod game;
pub mod model;
pub mod room;

verus! {

} // verus!
