//! Rules engine for chess: board representation, legal move generation,
//! move application with undo, and game sequencing.

pub mod board;
pub mod attacks;
pub mod moves;
pub mod movegen;
pub mod game;

use vstd::prelude::*;

verus! {

/// The engine's display name.
pub fn engine_name() -> (r: &'static str)
    ensures
        r@ == "chessy engine"@,
{
    "chessy engine"
}

/// The engine's author.
pub fn engine_author() -> (r: &'static str)
    ensures
        r@ == "Mohammad Sohail"@,
{
    "Mohammad Sohail"
}

pub struct EngineInfo {
    pub name: &'static str,
    pub author: &'static str,
}

/// Bundles the engine's name and author.
pub fn get_info() -> (r: EngineInfo)
    ensures
        r.name@ == "chessy engine"@,
        r.author@ == "Mohammad Sohail"@,
{
    EngineInfo { name: engine_name(), author: engine_author() }
}

} // verus!
