//! A small evolutionary simulation: organisms with inheritable genomes move
//! on a toroidal grid, eat, age, reproduce and die.

pub mod position;
pub mod random;
pub mod text;
pub mod genome;
pub mod creature;
pub mod plant;
pub mod population;
pub mod world;
pub mod map;
pub mod leaderboard;
pub mod terminal_graphics;

use vstd::prelude::*;

verus! {

/// How a finished run is shown: the last frame once, or the whole history
/// interactively.
#[derive(Clone, Copy, Debug, PartialEq, Eq, Structural)]
pub enum DisplayMode {
    TerminalStatic,
    TerminalDynamic,
}

} // verus!
