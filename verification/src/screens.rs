//! Top-level screens of the game and their transitions.

use vstd::prelude::*;

verus! {

/// The screen the game is showing.
#[derive(Clone, Copy, Debug, PartialEq, Eq, Structural)]
pub enum GameState {
    MainMenu,
    SpeciesSelection,
    SpeciesIntro,
    InGame,
    GalaxyView,
    PlanetView,
}

} // verus!
