use vstd::prelude::*;

verus! {

/// The stage the game is in; it decides which player actions are legal.
#[derive(Debug, Copy, Clone, PartialEq, Eq, Structural)]
pub enum GameStage {
    /// A blind is being played: select, play and discard are legal.
    Playing,
    /// The shop after a won blind: buy, sell and leaving are legal.
    Shop,
    /// The terminal stage: no action is legal any more.
    GameOver,
}

} // verus!
