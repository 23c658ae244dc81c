use vstd::prelude::*;

verus! {

/// Every way a game action can fail.
///
/// `InvalidRank` and `EmptyPile` signal broken invariants; the rest are
/// recoverable answers to a player command: the state is left unchanged
/// and the caller may prompt again. `GameOver` is the terminal signal.
#[derive(Debug, Copy, Clone, PartialEq, Eq, Structural)]
pub enum GameError {
    /// A card rank outside 1..=13 was used where a valid card is required.
    InvalidRank,
    /// A draw was attempted from an exhausted draw pile.
    EmptyPile,
    /// A selection index did not name a card of the hand.
    NotInHand,
    /// The selection already holds the maximum number of cards.
    SelectionFull,
    /// Play or discard was attempted with nothing selected.
    EmptyPlay,
    /// A discard was attempted with no discards left this blind.
    NoDiscardsLeft,
    /// A shop index named no offer or no owned joker.
    IndexOutOfRange,
    /// The player cannot afford the chosen offer.
    InsufficientFunds,
    /// The player already owns the maximum number of jokers.
    ModifierCapacityExceeded,
    /// The action is not legal in the current stage.
    WrongStage,
    /// The game has ended; no further play is possible.
    GameOver,
}

} // verus!
