use vstd::prelude::*;
use vstd::string::StringExecFns;

verus! {

/// The four French suits of a standard deck.
#[derive(Debug, Copy, Clone, Eq, PartialEq, Structural)]
pub enum Suit {
    Spades,
    Hearts,
    Diamonds,
    Clubs,
}

/// The one-letter abbreviation a suit is rendered with.
pub open spec fn suit_letter(s: Suit) -> Seq<char> {
    match s {
        Suit::Spades => "S"@,
        Suit::Hearts => "H"@,
        Suit::Diamonds => "D"@,
        Suit::Clubs => "C"@,
    }
}

impl Suit {
    /// The one-letter text for this suit, used when rendering cards.
    pub fn letter(&self) -> (r: String)
        ensures
            r@ == suit_letter(*self),
    {
        match self {
            Suit::Spades => String::from_str("S"),
            Suit::Hearts => String::from_str("H"),
            Suit::Diamonds => String::from_str("D"),
            Suit::Clubs => String::from_str("C"),
        }
    }
}

} // verus!
