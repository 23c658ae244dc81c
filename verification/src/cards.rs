use vstd::prelude::*;
use vstd::string::StringExecFns;
use crate::suit::{Suit, suit_letter};
use crate::errors::GameError;

verus! {

/// A rank is valid when it falls in the standard range: 1 is the Ace,
/// 2 through 10 are the numeral cards, 11 to 13 are Jack, Queen, King.
pub open spec fn valid_rank(rank: usize) -> bool {
    1 <= rank <= 13
}

/// A playing card: nothing but its rank and suit, compared structurally.
#[derive(Debug, Copy, Clone, PartialEq, Eq, Structural)]
pub struct Card {
    pub rank: usize,
    pub suit: Suit,
}

/// The chips a card is worth: an Ace 11, a numeral card its rank, a face
/// card 10. (Outside the valid ranks the value is never used; the
/// executable entry point rejects such ranks instead.)
pub open spec fn chip_value_spec(card: Card) -> int {
    if card.rank == 1 {
        11
    } else if card.rank <= 10 {
        card.rank as int
    } else {
        10
    }
}

/// Every card is worth between 0 and 11 chips, valid ones at least 2.
pub proof fn lemma_chip_value_bounds(card: Card)
    ensures
        0 <= chip_value_spec(card) <= 11,
        valid_rank(card.rank) ==> 2 <= chip_value_spec(card) <= 11,
{
}

/// The chip value of a card, rejecting ranks outside 1..=13.
pub fn chip_value(card: &Card) -> (r: Result<usize, GameError>)
    ensures
        valid_rank(card.rank) ==> r == Ok::<usize, GameError>(chip_value_spec(*card) as usize),
        !valid_rank(card.rank) ==> r == Err::<usize, GameError>(GameError::InvalidRank),
{
    if card.rank < 1 || card.rank > 13 {
        Err(GameError::InvalidRank)
    } else if card.rank == 1 {
        Ok(11)
    } else if card.rank <= 10 {
        Ok(card.rank)
    } else {
        Ok(10)
    }
}

impl Card {
    /// Add this card's chip value to the running chip total.
    pub fn apply_chips(&self, current_chips: usize) -> (r: usize)
        requires
            valid_rank(self.rank),
            current_chips + 11 <= usize::MAX,
        ensures
            r == current_chips + chip_value_spec(*self),
    {
        if self.rank == 1 {
            current_chips + 11
        } else if self.rank <= 10 {
            current_chips + self.rank
        } else {
            current_chips + 10
        }
    }

    /// Cards leave the running multiplier unchanged in the base rules;
    /// the hook exists for future card enhancements.
    pub fn apply_mult(&self, current_mult: usize) -> (r: usize)
        ensures
            r == current_mult,
    {
        current_mult
    }

    /// The short text a card is rendered with, rank letter then suit letter.
    pub fn render(&self) -> (r: String)
        requires
            valid_rank(self.rank),
        ensures
            r@ == card_text(*self),
    {
        let mut s = if self.rank == 1 {
            String::from_str("A")
        } else if self.rank == 2 {
            String::from_str("2")
        } else if self.rank == 3 {
            String::from_str("3")
        } else if self.rank == 4 {
            String::from_str("4")
        } else if self.rank == 5 {
            String::from_str("5")
        } else if self.rank == 6 {
            String::from_str("6")
        } else if self.rank == 7 {
            String::from_str("7")
        } else if self.rank == 8 {
            String::from_str("8")
        } else if self.rank == 9 {
            String::from_str("9")
        } else if self.rank == 10 {
            String::from_str("10")
        } else if self.rank == 11 {
            String::from_str("J")
        } else if self.rank == 12 {
            String::from_str("Q")
        } else {
            String::from_str("K")
        };
        let letter = self.suit.letter();
        s.append(letter.as_str());
        s
    }
}

/// The text a rank is rendered with: A for the Ace, the numeral for 2..=10,
/// J, Q, K for the face cards.
pub open spec fn rank_text(rank: usize) -> Seq<char> {
    if rank == 1 {
        "A"@
    } else if rank == 2 {
        "2"@
    } else if rank == 3 {
        "3"@
    } else if rank == 4 {
        "4"@
    } else if rank == 5 {
        "5"@
    } else if rank == 6 {
        "6"@
    } else if rank == 7 {
        "7"@
    } else if rank == 8 {
        "8"@
    } else if rank == 9 {
        "9"@
    } else if rank == 10 {
        "10"@
    } else if rank == 11 {
        "J"@
    } else if rank == 12 {
        "Q"@
    } else {
        "K"@
    }
}

/// The text a card is rendered with.
pub open spec fn card_text(c: Card) -> Seq<char> {
    rank_text(c.rank) + suit_letter(c.suit)
}

/// Every card of the sequence has a valid rank.
pub open spec fn cards_wf(cards: Seq<Card>) -> bool {
    forall|i: int| 0 <= i < cards.len() ==> valid_rank(#[trigger] cards[i].rank)
}

/// The card texts joined with a comma between each pair.
pub open spec fn cards_join(cards: Seq<Card>) -> Seq<char>
    decreases cards.len(),
{
    if cards.len() == 0 {
        Seq::empty()
    } else if cards.len() == 1 {
        card_text(cards[0])
    } else {
        cards_join(cards.drop_last()) + ", "@ + card_text(cards.last())
    }
}

/// Render a whole hand as a bracketed, comma-separated list.
pub fn format_cards(cards: &Vec<Card>) -> (r: String)
    requires
        cards_wf(cards@),
    ensures
        r@ == "["@ + cards_join(cards@) + "]"@,
{
    let mut s = String::from_str("[");
    proof {
        assert(s@ =~= "["@ + cards_join(cards@.take(0)));
    }
    let mut i: usize = 0;
    while i < cards.len()
        invariant
            cards_wf(cards@),
            i <= cards@.len(),
            s@ == "["@ + cards_join(cards@.take(i as int)),
        decreases cards@.len() - i,
    {
        if i > 0 {
            s.append(", ");
        }
        let t = cards[i].render();
        s.append(t.as_str());
        proof {
            assert(cards@.take(i + 1).drop_last() =~= cards@.take(i as int));
            assert(cards@.take(i + 1).last() == cards@[i as int]);
            assert(s@ =~= "["@ + cards_join(cards@.take(i + 1)));
        }
        i += 1;
    }
    proof {
        assert(cards@.take(cards@.len() as int) =~= cards@);
    }
    s.append("]");
    s
}

/// The thirteen cards of one suit, Ace first.
pub open spec fn suit_run(s: Suit) -> Seq<Card> {
    Seq::new(13, |i: int| Card { rank: (i + 1) as usize, suit: s })
}

/// The full 52-card deck in construction order.
pub open spec fn standard_deck() -> Seq<Card> {
    suit_run(Suit::Hearts) + suit_run(Suit::Diamonds) + suit_run(Suit::Clubs) + suit_run(
        Suit::Spades,
    )
}

/// The standard deck holds 52 cards of valid rank, no two alike, and
/// every valid (rank, suit) pair appears.
pub proof fn lemma_standard_deck_ok()
    ensures
        standard_deck().len() == 52,
        standard_deck().no_duplicates(),
        forall|i: int| 0 <= i < 52 ==> valid_rank(#[trigger] standard_deck()[i].rank),
        forall|c: Card| valid_rank(c.rank) ==> standard_deck().contains(c),
{
    assert forall|i: int| 0 <= i < 52 implies valid_rank(#[trigger] standard_deck()[i].rank) by {
        deck_entry(i);
    }
    assert forall|i: int, j: int|
        0 <= i < 52 && 0 <= j < 52 && i != j implies standard_deck()[i] != standard_deck()[j] by {
        deck_entry(i);
        deck_entry(j);
    }
    assert forall|c: Card| valid_rank(c.rank) implies standard_deck().contains(c) by {
        let base: int = match c.suit {
            Suit::Hearts => 0,
            Suit::Diamonds => 1,
            Suit::Clubs => 2,
            Suit::Spades => 3,
        };
        let idx = base * 13 + c.rank - 1;
        deck_entry(idx);
        assert(standard_deck()[idx] == c);
    }
}

/// What stands at each index of the standard deck.
proof fn deck_entry(i: int)
    requires
        0 <= i < 52,
    ensures
        0 <= i < 13 ==> standard_deck()[i] == (Card { rank: (i + 1) as usize, suit: Suit::Hearts }),
        13 <= i < 26 ==> standard_deck()[i] == (Card {
            rank: (i - 12) as usize,
            suit: Suit::Diamonds,
        }),
        26 <= i < 39 ==> standard_deck()[i] == (Card {
            rank: (i - 25) as usize,
            suit: Suit::Clubs,
        }),
        39 <= i < 52 ==> standard_deck()[i] == (Card {
            rank: (i - 38) as usize,
            suit: Suit::Spades,
        }),
{
}

/// Append the thirteen cards of one suit to a deck being built.
fn push_suit_run(deck: &mut Vec<Card>, suit: Suit)
    requires
        old(deck)@.len() <= 100,
    ensures
        final(deck)@ == old(deck)@ + suit_run(suit),
{
    let mut r: usize = 1;
    while r <= 13
        invariant
            1 <= r <= 14,
            deck@ == old(deck)@ + suit_run(suit).take(r - 1),
        decreases 14 - r,
    {
        deck.push(Card { rank: r, suit });
        proof {
            assert(suit_run(suit).take(r as int) =~= suit_run(suit).take(r - 1).push(
                Card { rank: r, suit },
            ));
            assert(deck@ =~= old(deck)@ + suit_run(suit).take(r as int));
        }
        r += 1;
    }
    proof {
        assert(deck@ =~= old(deck)@ + suit_run(suit));
    }
}

/// Build the full deck: one card for every rank and suit, 52 in all,
/// each (rank, suit) pair appearing exactly once.
pub fn build_standard_deck() -> (deck: Vec<Card>)
    ensures
        deck@ == standard_deck(),
        deck@.len() == 52,
        deck@.no_duplicates(),
{
    let mut deck: Vec<Card> = Vec::new();
    push_suit_run(&mut deck, Suit::Hearts);
    push_suit_run(&mut deck, Suit::Diamonds);
    push_suit_run(&mut deck, Suit::Clubs);
    push_suit_run(&mut deck, Suit::Spades);
    proof {
        assert(deck@ =~= standard_deck());
        lemma_standard_deck_ok();
    }
    deck
}

} // verus!
