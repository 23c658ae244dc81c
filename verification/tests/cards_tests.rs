use chipmult::cards::{Card, build_standard_deck, chip_value, format_cards};
use chipmult::errors::GameError;
use chipmult::suit::Suit;

fn card(rank: usize, suit: Suit) -> Card {
    Card { rank, suit }
}

#[test]
fn chip_value_all_valid_ranks() {
    let expected: [usize; 13] = [11, 2, 3, 4, 5, 6, 7, 8, 9, 10, 10, 10, 10];
    for rank in 1..=13usize {
        let c = card(rank, Suit::Spades);
        assert_eq!(chip_value(&c), Ok(expected[rank - 1]));
    }
}

#[test]
fn chip_value_invalid_ranks() {
    assert_eq!(chip_value(&card(0, Suit::Hearts)), Err(GameError::InvalidRank));
    assert_eq!(chip_value(&card(14, Suit::Hearts)), Err(GameError::InvalidRank));
    assert_eq!(chip_value(&card(100, Suit::Clubs)), Err(GameError::InvalidRank));
}

#[test]
fn apply_chips_adds_value() {
    assert_eq!(card(1, Suit::Spades).apply_chips(0), 11);
    assert_eq!(card(7, Suit::Hearts).apply_chips(5), 12);
    assert_eq!(card(13, Suit::Clubs).apply_chips(20), 30);
}

#[test]
fn apply_mult_is_identity() {
    assert_eq!(card(1, Suit::Spades).apply_mult(7), 7);
    assert_eq!(card(12, Suit::Diamonds).apply_mult(1), 1);
}

#[test]
fn standard_deck_has_52_unique_cards() {
    let deck = build_standard_deck();
    assert_eq!(deck.len(), 52);
    for i in 0..deck.len() {
        for j in 0..deck.len() {
            if i != j {
                assert_ne!(deck[i], deck[j]);
            }
        }
    }
}

#[test]
fn standard_deck_covers_every_pair() {
    let deck = build_standard_deck();
    for suit in [Suit::Spades, Suit::Hearts, Suit::Diamonds, Suit::Clubs] {
        for rank in 1..=13usize {
            assert!(deck.contains(&card(rank, suit)));
        }
    }
}

#[test]
fn render_cards() {
    assert_eq!(card(1, Suit::Spades).render(), "AS");
    assert_eq!(card(10, Suit::Hearts).render(), "10H");
    assert_eq!(card(11, Suit::Diamonds).render(), "JD");
    assert_eq!(card(12, Suit::Clubs).render(), "QC");
    assert_eq!(card(13, Suit::Spades).render(), "KS");
    assert_eq!(card(2, Suit::Hearts).render(), "2H");
}

#[test]
fn suit_letters() {
    assert_eq!(Suit::Spades.letter(), "S");
    assert_eq!(Suit::Hearts.letter(), "H");
    assert_eq!(Suit::Diamonds.letter(), "D");
    assert_eq!(Suit::Clubs.letter(), "C");
}

#[test]
fn format_cards_lists() {
    assert_eq!(format_cards(&vec![]), "[]");
    assert_eq!(format_cards(&vec![card(1, Suit::Spades)]), "[AS]");
    assert_eq!(
        format_cards(&vec![card(1, Suit::Spades), card(10, Suit::Hearts), card(13, Suit::Clubs)]),
        "[AS, 10H, KC]"
    );
}
