use chipmult::cards::Card;
use chipmult::errors::GameError;
use chipmult::game::GameState;
use chipmult::game_stage::GameStage;
use chipmult::jokers::{Joker, JokerKind};
use chipmult::modifiers::JokerEdition;
use chipmult::suit::Suit;

fn card(rank: usize, suit: Suit) -> Card {
    Card { rank, suit }
}

fn mult4() -> Joker {
    Joker { kind: JokerKind::Mult4, edition: JokerEdition::Base }
}

/// A playing state with a fixed hand and an empty draw pile, so that
/// every outcome is deterministic.
fn playing_state(hand: Vec<Card>, selected: Vec<Card>) -> GameState {
    let mut gs = GameState::new();
    gs.hand = hand;
    gs.played_hand = selected;
    gs.goal_chips = 10000;
    gs
}

#[test]
fn new_game_defaults() {
    let gs = GameState::new();
    assert_eq!(gs.money, 0);
    assert_eq!(gs.deck.len(), 52);
    assert_eq!(gs.hand.len(), 0);
    assert_eq!(gs.blind, 1);
    assert_eq!(gs.ante, 1);
    assert_eq!(gs.hands, 4);
    assert_eq!(gs.discards, 4);
    assert_eq!(gs.draw_size, 8);
    assert_eq!(gs.max_jokers, 5);
    assert_eq!(gs.nr_jokers_in_shop, 2);
    assert_eq!(gs.game_stage, GameStage::Playing);
}

#[test]
fn goal_chips_formula() {
    let mut gs = GameState::new();
    assert_eq!(gs.calculate_goal_chips(), 300);
    gs.blind = 2;
    gs.ante = 3;
    assert_eq!(gs.calculate_goal_chips(), 1000);
    gs.blind = 0;
    gs.ante = 1;
    assert_eq!(gs.calculate_goal_chips(), 200);
}

#[test]
fn start_blind_deals_a_fresh_hand() {
    let mut gs = GameState::new();
    gs.start_blind();
    assert_eq!(gs.hand.len(), 8);
    assert_eq!(gs.blind_deck.len(), 44);
    assert_eq!(gs.played_hand.len(), 0);
    assert_eq!(gs.chips, 0);
    assert_eq!(gs.hands, 4);
    assert_eq!(gs.discards, 4);
    assert_eq!(gs.goal_chips, 300);
}

#[test]
fn drawn_cards_never_stay_in_the_pile() {
    let mut gs = GameState::new();
    gs.start_blind();
    for c in &gs.hand {
        assert!(!gs.blind_deck.contains(c));
    }
    // play a selection and redraw; the property must still hold
    gs.played_hand = vec![gs.hand[0]];
    assert_eq!(gs.play_hand(), Ok(()));
    for c in &gs.hand {
        assert!(!gs.blind_deck.contains(c));
    }
}

#[test]
fn start_turn_refills_and_resets() {
    let mut gs = GameState::new();
    gs.blind_deck = vec![card(2, Suit::Clubs)];
    gs.hand = vec![card(3, Suit::Hearts)];
    gs.hands = 1;
    gs.discards = 0;
    gs.start_turn();
    assert_eq!(gs.hand, vec![card(3, Suit::Hearts), card(2, Suit::Clubs)]);
    assert_eq!(gs.blind_deck.len(), 0);
    assert_eq!(gs.hands, 4);
    assert_eq!(gs.discards, 4);
    assert_eq!(gs.goal_chips, 300);
}

#[test]
fn draw_card_from_singleton_pile() {
    let mut gs = GameState::new();
    gs.blind_deck = vec![card(9, Suit::Diamonds)];
    assert_eq!(gs.draw_card(), Ok(card(9, Suit::Diamonds)));
    assert_eq!(gs.blind_deck.len(), 0);
}

#[test]
fn draw_card_from_empty_pile_fails() {
    let mut gs = GameState::new();
    assert_eq!(gs.draw_card(), Err(GameError::EmptyPile));
}

#[test]
fn toggle_selects_and_deselects() {
    let mut gs = playing_state(vec![card(1, Suit::Spades), card(13, Suit::Hearts)], vec![]);
    let before = gs.played_hand.clone();
    assert_eq!(gs.toggle_card_in_hand(0), Ok(()));
    assert_eq!(gs.played_hand, vec![card(1, Suit::Spades)]);
    assert_eq!(gs.toggle_card_in_hand(0), Ok(()));
    assert_eq!(gs.played_hand, before);
}

#[test]
fn toggle_out_of_range_fails() {
    let mut gs = playing_state(vec![card(1, Suit::Spades)], vec![]);
    assert_eq!(gs.toggle_card_in_hand(5), Err(GameError::NotInHand));
    assert_eq!(gs.played_hand.len(), 0);
}

#[test]
fn toggle_full_selection_fails() {
    let hand = vec![
        card(2, Suit::Spades),
        card(3, Suit::Spades),
        card(4, Suit::Spades),
        card(5, Suit::Spades),
        card(6, Suit::Spades),
        card(7, Suit::Spades),
    ];
    let selected = hand[0..5].to_vec();
    let mut gs = playing_state(hand, selected);
    assert_eq!(gs.toggle_card_in_hand(5), Err(GameError::SelectionFull));
    assert_eq!(gs.played_hand.len(), 5);
    // deselecting a selected card still works
    assert_eq!(gs.toggle_card_in_hand(0), Ok(()));
    assert_eq!(gs.played_hand.len(), 4);
}

#[test]
fn empty_play_fails_and_changes_nothing() {
    let mut gs = playing_state(vec![card(1, Suit::Spades)], vec![]);
    let (money, chips, hands, hand, stage) =
        (gs.money, gs.chips, gs.hands, gs.hand.clone(), gs.game_stage);
    assert_eq!(gs.play_hand(), Err(GameError::EmptyPlay));
    assert_eq!(gs.money, money);
    assert_eq!(gs.chips, chips);
    assert_eq!(gs.hands, hands);
    assert_eq!(gs.hand, hand);
    assert_eq!(gs.game_stage, stage);
}

#[test]
fn winning_a_blind_pays_and_advances_the_tier() {
    let hand = vec![card(13, Suit::Spades), card(13, Suit::Hearts)];
    let mut gs = playing_state(hand.clone(), hand);
    gs.jokers = vec![mult4()];
    gs.blind = 0;
    gs.goal_chips = 100;
    // chips 10 + 10 = 20, mult 1 + 4 = 5, score 100 >= 100
    assert_eq!(gs.play_hand(), Ok(()));
    assert_eq!(gs.chips, 100);
    assert_eq!(gs.hands, 3);
    assert_eq!(gs.money, 4 + 3);
    assert_eq!(gs.blind, 1);
    assert_eq!(gs.ante, 1);
    assert_eq!(gs.game_stage, GameStage::Shop);
}

#[test]
fn winning_the_second_tier_pays_five() {
    let hand = vec![card(13, Suit::Spades), card(13, Suit::Hearts)];
    let mut gs = playing_state(hand.clone(), hand);
    gs.jokers = vec![mult4()];
    gs.blind = 1;
    gs.goal_chips = 100;
    gs.hands = 2;
    assert_eq!(gs.play_hand(), Ok(()));
    assert_eq!(gs.money, 5 + 1);
    assert_eq!(gs.blind, 2);
    assert_eq!(gs.ante, 1);
    assert_eq!(gs.game_stage, GameStage::Shop);
}

#[test]
fn winning_the_third_tier_wraps_into_the_next_ante() {
    let hand = vec![card(13, Suit::Spades), card(13, Suit::Hearts)];
    let mut gs = playing_state(hand.clone(), hand);
    gs.jokers = vec![mult4()];
    gs.blind = 2;
    gs.goal_chips = 100;
    assert_eq!(gs.play_hand(), Ok(()));
    assert_eq!(gs.money, 6 + 3);
    assert_eq!(gs.blind, 0);
    assert_eq!(gs.ante, 2);
    assert_eq!(gs.game_stage, GameStage::Shop);
}

#[test]
fn losing_play_removes_cards_and_redraws() {
    let mut gs = playing_state(
        vec![card(2, Suit::Spades), card(3, Suit::Hearts)],
        vec![card(2, Suit::Spades)],
    );
    gs.blind_deck = vec![card(4, Suit::Clubs)];
    assert_eq!(gs.play_hand(), Ok(()));
    assert_eq!(gs.chips, 2);
    assert_eq!(gs.hands, 3);
    assert_eq!(gs.played_hand.len(), 0);
    assert_eq!(gs.hand, vec![card(3, Suit::Hearts), card(4, Suit::Clubs)]);
    assert_eq!(gs.blind_deck.len(), 0);
    assert_eq!(gs.game_stage, GameStage::Playing);
}

#[test]
fn exhausting_hands_ends_the_game() {
    let mut gs = playing_state(vec![card(2, Suit::Spades)], vec![card(2, Suit::Spades)]);
    gs.hands = 1;
    assert_eq!(gs.play_hand(), Err(GameError::GameOver));
    assert_eq!(gs.game_stage, GameStage::GameOver);
    assert_eq!(gs.hands, 0);
    assert_eq!(gs.chips, 2);
}

#[test]
fn no_action_is_legal_after_game_over() {
    let mut gs = playing_state(vec![card(2, Suit::Spades)], vec![card(2, Suit::Spades)]);
    gs.hands = 1;
    assert_eq!(gs.play_hand(), Err(GameError::GameOver));
    let (chips, hands, hand) = (gs.chips, gs.hands, gs.hand.clone());
    assert_eq!(gs.play_hand(), Err(GameError::GameOver));
    assert_eq!(gs.discard_selected(), Err(GameError::GameOver));
    assert_eq!(gs.toggle_card_in_hand(0), Err(GameError::GameOver));
    assert_eq!(gs.buy(0), Err(GameError::GameOver));
    assert_eq!(gs.sell(0), Err(GameError::GameOver));
    assert_eq!(gs.exit_shop(), Err(GameError::GameOver));
    assert_eq!(gs.chips, chips);
    assert_eq!(gs.hands, hands);
    assert_eq!(gs.hand, hand);
    assert_eq!(gs.game_stage, GameStage::GameOver);
}

#[test]
fn discard_spends_a_discard_and_redraws() {
    let mut gs = playing_state(
        vec![card(2, Suit::Spades), card(3, Suit::Hearts)],
        vec![card(2, Suit::Spades)],
    );
    gs.blind_deck = vec![card(4, Suit::Clubs)];
    assert_eq!(gs.discard_selected(), Ok(()));
    assert_eq!(gs.discards, 3);
    assert_eq!(gs.chips, 0);
    assert_eq!(gs.hands, 4);
    assert_eq!(gs.played_hand.len(), 0);
    assert_eq!(gs.hand, vec![card(3, Suit::Hearts), card(4, Suit::Clubs)]);
}

#[test]
fn discard_without_budget_fails() {
    let mut gs = playing_state(vec![card(2, Suit::Spades)], vec![card(2, Suit::Spades)]);
    gs.discards = 0;
    assert_eq!(gs.discard_selected(), Err(GameError::NoDiscardsLeft));
    assert_eq!(gs.hand.len(), 1);
    assert_eq!(gs.played_hand.len(), 1);
}

#[test]
fn discard_with_empty_selection_fails() {
    let mut gs = playing_state(vec![card(2, Suit::Spades)], vec![]);
    assert_eq!(gs.discard_selected(), Err(GameError::EmptyPlay));
    assert_eq!(gs.discards, 4);
}

#[test]
fn play_in_shop_stage_fails() {
    let mut gs = playing_state(vec![card(2, Suit::Spades)], vec![card(2, Suit::Spades)]);
    gs.game_stage = GameStage::Shop;
    assert_eq!(gs.play_hand(), Err(GameError::WrongStage));
    assert_eq!(gs.toggle_card_in_hand(0), Err(GameError::WrongStage));
    assert_eq!(gs.discard_selected(), Err(GameError::WrongStage));
}

#[test]
fn shop_is_populated_from_the_catalog() {
    let mut gs = GameState::new();
    gs.game_stage = GameStage::Shop;
    gs.start_shop();
    assert_eq!(gs.jokers_to_buy, vec![mult4(), mult4()]);
}

#[test]
fn buying_without_funds_changes_nothing() {
    let mut gs = GameState::new();
    gs.game_stage = GameStage::Shop;
    gs.jokers_to_buy = vec![mult4()];
    gs.money = 3;
    assert_eq!(gs.buy(0), Err(GameError::InsufficientFunds));
    assert_eq!(gs.money, 3);
    assert_eq!(gs.jokers_to_buy, vec![mult4()]);
    assert_eq!(gs.jokers.len(), 0);
}

#[test]
fn buying_takes_the_offer_and_the_money() {
    let mut gs = GameState::new();
    gs.game_stage = GameStage::Shop;
    gs.jokers_to_buy = vec![mult4()];
    gs.money = 10;
    assert_eq!(gs.buy(0), Ok(()));
    assert_eq!(gs.money, 6);
    assert_eq!(gs.jokers_to_buy.len(), 0);
    assert_eq!(gs.jokers, vec![mult4()]);
}

#[test]
fn buying_past_capacity_fails() {
    let mut gs = GameState::new();
    gs.game_stage = GameStage::Shop;
    gs.jokers = vec![mult4(); 5];
    gs.jokers_to_buy = vec![mult4()];
    gs.money = 10;
    assert_eq!(gs.buy(0), Err(GameError::ModifierCapacityExceeded));
    assert_eq!(gs.money, 10);
    assert_eq!(gs.jokers.len(), 5);
    assert_eq!(gs.jokers_to_buy.len(), 1);
}

#[test]
fn buying_a_missing_offer_fails() {
    let mut gs = GameState::new();
    gs.game_stage = GameStage::Shop;
    gs.jokers_to_buy = vec![mult4()];
    gs.money = 10;
    assert_eq!(gs.buy(1), Err(GameError::IndexOutOfRange));
}

#[test]
fn selling_returns_the_cost() {
    let mut gs = GameState::new();
    gs.game_stage = GameStage::Shop;
    gs.jokers = vec![mult4()];
    assert_eq!(gs.sell(0), Ok(()));
    assert_eq!(gs.money, 4);
    assert_eq!(gs.jokers.len(), 0);
    assert_eq!(gs.sell(0), Err(GameError::IndexOutOfRange));
}

#[test]
fn shop_actions_fail_during_play() {
    let mut gs = GameState::new();
    gs.jokers_to_buy = vec![mult4()];
    gs.money = 10;
    assert_eq!(gs.buy(0), Err(GameError::WrongStage));
    assert_eq!(gs.sell(0), Err(GameError::WrongStage));
    assert_eq!(gs.exit_shop(), Err(GameError::WrongStage));
}

#[test]
fn leaving_the_shop_starts_the_next_blind() {
    let mut gs = GameState::new();
    gs.game_stage = GameStage::Shop;
    gs.chips = 400;
    gs.blind = 2;
    gs.ante = 1;
    assert_eq!(gs.exit_shop(), Ok(()));
    assert_eq!(gs.game_stage, GameStage::Playing);
    assert_eq!(gs.chips, 0);
    assert_eq!(gs.hand.len(), 8);
    assert_eq!(gs.blind_deck.len(), 44);
    assert_eq!(gs.goal_chips, 400);
    assert_eq!(gs.hands, 4);
    assert_eq!(gs.discards, 4);
}

#[test]
fn add_joker_appends() {
    let mut gs = GameState::new();
    gs.add_joker(mult4());
    gs.add_joker(mult4());
    assert_eq!(gs.jokers, vec![mult4(), mult4()]);
}

#[test]
fn game_over_sets_the_terminal_stage() {
    let mut gs = GameState::new();
    gs.game_over();
    assert_eq!(gs.game_stage, GameStage::GameOver);
}

#[test]
fn calculate_score_uses_selection_and_jokers() {
    let mut gs = GameState::new();
    gs.played_hand = vec![card(13, Suit::Spades), card(13, Suit::Hearts)];
    gs.jokers = vec![mult4()];
    assert_eq!(gs.calculate_score(), 100);
}
