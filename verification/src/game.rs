use vstd::prelude::*;
use rand::Rng;
use crate::cards::{Card, cards_wf, build_standard_deck, standard_deck, lemma_standard_deck_ok};
use crate::errors::GameError;
use crate::game_stage::GameStage;
use crate::hand::{
    remove_card, remove_cards, spec_toggle, lemma_seq_remove_props, lemma_first_index_at,
    lemma_disjoint_subset, lemma_cards_wf_subset,
};
use crate::jokers::{Joker, joker_cost, catalog, all_jokers, lemma_joker_bonus_bounds};
use crate::scoring::{score_of, compute_score, lemma_score_bounds, SCORE_CAP};

verus! {

/// At most this many cards may be selected for one play.
pub const MAX_SELECTED: usize = 5;

/// The ante never grows past this bound, which keeps the goal formula far
/// below any machine limit.
pub const MAX_ANTE: usize = 1000000;

/// No goal exceeds this: the goal formula at the largest ante and tier.
pub const GOAL_CAP: usize = 300000100;

/// Money stays at or below this bound, so payouts and sales stay far
/// below any machine limit.
pub const MONEY_CAP: i32 = 1000000000;

/// The chip goal of a blind: tier and ante drive a staircase curve.
pub open spec fn spec_goal_chips(blind: int, ante: int) -> int {
    (blind + ante * 3 - 1) * 100
}

/// The base payout of a won blind at each tier.
pub open spec fn blind_base(blind: int) -> int {
    if blind == 0 {
        4
    } else if blind == 1 {
        5
    } else {
        6
    }
}

/// The goal of any reachable blind lies between 200 and `GOAL_CAP`.
pub proof fn lemma_goal_bounds(blind: int, ante: int)
    requires
        0 <= blind <= 2,
        1 <= ante <= MAX_ANTE as int,
    ensures
        200 <= spec_goal_chips(blind, ante) <= GOAL_CAP as int,
{
    assert(200 <= (blind + ante * 3 - 1) * 100 <= 300000100) by (nonlinear_arith)
        requires
            0 <= blind <= 2,
            1 <= ante <= 1000000,
    ;
}

/// How a redraw relates the hand and the draw pile: the old hand stays as
/// a prefix, every drawn card comes from the old pile and every remaining
/// pile card was already there, the counts balance, and drawing stops at
/// the draw size or an empty pile.
pub open spec fn drew_up(
    h0: Seq<Card>,
    d0: Seq<Card>,
    h1: Seq<Card>,
    d1: Seq<Card>,
    draw_size: int,
) -> bool {
    &&& h1.take(h0.len() as int) == h0
    &&& h1.len() >= h0.len()
    &&& (h0.len() >= draw_size ==> h1 == h0 && d1 == d0)
    &&& (h0.len() < draw_size ==> h1.len() == vstd::math::min(draw_size, h0.len() + d0.len() as int))
    &&& d1.len() == d0.len() - (h1.len() - h0.len())
    &&& (forall|i: int| h0.len() <= i < h1.len() ==> d0.contains(#[trigger] h1[i]))
    &&& (forall|i: int| 0 <= i < d1.len() ==> d0.contains(#[trigger] d1[i]))
}

/// The whole state of one game session.
pub struct GameState {
    pub money: i32,
    pub jokers: Vec<Joker>,
    pub hand: Vec<Card>,
    pub played_hand: Vec<Card>,
    pub deck: Vec<Card>,
    pub blind_deck: Vec<Card>,
    pub draw_size: usize,
    pub goal_chips: usize,
    pub blind: usize,
    pub ante: usize,
    pub chips: usize,
    pub total_hands: usize,
    pub total_discards: usize,
    pub hands: usize,
    pub discards: usize,
    pub game_stage: GameStage,
    pub nr_jokers_in_shop: usize,
    pub jokers_to_buy: Vec<Joker>,
    pub max_jokers: usize,
}

impl GameState {
    /// The invariant every operation preserves: the deck is the standard
    /// 52, the draw pile and the hand never share a card or repeat one,
    /// the selection is a small duplicate-free part of the hand, the
    /// budgets and counters respect their bounds, and while a blind is
    /// being played at least one hand is left and the scored chips stay
    /// below the goal cap.
    pub open spec fn wf(self) -> bool {
        &&& self.deck@ == standard_deck()
        &&& self.blind_deck@.no_duplicates()
        &&& cards_wf(self.blind_deck@)
        &&& self.hand@.no_duplicates()
        &&& cards_wf(self.hand@)
        &&& self.blind_deck@.disjoint(self.hand@)
        &&& self.played_hand@.no_duplicates()
        &&& cards_wf(self.played_hand@)
        &&& (forall|i: int|
            0 <= i < self.played_hand@.len() ==> self.hand@.contains(
                #[trigger] self.played_hand@[i],
            ))
        &&& self.played_hand@.len() <= MAX_SELECTED
        &&& self.jokers@.len() <= self.max_jokers
        &&& self.max_jokers <= 64
        &&& 1 <= self.ante <= MAX_ANTE
        &&& self.blind <= 2
        &&& 1 <= self.total_hands <= 16
        &&& self.hands <= self.total_hands
        &&& self.total_discards <= 16
        &&& self.discards <= self.total_discards
        &&& self.draw_size <= 16
        &&& self.nr_jokers_in_shop <= 16
        &&& self.goal_chips <= GOAL_CAP
        &&& self.money >= 0
        &&& (self.game_stage == GameStage::Playing ==> 1 <= self.hands && self.chips <= GOAL_CAP)
    }

    /// A fresh session: no money, no jokers, an untouched standard deck,
    /// default budgets, ready for its first blind.
    pub fn new() -> (r: GameState)
        ensures
            r.wf(),
            r.money == 0,
            r.jokers@ =~= Seq::<Joker>::empty(),
            r.hand@ =~= Seq::<Card>::empty(),
            r.played_hand@ =~= Seq::<Card>::empty(),
            r.deck@ == standard_deck(),
            r.blind_deck@ =~= Seq::<Card>::empty(),
            r.draw_size == 8,
            r.goal_chips == 0,
            r.blind == 1,
            r.ante == 1,
            r.chips == 0,
            r.total_hands == 4,
            r.hands == 4,
            r.total_discards == 4,
            r.discards == 4,
            r.game_stage == GameStage::Playing,
            r.nr_jokers_in_shop == 2,
            r.jokers_to_buy@ =~= Seq::<Joker>::empty(),
            r.max_jokers == 5,
    {
        let deck = build_standard_deck();
        let r = GameState {
            money: 0,
            jokers: Vec::new(),
            hand: Vec::new(),
            played_hand: Vec::new(),
            deck,
            blind_deck: Vec::new(),
            draw_size: 8,
            goal_chips: 0,
            blind: 1,
            ante: 1,
            chips: 0,
            total_hands: 4,
            total_discards: 4,
            hands: 4,
            discards: 4,
            game_stage: GameStage::Playing,
            nr_jokers_in_shop: 2,
            jokers_to_buy: Vec::new(),
            max_jokers: 5,
        };
        r
    }

    /// The chip goal of the current blind.
    pub fn calculate_goal_chips(&self) -> (r: usize)
        requires
            self.blind <= 2,
            1 <= self.ante <= MAX_ANTE,
        ensures
            r == spec_goal_chips(self.blind as int, self.ante as int),
            200 <= r <= GOAL_CAP,
    {
        proof {
            lemma_goal_bounds(self.blind as int, self.ante as int);
        }
        (self.blind + self.ante * 3 - 1) * 100
    }

    /// Score the selection under the owned jokers.
    pub fn calculate_score(&self) -> (r: usize)
        requires
            cards_wf(self.played_hand@),
            self.played_hand@.len() <= 16,
            self.jokers@.len() <= 64,
        ensures
            r == score_of(self.played_hand@, self.jokers@),
            r <= SCORE_CAP,
    {
        compute_score(&self.played_hand, &self.jokers)
    }

    /// End the session: enter the terminal stage from which no action is
    /// legal any more.
    pub fn game_over(&mut self)
        ensures
            final(self).game_stage == GameStage::GameOver,
            *final(self) == (GameState { game_stage: GameStage::GameOver, ..*old(self) }),
            old(self).wf() ==> final(self).wf(),
    {
        self.game_stage = GameStage::GameOver;
    }

    /// Put a joker into the owned row; the row must have a free slot.
    pub fn add_joker(&mut self, joker: Joker)
        requires
            old(self).jokers@.len() < old(self).max_jokers,
        ensures
            final(self).jokers@ == old(self).jokers@.push(joker),
            *final(self) == (GameState { jokers: final(self).jokers, ..*old(self) }),
            old(self).wf() ==> final(self).wf(),
    {
        self.jokers.push(joker);
    }

    /// Draw one uniformly random card from the draw pile. Which card
    /// leaves is chance; that exactly one leaves the pile and is handed
    /// back is not.
    pub fn draw_card(&mut self) -> (r: Result<Card, GameError>)
        ensures
            *final(self) == (GameState { blind_deck: final(self).blind_deck, ..*old(self) }),
            old(self).blind_deck@.len() == 0 ==> r == Err::<Card, GameError>(GameError::EmptyPile)
                && *final(self) == *old(self),
            old(self).blind_deck@.len() > 0 ==> match r {
                Ok(c) => exists|i: int|
                    0 <= i < old(self).blind_deck@.len() && c == old(self).blind_deck@[i]
                        && final(self).blind_deck@ == old(self).blind_deck@.remove(i),
                Err(_) => false,
            },
    {
        if self.blind_deck.len() == 0 {
            return Err(GameError::EmptyPile);
        }
        let i = random_below(self.blind_deck.len());
        let c = self.blind_deck.remove(i);
        Ok(c)
    }
    /// Draw until the hand holds `draw_size` cards or the pile is empty.
    fn fill_hand(&mut self)
        requires
            old(self).wf(),
        ensures
            final(self).wf(),
            *final(self) == (GameState {
                hand: final(self).hand,
                blind_deck: final(self).blind_deck,
                ..*old(self)
            }),
            drew_up(
                old(self).hand@,
                old(self).blind_deck@,
                final(self).hand@,
                final(self).blind_deck@,
                old(self).draw_size as int,
            ),
    {
        let ghost h0 = old(self).hand@;
        let ghost d0 = old(self).blind_deck@;
        while self.hand.len() < self.draw_size && self.blind_deck.len() > 0
            invariant
                self.wf(),
                *self == (GameState { hand: self.hand, blind_deck: self.blind_deck, ..*old(self) }),
                h0 == old(self).hand@,
                d0 == old(self).blind_deck@,
                self.hand@.take(h0.len() as int) == h0,
                self.hand@.len() >= h0.len(),
                self.hand@.len() <= vstd::math::max(h0.len() as int, self.draw_size as int),
                self.blind_deck@.len() == d0.len() - (self.hand@.len() - h0.len()),
                self.hand@.len() == h0.len() ==> self.blind_deck@ == d0,
                forall|i: int| h0.len() <= i < self.hand@.len() ==> d0.contains(#[trigger] self.hand@[i]),
                forall|i: int| 0 <= i < self.blind_deck@.len() ==> d0.contains(#[trigger] self.blind_deck@[i]),
            decreases self.blind_deck@.len(),
        {
            let ghost dpre = self.blind_deck@;
            let ghost hpre = self.hand@;
            let r = self.draw_card();
            match r {
                Ok(c) => {
                    proof {
                        let i = choose|i: int|
                            0 <= i < dpre.len() && c == dpre[i] && self.blind_deck@ == dpre.remove(
                                i,
                            );
                        lemma_seq_remove_props(dpre, i);
                        // the drawn card sat in the pile, so it is not in the hand
                        assert(dpre.disjoint(hpre));
                        assert(!hpre.contains(c)) by {
                            if hpre.contains(c) {
                                let k = choose|k: int| 0 <= k < hpre.len() && hpre[k] == c;
                                assert(dpre[i] != hpre[k]);
                            }
                        }
                    }
                    self.hand.push(c);
                    proof {
                        let i = choose|i: int|
                            0 <= i < dpre.len() && c == dpre[i] && self.blind_deck@ == dpre.remove(
                                i,
                            );
                        lemma_seq_remove_props(dpre, i);
                        assert(self.hand@.take(h0.len() as int) =~= hpre.take(h0.len() as int));
                        // the new hand stays duplicate-free and valid
                        assert(self.hand@.no_duplicates()) by {
                            assert(forall|k: int|
                                0 <= k < hpre.len() ==> self.hand@[k] == hpre[k]);
                        }
                        assert(cards_wf(self.hand@));
                        // pile and hand stay disjoint: the drawn card left the pile
                        assert(self.blind_deck@.disjoint(self.hand@)) by {
                            assert forall|a: int, b: int|
                                0 <= a < self.blind_deck@.len() && 0 <= b
                                    < self.hand@.len() implies self.blind_deck@[a]
                                != self.hand@[b] by {
                                if b < hpre.len() {
                                    assert(dpre.disjoint(hpre));
                                    assert(self.blind_deck@.contains(self.blind_deck@[a]));
                                    let a2 = choose|a2: int|
                                        0 <= a2 < dpre.len() && dpre[a2] == self.blind_deck@[a];
                                    assert(dpre[a2] != hpre[b]);
                                } else {
                                    assert(self.hand@[b] == c);
                                    assert(!self.blind_deck@.contains(c));
                                    if self.blind_deck@[a] == c {
                                        assert(self.blind_deck@.contains(c));
                                    }
                                }
                            }
                        }
                        // selection still sits inside the grown hand
                        assert(forall|i2: int|
                            0 <= i2 < self.played_hand@.len() ==> self.hand@.contains(
                                #[trigger] self.played_hand@[i2],
                            )) by {
                            assert forall|i2: int|
                                0 <= i2 < self.played_hand@.len() implies self.hand@.contains(
                                #[trigger] self.played_hand@[i2],
                            ) by {
                                assert(hpre.contains(self.played_hand@[i2]));
                                let k = choose|k: int|
                                    0 <= k < hpre.len() && hpre[k] == self.played_hand@[i2];
                                assert(self.hand@[k] == self.played_hand@[i2]);
                            }
                        }
                    }
                },
                Err(_) => {
                    proof {
                        assert(false);
                    }
                },
            }
        }
        proof {
            if h0.len() >= old(self).draw_size {
                assert(self.hand@.len() <= h0.len());
                assert(self.hand@ =~= h0);
            }
            assert(drew_up(h0, d0, self.hand@, self.blind_deck@, old(self).draw_size as int));
        }
    }

    /// Refill the hand from the pile, reset the hand and discard budgets,
    /// and recompute the goal from the current ante and tier.
    pub fn start_turn(&mut self)
        requires
            old(self).wf(),
        ensures
            final(self).wf(),
            *final(self) == (GameState {
                hand: final(self).hand,
                blind_deck: final(self).blind_deck,
                hands: final(self).hands,
                discards: final(self).discards,
                goal_chips: final(self).goal_chips,
                ..*old(self)
            }),
            drew_up(
                old(self).hand@,
                old(self).blind_deck@,
                final(self).hand@,
                final(self).blind_deck@,
                old(self).draw_size as int,
            ),
            final(self).hands == old(self).total_hands,
            final(self).discards == old(self).total_discards,
            final(self).goal_chips == spec_goal_chips(old(self).blind as int, old(self).ante as int),
    {
        self.fill_hand();
        self.hands = self.total_hands;
        self.discards = self.total_discards;
        self.goal_chips = self.calculate_goal_chips();
    }

    /// Start a blind: a fresh full draw pile, a cleared hand and
    /// selection, no chips scored yet, full budgets, the goal recomputed,
    /// and the opening draw of the hand.
    pub fn start_blind(&mut self)
        requires
            old(self).wf(),
        ensures
            final(self).wf(),
            *final(self) == (GameState {
                hand: final(self).hand,
                blind_deck: final(self).blind_deck,
                played_hand: final(self).played_hand,
                chips: final(self).chips,
                hands: final(self).hands,
                discards: final(self).discards,
                goal_chips: final(self).goal_chips,
                ..*old(self)
            }),
            final(self).played_hand@ =~= Seq::<Card>::empty(),
            final(self).chips == 0,
            final(self).hands == old(self).total_hands,
            final(self).discards == old(self).total_discards,
            final(self).goal_chips == spec_goal_chips(old(self).blind as int, old(self).ante as int),
            drew_up(
                Seq::<Card>::empty(),
                standard_deck(),
                final(self).hand@,
                final(self).blind_deck@,
                old(self).draw_size as int,
            ),
    {
        proof {
            lemma_standard_deck_ok();
        }
        self.blind_deck = copy_cards(&self.deck);
        self.played_hand = Vec::new();
        self.hand = Vec::new();
        self.chips = 0;
        self.start_turn();
    }
    /// Toggle the card at `index` of the hand in or out of the selection.
    /// A selected card leaves; an unselected one joins while fewer than
    /// `MAX_SELECTED` cards are selected. Only legal during play.
    pub fn toggle_card_in_hand(&mut self, index: usize) -> (r: Result<(), GameError>)
        requires
            old(self).wf(),
        ensures
            final(self).wf(),
            *final(self) == (GameState { played_hand: final(self).played_hand, ..*old(self) }),
            old(self).game_stage == GameStage::GameOver ==> r == Err::<(), GameError>(
                GameError::GameOver,
            ) && *final(self) == *old(self),
            old(self).game_stage == GameStage::Shop ==> r == Err::<(), GameError>(
                GameError::WrongStage,
            ) && *final(self) == *old(self),
            old(self).game_stage == GameStage::Playing && index >= old(self).hand@.len() ==> r
                == Err::<(), GameError>(GameError::NotInHand) && *final(self) == *old(self),
            old(self).game_stage == GameStage::Playing && index < old(self).hand@.len() && !old(
                self,
            ).played_hand@.contains(old(self).hand@[index as int]) && old(
                self,
            ).played_hand@.len() >= MAX_SELECTED ==> r == Err::<(), GameError>(
                GameError::SelectionFull,
            ) && *final(self) == *old(self),
            old(self).game_stage == GameStage::Playing && index < old(self).hand@.len() && (old(
                self,
            ).played_hand@.contains(old(self).hand@[index as int]) || old(
                self,
            ).played_hand@.len() < MAX_SELECTED) ==> r == Ok::<(), GameError>(())
                && final(self).played_hand@ == spec_toggle(
                old(self).played_hand@,
                old(self).hand@[index as int],
            ),
    {
        match self.game_stage {
            GameStage::GameOver => {
                return Err(GameError::GameOver);
            },
            GameStage::Shop => {
                return Err(GameError::WrongStage);
            },
            GameStage::Playing => {},
        }
        if index >= self.hand.len() {
            return Err(GameError::NotInHand);
        }
        let c = self.hand[index];
        let ghost p0 = self.played_hand@;
        let mut i: usize = 0;
        while i < self.played_hand.len()
            invariant
                *self == *old(self),
                old(self).wf(),
                old(self).game_stage == GameStage::Playing,
                index < old(self).hand@.len(),
                c == old(self).hand@[index as int],
                p0 == self.played_hand@,
                i <= p0.len(),
                forall|j: int| 0 <= j < i ==> p0[j] != c,
            decreases p0.len() - i,
        {
            if self.played_hand[i] == c {
                proof {
                    lemma_first_index_at(p0, c, i as int);
                    lemma_seq_remove_props(p0, i as int);
                }
                self.played_hand.remove(i);
                proof {
                    assert(self.played_hand@ == spec_toggle(p0, c));
                    lemma_cards_wf_subset(self.played_hand@, p0);
                    assert forall|i2: int|
                        0 <= i2 < self.played_hand@.len() implies self.hand@.contains(
                        #[trigger] self.played_hand@[i2],
                    ) by {
                        assert(self.played_hand@.contains(self.played_hand@[i2]));
                        let k = choose|k: int|
                            0 <= k < p0.len() && p0[k] == self.played_hand@[i2];
                    }
                }
                return Ok(());
            }
            i += 1;
        }
        if self.played_hand.len() >= MAX_SELECTED {
            return Err(GameError::SelectionFull);
        }
        self.played_hand.push(c);
        proof {
            assert(!p0.contains(c));
            assert(self.played_hand@ == spec_toggle(p0, c));
            assert(self.played_hand@.no_duplicates()) by {
                assert(forall|j: int| 0 <= j < p0.len() ==> self.played_hand@[j] == p0[j]);
            }
            assert(self.hand@.contains(c));
            assert forall|i2: int|
                0 <= i2 < self.played_hand@.len() implies self.hand@.contains(
                #[trigger] self.played_hand@[i2],
            ) by {
                if i2 < p0.len() {
                    assert(self.played_hand@[i2] == p0[i2]);
                } else {
                    assert(self.played_hand@[i2] == c);
                }
            }
        }
        Ok(())
    }

    /// Award the payout for a won blind, advance the tier — wrapping the
    /// third tier into the next ante — and move to the shop.
    pub fn finish_blind(&mut self)
        requires
            old(self).blind <= 2,
            1 <= old(self).ante < MAX_ANTE,
            old(self).hands <= 16,
            0 <= old(self).money <= MONEY_CAP,
        ensures
            *final(self) == (GameState {
                money: final(self).money,
                blind: final(self).blind,
                ante: final(self).ante,
                game_stage: final(self).game_stage,
                ..*old(self)
            }),
            final(self).money == old(self).money + blind_base(old(self).blind as int) + old(
                self,
            ).hands,
            old(self).blind == 2 ==> final(self).blind == 0 && final(self).ante == old(self).ante
                + 1,
            old(self).blind < 2 ==> final(self).blind == old(self).blind + 1 && final(self).ante
                == old(self).ante,
            final(self).game_stage == GameStage::Shop,
            old(self).wf() ==> final(self).wf(),
    {
        if self.blind == 0 {
            self.money = self.money + 4 + (self.hands as i32);
        } else if self.blind == 1 {
            self.money = self.money + 5 + (self.hands as i32);
        } else {
            self.money = self.money + 6 + (self.hands as i32);
        }
        self.blind = self.blind + 1;
        if self.blind == 3 {
            self.blind = 0;
            self.ante = self.ante + 1;
        }
        self.game_stage = GameStage::Shop;
    }

    /// Take every selected card out of the hand and clear the selection.
    fn remove_played_from_hand(&mut self)
        requires
            old(self).wf(),
        ensures
            final(self).wf(),
            *final(self) == (GameState {
                hand: final(self).hand,
                played_hand: final(self).played_hand,
                ..*old(self)
            }),
            final(self).played_hand@ =~= Seq::<Card>::empty(),
            final(self).hand@ == remove_cards(old(self).hand@, old(self).played_hand@),
            final(self).hand@.len() == old(self).hand@.len() - old(self).played_hand@.len(),
    {
        let ghost h0 = self.hand@;
        let ghost p0 = self.played_hand@;
        proof {
            assert(p0.skip(0) =~= p0);
        }
        let mut k: usize = 0;
        while k < self.played_hand.len()
            invariant
                *self == (GameState { hand: self.hand, ..*old(self) }),
                h0 == old(self).hand@,
                p0 == old(self).played_hand@,
                p0 == self.played_hand@,
                p0.no_duplicates(),
                k <= p0.len(),
                remove_cards(self.hand@, p0.skip(k as int)) == remove_cards(h0, p0),
                self.hand@.no_duplicates(),
                cards_wf(self.hand@),
                forall|x: Card| #[trigger] self.hand@.contains(x) ==> h0.contains(x),
                forall|j: int| k <= j < p0.len() ==> self.hand@.contains(#[trigger] p0[j]),
                self.hand@.len() == h0.len() - k,
            decreases p0.len() - k,
        {
            let c = self.played_hand[k];
            let hlen = self.hand.len();
            let ghost hpre = self.hand@;
            let ghost snap = *self;
            let mut pos: usize = 0;
            loop
                invariant
                    *self == snap,
                    self.hand@ == hpre,
                    hpre.len() == hlen,
                    hpre.contains(c),
                    pos <= hpre.len(),
                    forall|j: int| 0 <= j < pos ==> hpre[j] != c,
                ensures
                    *self == snap,
                    pos < hpre.len(),
                    hpre[pos as int] == c,
                    forall|j: int| 0 <= j < pos ==> hpre[j] != c,
                decreases hpre.len() - pos,
            {
                proof {
                    if pos >= hpre.len() {
                        let w = choose|w: int| 0 <= w < hpre.len() && hpre[w] == c;
                        assert(hpre[w] != c);
                    }
                }
                if self.hand[pos] == c {
                    break ;
                }
                pos += 1;
            }
            proof {
                lemma_first_index_at(hpre, c, pos as int);
                lemma_seq_remove_props(hpre, pos as int);
            }
            self.hand.remove(pos);
            proof {
                assert(self.hand@ == remove_card(hpre, c));
                assert(p0.skip(k as int)[0] == p0[k as int]);
                assert(p0.skip(k as int).drop_first() =~= p0.skip(k as int + 1));
                assert(remove_cards(hpre, p0.skip(k as int)) == remove_cards(
                    remove_card(hpre, p0[k as int]),
                    p0.skip(k as int + 1),
                ));
                lemma_cards_wf_subset(self.hand@, hpre);
                assert forall|x: Card| #[trigger] self.hand@.contains(x) implies h0.contains(
                    x,
                ) by {
                    assert(hpre.contains(x));
                }
                assert forall|j: int| k + 1 <= j < p0.len() implies self.hand@.contains(
                    #[trigger] p0[j],
                ) by {
                    assert(p0[j] != p0[k as int]);
                    assert(hpre.contains(p0[j]));
                }
            }
            k += 1;
        }
        proof {
            assert(p0.skip(p0.len() as int) =~= Seq::<Card>::empty());
            assert(remove_cards(self.hand@, Seq::<Card>::empty()) == self.hand@);
        }
        self.played_hand = Vec::new();
        proof {
            lemma_disjoint_subset(self.blind_deck@, h0, self.hand@);
        }
    }

    /// Play the selection: score it under the owned jokers, spend a hand,
    /// then either win the blind, run out of hands and lose, or replace
    /// the played cards and keep playing. Only legal during play, and
    /// never with an empty selection.
    pub fn play_hand(&mut self) -> (r: Result<(), GameError>)
        requires
            old(self).wf(),
            old(self).ante < MAX_ANTE,
            old(self).money <= MONEY_CAP,
        ensures
            final(self).wf(),
            old(self).game_stage == GameStage::GameOver ==> r == Err::<(), GameError>(
                GameError::GameOver,
            ) && *final(self) == *old(self),
            old(self).game_stage == GameStage::Shop ==> r == Err::<(), GameError>(
                GameError::WrongStage,
            ) && *final(self) == *old(self),
            old(self).game_stage == GameStage::Playing && old(self).played_hand@.len() == 0 ==> r
                == Err::<(), GameError>(GameError::EmptyPlay) && *final(self) == *old(self),
            // the blind is won: payout, tier advance, on to the shop
            old(self).game_stage == GameStage::Playing && old(self).played_hand@.len() > 0 && old(
                self,
            ).chips + score_of(old(self).played_hand@, old(self).jokers@) >= old(
                self,
            ).goal_chips ==> r == Ok::<(), GameError>(()) && *final(self) == (GameState {
                chips: final(self).chips,
                hands: final(self).hands,
                money: final(self).money,
                blind: final(self).blind,
                ante: final(self).ante,
                game_stage: final(self).game_stage,
                ..*old(self)
            }) && final(self).chips == old(self).chips + score_of(
                old(self).played_hand@,
                old(self).jokers@,
            ) && final(self).hands == old(self).hands - 1 && final(self).money == old(self).money
                + blind_base(old(self).blind as int) + (old(self).hands - 1) && (old(self).blind
                == 2 ==> final(self).blind == 0 && final(self).ante == old(self).ante + 1) && (old(
                self,
            ).blind < 2 ==> final(self).blind == old(self).blind + 1 && final(self).ante == old(
                self,
            ).ante) && final(self).game_stage == GameStage::Shop,
            // the last hand is spent short of the goal: the game ends
            old(self).game_stage == GameStage::Playing && old(self).played_hand@.len() > 0 && old(
                self,
            ).chips + score_of(old(self).played_hand@, old(self).jokers@) < old(self).goal_chips
                && old(self).hands == 1 ==> r == Err::<(), GameError>(GameError::GameOver)
                && *final(self) == (GameState {
                chips: final(self).chips,
                hands: final(self).hands,
                game_stage: final(self).game_stage,
                ..*old(self)
            }) && final(self).chips == old(self).chips + score_of(
                old(self).played_hand@,
                old(self).jokers@,
            ) && final(self).hands == 0 && final(self).game_stage == GameStage::GameOver,
            // short of the goal with hands to spare: replace and go on
            old(self).game_stage == GameStage::Playing && old(self).played_hand@.len() > 0 && old(
                self,
            ).chips + score_of(old(self).played_hand@, old(self).jokers@) < old(self).goal_chips
                && old(self).hands >= 2 ==> r == Ok::<(), GameError>(()) && *final(self)
                == (GameState {
                chips: final(self).chips,
                hands: final(self).hands,
                hand: final(self).hand,
                played_hand: final(self).played_hand,
                blind_deck: final(self).blind_deck,
                ..*old(self)
            }) && final(self).chips == old(self).chips + score_of(
                old(self).played_hand@,
                old(self).jokers@,
            ) && final(self).hands == old(self).hands - 1 && final(self).played_hand@
                =~= Seq::<Card>::empty() && drew_up(
                remove_cards(old(self).hand@, old(self).played_hand@),
                old(self).blind_deck@,
                final(self).hand@,
                final(self).blind_deck@,
                old(self).draw_size as int,
            ) && final(self).game_stage == GameStage::Playing,
    {
        match self.game_stage {
            GameStage::GameOver => {
                return Err(GameError::GameOver);
            },
            GameStage::Shop => {
                return Err(GameError::WrongStage);
            },
            GameStage::Playing => {},
        }
        if self.played_hand.len() == 0 {
            return Err(GameError::EmptyPlay);
        }
        proof {
            lemma_score_bounds(self.played_hand@, self.jokers@);
        }
        let score = self.calculate_score();
        self.chips = self.chips + score;
        self.hands = self.hands - 1;
        if self.chips >= self.goal_chips {
            self.finish_blind();
            return Ok(());
        }
        if self.hands == 0 {
            self.game_over();
            return Err(GameError::GameOver);
        }
        self.remove_played_from_hand();
        self.fill_hand();
        Ok(())
    }

    /// Discard the selection: the selected cards leave the hand without
    /// scoring, one discard is spent, and the hand is refilled. Only
    /// legal during play, with a discard left and a non-empty selection.
    pub fn discard_selected(&mut self) -> (r: Result<(), GameError>)
        requires
            old(self).wf(),
        ensures
            final(self).wf(),
            old(self).game_stage == GameStage::GameOver ==> r == Err::<(), GameError>(
                GameError::GameOver,
            ) && *final(self) == *old(self),
            old(self).game_stage == GameStage::Shop ==> r == Err::<(), GameError>(
                GameError::WrongStage,
            ) && *final(self) == *old(self),
            old(self).game_stage == GameStage::Playing && old(self).discards == 0 ==> r == Err::<
                (),
                GameError,
            >(GameError::NoDiscardsLeft) && *final(self) == *old(self),
            old(self).game_stage == GameStage::Playing && old(self).discards > 0 && old(
                self,
            ).played_hand@.len() == 0 ==> r == Err::<(), GameError>(GameError::EmptyPlay)
                && *final(self) == *old(self),
            old(self).game_stage == GameStage::Playing && old(self).discards > 0 && old(
                self,
            ).played_hand@.len() > 0 ==> r == Ok::<(), GameError>(()) && *final(self)
                == (GameState {
                discards: final(self).discards,
                hand: final(self).hand,
                played_hand: final(self).played_hand,
                blind_deck: final(self).blind_deck,
                ..*old(self)
            }) && final(self).discards == old(self).discards - 1 && final(self).played_hand@
                =~= Seq::<Card>::empty() && drew_up(
                remove_cards(old(self).hand@, old(self).played_hand@),
                old(self).blind_deck@,
                final(self).hand@,
                final(self).blind_deck@,
                old(self).draw_size as int,
            ),
    {
        match self.game_stage {
            GameStage::GameOver => {
                return Err(GameError::GameOver);
            },
            GameStage::Shop => {
                return Err(GameError::WrongStage);
            },
            GameStage::Playing => {},
        }
        if self.discards == 0 {
            return Err(GameError::NoDiscardsLeft);
        }
        if self.played_hand.len() == 0 {
            return Err(GameError::EmptyPlay);
        }
        self.discards = self.discards - 1;
        self.remove_played_from_hand();
        self.fill_hand();
        Ok(())
    }
    /// Enter the shop: regenerate the offers from the catalog.
    pub fn start_shop(&mut self)
        requires
            old(self).wf(),
        ensures
            final(self).wf(),
            *final(self) == (GameState { jokers_to_buy: final(self).jokers_to_buy, ..*old(self) }),
            final(self).jokers_to_buy@.len() == old(self).nr_jokers_in_shop,
            forall|i: int|
                0 <= i < final(self).jokers_to_buy@.len() ==> catalog().contains(
                    #[trigger] final(self).jokers_to_buy@[i],
                ),
    {
        self.populate_shop();
    }

    /// Fill the offer row with independent uniform-random catalog picks;
    /// the same joker may be offered twice.
    pub fn populate_shop(&mut self)
        requires
            old(self).wf(),
        ensures
            final(self).wf(),
            *final(self) == (GameState { jokers_to_buy: final(self).jokers_to_buy, ..*old(self) }),
            final(self).jokers_to_buy@.len() == old(self).nr_jokers_in_shop,
            forall|i: int|
                0 <= i < final(self).jokers_to_buy@.len() ==> catalog().contains(
                    #[trigger] final(self).jokers_to_buy@[i],
                ),
    {
        self.jokers_to_buy = Vec::new();
        let cat = all_jokers();
        let mut k: usize = 0;
        while k < self.nr_jokers_in_shop
            invariant
                old(self).wf(),
                *self == (GameState { jokers_to_buy: self.jokers_to_buy, ..*old(self) }),
                cat@ == catalog(),
                k <= self.nr_jokers_in_shop,
                self.jokers_to_buy@.len() == k,
                forall|i: int|
                    0 <= i < self.jokers_to_buy@.len() ==> catalog().contains(
                        #[trigger] self.jokers_to_buy@[i],
                    ),
            decreases self.nr_jokers_in_shop - k,
        {
            let idx = random_below(cat.len());
            let j = cat[idx];
            self.jokers_to_buy.push(j);
            proof {
                assert(catalog().contains(catalog()[idx as int]));
            }
            k += 1;
        }
    }

    /// Buy the offer at `index`: it must exist, be affordable, and fit in
    /// a free joker slot. The offer leaves the row, its cost leaves the
    /// money, and the joker joins the owned row. Only legal in the shop.
    pub fn buy(&mut self, index: usize) -> (r: Result<(), GameError>)
        requires
            old(self).wf(),
        ensures
            final(self).wf(),
            old(self).game_stage == GameStage::GameOver ==> r == Err::<(), GameError>(
                GameError::GameOver,
            ) && *final(self) == *old(self),
            old(self).game_stage == GameStage::Playing ==> r == Err::<(), GameError>(
                GameError::WrongStage,
            ) && *final(self) == *old(self),
            old(self).game_stage == GameStage::Shop && index >= old(self).jokers_to_buy@.len()
                ==> r == Err::<(), GameError>(GameError::IndexOutOfRange) && *final(self) == *old(
                self,
            ),
            old(self).game_stage == GameStage::Shop && index < old(self).jokers_to_buy@.len()
                && joker_cost(old(self).jokers_to_buy@[index as int]) > old(self).money ==> r
                == Err::<(), GameError>(GameError::InsufficientFunds) && *final(self) == *old(
                self,
            ),
            old(self).game_stage == GameStage::Shop && index < old(self).jokers_to_buy@.len()
                && joker_cost(old(self).jokers_to_buy@[index as int]) <= old(self).money && old(
                self,
            ).jokers@.len() >= old(self).max_jokers ==> r == Err::<(), GameError>(
                GameError::ModifierCapacityExceeded,
            ) && *final(self) == *old(self),
            old(self).game_stage == GameStage::Shop && index < old(self).jokers_to_buy@.len()
                && joker_cost(old(self).jokers_to_buy@[index as int]) <= old(self).money && old(
                self,
            ).jokers@.len() < old(self).max_jokers ==> r == Ok::<(), GameError>(()) && *final(self)
                == (GameState {
                jokers_to_buy: final(self).jokers_to_buy,
                money: final(self).money,
                jokers: final(self).jokers,
                ..*old(self)
            }) && final(self).jokers_to_buy@ == old(self).jokers_to_buy@.remove(index as int)
                && final(self).money == old(self).money - joker_cost(
                old(self).jokers_to_buy@[index as int],
            ) && final(self).jokers@ == old(self).jokers@.push(
                old(self).jokers_to_buy@[index as int],
            ),
    {
        match self.game_stage {
            GameStage::GameOver => {
                return Err(GameError::GameOver);
            },
            GameStage::Playing => {
                return Err(GameError::WrongStage);
            },
            GameStage::Shop => {},
        }
        if index >= self.jokers_to_buy.len() {
            return Err(GameError::IndexOutOfRange);
        }
        let offer = self.jokers_to_buy[index];
        let cost = offer.get_cost();
        proof {
            lemma_joker_bonus_bounds(offer);
        }
        if cost > self.money {
            return Err(GameError::InsufficientFunds);
        }
        if self.jokers.len() >= self.max_jokers {
            return Err(GameError::ModifierCapacityExceeded);
        }
        self.jokers_to_buy.remove(index);
        self.money = self.money - cost;
        self.jokers.push(offer);
        Ok(())
    }

    /// Sell the owned joker at `index`: it leaves the owned row and its
    /// cost comes back as money. (Selling back at full cost is a
    /// placeholder rule.) Only legal in the shop.
    pub fn sell(&mut self, index: usize) -> (r: Result<(), GameError>)
        requires
            old(self).wf(),
            old(self).money <= MONEY_CAP,
        ensures
            final(self).wf(),
            old(self).game_stage == GameStage::GameOver ==> r == Err::<(), GameError>(
                GameError::GameOver,
            ) && *final(self) == *old(self),
            old(self).game_stage == GameStage::Playing ==> r == Err::<(), GameError>(
                GameError::WrongStage,
            ) && *final(self) == *old(self),
            old(self).game_stage == GameStage::Shop && index >= old(self).jokers@.len() ==> r
                == Err::<(), GameError>(GameError::IndexOutOfRange) && *final(self) == *old(self),
            old(self).game_stage == GameStage::Shop && index < old(self).jokers@.len() ==> r
                == Ok::<(), GameError>(()) && *final(self) == (GameState {
                jokers: final(self).jokers,
                money: final(self).money,
                ..*old(self)
            }) && final(self).jokers@ == old(self).jokers@.remove(index as int)
                && final(self).money == old(self).money + joker_cost(
                old(self).jokers@[index as int],
            ),
    {
        match self.game_stage {
            GameStage::GameOver => {
                return Err(GameError::GameOver);
            },
            GameStage::Playing => {
                return Err(GameError::WrongStage);
            },
            GameStage::Shop => {},
        }
        if index >= self.jokers.len() {
            return Err(GameError::IndexOutOfRange);
        }
        let joker = self.jokers[index];
        proof {
            lemma_joker_bonus_bounds(joker);
        }
        self.jokers.remove(index);
        self.money = self.money + joker.get_cost();
        Ok(())
    }

    /// Leave the shop: the next blind starts at once and play resumes.
    /// Only legal in the shop.
    pub fn exit_shop(&mut self) -> (r: Result<(), GameError>)
        requires
            old(self).wf(),
        ensures
            final(self).wf(),
            old(self).game_stage == GameStage::GameOver ==> r == Err::<(), GameError>(
                GameError::GameOver,
            ) && *final(self) == *old(self),
            old(self).game_stage == GameStage::Playing ==> r == Err::<(), GameError>(
                GameError::WrongStage,
            ) && *final(self) == *old(self),
            old(self).game_stage == GameStage::Shop ==> r == Ok::<(), GameError>(())
                && *final(self) == (GameState {
                game_stage: final(self).game_stage,
                hand: final(self).hand,
                blind_deck: final(self).blind_deck,
                played_hand: final(self).played_hand,
                chips: final(self).chips,
                hands: final(self).hands,
                discards: final(self).discards,
                goal_chips: final(self).goal_chips,
                ..*old(self)
            }) && final(self).game_stage == GameStage::Playing && final(self).chips == 0
                && final(self).hands == old(self).total_hands
                && final(self).discards == old(self).total_discards
                && final(self).goal_chips == spec_goal_chips(
                old(self).blind as int,
                old(self).ante as int,
            ) && final(self).played_hand@ =~= Seq::<Card>::empty() && drew_up(
                Seq::<Card>::empty(),
                standard_deck(),
                final(self).hand@,
                final(self).blind_deck@,
                old(self).draw_size as int,
            ),
    {
        match self.game_stage {
            GameStage::GameOver => {
                return Err(GameError::GameOver);
            },
            GameStage::Playing => {
                return Err(GameError::WrongStage);
            },
            GameStage::Shop => {},
        }
        self.start_blind();
        self.game_stage = GameStage::Playing;
        Ok(())
    }
}

/// In every well-formed state a card of the hand is never also in the
/// draw pile: once drawn, a card cannot be drawn again this blind.
pub proof fn lemma_hand_and_pile_disjoint(s: GameState)
    requires
        s.wf(),
    ensures
        forall|i: int, j: int|
            0 <= i < s.hand@.len() && 0 <= j < s.blind_deck@.len() ==> s.hand@[i]
                != s.blind_deck@[j],
{
}

/// Relies on rand::thread_rng and rand::Rng::gen_range: a value drawn
/// uniformly from the non-empty range `0..n` is always below `n`.
#[verifier::external_body]
fn random_below(n: usize) -> (r: usize)
    requires
        n > 0,
    ensures
        r < n,
{
    rand::thread_rng().gen_range(0..n)
}

/// A fresh copy of a pile of cards.
fn copy_cards(src: &Vec<Card>) -> (r: Vec<Card>)
    ensures
        r@ == src@,
{
    let mut r: Vec<Card> = Vec::new();
    let mut i: usize = 0;
    while i < src.len()
        invariant
            i <= src@.len(),
            r@ == src@.take(i as int),
        decreases src@.len() - i,
    {
        r.push(src[i]);
        proof {
            assert(src@.take(i + 1) =~= src@.take(i as int).push(src@[i as int]));
        }
        i += 1;
    }
    proof {
        assert(src@.take(src@.len() as int) =~= src@);
    }
    r
}

} // verus!
