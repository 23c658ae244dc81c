use vstd::prelude::*;
use crate::cards::{Card, cards_wf, chip_value_spec, lemma_chip_value_bounds};
use crate::jokers::{Joker, joker_chip_bonus, joker_mult_bonus, lemma_joker_bonus_bounds};

verus! {

/// No score can exceed this: the chip and multiplier bounds proved below,
/// multiplied out for the largest selection and joker load allowed.
pub const SCORE_CAP: usize = 615600;

/// The chip total after the played cards, in play order, have each added
/// their chip value to `c`.
pub open spec fn chips_after_cards(cards: Seq<Card>, c: int) -> int
    decreases cards.len(),
{
    if cards.len() == 0 {
        c
    } else {
        chips_after_cards(cards.drop_last(), c) + chip_value_spec(cards.last())
    }
}

/// The chip total after the jokers, in ownership order, have each added
/// their chip contribution to `c`.
pub open spec fn chips_after_jokers(jokers: Seq<Joker>, c: int) -> int
    decreases jokers.len(),
{
    if jokers.len() == 0 {
        c
    } else {
        chips_after_jokers(jokers.drop_last(), c) + joker_chip_bonus(jokers.last())
    }
}

/// The multiplier after the jokers, in ownership order, have each added
/// their multiplier contribution to `m`. Cards leave the multiplier
/// unchanged in the base rules, so no card fold appears here.
pub open spec fn mult_after_jokers(jokers: Seq<Joker>, m: int) -> int
    decreases jokers.len(),
{
    if jokers.len() == 0 {
        m
    } else {
        mult_after_jokers(jokers.drop_last(), m) + joker_mult_bonus(jokers.last())
    }
}

/// The score of a play: chips start at 0 and the multiplier at 1; the
/// played cards fold in first, then the jokers, and the result is the
/// final chip total times the final multiplier.
pub open spec fn score_of(cards: Seq<Card>, jokers: Seq<Joker>) -> int {
    chips_after_jokers(jokers, chips_after_cards(cards, 0)) * mult_after_jokers(jokers, 1)
}

pub proof fn lemma_chips_after_cards_bounds(cards: Seq<Card>, c: int)
    requires
        c >= 0,
    ensures
        c <= chips_after_cards(cards, c) <= c + 11 * cards.len(),
    decreases cards.len(),
{
    if cards.len() > 0 {
        lemma_chips_after_cards_bounds(cards.drop_last(), c);
        lemma_chip_value_bounds(cards.last());
    }
}

pub proof fn lemma_chips_after_jokers_bounds(jokers: Seq<Joker>, c: int)
    requires
        c >= 0,
    ensures
        c <= chips_after_jokers(jokers, c) <= c + 16 * jokers.len(),
    decreases jokers.len(),
{
    if jokers.len() > 0 {
        lemma_chips_after_jokers_bounds(jokers.drop_last(), c);
        lemma_joker_bonus_bounds(jokers.last());
    }
}

pub proof fn lemma_mult_after_jokers_bounds(jokers: Seq<Joker>, m: int)
    requires
        m >= 0,
    ensures
        m <= mult_after_jokers(jokers, m) <= m + 8 * jokers.len(),
    decreases jokers.len(),
{
    if jokers.len() > 0 {
        lemma_mult_after_jokers_bounds(jokers.drop_last(), m);
        lemma_joker_bonus_bounds(jokers.last());
    }
}

/// A play of at most 16 cards under at most 64 jokers scores at most
/// `SCORE_CAP`, and never a negative amount.
pub proof fn lemma_score_bounds(cards: Seq<Card>, jokers: Seq<Joker>)
    requires
        cards.len() <= 16,
        jokers.len() <= 64,
    ensures
        0 <= score_of(cards, jokers) <= SCORE_CAP,
{
    lemma_chips_after_cards_bounds(cards, 0);
    let base = chips_after_cards(cards, 0);
    lemma_chips_after_jokers_bounds(jokers, base);
    lemma_mult_after_jokers_bounds(jokers, 1);
    let ch = chips_after_jokers(jokers, base);
    let m = mult_after_jokers(jokers, 1);
    assert(0 <= ch * m <= 615600) by (nonlinear_arith)
        requires
            0 <= ch <= 1200,
            1 <= m <= 513,
    ;
}

/// Compute the score of a play: fold the played cards in order, then the
/// jokers in order, and multiply the chip total by the multiplier.
pub fn compute_score(cards: &Vec<Card>, jokers: &Vec<Joker>) -> (r: usize)
    requires
        cards_wf(cards@),
        cards@.len() <= 16,
        jokers@.len() <= 64,
    ensures
        r == score_of(cards@, jokers@),
        r <= SCORE_CAP,
{
    let mut chips: usize = 0;
    let mut mult: usize = 1;
    let mut i: usize = 0;
    while i < cards.len()
        invariant
            cards_wf(cards@),
            cards@.len() <= 16,
            i <= cards@.len(),
            chips == chips_after_cards(cards@.take(i as int), 0),
            chips <= 11 * i,
            mult == 1,
        decreases cards@.len() - i,
    {
        chips = cards[i].apply_chips(chips);
        mult = cards[i].apply_mult(mult);
        proof {
            assert(cards@.take(i + 1).drop_last() =~= cards@.take(i as int));
            assert(cards@.take(i + 1).last() == cards@[i as int]);
        }
        i += 1;
    }
    proof {
        assert(cards@.take(cards@.len() as int) =~= cards@);
    }
    let ghost base: int = chips as int;
    let mut j: usize = 0;
    while j < jokers.len()
        invariant
            jokers@.len() <= 64,
            j <= jokers@.len(),
            base == chips_after_cards(cards@, 0),
            0 <= base <= 176,
            chips == chips_after_jokers(jokers@.take(j as int), base),
            chips <= base + 16 * j,
            mult == mult_after_jokers(jokers@.take(j as int), 1),
            1 <= mult <= 1 + 8 * j,
        decreases jokers@.len() - j,
    {
        proof {
            lemma_joker_bonus_bounds(jokers@[j as int]);
        }
        chips = jokers[j].apply_chips(chips);
        mult = jokers[j].apply_mult(mult);
        proof {
            assert(jokers@.take(j + 1).drop_last() =~= jokers@.take(j as int));
            assert(jokers@.take(j + 1).last() == jokers@[j as int]);
        }
        j += 1;
    }
    proof {
        assert(jokers@.take(jokers@.len() as int) =~= jokers@);
        assert(chips * mult <= 615600) by (nonlinear_arith)
            requires
                0 <= chips <= 1200,
                1 <= mult <= 513,
        ;
    }
    chips * mult
}

} // verus!
