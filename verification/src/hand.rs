use vstd::prelude::*;
use crate::cards::{Card, cards_wf};

verus! {

/// The hand with the card at one index removed keeps every other card,
/// stays duplicate-free, and takes nothing in.
pub proof fn lemma_seq_remove_props(s: Seq<Card>, i: int)
    requires
        0 <= i < s.len(),
        s.no_duplicates(),
    ensures
        s.remove(i).len() == s.len() - 1,
        s.remove(i).no_duplicates(),
        !s.remove(i).contains(s[i]),
        forall|x: Card| #[trigger] s.remove(i).contains(x) ==> s.contains(x),
        forall|x: Card| x != s[i] && #[trigger] s.contains(x) ==> s.remove(i).contains(x),
{
    let r = s.remove(i);
    assert forall|x: Card| #[trigger] r.contains(x) implies s.contains(x) by {
        let k = choose|k: int| 0 <= k < r.len() && r[k] == x;
        if k < i {
            assert(s[k] == x);
        } else {
            assert(s[k + 1] == x);
        }
    }
    assert(!r.contains(s[i])) by {
        if r.contains(s[i]) {
            let k = choose|k: int| 0 <= k < r.len() && r[k] == s[i];
            if k < i {
                assert(s[k] == s[i]);
            } else {
                assert(s[k + 1] == s[i]);
            }
        }
    }
    assert forall|x: Card| x != s[i] && #[trigger] s.contains(x) implies r.contains(x) by {
        let k = choose|k: int| 0 <= k < s.len() && s[k] == x;
        if k < i {
            assert(r[k] == x);
        } else {
            assert(k > i);
            assert(r[k - 1] == x);
        }
    }
}

/// The hand with the first occurrence of `c`, if any, removed.
pub open spec fn remove_card(hand: Seq<Card>, c: Card) -> Seq<Card> {
    match hand.index_of_first(c) {
        Some(i) => hand.remove(i),
        None => hand,
    }
}

/// The first occurrence of `c` in `hand` is at `i` when `c` stands there
/// and nowhere earlier.
pub proof fn lemma_first_index_at(hand: Seq<Card>, c: Card, i: int)
    requires
        0 <= i < hand.len(),
        hand[i] == c,
        forall|j: int| 0 <= j < i ==> hand[j] != c,
    ensures
        hand.index_of_first(c) == Some(i),
        remove_card(hand, c) == hand.remove(i),
{
    assert(hand.contains(c));
    hand.index_of_first_ensures(c);
    let i0 = hand.index_of_first(c).unwrap();
    assert(i0 == i) by {
        if i0 < i {
            assert(hand[i0] != c);
        }
        if i < i0 {
            assert(hand[i] != c);
        }
    }
}

/// The hand after each played card, in play order, has had its first
/// occurrence removed.
pub open spec fn remove_cards(hand: Seq<Card>, played: Seq<Card>) -> Seq<Card>
    decreases played.len(),
{
    if played.len() == 0 {
        hand
    } else {
        remove_cards(remove_card(hand, played[0]), played.drop_first())
    }
}

/// What toggling a card does to the selection: an already selected card
/// leaves; otherwise the card joins at the end.
pub open spec fn spec_toggle(selected: Seq<Card>, c: Card) -> Seq<Card> {
    if selected.contains(c) {
        remove_card(selected, c)
    } else {
        selected.push(c)
    }
}

/// Selecting a card that was not selected and then toggling it again
/// returns the selection to exactly its prior state.
pub proof fn lemma_toggle_twice(selected: Seq<Card>, c: Card)
    requires
        !selected.contains(c),
    ensures
        spec_toggle(spec_toggle(selected, c), c) == selected,
{
    let s1 = selected.push(c);
    assert(s1[selected.len() as int] == c);
    assert(s1.contains(c));
    assert forall|j: int| 0 <= j < selected.len() implies s1[j] != c by {
        assert(s1[j] == selected[j]);
    }
    lemma_first_index_at(s1, c, selected.len() as int);
    assert(s1.remove(selected.len() as int) =~= selected);
}

/// A deck disjoint from a hand is disjoint from any part of that hand.
pub proof fn lemma_disjoint_subset(deck: Seq<Card>, hand: Seq<Card>, part: Seq<Card>)
    requires
        deck.disjoint(hand),
        forall|x: Card| #[trigger] part.contains(x) ==> hand.contains(x),
    ensures
        deck.disjoint(part),
{
    assert forall|i: int, j: int| 0 <= i < deck.len() && 0 <= j < part.len() implies deck[i]
        != part[j] by {
        assert(part.contains(part[j]));
        let k = choose|k: int| 0 <= k < hand.len() && hand[k] == part[j];
    }
}

/// Any part of a hand of valid cards holds only valid cards.
pub proof fn lemma_cards_wf_subset(part: Seq<Card>, hand: Seq<Card>)
    requires
        cards_wf(hand),
        forall|x: Card| #[trigger] part.contains(x) ==> hand.contains(x),
    ensures
        cards_wf(part),
{
    assert forall|i: int| 0 <= i < part.len() implies crate::cards::valid_rank(
        #[trigger] part[i].rank,
    ) by {
        assert(part.contains(part[i]));
        let k = choose|k: int| 0 <= k < hand.len() && hand[k] == part[i];
    }
}

} // verus!
