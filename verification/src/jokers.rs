use vstd::prelude::*;
use vstd::string::StringExecFns;
use crate::modifiers::JokerEdition;

verus! {

/// The kinds of joker the catalog knows. A new joker is added by adding a
/// variant here and a row to each of the small spec functions below; the
/// scoring engine itself never changes.
#[derive(Debug, Copy, Clone, PartialEq, Eq, Structural)]
pub enum JokerKind {
    /// Adds a flat 4 to the running multiplier.
    Mult4,
}

/// A purchasable scoring modifier: its kind decides its behaviour and its
/// shop metadata; the edition is a pricing slot that no rule fills yet.
#[derive(Debug, Copy, Clone, PartialEq, Eq, Structural)]
pub struct Joker {
    pub kind: JokerKind,
    pub edition: JokerEdition,
}

/// What a joker adds to the running chip total.
pub open spec fn joker_chip_bonus(j: Joker) -> int {
    match j.kind {
        JokerKind::Mult4 => 0,
    }
}

/// What a joker adds to the running multiplier.
pub open spec fn joker_mult_bonus(j: Joker) -> int {
    match j.kind {
        JokerKind::Mult4 => 4,
    }
}

/// A joker's base cost in the shop.
pub open spec fn joker_base_cost(j: Joker) -> int {
    match j.kind {
        JokerKind::Mult4 => 4,
    }
}

/// What a joker sells and buys for. Editions may one day change this;
/// until a rule is given the cost is the base cost.
pub open spec fn joker_cost(j: Joker) -> int {
    joker_base_cost(j)
}

/// A joker's display name.
pub open spec fn joker_name(j: Joker) -> Seq<char> {
    match j.kind {
        JokerKind::Mult4 => "Joker"@,
    }
}

/// A joker's display description.
pub open spec fn joker_description(j: Joker) -> Seq<char> {
    match j.kind {
        JokerKind::Mult4 => "This joker adds 4 to mult"@,
    }
}

/// A joker's cost rendered as text.
pub open spec fn joker_cost_text(j: Joker) -> Seq<char> {
    match j.kind {
        JokerKind::Mult4 => "4"@,
    }
}

/// The one-line shop text: name, description, cost.
pub open spec fn shop_line(j: Joker) -> Seq<char> {
    joker_name(j) + " - "@ + joker_description(j) + " (Cost: "@ + joker_cost_text(j) + ")"@
}

/// Every joker's contributions and cost stay within small fixed bounds.
pub proof fn lemma_joker_bonus_bounds(j: Joker)
    ensures
        0 <= joker_chip_bonus(j) <= 16,
        0 <= joker_mult_bonus(j) <= 8,
        0 <= joker_base_cost(j) <= 100,
        joker_cost(j) == joker_base_cost(j),
{
}

impl Joker {
    /// The edition this joker carries.
    pub fn get_edition(&self) -> (r: JokerEdition)
        ensures
            r == self.edition,
    {
        self.edition
    }

    /// The joker's display name.
    pub fn get_name(&self) -> (r: String)
        ensures
            r@ == joker_name(*self),
    {
        match self.kind {
            JokerKind::Mult4 => String::from_str("Joker"),
        }
    }

    /// The joker's display description.
    pub fn get_description(&self) -> (r: String)
        ensures
            r@ == joker_description(*self),
    {
        match self.kind {
            JokerKind::Mult4 => String::from_str("This joker adds 4 to mult"),
        }
    }

    /// The joker's base cost.
    pub fn get_base_cost(&self) -> (r: usize)
        ensures
            r == joker_base_cost(*self),
    {
        match self.kind {
            JokerKind::Mult4 => 4,
        }
    }

    /// The cost the shop charges and pays for this joker.
    pub fn get_cost(&self) -> (r: i32)
        ensures
            r == joker_cost(*self),
    {
        match self.kind {
            JokerKind::Mult4 => 4,
        }
    }

    /// The joker's cost rendered as text.
    pub fn cost_text(&self) -> (r: String)
        ensures
            r@ == joker_cost_text(*self),
    {
        match self.kind {
            JokerKind::Mult4 => String::from_str("4"),
        }
    }

    /// The one-line text the shop lists this joker with.
    pub fn get_shop_description(&self) -> (r: String)
        ensures
            r@ == shop_line(*self),
    {
        let mut s = self.get_name();
        s.append(" - ");
        let d = self.get_description();
        s.append(d.as_str());
        s.append(" (Cost: ");
        let c = self.cost_text();
        s.append(c.as_str());
        s.append(")");
        proof {
            assert(s@ =~= shop_line(*self));
        }
        s
    }

    /// Add this joker's chip contribution to the running chip total.
    pub fn apply_chips(&self, current_chips: usize) -> (r: usize)
        requires
            current_chips + joker_chip_bonus(*self) <= usize::MAX,
        ensures
            r == current_chips + joker_chip_bonus(*self),
    {
        match self.kind {
            JokerKind::Mult4 => current_chips,
        }
    }

    /// Add this joker's multiplier contribution to the running multiplier.
    pub fn apply_mult(&self, current_mult: usize) -> (r: usize)
        requires
            current_mult + joker_mult_bonus(*self) <= usize::MAX,
        ensures
            r == current_mult + joker_mult_bonus(*self),
    {
        match self.kind {
            JokerKind::Mult4 => current_mult + 4,
        }
    }
}

impl Default for Joker {
    /// The catalog's base joker: the flat multiplier joker, base edition.
    fn default() -> (r: Self)
        ensures
            r == (Joker { kind: JokerKind::Mult4, edition: JokerEdition::Base }),
    {
        Joker { kind: JokerKind::Mult4, edition: JokerEdition::Base }
    }
}

/// The fixed, immutable joker catalog.
pub open spec fn catalog() -> Seq<Joker> {
    seq![Joker { kind: JokerKind::Mult4, edition: JokerEdition::Base }]
}

/// The catalog as a vector: every joker the shop can offer.
pub fn all_jokers() -> (v: Vec<Joker>)
    ensures
        v@ == catalog(),
        v@.len() == 1,
{
    let mut v: Vec<Joker> = Vec::new();
    v.push(Joker { kind: JokerKind::Mult4, edition: JokerEdition::Base });
    proof {
        assert(v@ =~= catalog());
    }
    v
}

/// The joker texts joined under a leading star, one line each.
pub open spec fn jokers_join(jokers: Seq<Joker>) -> Seq<char>
    decreases jokers.len(),
{
    if jokers.len() == 0 {
        Seq::empty()
    } else if jokers.len() == 1 {
        shop_line(jokers[0])
    } else {
        jokers_join(jokers.drop_last()) + "\n* "@ + shop_line(jokers.last())
    }
}

/// Render owned or offered jokers as a starred list.
pub fn format_jokers(jokers: &Vec<Joker>) -> (r: String)
    ensures
        r@ == "* "@ + jokers_join(jokers@),
{
    let mut s = String::from_str("* ");
    proof {
        assert(s@ =~= "* "@ + jokers_join(jokers@.take(0)));
    }
    let mut i: usize = 0;
    while i < jokers.len()
        invariant
            i <= jokers@.len(),
            s@ == "* "@ + jokers_join(jokers@.take(i as int)),
        decreases jokers@.len() - i,
    {
        if i > 0 {
            s.append("\n* ");
        }
        let t = jokers[i].get_shop_description();
        s.append(t.as_str());
        proof {
            assert(jokers@.take(i + 1).drop_last() =~= jokers@.take(i as int));
            assert(jokers@.take(i + 1).last() == jokers@[i as int]);
            assert(s@ =~= "* "@ + jokers_join(jokers@.take(i + 1)));
        }
        i += 1;
    }
    proof {
        assert(jokers@.take(jokers@.len() as int) =~= jokers@);
    }
    s
}

} // verus!
