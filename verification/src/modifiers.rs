use vstd::prelude::*;

verus! {

/// Enhancements a playing card may carry; only the plain card takes part
/// in scoring for now, the other variants are catalog placeholders.
#[derive(Debug, Copy, Clone, PartialEq, Eq, Structural)]
pub enum CardEnhancement {
    Plain,
    Bonus,
    Mult,
    Wild,
    Glass,
    Steel,
    Stone,
    Gold,
    Lucky,
}

impl Default for CardEnhancement {
    fn default() -> (r: Self)
        ensures
            r == CardEnhancement::Plain,
    {
        CardEnhancement::Plain
    }
}

/// Seals a playing card may carry; placeholders like the enhancements.
#[derive(Debug, Copy, Clone, PartialEq, Eq, Structural)]
pub enum CardSeals {
    Unsealed,
    GoldSeal,
    RedSeal,
    BlueSeal,
    PurpleSeal,
}

impl Default for CardSeals {
    fn default() -> (r: Self)
        ensures
            r == CardSeals::Unsealed,
    {
        CardSeals::Unsealed
    }
}

/// The edition of a joker. Editions are a pricing and behaviour slot that
/// no rule fills yet: every joker is priced and scored as its base edition.
#[derive(Debug, Copy, Clone, PartialEq, Eq, Structural)]
pub enum JokerEdition {
    Base,
    Foil,
    Holographic,
    Polychrome,
    Negative,
}

impl Default for JokerEdition {
    fn default() -> (r: Self)
        ensures
            r == JokerEdition::Base,
    {
        JokerEdition::Base
    }
}

} // verus!
