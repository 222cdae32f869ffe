use vstd::prelude::*;

verus! {

/// Strategy species that a ternary agent can be classified as.
#[derive(Debug, Clone, Copy, PartialEq, Eq, Structural, Hash)]
pub enum Species {
    /// High explore rate, moderate entropy: discovers new strategies.
    Explorer,
    /// High cooperate rate, low defect: builds alliances.
    Diplomat,
    /// Low entropy, high win rate: precision targeting.
    Marksman,
    /// High defect rate, high win rate: exploits others.
    Climber,
    /// Balanced profile, high entropy: opportunistic sampling.
    Prospector,
}

/// The species in their canonical order.
pub open spec fn species_order() -> Seq<Species> {
    seq![Species::Explorer, Species::Diplomat, Species::Marksman, Species::Climber, Species::Prospector]
}

/// Position of a species in the canonical order.
pub open spec fn index_of(s: Species) -> int {
    match s {
        Species::Explorer => 0,
        Species::Diplomat => 1,
        Species::Marksman => 2,
        Species::Climber => 3,
        Species::Prospector => 4,
    }
}

/// The species at a position of the canonical order, if the position is in range.
pub open spec fn species_at(i: int) -> Option<Species> {
    if 0 <= i < 5 {
        Some(species_order()[i])
    } else {
        None
    }
}

/// Human-readable name of a species.
pub open spec fn name_of(s: Species) -> Seq<char> {
    match s {
        Species::Explorer => "Explorer"@,
        Species::Diplomat => "Diplomat"@,
        Species::Marksman => "Marksman"@,
        Species::Climber => "Climber"@,
        Species::Prospector => "Prospector"@,
    }
}

impl Species {
    /// All species variants in order.
    pub fn all() -> (r: &'static [Species])
        ensures
            r@ == species_order(),
    {
        &[Species::Explorer, Species::Diplomat, Species::Marksman, Species::Climber, Species::Prospector]
    }

    /// Human-readable name.
    pub fn name(&self) -> (r: &'static str)
        ensures
            r@ == name_of(*self),
    {
        match self {
            Species::Explorer => "Explorer",
            Species::Diplomat => "Diplomat",
            Species::Marksman => "Marksman",
            Species::Climber => "Climber",
            Species::Prospector => "Prospector",
        }
    }

    /// Index into a fixed-size array (0..4).
    pub fn index(&self) -> (r: usize)
        ensures
            r == index_of(*self),
            r < 5,
    {
        match self {
            Species::Explorer => 0,
            Species::Diplomat => 1,
            Species::Marksman => 2,
            Species::Climber => 3,
            Species::Prospector => 4,
        }
    }

    /// Species from index (0..4). Returns None for out-of-range.
    pub fn from_index(i: usize) -> (r: Option<Species>)
        ensures
            r == species_at(i as int),
    {
        match i {
            0 => Some(Species::Explorer),
            1 => Some(Species::Diplomat),
            2 => Some(Species::Marksman),
            3 => Some(Species::Climber),
            4 => Some(Species::Prospector),
            _ => None,
        }
    }
}

} // verus!

verus! {

/// Every species has a position in range, and that position leads back to it.
pub proof fn lemma_index_round_trip(s: Species)
    ensures
        0 <= index_of(s) < 5,
        species_at(index_of(s)) == Some(s),
        species_order()[index_of(s)] == s,
{
}

/// A position names a species exactly when it is in range, and that species
/// sits at the same position.
pub proof fn lemma_from_index_round_trip(i: int)
    ensures
        species_at(i) is Some <==> 0 <= i < 5,
        species_at(i) matches Some(s) ==> index_of(s) == i,
{
}

/// The canonical order lists each species exactly once.
pub proof fn lemma_order_is_complete_and_distinct()
    ensures
        species_order().len() == 5,
        forall|s: Species| #[trigger] species_order().contains(s),
        forall|i: int, j: int|
            0 <= i < 5 && 0 <= j < 5 && i != j ==> species_order()[i] != species_order()[j],
{
    assert forall|s: Species| #[trigger] species_order().contains(s) by {
        assert(species_order()[index_of(s)] == s);
    }
}

} // verus!

verus! {

/// Positions in range name the species whose index is that position.
pub proof fn lemma_order_index(j: int)
    requires
        0 <= j < 5,
    ensures
        index_of(species_order()[j]) == j,
        species_at(j) == Some(species_order()[j]),
{
}

} // verus!
