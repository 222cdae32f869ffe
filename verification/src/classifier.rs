use vstd::prelude::*;

use crate::species::Species;

verus! {

/// Outcomes of the five threshold comparisons that the rule-based species
/// classifier makes on a behavior profile. Each field is the value of one
/// comparison between a profile feature and a classifier threshold.
#[derive(Debug, Clone, Copy, PartialEq, Eq, Structural)]
pub struct ThresholdChecks {
    /// cooperate rate >= cooperate threshold
    pub cooperates: bool,
    /// defect rate >= defect threshold
    pub defects: bool,
    /// win rate >= win threshold
    pub wins: bool,
    /// explore rate >= explore threshold
    pub explores: bool,
    /// entropy < high-entropy threshold
    pub low_entropy: bool,
}

/// The classification rule, in order of priority: cooperation makes a Diplomat;
/// defecting while winning makes a Climber; exploring makes an Explorer;
/// winning with low entropy makes a Marksman; anything else is a Prospector.
pub open spec fn species_for(c: ThresholdChecks) -> Species {
    if c.cooperates {
        Species::Diplomat
    } else if c.defects && c.wins {
        Species::Climber
    } else if c.explores {
        Species::Explorer
    } else if c.low_entropy && c.wins {
        Species::Marksman
    } else {
        Species::Prospector
    }
}

/// Number of positions `i < k` at which `predicted` and `labels` agree.
pub open spec fn agreements(predicted: Seq<Species>, labels: Seq<Species>, k: int) -> nat
    decreases k,
{
    if k <= 0 {
        0
    } else {
        agreements(predicted, labels, k - 1) + if predicted[k - 1] == labels[k - 1] {
            1nat
        } else {
            0nat
        }
    }
}

/// Decide the species of a profile from its threshold comparisons.
pub fn decide_species(checks: &ThresholdChecks) -> (r: Species)
    ensures
        r == species_for(*checks),
{
    if checks.cooperates {
        return Species::Diplomat;
    }
    if checks.defects && checks.wins {
        return Species::Climber;
    }
    if checks.explores {
        return Species::Explorer;
    }
    if checks.low_entropy && checks.wins {
        return Species::Marksman;
    }
    Species::Prospector
}

/// Decide the species of many profiles, each paired with its position.
pub fn decide_batch(checks: &[ThresholdChecks]) -> (r: Vec<(usize, Species)>)
    ensures
        r@.len() == checks@.len(),
        forall|i: int|
            0 <= i < checks@.len() ==> #[trigger] r@[i] == (i as usize, species_for(checks@[i])),
{
    let mut r: Vec<(usize, Species)> = Vec::new();
    let mut i: usize = 0;
    while i < checks.len()
        invariant
            i <= checks@.len(),
            r@.len() == i,
            forall|k: int| 0 <= k < i ==> #[trigger] r@[k] == (k as usize, species_for(checks@[k])),
        decreases checks@.len() - i,
    {
        let s = decide_species(&checks[i]);
        r.push((i, s));
        i = i + 1;
    }
    r
}

/// Number of positions at which the predicted species equals the label,
/// over the positions that both sequences have.
pub fn count_agreements(predicted: &[Species], labels: &[Species]) -> (r: usize)
    ensures
        r == agreements(
            predicted@,
            labels@,
            if predicted@.len() <= labels@.len() {
                predicted@.len() as int
            } else {
                labels@.len() as int
            },
        ),
        r <= predicted@.len(),
        r <= labels@.len(),
{
    let n = if predicted.len() <= labels.len() {
        predicted.len()
    } else {
        labels.len()
    };
    let mut count: usize = 0;
    let mut i: usize = 0;
    while i < n
        invariant
            n <= predicted@.len(),
            n <= labels@.len(),
            i <= n,
            count == agreements(predicted@, labels@, i as int),
            count <= i,
        decreases n - i,
    {
        if predicted[i] == labels[i] {
            count = count + 1;
        }
        i = i + 1;
    }
    count
}

/// What each species means in terms of the threshold comparisons.
pub proof fn lemma_species_characterization(c: ThresholdChecks)
    ensures
        (species_for(c) == Species::Diplomat) <==> c.cooperates,
        (species_for(c) == Species::Climber) <==> (!c.cooperates && c.defects && c.wins),
        (species_for(c) == Species::Explorer) <==> (!c.cooperates && !(c.defects && c.wins)
            && c.explores),
        (species_for(c) == Species::Marksman) <==> (!c.cooperates && !(c.defects && c.wins)
            && !c.explores && c.low_entropy && c.wins),
        (species_for(c) == Species::Prospector) <==> (!c.cooperates && !(c.defects && c.wins)
            && !c.explores && !(c.low_entropy && c.wins)),
{
}

/// Only winning profiles are classified as competitive species (Climber or Marksman).
pub proof fn lemma_competitive_species_win(c: ThresholdChecks)
    ensures
        species_for(c) == Species::Climber || species_for(c) == Species::Marksman ==> c.wins,
{
}

} // verus!

verus! {

/// Counting agreements position by position: extending the range by one
/// position adds one exactly when the predicted species at that position equals
/// the label, and nothing otherwise.
pub proof fn lemma_agreements_step(predicted: Seq<Species>, labels: Seq<Species>, k: int)
    requires
        0 <= k,
    ensures
        predicted[k] == labels[k] ==> agreements(predicted, labels, k + 1) == agreements(
            predicted,
            labels,
            k,
        ) + 1,
        predicted[k] != labels[k] ==> agreements(predicted, labels, k + 1) == agreements(
            predicted,
            labels,
            k,
        ),
{
}

/// Agreements are bounded by the number of positions; they reach it exactly
/// when every position agrees, and are zero when no position does.
pub proof fn lemma_agreements_extremes(predicted: Seq<Species>, labels: Seq<Species>, k: int)
    requires
        0 <= k,
    ensures
        agreements(predicted, labels, k) <= k,
        (forall|i: int| 0 <= i < k ==> #[trigger] predicted[i] == labels[i]) ==> agreements(
            predicted,
            labels,
            k,
        ) == k,
        (forall|i: int| 0 <= i < k ==> #[trigger] predicted[i] != labels[i]) ==> agreements(
            predicted,
            labels,
            k,
        ) == 0,
        (exists|i: int| 0 <= i < k && #[trigger] predicted[i] != labels[i]) ==> agreements(
            predicted,
            labels,
            k,
        ) < k,
    decreases k,
{
    if k > 0 {
        lemma_agreements_extremes(predicted, labels, k - 1);
        if exists|i: int| 0 <= i < k && #[trigger] predicted[i] != labels[i] {
            let w = choose|i: int| 0 <= i < k && #[trigger] predicted[i] != labels[i];
            if w < k - 1 {
                assert(exists|i: int| 0 <= i < k - 1 && #[trigger] predicted[i] != labels[i]);
            }
        }
    }
}

} // verus!
