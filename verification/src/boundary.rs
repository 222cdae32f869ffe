use vstd::prelude::*;

use crate::species::Species;

verus! {

/// All unordered pairs of distinct species, each written with the earlier
/// species (in species order) first, enumerated pair by pair in that order.
pub open spec fn candidate_pairs() -> Seq<(Species, Species)> {
    seq![
        (Species::Explorer, Species::Diplomat),
        (Species::Explorer, Species::Marksman),
        (Species::Explorer, Species::Climber),
        (Species::Explorer, Species::Prospector),
        (Species::Diplomat, Species::Marksman),
        (Species::Diplomat, Species::Climber),
        (Species::Diplomat, Species::Prospector),
        (Species::Marksman, Species::Climber),
        (Species::Marksman, Species::Prospector),
        (Species::Climber, Species::Prospector),
    ]
}

/// Whether both species of a pair occur among the labels.
pub open spec fn both_present(labels: Seq<Species>, pair: (Species, Species)) -> bool {
    labels.contains(pair.0) && labels.contains(pair.1)
}

/// The species pairs that get a decision boundary: those of `candidate_pairs`
/// whose two species both have at least one reference profile, in the same order.
pub open spec fn separable_pairs(labels: Seq<Species>) -> Seq<(Species, Species)> {
    candidate_pairs().filter(|pair: (Species, Species)| both_present(labels, pair))
}

fn contains_label(labels: &[Species], s: Species) -> (r: bool)
    ensures
        r == labels@.contains(s),
{
    let mut i: usize = 0;
    while i < labels.len()
        invariant
            i <= labels@.len(),
            forall|k: int| 0 <= k < i ==> labels@[k] != s,
        decreases labels@.len() - i,
    {
        if labels[i] == s {
            return true;
        }
        i = i + 1;
    }
    false
}

/// The species pairs between which decision boundaries are computed: every pair
/// of distinct species (earlier species first, pairs in species order) for which
/// the reference labels hold at least one profile of each species.
pub fn boundary_pairs(labels: &[Species]) -> (r: Vec<(Species, Species)>)
    ensures
        r@ == separable_pairs(labels@),
{
    let pairs: &[(Species, Species)] = &[
        (Species::Explorer, Species::Diplomat),
        (Species::Explorer, Species::Marksman),
        (Species::Explorer, Species::Climber),
        (Species::Explorer, Species::Prospector),
        (Species::Diplomat, Species::Marksman),
        (Species::Diplomat, Species::Climber),
        (Species::Diplomat, Species::Prospector),
        (Species::Marksman, Species::Climber),
        (Species::Marksman, Species::Prospector),
        (Species::Climber, Species::Prospector),
    ];
    let ghost pred = |pair: (Species, Species)| both_present(labels@, pair);
    let mut r: Vec<(Species, Species)> = Vec::new();
    let mut k: usize = 0;
    while k < pairs.len()
        invariant
            pairs@ == candidate_pairs(),
            k <= pairs@.len(),
            pred == (|pair: (Species, Species)| both_present(labels@, pair)),
            r@ == pairs@.take(k as int).filter(pred),
        decreases pairs@.len() - k,
    {
        let (a, b) = pairs[k];
        let keep = contains_label(labels, a) && contains_label(labels, b);
        if keep {
            r.push((a, b));
        }
        proof {
            reveal_with_fuel(Seq::<_>::filter, 1);
            assert(pairs@.take(k + 1).drop_last() =~= pairs@.take(k as int));
        }
        k = k + 1;
    }
    assert(pairs@.take(pairs@.len() as int) =~= pairs@);
    r
}

/// Positions of the reference profiles labelled `s`, in increasing order.
pub fn members_of(labels: &[Species], s: Species) -> (r: Vec<usize>)
    ensures
        forall|k: int| 0 <= k < r@.len() ==> #[trigger] r@[k] < labels@.len() && labels@[r@[k] as int] == s,
        forall|k: int, l: int| 0 <= k < l < r@.len() ==> r@[k] < r@[l],
        forall|i: int| 0 <= i < labels@.len() && labels@[i] == s ==> #[trigger] r@.contains(i as usize),
{
    let mut r: Vec<usize> = Vec::new();
    let mut i: usize = 0;
    while i < labels.len()
        invariant
            i <= labels@.len(),
            forall|k: int| 0 <= k < r@.len() ==> #[trigger] r@[k] < i && labels@[r@[k] as int] == s,
            forall|k: int, l: int| 0 <= k < l < r@.len() ==> r@[k] < r@[l],
            forall|j: int| 0 <= j < i && labels@[j] == s ==> #[trigger] r@.contains(j as usize),
        decreases labels@.len() - i,
    {
        if labels[i] == s {
            let ghost before = r@;
            r.push(i);
            proof {
                assert forall|j: int| 0 <= j < i + 1 && labels@[j] == s implies #[trigger] r@.contains(
                    j as usize,
                ) by {
                    if j < i {
                        assert(before.contains(j as usize));
                        let w = choose|w: int| 0 <= w < before.len() && before[w] == j as usize;
                        assert(r@[w] == j as usize);
                    } else {
                        assert(r@[r@.len() - 1] == i);
                    }
                }
            }
        }
        i = i + 1;
    }
    r
}

/// A pair gets a boundary exactly when both of its species have reference profiles.
pub proof fn lemma_separable_pairs_characterized(labels: Seq<Species>, pair: (Species, Species))
    ensures
        separable_pairs(labels).contains(pair) <==> (candidate_pairs().contains(pair) && both_present(
            labels,
            pair,
        )),
{
    let pred = |p: (Species, Species)| both_present(labels, p);
    if separable_pairs(labels).contains(pair) {
        candidate_pairs().lemma_filter_contains_rev(pred, pair);
        let k = choose|k: int|
            0 <= k < separable_pairs(labels).len() && separable_pairs(labels)[k] == pair;
        candidate_pairs().lemma_filter_pred(pred, k);
    }
    if candidate_pairs().contains(pair) && both_present(labels, pair) {
        let i = choose|i: int| 0 <= i < candidate_pairs().len() && candidate_pairs()[i] == pair;
        candidate_pairs().lemma_filter_contains(pred, i);
    }
}

} // verus!

verus! {

/// The candidate pairs are exactly the pairs of distinct species with the
/// earlier species (by index) first, each listed once, in increasing order of
/// the first species' index and then of the second's.
pub proof fn lemma_candidate_pairs_are_ordered_distinct_pairs()
    ensures
        candidate_pairs().len() == 10,
        forall|k: int, l: int|
            0 <= k < candidate_pairs().len() && 0 <= l < candidate_pairs().len() && k != l
                ==> #[trigger] candidate_pairs()[k] != #[trigger] candidate_pairs()[l],
        forall|a: Species, b: Species|
            #[trigger] candidate_pairs().contains((a, b)) <==> crate::species::index_of(a)
                < crate::species::index_of(b),
        forall|k: int, l: int|
            0 <= k < l < candidate_pairs().len() ==> {
                let (a1, b1) = #[trigger] candidate_pairs()[k];
                let (a2, b2) = #[trigger] candidate_pairs()[l];
                crate::species::index_of(a1) < crate::species::index_of(a2) || (
                crate::species::index_of(a1) == crate::species::index_of(a2)
                    && crate::species::index_of(b1) < crate::species::index_of(b2))
            },
{
    let cp = candidate_pairs();
    assert forall|a: Species, b: Species|
        crate::species::index_of(a) < crate::species::index_of(b) implies #[trigger] cp.contains(
        (a, b),
    ) by {
        let w: int = match (a, b) {
            (Species::Explorer, Species::Diplomat) => 0,
            (Species::Explorer, Species::Marksman) => 1,
            (Species::Explorer, Species::Climber) => 2,
            (Species::Explorer, Species::Prospector) => 3,
            (Species::Diplomat, Species::Marksman) => 4,
            (Species::Diplomat, Species::Climber) => 5,
            (Species::Diplomat, Species::Prospector) => 6,
            (Species::Marksman, Species::Climber) => 7,
            (Species::Marksman, Species::Prospector) => 8,
            _ => 9,
        };
        assert(cp[w] == (a, b));
    }
    assert forall|a: Species, b: Species| #[trigger] cp.contains((a, b)) implies crate::species::index_of(a)
        < crate::species::index_of(b) by {
        let w = choose|w: int| 0 <= w < cp.len() && cp[w] == (a, b);
        assert(0 <= w < 10);
    }
}


/// A decision boundary is computed for the pair `(a, b)` exactly when `a` comes
/// before `b` in species order and both have reference profiles.
pub proof fn lemma_boundary_pair_present(labels: Seq<Species>, a: Species, b: Species)
    ensures
        separable_pairs(labels).contains((a, b)) <==> (crate::species::index_of(a)
            < crate::species::index_of(b) && labels.contains(a) && labels.contains(b)),
{
    lemma_candidate_pairs_are_ordered_distinct_pairs();
    lemma_separable_pairs_characterized(labels, (a, b));
    assert(candidate_pairs().contains((a, b)) <==> crate::species::index_of(a)
        < crate::species::index_of(b));
}

} // verus!
