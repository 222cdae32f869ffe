use vstd::prelude::*;

verus! {

/// Number of behavioral features of a profile.
pub const FEATURE_COUNT: usize = 5;

/// The canonical feature names, in feature-vector order.
pub open spec fn feature_name_seq() -> Seq<Seq<char>> {
    seq!["explore_rate"@, "cooperate_rate"@, "defect_rate"@, "win_rate"@, "entropy"@]
}

/// The canonical feature names in order: explore rate, cooperate rate,
/// defect rate, win rate, entropy.
pub fn feature_names() -> (r: Vec<&'static str>)
    ensures
        r@.len() == FEATURE_COUNT,
        forall|i: int| 0 <= i < FEATURE_COUNT ==> #[trigger] r@[i]@ == feature_name_seq()[i],
{
    let mut r: Vec<&'static str> = Vec::new();
    r.push("explore_rate");
    r.push("cooperate_rate");
    r.push("defect_rate");
    r.push("win_rate");
    r.push("entropy");
    r
}

} // verus!
