use vstd::prelude::*;
use vstd::string::StringExecFns;

use crate::species::{index_of, lemma_index_round_trip, lemma_order_index, species_order, Species};
use crate::confusion_matrix::sum_first;
use crate::text::{decimal, push_decimal};

verus! {

/// Number of positions `i < k` whose cluster is `c`.
pub open spec fn members(clusters: Seq<usize>, c: int, k: int) -> nat
    decreases k,
{
    if k <= 0 {
        0
    } else {
        members(clusters, c, k - 1) + if clusters[k - 1] == c {
            1nat
        } else {
            0nat
        }
    }
}

/// Number of positions `i < k` whose cluster is `c` and whose label is `s`.
pub open spec fn votes(clusters: Seq<usize>, labels: Seq<Species>, c: int, s: Species, k: int) -> nat
    decreases k,
{
    if k <= 0 {
        0
    } else {
        votes(clusters, labels, c, s, k - 1) + if clusters[k - 1] == c && labels[k - 1] == s {
            1nat
        } else {
            0nat
        }
    }
}

/// The error message of a clustering request with fewer profiles than clusters.
pub open spec fn too_few_profiles_message(k: nat, n: nat) -> Seq<char> {
    "Need at least "@ + decimal(k) + " profiles for k="@ + decimal(k) + ", got "@ + decimal(n)
}

/// The error message of a labelling request whose profiles and labels differ in number.
pub open spec fn length_mismatch_message() -> Seq<char> {
    "profiles and labels must have same length"@
}

/// The label a cluster gets by majority vote: `None` when nobody voted in
/// cluster `c`; otherwise a species with the most votes, the first of them in
/// species order when several tie.
pub open spec fn is_majority(
    clusters: Seq<usize>,
    labels: Seq<Species>,
    c: int,
    label: Option<Species>,
) -> bool {
    let n = clusters.len() as int;
    match label {
        None => forall|s: Species| #[trigger] votes(clusters, labels, c, s, n) == 0,
        Some(best) => {
            &&& votes(clusters, labels, c, best, n) > 0
            &&& forall|s: Species| #[trigger]
                votes(clusters, labels, c, s, n) <= votes(clusters, labels, c, best, n)
            &&& forall|s: Species|
                index_of(s) < index_of(best) ==> #[trigger] votes(clusters, labels, c, s, n)
                    < votes(clusters, labels, c, best, n)
        },
    }
}

/// A cluster's members split by label: every member has exactly one label.
pub proof fn lemma_members_split_by_label(clusters: Seq<usize>, labels: Seq<Species>, c: int, k: int)
    requires
        0 <= k <= clusters.len(),
        clusters.len() == labels.len(),
    ensures
        members(clusters, c, k) == votes(clusters, labels, c, Species::Explorer, k) + votes(
            clusters,
            labels,
            c,
            Species::Diplomat,
            k,
        ) + votes(clusters, labels, c, Species::Marksman, k) + votes(
            clusters,
            labels,
            c,
            Species::Climber,
            k,
        ) + votes(clusters, labels, c, Species::Prospector, k),
    decreases k,
{
    if k > 0 {
        lemma_members_split_by_label(clusters, labels, c, k - 1);
    }
}

/// Checks that there are at least as many profiles as clusters requested.
pub fn require_enough_profiles(k: usize, n_profiles: usize) -> (r: Result<(), String>)
    ensures
        r is Ok <==> n_profiles >= k,
        r matches Err(m) ==> m@ == too_few_profiles_message(k as nat, n_profiles as nat),
{
    if n_profiles < k {
        let mut m = String::from_str("Need at least ");
        push_decimal(&mut m, k);
        m.append(" profiles for k=");
        push_decimal(&mut m, k);
        m.append(", got ");
        push_decimal(&mut m, n_profiles);
        assert(m@ =~= too_few_profiles_message(k as nat, n_profiles as nat));
        return Err(m);
    }
    Ok(())
}

/// Number of members of each of the clusters `0..k`.
pub fn cluster_sizes(assignments: &[usize], k: usize) -> (r: Vec<usize>)
    ensures
        r@.len() == k,
        forall|c: int|
            0 <= c < k ==> #[trigger] r@[c] == members(assignments@, c, assignments@.len() as int),
{
    let mut r: Vec<usize> = Vec::new();
    let mut c: usize = 0;
    while c < k
        invariant
            c <= k,
            r@.len() == c,
            forall|d: int|
                0 <= d < c ==> #[trigger] r@[d] == members(assignments@, d, assignments@.len() as int),
        decreases k - c,
    {
        let mut count: usize = 0;
        let mut i: usize = 0;
        while i < assignments.len()
            invariant
                i <= assignments@.len(),
                count == members(assignments@, c as int, i as int),
                count <= i,
            decreases assignments@.len() - i,
        {
            if assignments[i] == c {
                count = count + 1;
            }
            i = i + 1;
        }
        r.push(count);
        c = c + 1;
    }
    r
}

fn count_votes(clusters: &[usize], labels: &[Species], c: usize, s: Species) -> (r: usize)
    requires
        clusters@.len() == labels@.len(),
    ensures
        r == votes(clusters@, labels@, c as int, s, clusters@.len() as int),
{
    let mut count: usize = 0;
    let mut i: usize = 0;
    while i < clusters.len()
        invariant
            clusters@.len() == labels@.len(),
            i <= clusters@.len(),
            count == votes(clusters@, labels@, c as int, s, i as int),
            count <= i,
        decreases clusters@.len() - i,
    {
        if clusters[i] == c && labels[i] == s {
            count = count + 1;
        }
        i = i + 1;
    }
    count
}

fn majority_of(clusters: &[usize], labels: &[Species], c: usize) -> (r: Option<Species>)
    requires
        clusters@.len() == labels@.len(),
    ensures
        is_majority(clusters@, labels@, c as int, r),
{
    let ghost n = clusters@.len() as int;
    let all = Species::all();
    let mut best: Option<Species> = None;
    let mut best_count: usize = 0;
    let mut j: usize = 0;
    while j < 5
        invariant
            j <= 5,
            all@ == species_order(),
            n == clusters@.len(),
            clusters@.len() == labels@.len(),
            best is None ==> best_count == 0,
            forall|jj: int|
                0 <= jj < j ==> #[trigger] votes(clusters@, labels@, c as int, species_order()[jj], n)
                    <= best_count,
            best matches Some(b) ==> {
                &&& best_count == votes(clusters@, labels@, c as int, b, n)
                &&& best_count > 0
                &&& index_of(b) < j
                &&& forall|jj: int|
                    0 <= jj < index_of(b) ==> #[trigger] votes(
                        clusters@,
                        labels@,
                        c as int,
                        species_order()[jj],
                        n,
                    ) < best_count
            },
        decreases 5 - j,
    {
        let s = all[j];
        let t = count_votes(clusters, labels, c, s);
        proof {
            lemma_order_index(j as int);
        }
        if t > best_count {
            best = Some(s);
            best_count = t;
        }
        j = j + 1;
    }
    proof {
        assert forall|s: Species| #[trigger]
            votes(clusters@, labels@, c as int, s, n) <= best_count by {
            lemma_index_round_trip(s);
        }
        if let Some(b) = best {
            assert forall|s: Species|
                index_of(s) < index_of(b) implies #[trigger] votes(
                    clusters@,
                    labels@,
                    c as int,
                    s,
                    n,
                ) < votes(clusters@, labels@, c as int, b, n) by {
                lemma_index_round_trip(s);
            }
        } else {
            assert forall|s: Species| #[trigger] votes(clusters@, labels@, c as int, s, n) == 0 by {
                lemma_index_round_trip(s);
            }
        }
    }
    best
}

/// Assign species labels to clusters `0..n_clusters` by majority vote: `clusters[i]`
/// is the cluster of profile `i` and `labels[i]` its known species.
pub fn majority_labels(clusters: &[usize], labels: &[Species], n_clusters: usize) -> (r: Result<
    Vec<Option<Species>>,
    String,
>)
    ensures
        r is Err <==> clusters@.len() != labels@.len(),
        r matches Err(m) ==> m@ == length_mismatch_message(),
        r matches Ok(v) ==> {
            &&& v@.len() == n_clusters
            &&& forall|c: int|
                0 <= c < n_clusters ==> #[trigger] is_majority(clusters@, labels@, c, v@[c])
        },
{
    if clusters.len() != labels.len() {
        proof {
            reveal_strlit("profiles and labels must have same length");
        }
        return Err(String::from_str("profiles and labels must have same length"));
    }
    let mut v: Vec<Option<Species>> = Vec::new();
    let mut c: usize = 0;
    while c < n_clusters
        invariant
            clusters@.len() == labels@.len(),
            c <= n_clusters,
            v@.len() == c,
            forall|d: int| 0 <= d < c ==> #[trigger] is_majority(clusters@, labels@, d, v@[d]),
        decreases n_clusters - c,
    {
        let m = majority_of(clusters, labels, c);
        v.push(m);
        c = c + 1;
    }
    Ok(v)
}


proof fn lemma_indicator_sum(x: int, k: int)
    requires
        0 <= x < k,
    ensures
        sum_first(|c: int| if x == c { 1nat } else { 0nat }, k) == 1,
    decreases k,
{
    let f = |c: int| if x == c { 1nat } else { 0nat };
    if k - 1 > x {
        lemma_indicator_sum(x, k - 1);
    } else {
        lemma_indicator_zero(x, k - 1);
    }
}

proof fn lemma_indicator_zero(x: int, k: int)
    requires
        k <= x,
    ensures
        sum_first(|c: int| if x == c { 1nat } else { 0nat }, k) == 0,
    decreases k,
{
    if k > 0 {
        lemma_indicator_zero(x, k - 1);
    }
}

/// When every profile is assigned to one of the clusters `0..k`, the cluster
/// sizes add up to the number of profiles: each profile is counted exactly once.
pub proof fn lemma_cluster_sizes_partition(assignments: Seq<usize>, k: int, n: int)
    requires
        0 <= n <= assignments.len(),
        forall|i: int| 0 <= i < n ==> #[trigger] assignments[i] < k,
    ensures
        sum_first(|c: int| members(assignments, c, n), k) == n,
    decreases n,
{
    if n == 0 {
        lemma_zero_sizes(assignments, k);
    } else {
        lemma_cluster_sizes_partition(assignments, k, n - 1);
        let x = assignments[n - 1] as int;
        lemma_indicator_sum(x, k);
        lemma_sum_split(
            |c: int| members(assignments, c, n - 1),
            |c: int| if x == c { 1nat } else { 0nat },
            |c: int| members(assignments, c, n),
            k,
        );
    }
}

proof fn lemma_zero_sizes(assignments: Seq<usize>, k: int)
    ensures
        sum_first(|c: int| members(assignments, c, 0), k) == 0,
    decreases k,
{
    if k > 0 {
        lemma_zero_sizes(assignments, k - 1);
    }
}

proof fn lemma_sum_split(f: spec_fn(int) -> nat, g: spec_fn(int) -> nat, h: spec_fn(int) -> nat, k: int)
    requires
        forall|c: int| 0 <= c < k ==> #[trigger] h(c) == f(c) + g(c),
    ensures
        sum_first(h, k) == sum_first(f, k) + sum_first(g, k),
    decreases k,
{
    if k > 0 {
        lemma_sum_split(f, g, h, k - 1);
    }
}

/// A cluster gets a label by majority vote exactly when it has members.
pub proof fn lemma_labelled_iff_populated(
    clusters: Seq<usize>,
    labels: Seq<Species>,
    c: int,
    label: Option<Species>,
)
    requires
        clusters.len() == labels.len(),
        is_majority(clusters, labels, c, label),
    ensures
        label is Some <==> members(clusters, c, clusters.len() as int) > 0,
{
    lemma_members_split_by_label(clusters, labels, c, clusters.len() as int);
    let n = clusters.len() as int;
    if label is None {
        assert(votes(clusters, labels, c, Species::Explorer, n) == 0);
        assert(votes(clusters, labels, c, Species::Diplomat, n) == 0);
        assert(votes(clusters, labels, c, Species::Marksman, n) == 0);
        assert(votes(clusters, labels, c, Species::Climber, n) == 0);
        assert(votes(clusters, labels, c, Species::Prospector, n) == 0);
    } else {
        let b = label->0;
        match b {
            Species::Explorer => {},
            Species::Diplomat => {},
            Species::Marksman => {},
            Species::Climber => {},
            Species::Prospector => {},
        }
    }
}

} // verus!

verus! {

/// Counting votes member by member: a position in cluster `c` labelled `s` adds
/// one vote for `s`; a position outside `c`, or labelled with another species,
/// adds nothing.
pub proof fn lemma_votes_step(clusters: Seq<usize>, labels: Seq<Species>, c: int, s: Species, k: int)
    requires
        0 <= k,
    ensures
        clusters[k] == c && labels[k] == s ==> votes(clusters, labels, c, s, k + 1) == votes(
            clusters,
            labels,
            c,
            s,
            k,
        ) + 1,
        clusters[k] != c || labels[k] != s ==> votes(clusters, labels, c, s, k + 1) == votes(
            clusters,
            labels,
            c,
            s,
            k,
        ),
{
}

/// Counting members position by position: a position in cluster `c` adds one
/// member, any other position adds nothing.
pub proof fn lemma_members_step(clusters: Seq<usize>, c: int, k: int)
    requires
        0 <= k,
    ensures
        clusters[k] == c ==> members(clusters, c, k + 1) == members(clusters, c, k) + 1,
        clusters[k] != c ==> members(clusters, c, k + 1) == members(clusters, c, k),
{
}

/// In a cluster all of whose members carry label `s`, every member is a vote
/// for `s` and no other species gets a vote.
pub proof fn lemma_unanimous_votes(clusters: Seq<usize>, labels: Seq<Species>, c: int, s: Species, k: int)
    requires
        0 <= k <= clusters.len(),
        clusters.len() == labels.len(),
        forall|i: int| 0 <= i < k && #[trigger] clusters[i] == c ==> labels[i] == s,
    ensures
        votes(clusters, labels, c, s, k) == members(clusters, c, k),
        forall|t: Species| t != s ==> #[trigger] votes(clusters, labels, c, t, k) == 0,
    decreases k,
{
    if k > 0 {
        lemma_unanimous_votes(clusters, labels, c, s, k - 1);
        assert forall|t: Species| t != s implies #[trigger] votes(clusters, labels, c, t, k) == 0 by {
            assert(votes(clusters, labels, c, t, k - 1) == 0);
        }
    }
}

/// A populated cluster whose members all carry the same label gets that label
/// by majority vote.
pub proof fn lemma_unanimous_cluster_label(
    clusters: Seq<usize>,
    labels: Seq<Species>,
    c: int,
    s: Species,
    label: Option<Species>,
)
    requires
        clusters.len() == labels.len(),
        members(clusters, c, clusters.len() as int) > 0,
        forall|i: int| 0 <= i < clusters.len() && #[trigger] clusters[i] == c ==> labels[i] == s,
        is_majority(clusters, labels, c, label),
    ensures
        label == Some(s),
{
    let n = clusters.len() as int;
    lemma_unanimous_votes(clusters, labels, c, s, n);
    lemma_labelled_iff_populated(clusters, labels, c, label);
    let b = label->0;
    if b != s {
        assert(votes(clusters, labels, c, b, n) == 0);
    }
}

} // verus!
