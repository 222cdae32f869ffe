use vstd::prelude::*;

verus! {

broadcast use vstd::seq_lib::to_multiset_update;

/// Multiplier of the linear congruential generator that drives shuffles.
pub const LCG_MULTIPLIER: u64 = 6364136223846793005;

/// Increment of the linear congruential generator that drives shuffles.
pub const LCG_INCREMENT: u64 = 1442695040888963407;

/// The generator's next state: `state * LCG_MULTIPLIER + LCG_INCREMENT` modulo 2^64.
pub open spec fn lcg_next(state: u64) -> u64 {
    ((state as int * LCG_MULTIPLIER as int + LCG_INCREMENT as int) % 0x1_0000_0000_0000_0000) as u64
}

/// The position that a Fisher-Yates step at index `i` swaps with, drawn from the
/// generator state: the state's top 31 bits, reduced modulo `i + 1`.
pub open spec fn draw_position(state: u64, i: nat) -> int {
    (state as int / 0x2_0000_0000) % (i as int + 1)
}

/// `s` with the elements at `i` and `j` exchanged.
pub open spec fn swap_at<T>(s: Seq<T>, i: int, j: int) -> Seq<T> {
    s.update(i, s[j]).update(j, s[i])
}

/// The Fisher-Yates passes for indices `i, i - 1, ..., 1`, starting from generator
/// state `state`.
pub open spec fn fisher_yates<T>(s: Seq<T>, state: u64, i: nat) -> Seq<T>
    decreases i,
{
    if i == 0 {
        s
    } else {
        let next = lcg_next(state);
        fisher_yates(swap_at(s, i as int, draw_position(next, i)), next, (i - 1) as nat)
    }
}

/// The seeded shuffle of a column: sequences of length 0 or 1 stay as they are;
/// longer ones go through the Fisher-Yates passes from the last index down to 1.
pub open spec fn seeded_shuffle<T>(s: Seq<T>, seed: u64) -> Seq<T> {
    if s.len() <= 1 {
        s
    } else {
        fisher_yates(s, seed, (s.len() - 1) as nat)
    }
}

/// The seed of one shuffle round: `base + feature + round` modulo 2^64.
pub open spec fn round_seed(base: u64, feature: int, round: int) -> u64 {
    ((base as int + feature + round) % 0x1_0000_0000_0000_0000) as u64
}

proof fn lemma_swap_keeps_multiset<T>(s: Seq<T>, i: int, j: int)
    requires
        0 <= i < s.len(),
        0 <= j < s.len(),
    ensures
        swap_at(s, i, j).to_multiset() =~= s.to_multiset(),
        swap_at(s, i, j).len() == s.len(),
{
    broadcast use vstd::multiset::group_multiset_axioms, vstd::seq_lib::group_to_multiset_ensures;
    let a = s[i];
    let b = s[j];
    let m = s.to_multiset();
    let s1 = s.update(i, b);
    assert(s1[j] == b);
    assert(s.contains(a));
    assert(m.count(a) > 0);
    let m1 = m.insert(b).remove(a);
    assert(s1.to_multiset() == m1);
    let m2 = m1.insert(a).remove(b);
    assert(s1.update(j, a).to_multiset() == m2);
    assert(m2 =~= m);
}

/// Every Fisher-Yates pass rearranges the sequence: it keeps its length and
/// each element as often as it was there.
pub proof fn lemma_fisher_yates_permutes<T>(s: Seq<T>, state: u64, i: nat)
    requires
        i < s.len(),
    ensures
        fisher_yates(s, state, i).len() == s.len(),
        fisher_yates(s, state, i).to_multiset() =~= s.to_multiset(),
    decreases i,
{
    if i > 0 {
        let next = lcg_next(state);
        let j = draw_position(next, i);
        lemma_swap_keeps_multiset(s, i as int, j);
        lemma_fisher_yates_permutes(swap_at(s, i as int, j), next, (i - 1) as nat);
    }
}

/// A seeded shuffle is a permutation of its input: same length, same elements
/// with the same multiplicities, whatever the seed.
pub proof fn lemma_seeded_shuffle_permutes<T>(s: Seq<T>, seed: u64)
    ensures
        seeded_shuffle(s, seed).len() == s.len(),
        seeded_shuffle(s, seed).to_multiset() =~= s.to_multiset(),
{
    if s.len() > 1 {
        lemma_fisher_yates_permutes(s, seed, (s.len() - 1) as nat);
    }
}

/// The seed for shuffling feature `feature` in round `round`, from the base seed
/// (wrapping addition, as the generator's arithmetic is modulo 2^64).
pub fn shuffle_seed(base: u64, feature: usize, round: usize) -> (r: u64)
    ensures
        r == round_seed(base, feature as int, round as int),
{
    let f: u64 = feature as u64;
    let rd: u64 = round as u64;
    let a: u64 = base.wrapping_add(f);
    let r: u64 = a.wrapping_add(rd);
    assert(r as int == (base as int + f as int + rd as int) % 0x1_0000_0000_0000_0000) by {
        vstd::arithmetic::div_mod::lemma_add_mod_noop(
            base as int + f as int,
            rd as int,
            0x1_0000_0000_0000_0000,
        );
        vstd::arithmetic::div_mod::lemma_mod_twice(rd as int, 0x1_0000_0000_0000_0000);
        vstd::arithmetic::div_mod::lemma_small_mod(rd as nat, 0x1_0000_0000_0000_0000);
        vstd::arithmetic::div_mod::lemma_small_mod(a as nat, 0x1_0000_0000_0000_0000);
        vstd::arithmetic::div_mod::lemma_small_mod(r as nat, 0x1_0000_0000_0000_0000);
        vstd::arithmetic::div_mod::lemma_add_mod_noop(
            base as int,
            f as int,
            0x1_0000_0000_0000_0000,
        );
    }
    r
}

fn lcg_advance(state: u64) -> (r: u64)
    ensures
        r == lcg_next(state),
{
    let m: u64 = state.wrapping_mul(LCG_MULTIPLIER);
    let r: u64 = m.wrapping_add(LCG_INCREMENT);
    assert(r as int == (state as int * LCG_MULTIPLIER as int + LCG_INCREMENT as int)
        % 0x1_0000_0000_0000_0000) by {
        vstd::arithmetic::div_mod::lemma_add_mod_noop(
            state as int * LCG_MULTIPLIER as int,
            LCG_INCREMENT as int,
            0x1_0000_0000_0000_0000,
        );
        vstd::arithmetic::div_mod::lemma_small_mod(LCG_INCREMENT as nat, 0x1_0000_0000_0000_0000);
        vstd::arithmetic::div_mod::lemma_small_mod(m as nat, 0x1_0000_0000_0000_0000);
        vstd::arithmetic::div_mod::lemma_small_mod(r as nat, 0x1_0000_0000_0000_0000);
    }
    r
}

/// Seeded pseudo-random permutation of a column of values (Fisher-Yates driven
/// by a linear congruential generator).
pub fn shuffle_values<T: Copy>(values: &mut Vec<T>, seed: u64)
    ensures
        final(values)@ == seeded_shuffle(old(values)@, seed),
        final(values)@.to_multiset() =~= old(values)@.to_multiset(),
{
    proof {
        lemma_seeded_shuffle_permutes(old(values)@, seed);
    }
    let n = values.len();
    if n <= 1 {
        return;
    }
    let mut state: u64 = seed;
    let mut i: usize = n - 1;
    while i > 0
        invariant
            values@.len() == n,
            i < n,
            fisher_yates(values@, state, i as nat) == seeded_shuffle(old(values)@, seed),
        decreases i,
    {
        state = lcg_advance(state);
        let high: u64 = state >> 33u64;
        assert(high == state / 0x2_0000_0000u64) by (bit_vector)
            requires
                high == state >> 33u64,
        ;
        assert(high < 0x8000_0000u64) by (bit_vector)
            requires
                high == state / 0x2_0000_0000u64,
        ;
        let j: usize = (high as usize) % (i + 1);
        let ghost before = values@;
        let a = values[i];
        let b = values[j];
        values.set(i, b);
        values.set(j, a);
        assert(values@ =~= swap_at(before, i as int, j as int));
        i = i - 1;
    }
}

} // verus!

verus! {

/// Fisher-Yates passes down to index `i` never touch the positions above `i`.
pub proof fn lemma_fisher_yates_keeps_tail<T>(s: Seq<T>, state: u64, i: nat)
    requires
        i < s.len(),
    ensures
        forall|k: int| i < k < s.len() ==> #[trigger] fisher_yates(s, state, i)[k] == s[k],
    decreases i,
{
    if i > 0 {
        let next = lcg_next(state);
        let j = draw_position(next, i);
        let t = swap_at(s, i as int, j);
        lemma_fisher_yates_keeps_tail(t, next, (i - 1) as nat);
        lemma_fisher_yates_permutes(t, next, (i - 1) as nat);
    }
}

/// A column of two or more values goes through every Fisher-Yates pass, from the
/// last index down to 1: the first pass advances the generator once from the
/// seed and swaps the last value with the one at the drawn position, and the
/// remaining passes continue from the advanced state.
pub proof fn lemma_shuffle_runs_every_pass<T>(s: Seq<T>, seed: u64)
    requires
        s.len() >= 2,
    ensures
        seeded_shuffle(s, seed) == fisher_yates(s, seed, (s.len() - 1) as nat),
        seeded_shuffle(s, seed) == fisher_yates(
            swap_at(s, s.len() - 1, draw_position(lcg_next(seed), (s.len() - 1) as nat)),
            lcg_next(seed),
            (s.len() - 2) as nat,
        ),
{
}

/// In a shuffled column of two or more values, the last position holds the value
/// found at the position drawn by the generator's first step from the seed
/// (which may be the last position itself).
pub proof fn lemma_shuffle_last_value<T>(s: Seq<T>, seed: u64)
    requires
        s.len() >= 2,
    ensures
        0 <= draw_position(lcg_next(seed), (s.len() - 1) as nat) < s.len(),
        seeded_shuffle(s, seed)[s.len() - 1] == s[draw_position(
            lcg_next(seed),
            (s.len() - 1) as nat,
        )],
{
    let n = s.len();
    let next = lcg_next(seed);
    let j = draw_position(next, (n - 1) as nat);
    let t = swap_at(s, n - 1, j);
    lemma_shuffle_runs_every_pass(s, seed);
    lemma_fisher_yates_keeps_tail(t, next, (n - 2) as nat);
    assert(t[n - 1] == s[j]);
    assert(fisher_yates(t, next, (n - 2) as nat)[n - 1] == t[n - 1]);
}

/// The generator step is the affine map `x -> x * LCG_MULTIPLIER + LCG_INCREMENT`
/// reduced modulo 2^64, and a drawn position lies in `0..=i`.
pub proof fn lemma_generator_step(state: u64, i: nat)
    ensures
        lcg_next(state) as int == (state as int * 6364136223846793005 + 1442695040888963407)
            % 0x1_0000_0000_0000_0000,
        0 <= draw_position(state, i) <= i,
{
}

} // verus!
