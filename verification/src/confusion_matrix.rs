use vstd::prelude::*;
use vstd::string::StringExecFns;

use crate::species::{index_of, lemma_index_round_trip, lemma_order_index, name_of, species_order, Species};
use crate::text::{
    concat_first, decimal, pad_left, pad_right, push_decimal, push_padded_left,
    push_padded_right,
};

verus! {

/// Sum of `f(0) + f(1) + ... + f(k - 1)`.
pub open spec fn sum_first(f: spec_fn(int) -> nat, k: int) -> nat
    decreases k,
{
    if k <= 0 {
        0
    } else {
        sum_first(f, k - 1) + f(k - 1)
    }
}

proof fn lemma_sum_bump(f: spec_fn(int) -> nat, g: spec_fn(int) -> nat, k: int, m: int)
    requires
        0 <= m < k,
        g(m) == f(m) + 1,
        forall|i: int| 0 <= i < k && i != m ==> #[trigger] g(i) == f(i),
    ensures
        sum_first(g, k) == sum_first(f, k) + 1,
    decreases k,
{
    if k - 1 > m {
        lemma_sum_bump(f, g, k - 1, m);
    } else {
        lemma_sum_same(f, g, k - 1);
    }
}

proof fn lemma_sum_same(f: spec_fn(int) -> nat, g: spec_fn(int) -> nat, k: int)
    requires
        forall|i: int| 0 <= i < k ==> #[trigger] g(i) == f(i),
    ensures
        sum_first(g, k) == sum_first(f, k),
    decreases k,
{
    if k > 0 {
        lemma_sum_same(f, g, k - 1);
    }
}

proof fn lemma_sum_monotone(f: spec_fn(int) -> nat, g: spec_fn(int) -> nat, k: int)
    requires
        forall|i: int| 0 <= i < k ==> #[trigger] f(i) <= g(i),
    ensures
        sum_first(f, k) <= sum_first(g, k),
    decreases k,
{
    if k > 0 {
        lemma_sum_monotone(f, g, k - 1);
    }
}

proof fn lemma_sum_prefix(f: spec_fn(int) -> nat, j: int, k: int)
    requires
        j <= k,
    ensures
        sum_first(f, j) <= sum_first(f, k),
    decreases k - j,
{
    if j < k {
        lemma_sum_prefix(f, j, k - 1);
    }
}

proof fn lemma_sum_term(f: spec_fn(int) -> nat, m: int, k: int)
    requires
        0 <= m < k,
    ensures
        f(m) <= sum_first(f, k),
{
    lemma_sum_prefix(f, m + 1, k);
}

/// Confusion matrix for evaluating species classifier accuracy.
///
/// Tracks predicted vs actual species classifications: one counter per
/// (actual, predicted) pair, plus the number of recorded samples.
#[derive(Debug, Clone)]
pub struct ConfusionMatrix {
    /// Row-major 5x5 counters: row = actual, column = predicted.
    counts: Vec<usize>,
    /// Total samples.
    total: usize,
}

impl ConfusionMatrix {
    /// Number of recorded samples whose actual species is `actual` and whose
    /// predicted species is `predicted`.
    pub closed spec fn cell(&self, actual: Species, predicted: Species) -> nat {
        self.counts@[5 * index_of(actual) + index_of(predicted)] as nat
    }

    /// Number of recorded samples.
    pub closed spec fn total_count(&self) -> nat {
        self.total as nat
    }

    /// Samples whose actual species is `actual` (a row of the matrix).
    pub open spec fn actual_total(&self, actual: Species) -> nat {
        sum_first(|j: int| self.cell(actual, species_order()[j]), 5)
    }

    /// Samples predicted as `predicted` (a column of the matrix).
    pub open spec fn predicted_total(&self, predicted: Species) -> nat {
        sum_first(|i: int| self.cell(species_order()[i], predicted), 5)
    }

    /// Correctly classified samples (the diagonal of the matrix).
    pub open spec fn correct_total(&self) -> nat {
        sum_first(|i: int| self.cell(species_order()[i], species_order()[i]), 5)
    }

    /// Well-formedness: the total is the sum of all counters.
    pub closed spec fn wf(&self) -> bool {
        &&& self.counts@.len() == 25
        &&& self.total_count() == sum_first(|i: int| self.actual_total(species_order()[i]), 5)
    }
}


/// Every counter, row, column and the diagonal is bounded by the total.
pub proof fn lemma_counts_bounded(m: ConfusionMatrix)
    requires
        m.wf(),
    ensures
        forall|a: Species, p: Species| #[trigger] m.cell(a, p) <= m.actual_total(a),
        forall|a: Species, p: Species| #[trigger] m.cell(a, p) <= m.predicted_total(p),
        forall|a: Species| #[trigger] m.actual_total(a) <= m.total_count(),
        forall|p: Species| #[trigger] m.predicted_total(p) <= m.total_count(),
        m.correct_total() <= m.total_count(),
{
    let rows = |i: int| m.actual_total(species_order()[i]);
    assert forall|a: Species, p: Species| #[trigger] m.cell(a, p) <= m.actual_total(a) by {
        lemma_index_round_trip(p);
        let f = |j: int| m.cell(a, species_order()[j]);
        lemma_sum_term(f, index_of(p), 5);
    }
    assert forall|a: Species, p: Species| #[trigger] m.cell(a, p) <= m.predicted_total(p) by {
        lemma_index_round_trip(a);
        let f = |i: int| m.cell(species_order()[i], p);
        lemma_sum_term(f, index_of(a), 5);
    }
    assert forall|a: Species| #[trigger] m.actual_total(a) <= m.total_count() by {
        lemma_index_round_trip(a);
        lemma_sum_term(rows, index_of(a), 5);
    }
    assert forall|p: Species| #[trigger] m.predicted_total(p) <= m.total_count() by {
        let col = |i: int| m.cell(species_order()[i], p);
        assert forall|i: int| 0 <= i < 5 implies #[trigger] col(i) <= rows(i) by {
            let f = |j: int| m.cell(species_order()[i], species_order()[j]);
            lemma_order_index(i);
            lemma_index_round_trip(p);
            lemma_sum_term(f, index_of(p), 5);
        }
        lemma_sum_monotone(col, rows, 5);
    }
    let diag = |i: int| m.cell(species_order()[i], species_order()[i]);
    assert forall|i: int| 0 <= i < 5 implies #[trigger] diag(i) <= rows(i) by {
        let f = |j: int| m.cell(species_order()[i], species_order()[j]);
        lemma_sum_term(f, i, 5);
    }
    lemma_sum_monotone(diag, rows, 5);
}

/// Recorded samples are counted once by their actual species and once by their
/// predicted species: the rows and the columns each add up to the total.
pub proof fn lemma_rows_and_columns_sum_to_total(m: ConfusionMatrix)
    requires
        m.wf(),
    ensures
        sum_first(|i: int| m.actual_total(species_order()[i]), 5) == m.total_count(),
        sum_first(|j: int| m.predicted_total(species_order()[j]), 5) == m.total_count(),
{
    let o = species_order();
    let rows = |i: int| m.actual_total(o[i]);
    let cols = |j: int| m.predicted_total(o[j]);
    lemma_sum_five(rows);
    lemma_sum_five(cols);
    assert forall|i: int| 0 <= i < 5 implies #[trigger] rows(i) == m.cell(o[i], o[0]) + m.cell(o[i], o[1])
        + m.cell(o[i], o[2]) + m.cell(o[i], o[3]) + m.cell(o[i], o[4]) by {
        lemma_sum_five(|j: int| m.cell(o[i], o[j]));
    }
    assert forall|j: int| 0 <= j < 5 implies #[trigger] cols(j) == m.cell(o[0], o[j]) + m.cell(o[1], o[j])
        + m.cell(o[2], o[j]) + m.cell(o[3], o[j]) + m.cell(o[4], o[j]) by {
        lemma_sum_five(|i: int| m.cell(o[i], o[j]));
    }
    assert(rows(0) + rows(1) + rows(2) + rows(3) + rows(4) == cols(0) + cols(1) + cols(2) + cols(3)
        + cols(4));
}

proof fn lemma_sum_five(f: spec_fn(int) -> nat)
    ensures
        sum_first(f, 5) == f(0) + f(1) + f(2) + f(3) + f(4),
{
    reveal_with_fuel(sum_first, 6);
}

proof fn lemma_single_change(old_m: ConfusionMatrix, new_m: ConfusionMatrix, a: Species, p: Species)
    requires
        old_m.wf(),
        new_m.counts@.len() == 25,
        new_m.cell(a, p) == old_m.cell(a, p) + 1,
        forall|x: Species, y: Species|
            (x != a || y != p) ==> #[trigger] new_m.cell(x, y) == old_m.cell(x, y),
        new_m.total_count() == old_m.total_count() + 1,
    ensures
        new_m.wf(),
{
    lemma_index_round_trip(a);
    lemma_index_round_trip(p);
    let fo = |j: int| old_m.cell(a, species_order()[j]);
    let fnew = |j: int| new_m.cell(a, species_order()[j]);
    assert forall|j: int| 0 <= j < 5 && j != index_of(p) implies #[trigger] fnew(j) == fo(j) by {
        lemma_order_index(j);
    }
    lemma_sum_bump(fo, fnew, 5, index_of(p));
    let ro = |i: int| old_m.actual_total(species_order()[i]);
    let rn = |i: int| new_m.actual_total(species_order()[i]);
    assert forall|i: int| 0 <= i < 5 && i != index_of(a) implies #[trigger] rn(i) == ro(i) by {
        lemma_order_index(i);
        let go = |j: int| old_m.cell(species_order()[i], species_order()[j]);
        let gn = |j: int| new_m.cell(species_order()[i], species_order()[j]);
        assert forall|j: int| 0 <= j < 5 implies #[trigger] gn(j) == go(j) by {}
        lemma_sum_same(go, gn, 5);
    }
    assert(rn(index_of(a)) == ro(index_of(a)) + 1);
    lemma_sum_bump(ro, rn, 5, index_of(a));
}

impl ConfusionMatrix {
    /// An empty matrix: every counter and the total are zero.
    pub fn new() -> (r: Self)
        ensures
            r.wf(),
            r.total_count() == 0,
            forall|a: Species, p: Species| #[trigger] r.cell(a, p) == 0,
    {
        let mut counts: Vec<usize> = Vec::new();
        let mut k: usize = 0;
        while k < 25
            invariant
                k <= 25,
                counts@.len() == k,
                forall|i: int| 0 <= i < k ==> #[trigger] counts@[i] == 0,
            decreases 25 - k,
        {
            counts.push(0);
            k = k + 1;
        }
        let r = ConfusionMatrix { counts, total: 0 };
        proof {
            reveal_with_fuel(sum_first, 6);
        }
        r
    }

    /// Record a prediction: the counter of (`actual`, `predicted`) and the total
    /// each grow by one; every other counter stays as it was.
    pub fn record(&mut self, actual: Species, predicted: Species)
        requires
            old(self).wf(),
            old(self).total_count() < usize::MAX,
        ensures
            final(self).wf(),
            final(self).total_count() == old(self).total_count() + 1,
            final(self).cell(actual, predicted) == old(self).cell(actual, predicted) + 1,
            forall|a: Species, p: Species|
                (a != actual || p != predicted) ==> #[trigger] final(self).cell(a, p) == old(
                    self,
                ).cell(a, p),
    {
        proof {
            lemma_counts_bounded(*self);
            assert(self.cell(actual, predicted) <= self.actual_total(actual));
            assert(self.actual_total(actual) <= self.total_count());
        }
        let k = 5 * actual.index() + predicted.index();
        let v = self.counts[k];
        self.counts.set(k, v + 1);
        self.total = self.total + 1;
        proof {
            lemma_single_change(*old(self), *self, actual, predicted);
        }
    }

    /// Get the count at (actual, predicted).
    pub fn get(&self, actual: Species, predicted: Species) -> (r: usize)
        requires
            self.wf(),
        ensures
            r == self.cell(actual, predicted),
    {
        self.counts[5 * actual.index() + predicted.index()]
    }

    /// Total number of samples.
    pub fn total(&self) -> (r: usize)
        ensures
            r == self.total_count(),
    {
        self.total
    }
}


impl ConfusionMatrix {
    /// Samples whose actual species is `species` (true positives plus false negatives).
    pub fn actual_count(&self, species: Species) -> (r: usize)
        requires
            self.wf(),
        ensures
            r == self.actual_total(species),
    {
        let ghost f = |j: int| self.cell(species, species_order()[j]);
        proof {
            lemma_counts_bounded(*self);
            assert(self.actual_total(species) <= self.total_count());
        }
        let row = species.index();
        let mut sum: usize = 0;
        let mut j: usize = 0;
        while j < 5
            invariant
                self.wf(),
                j <= 5,
                row == index_of(species),
                sum == sum_first(f, j as int),
                sum_first(f, 5) <= usize::MAX,
                f == (|j: int| self.cell(species, species_order()[j])),
            decreases 5 - j,
        {
            proof {
                lemma_order_index(j as int);
                lemma_sum_prefix(f, j + 1, 5);
            }
            sum = sum + self.counts[5 * row + j];
            j = j + 1;
        }
        sum
    }

    /// Samples predicted as `species` (true positives plus false positives).
    pub fn predicted_count(&self, species: Species) -> (r: usize)
        requires
            self.wf(),
        ensures
            r == self.predicted_total(species),
    {
        let ghost f = |i: int| self.cell(species_order()[i], species);
        proof {
            lemma_counts_bounded(*self);
            assert(self.predicted_total(species) <= self.total_count());
        }
        let col = species.index();
        let mut sum: usize = 0;
        let mut i: usize = 0;
        while i < 5
            invariant
                self.wf(),
                i <= 5,
                col == index_of(species),
                sum == sum_first(f, i as int),
                sum_first(f, 5) <= usize::MAX,
                f == (|i: int| self.cell(species_order()[i], species)),
            decreases 5 - i,
        {
            proof {
                lemma_order_index(i as int);
                lemma_sum_prefix(f, i + 1, 5);
            }
            sum = sum + self.counts[5 * i + col];
            i = i + 1;
        }
        sum
    }

    /// Correctly classified samples (the diagonal).
    pub fn correct(&self) -> (r: usize)
        requires
            self.wf(),
        ensures
            r == self.correct_total(),
    {
        let ghost f = |i: int| self.cell(species_order()[i], species_order()[i]);
        proof {
            lemma_counts_bounded(*self);
        }
        let mut sum: usize = 0;
        let mut i: usize = 0;
        while i < 5
            invariant
                self.wf(),
                i <= 5,
                sum == sum_first(f, i as int),
                sum_first(f, 5) <= usize::MAX,
                f == (|i: int| self.cell(species_order()[i], species_order()[i])),
            decreases 5 - i,
        {
            proof {
                lemma_order_index(i as int);
                lemma_sum_prefix(f, i + 1, 5);
            }
            sum = sum + self.counts[5 * i + i];
            i = i + 1;
        }
        sum
    }
}


/// First two lines of the formatted matrix: the axis captions and the column
/// headings (species names right-aligned in fields of ten).
pub open spec fn format_header() -> Seq<char> {
    "          Predicted \u{2192}\nActual \u{2193}  "@ + concat_first(
        |j: int| pad_left(name_of(species_order()[j]), 10),
        5,
    ) + "\n"@
}

impl ConfusionMatrix {
    /// One formatted row: the actual species left-aligned in ten characters,
    /// then its five counters right-aligned in ten characters each.
    pub open spec fn format_row(&self, actual: Species) -> Seq<char> {
        pad_right(name_of(actual), 10) + concat_first(
            |j: int| pad_left(decimal(self.cell(actual, species_order()[j])), 10),
            5,
        ) + "\n"@
    }

    /// The whole formatted matrix, closed by the accuracy line.
    pub open spec fn formatted(&self, accuracy_percent: Seq<char>) -> Seq<char> {
        format_header() + concat_first(|i: int| self.format_row(species_order()[i]), 5)
            + "\nAccuracy: "@ + accuracy_percent + "%\n"@
    }

    /// Format the matrix as a readable string. `accuracy_percent` is the
    /// overall accuracy in percent, already rendered with two decimals; it is
    /// written on the closing line.
    pub fn format(&self, accuracy_percent: &str) -> (r: String)
        requires
            self.wf(),
        ensures
            r@ == self.formatted(accuracy_percent@),
    {
        let names = Species::all();
        let mut s = String::from_str("          Predicted \u{2192}\nActual \u{2193}  ");
        let ghost heads = |j: int| pad_left(name_of(species_order()[j]), 10);
        let mut j: usize = 0;
        while j < 5
            invariant
                j <= 5,
                names@ == species_order(),
                heads == (|j: int| pad_left(name_of(species_order()[j]), 10)),
                s@ == "          Predicted \u{2192}\nActual \u{2193}  "@ + concat_first(heads, j as int),
            decreases 5 - j,
        {
            push_padded_left(&mut s, names[j].name(), 10);
            j = j + 1;
            assert(s@ =~= "          Predicted \u{2192}\nActual \u{2193}  "@ + concat_first(heads, j as int));
        }
        s.append("\n");
        assert(s@ == format_header());
        let ghost rows = |i: int| self.format_row(species_order()[i]);
        let mut i: usize = 0;
        while i < 5
            invariant
                self.wf(),
                i <= 5,
                names@ == species_order(),
                rows == (|i: int| self.format_row(species_order()[i])),
                s@ == format_header() + concat_first(rows, i as int),
            decreases 5 - i,
        {
            let ghost before = s@;
            let sp = names[i];
            let ghost cells = |j: int| pad_left(decimal(self.cell(sp, species_order()[j])), 10);
            push_padded_right(&mut s, sp.name(), 10);
            let mut j: usize = 0;
            while j < 5
                invariant
                    self.wf(),
                    i < 5,
                    j <= 5,
                    sp == species_order()[i as int],
                    cells == (|j: int| pad_left(decimal(self.cell(sp, species_order()[j])), 10)),
                    s@ == before + pad_right(name_of(sp), 10) + concat_first(cells, j as int),
                decreases 5 - j,
            {
                proof {
                    lemma_order_index(i as int);
                    lemma_order_index(j as int);
                }
                let num = crate::text::decimal_string(self.counts[5 * i + j]);
                push_padded_left(&mut s, num.as_str(), 10);
                j = j + 1;
                assert(s@ =~= before + pad_right(name_of(sp), 10) + concat_first(cells, j as int));
            }
            s.append("\n");
            i = i + 1;
            assert(s@ =~= format_header() + concat_first(rows, i as int));
        }
        s.append("\nAccuracy: ");
        s.append(accuracy_percent);
        s.append("%\n");
        s
    }
}


/// When every sample was classified correctly, each species' true positives
/// equal both its actual and its predicted count (precision and recall are
/// perfect), and the correct samples are all samples (accuracy is perfect).
pub proof fn lemma_perfect_classification(m: ConfusionMatrix)
    requires
        m.wf(),
        forall|a: Species, p: Species| a != p ==> #[trigger] m.cell(a, p) == 0,
    ensures
        forall|s: Species| #[trigger] m.actual_total(s) == m.cell(s, s),
        forall|s: Species| #[trigger] m.predicted_total(s) == m.cell(s, s),
        m.correct_total() == m.total_count(),
{
    let o = species_order();
    assert forall|s: Species| #[trigger] m.actual_total(s) == m.cell(s, s) by {
        lemma_sum_five(|j: int| m.cell(s, o[j]));
    }
    assert forall|s: Species| #[trigger] m.predicted_total(s) == m.cell(s, s) by {
        lemma_sum_five(|i: int| m.cell(o[i], s));
    }
    let rows = |i: int| m.actual_total(o[i]);
    let diag = |i: int| m.cell(o[i], o[i]);
    assert forall|i: int| 0 <= i < 5 implies #[trigger] rows(i) == diag(i) by {}
    lemma_sum_same(rows, diag, 5);
}


/// A row, a column and the diagonal written out as sums of their five counters.
pub proof fn lemma_totals_unfold(m: ConfusionMatrix)
    ensures
        forall|s: Species| #[trigger] m.actual_total(s) == m.cell(s, Species::Explorer) + m.cell(
            s,
            Species::Diplomat,
        ) + m.cell(s, Species::Marksman) + m.cell(s, Species::Climber) + m.cell(
            s,
            Species::Prospector,
        ),
        forall|s: Species| #[trigger] m.predicted_total(s) == m.cell(Species::Explorer, s) + m.cell(
            Species::Diplomat,
            s,
        ) + m.cell(Species::Marksman, s) + m.cell(Species::Climber, s) + m.cell(
            Species::Prospector,
            s,
        ),
        m.correct_total() == m.cell(Species::Explorer, Species::Explorer) + m.cell(
            Species::Diplomat,
            Species::Diplomat,
        ) + m.cell(Species::Marksman, Species::Marksman) + m.cell(Species::Climber, Species::Climber)
            + m.cell(Species::Prospector, Species::Prospector),
{
    reveal_with_fuel(sum_first, 6);
}


proof fn lemma_concat_five(f: spec_fn(int) -> Seq<char>)
    ensures
        concat_first(f, 5) == f(0) + f(1) + f(2) + f(3) + f(4),
{
    assert(concat_first(f, 0) == Seq::<char>::empty());
    assert(concat_first(f, 1) =~= f(0));
    assert(concat_first(f, 2) == concat_first(f, 1) + f(1));
    assert(concat_first(f, 3) == concat_first(f, 2) + f(2));
    assert(concat_first(f, 4) == concat_first(f, 3) + f(3));
    assert(concat_first(f, 5) == concat_first(f, 4) + f(4));
}

/// Each formatted row shows, after the actual species' name, the counters of
/// that actual species for the predicted species Explorer, Diplomat, Marksman,
/// Climber and Prospector, in that order, each right-aligned in ten characters.
pub proof fn lemma_format_row_columns(m: ConfusionMatrix, a: Species)
    ensures
        m.format_row(a) == pad_right(name_of(a), 10) + (pad_left(
            decimal(m.cell(a, Species::Explorer)),
            10,
        ) + pad_left(decimal(m.cell(a, Species::Diplomat)), 10) + pad_left(
            decimal(m.cell(a, Species::Marksman)),
            10,
        ) + pad_left(decimal(m.cell(a, Species::Climber)), 10) + pad_left(
            decimal(m.cell(a, Species::Prospector)),
            10,
        )) + "\n"@,
{
    let f = |j: int| pad_left(decimal(m.cell(a, species_order()[j])), 10);
    lemma_concat_five(f);
}

/// The column headings of the formatted matrix.
pub proof fn lemma_format_header_text()
    ensures
        format_header() == "          Predicted \u{2192}\nActual \u{2193}    Explorer  Diplomat  Marksman   ClimberProspector\n"@,
{
    reveal_strlit("          Predicted \u{2192}\nActual \u{2193}    Explorer  Diplomat  Marksman   ClimberProspector\n");
    reveal_strlit("          Predicted \u{2192}\nActual \u{2193}  ");
    reveal_strlit("\n");
    reveal_strlit("Explorer");
    reveal_strlit("Diplomat");
    reveal_strlit("Marksman");
    reveal_strlit("Climber");
    reveal_strlit("Prospector");
    let h = |j: int| pad_left(name_of(species_order()[j]), 10);
    lemma_concat_five(h);
    assert(format_header() =~= "          Predicted \u{2192}\nActual \u{2193}    Explorer  Diplomat  Marksman   ClimberProspector\n"@);
}

/// The formatted matrix: the column headings, then one row per actual species
/// in species order (Explorer, Diplomat, Marksman, Climber, Prospector), then
/// the accuracy line.
pub proof fn lemma_formatted_layout(m: ConfusionMatrix, accuracy_percent: Seq<char>)
    ensures
        m.formatted(accuracy_percent) == format_header() + (m.format_row(Species::Explorer)
            + m.format_row(Species::Diplomat) + m.format_row(Species::Marksman) + m.format_row(
            Species::Climber,
        ) + m.format_row(Species::Prospector)) + "\nAccuracy: "@ + accuracy_percent + "%\n"@,
{
    let r = |i: int| m.format_row(species_order()[i]);
    lemma_concat_five(r);
}

} // verus!
