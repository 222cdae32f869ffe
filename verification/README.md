# ternary_classifier

Species classification for ternary agents, with its decision logic verified in Verus.

- `src/` is the verified library: the species catalogue (`species`), the
  rule-based classification decision over threshold comparisons
  (`classifier`), the confusion matrix with its counts, invariant and text
  layout (`confusion_matrix`, `text`), the seeded Fisher-Yates shuffle used by
  permutation importance (`shuffle`), cluster sizes and majority labelling
  (`clustering`), and the species pairs and members behind decision boundaries
  (`boundary`).
- `app/` holds the floating-point side: behavior profiles, threshold
  comparisons, k-means iterations, hyperplanes, accuracy ratios and importance
  scores. It calls the library for every decision on plain values.
