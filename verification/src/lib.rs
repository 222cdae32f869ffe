//! Species classification for ternary agents: the verified core.
//!
//! Floating-point feature vectors stay with the callers of this crate; what is
//! proved here is everything that decides on plain values: the species
//! catalogue, the rule-based classification decision, the confusion matrix
//! and its counts, the seeded column shuffle used by permutation importance,
//! and the integer bookkeeping of clustering and decision boundaries.

pub mod boundary;
pub mod classifier;
pub mod clustering;
pub mod confusion_matrix;
pub mod features;
pub mod shuffle;
pub mod species;
pub mod text;

pub use boundary::{boundary_pairs, members_of};
pub use classifier::{count_agreements, decide_batch, decide_species, ThresholdChecks};
pub use clustering::{cluster_sizes, majority_labels, require_enough_profiles};
pub use confusion_matrix::ConfusionMatrix;
pub use features::{feature_names, FEATURE_COUNT};
pub use shuffle::{shuffle_seed, shuffle_values};
pub use species::Species;
