use ternary_classifier::{cluster_sizes, majority_labels, require_enough_profiles, Species};

#[test]
fn test_fit_requires_enough_profiles() {
    let r = require_enough_profiles(5, 1);
    assert!(r.is_err());
}

#[test]
fn too_few_profiles_message() {
    assert_eq!(
        require_enough_profiles(5, 1),
        Err("Need at least 5 profiles for k=5, got 1".to_string())
    );
    assert_eq!(require_enough_profiles(2, 20), Ok(()));
    assert_eq!(require_enough_profiles(0, 0), Ok(()));
}

#[test]
fn sizes_count_members() {
    assert_eq!(cluster_sizes(&[0, 1, 1, 2], 3), vec![1, 2, 1]);
    assert_eq!(cluster_sizes(&[0, 0, 0], 2), vec![3, 0]);
    assert_eq!(cluster_sizes(&[], 2), vec![0, 0]);
}

#[test]
fn majority_vote_per_cluster() {
    let clusters = [0, 0, 0, 1, 1];
    let labels = [
        Species::Diplomat,
        Species::Explorer,
        Species::Diplomat,
        Species::Climber,
        Species::Climber,
    ];
    let r = majority_labels(&clusters, &labels, 3).unwrap();
    assert_eq!(r, vec![Some(Species::Diplomat), Some(Species::Climber), None]);
}

#[test]
fn majority_tie_goes_to_first_species() {
    let clusters = [0, 0];
    let labels = [Species::Prospector, Species::Diplomat];
    let r = majority_labels(&clusters, &labels, 1).unwrap();
    assert_eq!(r, vec![Some(Species::Diplomat)]);
}

#[test]
fn majority_needs_matching_lengths() {
    let r = majority_labels(&[0, 1], &[Species::Explorer], 2);
    assert_eq!(r, Err("profiles and labels must have same length".to_string()));
}
