use ternary_classifier::{boundary_pairs, members_of, Species};

#[test]
fn test_compute_boundaries() {
    let labels = [Species::Diplomat, Species::Explorer, Species::Climber];
    let pairs = boundary_pairs(&labels);
    assert!(!pairs.is_empty());
    // Should have boundaries for Diplomat-Explorer, Diplomat-Climber, Explorer-Climber
    assert_eq!(pairs.len(), 3);
    assert_eq!(
        pairs,
        vec![
            (Species::Explorer, Species::Diplomat),
            (Species::Explorer, Species::Climber),
            (Species::Diplomat, Species::Climber),
        ]
    );
}

#[test]
fn all_species_give_all_pairs() {
    let pairs = boundary_pairs(Species::all());
    assert_eq!(pairs.len(), 10);
    assert_eq!(pairs[9], (Species::Climber, Species::Prospector));
}

#[test]
fn single_species_gives_no_pair() {
    assert!(boundary_pairs(&[Species::Marksman, Species::Marksman]).is_empty());
    assert!(boundary_pairs(&[]).is_empty());
}

#[test]
fn members_are_positions_in_order() {
    let labels = [Species::Diplomat, Species::Explorer, Species::Diplomat, Species::Climber];
    assert_eq!(members_of(&labels, Species::Diplomat), vec![0, 2]);
    assert_eq!(members_of(&labels, Species::Prospector), Vec::<usize>::new());
}
