use ternary_classifier::Species;

#[test]
fn test_species_roundtrip_index() {
    for sp in Species::all() {
        assert_eq!(Species::from_index(sp.index()), Some(*sp));
    }
}

#[test]
fn species_all_in_canonical_order() {
    let all = Species::all();
    assert_eq!(all.len(), 5);
    for (i, sp) in all.iter().enumerate() {
        assert_eq!(sp.index(), i);
    }
    assert_eq!(all[0], Species::Explorer);
    assert_eq!(all[4], Species::Prospector);
}

#[test]
fn species_from_index_out_of_range() {
    assert_eq!(Species::from_index(5), None);
    assert_eq!(Species::from_index(usize::MAX), None);
    assert_eq!(Species::from_index(2), Some(Species::Marksman));
}

#[test]
fn species_names() {
    assert_eq!(Species::Explorer.name(), "Explorer");
    assert_eq!(Species::Diplomat.name(), "Diplomat");
    assert_eq!(Species::Marksman.name(), "Marksman");
    assert_eq!(Species::Climber.name(), "Climber");
    assert_eq!(Species::Prospector.name(), "Prospector");
}
