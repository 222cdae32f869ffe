use ternary_classifier::{count_agreements, decide_batch, decide_species, Species, ThresholdChecks};

// Default thresholds of the rule-based classifier.
const HIGH_ENTROPY: f64 = 1.2;
const EXPLORE_THRESHOLD: f64 = 0.4;
const COOPERATE_THRESHOLD: f64 = 0.5;
const DEFECT_THRESHOLD: f64 = 0.5;
const WIN_THRESHOLD: f64 = 0.55;

fn checks(explore: f64, cooperate: f64, defect: f64, win: f64, entropy: f64) -> ThresholdChecks {
    ThresholdChecks {
        cooperates: cooperate >= COOPERATE_THRESHOLD,
        defects: defect >= DEFECT_THRESHOLD,
        wins: win >= WIN_THRESHOLD,
        explores: explore >= EXPLORE_THRESHOLD,
        low_entropy: entropy < HIGH_ENTROPY,
    }
}

#[test]
fn test_classify_diplomat() {
    let c = checks(0.1, 0.6, 0.3, 0.5, 0.9);
    assert_eq!(decide_species(&c), Species::Diplomat);
}

#[test]
fn test_classify_climber() {
    let c = checks(0.1, 0.2, 0.7, 0.7, 0.8);
    assert_eq!(decide_species(&c), Species::Climber);
}

#[test]
fn test_classify_explorer() {
    let c = checks(0.5, 0.25, 0.25, 0.4, 1.3);
    assert_eq!(decide_species(&c), Species::Explorer);
}

#[test]
fn test_classify_marksman() {
    let c = checks(0.2, 0.35, 0.45, 0.7, 0.8);
    assert_eq!(decide_species(&c), Species::Marksman);
}

#[test]
fn test_classify_prospector() {
    // Moderate everything, high entropy
    let c = checks(0.3, 0.3, 0.4, 0.4, 1.5);
    assert_eq!(decide_species(&c), Species::Prospector);
}

#[test]
fn test_classify_batch() {
    let batch = vec![
        checks(0.1, 0.6, 0.3, 0.5, 0.9),   // Diplomat
        checks(0.5, 0.25, 0.25, 0.4, 1.3), // Explorer
    ];
    let results = decide_batch(&batch);
    assert_eq!(results.len(), 2);
    assert_eq!(results[0], (0, Species::Diplomat));
    assert_eq!(results[1], (1, Species::Explorer));
}

#[test]
fn readme_quick_start_is_diplomat() {
    let c = checks(0.1, 0.7, 0.2, 0.5, 0.8);
    assert_eq!(decide_species(&c), Species::Diplomat);
}

#[test]
fn cooperation_takes_priority() {
    let all_true = ThresholdChecks {
        cooperates: true,
        defects: true,
        wins: true,
        explores: true,
        low_entropy: true,
    };
    assert_eq!(decide_species(&all_true), Species::Diplomat);
    let no_win = ThresholdChecks { cooperates: false, defects: true, wins: false, explores: false, low_entropy: true };
    assert_eq!(decide_species(&no_win), Species::Prospector);
}

#[test]
fn empty_batch() {
    let results = decide_batch(&[]);
    assert!(results.is_empty());
}

#[test]
fn agreements_are_counted_over_common_prefix() {
    let predicted = [Species::Explorer, Species::Diplomat, Species::Climber];
    let labels = [Species::Explorer, Species::Climber, Species::Climber, Species::Marksman];
    assert_eq!(count_agreements(&predicted, &labels), 2);
    assert_eq!(count_agreements(&[], &labels), 0);
}
