use ternary_classifier::{ConfusionMatrix, Species};

fn ratio(num: usize, den: usize) -> f64 {
    if den == 0 {
        0.0
    } else {
        num as f64 / den as f64
    }
}

#[test]
fn test_empty_matrix() {
    let cm = ConfusionMatrix::new();
    assert_eq!(cm.total(), 0);
    assert!((ratio(cm.correct(), cm.total()) - 0.0).abs() < 1e-9);
}

#[test]
fn test_perfect_classification() {
    let mut cm = ConfusionMatrix::new();
    for sp in Species::all() {
        cm.record(*sp, *sp);
    }
    assert_eq!(cm.total(), 5);
    assert!((ratio(cm.correct(), cm.total()) - 1.0).abs() < 1e-9);
    for sp in Species::all() {
        let tp = cm.get(*sp, *sp);
        assert!((ratio(tp, cm.predicted_count(*sp)) - 1.0).abs() < 1e-9);
        assert!((ratio(tp, cm.actual_count(*sp)) - 1.0).abs() < 1e-9);
    }
}

#[test]
fn test_misclassification() {
    let mut cm = ConfusionMatrix::new();
    cm.record(Species::Explorer, Species::Explorer);
    cm.record(Species::Explorer, Species::Diplomat);
    // Explorer: precision = 1/(1+0) = 1.0, recall = 1/2 = 0.5
    let tp = cm.get(Species::Explorer, Species::Explorer);
    assert!((ratio(tp, cm.predicted_count(Species::Explorer)) - 1.0).abs() < 1e-9);
    assert!((ratio(tp, cm.actual_count(Species::Explorer)) - 0.5).abs() < 1e-9);
    assert_eq!(cm.get(Species::Explorer, Species::Diplomat), 1);
}

#[test]
fn confusion_matrix_test_format_output() {
    let mut cm = ConfusionMatrix::new();
    cm.record(Species::Explorer, Species::Explorer);
    let accuracy = ratio(cm.correct(), cm.total());
    let output = cm.format(&format!("{:.2}", accuracy * 100.0));
    assert!(output.contains("Accuracy"));
    assert!(output.contains("Explorer"));
}

#[test]
fn format_exact_layout() {
    let mut cm = ConfusionMatrix::new();
    cm.record(Species::Explorer, Species::Explorer);
    for _ in 0..12 {
        cm.record(Species::Explorer, Species::Diplomat);
    }
    let expected = "          Predicted \u{2192}\nActual \u{2193}    Explorer  Diplomat  Marksman   ClimberProspector\nExplorer           1        12         0         0         0\nDiplomat           0         0         0         0         0\nMarksman           0         0         0         0         0\nClimber            0         0         0         0         0\nProspector         0         0         0         0         0\n\nAccuracy: 7.69%\n";
    assert_eq!(cm.format("7.69"), expected);
}

#[test]
fn record_updates_one_cell_and_total() {
    let mut cm = ConfusionMatrix::new();
    cm.record(Species::Climber, Species::Marksman);
    cm.record(Species::Climber, Species::Marksman);
    cm.record(Species::Diplomat, Species::Diplomat);
    assert_eq!(cm.total(), 3);
    assert_eq!(cm.get(Species::Climber, Species::Marksman), 2);
    assert_eq!(cm.get(Species::Marksman, Species::Climber), 0);
    assert_eq!(cm.get(Species::Diplomat, Species::Diplomat), 1);
    assert_eq!(cm.correct(), 1);
    assert_eq!(cm.actual_count(Species::Climber), 2);
    assert_eq!(cm.predicted_count(Species::Marksman), 2);
    assert_eq!(cm.predicted_count(Species::Climber), 0);
}

#[test]
fn rows_and_columns_add_up_to_total() {
    let mut cm = ConfusionMatrix::new();
    let pairs = [
        (Species::Explorer, Species::Prospector),
        (Species::Prospector, Species::Explorer),
        (Species::Marksman, Species::Marksman),
        (Species::Climber, Species::Diplomat),
    ];
    for (a, p) in pairs.iter() {
        cm.record(*a, *p);
    }
    let rows: usize = Species::all().iter().map(|s| cm.actual_count(*s)).sum();
    let cols: usize = Species::all().iter().map(|s| cm.predicted_count(*s)).sum();
    assert_eq!(rows, cm.total());
    assert_eq!(cols, cm.total());
    assert!(cm.correct() <= cm.total());
}
