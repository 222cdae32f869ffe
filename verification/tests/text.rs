use ternary_classifier::feature_names;
use ternary_classifier::text::decimal_string;

#[test]
fn decimal_strings() {
    assert_eq!(decimal_string(0), "0");
    assert_eq!(decimal_string(7), "7");
    assert_eq!(decimal_string(10), "10");
    assert_eq!(decimal_string(12345), "12345");
    assert_eq!(decimal_string(usize::MAX), usize::MAX.to_string());
}

#[test]
fn canonical_feature_names() {
    assert_eq!(
        feature_names(),
        vec!["explore_rate", "cooperate_rate", "defect_rate", "win_rate", "entropy"]
    );
}
