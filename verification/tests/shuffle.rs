use ternary_classifier::{shuffle_seed, shuffle_values};

#[test]
fn shuffle_matches_generator_sequence() {
    let mut v = vec![0, 1, 2, 3, 4];
    shuffle_values(&mut v, 42);
    assert_eq!(v, vec![0, 3, 1, 2, 4]);

    let mut w = vec![10, 20, 30, 40, 50, 60, 70, 80];
    shuffle_values(&mut w, 7);
    assert_eq!(w, vec![80, 10, 30, 20, 60, 40, 50, 70]);
}

#[test]
fn shuffle_is_a_permutation() {
    let original: Vec<u32> = (0..37).map(|i| (i * 7) % 11).collect();
    let mut v = original.clone();
    shuffle_values(&mut v, 12345);
    let mut a = original.clone();
    let mut b = v.clone();
    a.sort();
    b.sort();
    assert_eq!(a, b);
}

#[test]
fn shuffle_is_reproducible() {
    let mut a = vec![1.5f64, 2.5, 3.5, 4.5];
    let mut b = a.clone();
    shuffle_values(&mut a, 99);
    shuffle_values(&mut b, 99);
    assert_eq!(a, b);
}

#[test]
fn shuffle_leaves_short_columns() {
    let mut empty: Vec<u8> = Vec::new();
    shuffle_values(&mut empty, 3);
    assert!(empty.is_empty());
    let mut one = vec![9];
    shuffle_values(&mut one, 3);
    assert_eq!(one, vec![9]);
}

#[test]
fn seeds_add_with_wrapping() {
    assert_eq!(shuffle_seed(42, 1, 2), 45);
    assert_eq!(shuffle_seed(u64::MAX, 1, 0), 0);
    assert_eq!(shuffle_seed(u64::MAX, 2, 3), 4);
}
