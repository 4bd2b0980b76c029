//! The multiset utility layer on concrete sequences of texts.

use thisenum::prelude::{Counts, Positions, Repeated, RepeatedIndices, Unique, UniqueIndices};

fn sample() -> Vec<String> {
    vec![
        "a".to_string(),
        "b".to_string(),
        "a".to_string(),
        "c".to_string(),
        "b".to_string(),
        "a".to_string(),
    ]
}

#[test]
fn counts_keys_in_first_occurrence_order() {
    let got = sample().counts();
    let want = vec![("a".to_string(), 3), ("b".to_string(), 2), ("c".to_string(), 1)];
    assert_eq!(got, want);
}

#[test]
fn positions_are_ascending_per_key() {
    let got = sample().positions();
    assert_eq!(got.len(), 3);
    assert_eq!(got[0], ("a".to_string(), vec![0, 2, 5]));
    assert_eq!(got[1], ("b".to_string(), vec![1, 4]));
    assert_eq!(got[2], ("c".to_string(), vec![3]));
}

#[test]
fn repeated_lists_shared_items_once() {
    let got = sample().repeated();
    assert_eq!(got, vec!["a".to_string(), "b".to_string()]);
}

#[test]
fn repeated_idx_lists_every_position_of_shared_items() {
    let got = sample().repeated_idx();
    assert_eq!(got, vec![0, 1, 2, 4, 5]);
}

#[test]
fn unique_lists_items_occurring_once() {
    let got = sample()._unique();
    assert_eq!(got, vec!["c".to_string()]);
}

#[test]
fn unique_idx_lists_positions_of_items_occurring_once() {
    let got = sample()._unique_idx();
    assert_eq!(got, vec![3]);
}

#[test]
fn empty_input_yields_empty_results() {
    let empty: Vec<String> = vec![];
    assert!(empty.counts().is_empty());
    assert!(empty.positions().is_empty());
    assert!(empty.repeated().is_empty());
    assert!(empty.repeated_idx().is_empty());
    assert!(empty._unique().is_empty());
    assert!(empty._unique_idx().is_empty());
}
