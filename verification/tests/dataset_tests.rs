use secure_transfer::dataset::{count_correct, split_train_test_indices};

#[test]
fn split_of_twelve_rows() {
    let (train, test) = split_train_test_indices(12);
    assert_eq!(test, vec![0, 5, 10]);
    assert_eq!(train, vec![1, 2, 3, 4, 6, 7, 8, 9, 11]);
}

#[test]
fn split_of_zero_rows_is_empty() {
    let (train, test) = split_train_test_indices(0);
    assert!(train.is_empty());
    assert!(test.is_empty());
}

#[test]
fn split_counts_are_a_partition() {
    for n in [1usize, 4, 5, 6, 10, 37, 100] {
        let (train, test) = split_train_test_indices(n);
        // Test set size is ⌈n/5⌉ and both sets together cover all rows.
        assert_eq!(test.len(), n.div_ceil(5));
        assert_eq!(train.len() + test.len(), n);
        let mut seen = vec![false; n];
        for &i in test.iter().chain(train.iter()) {
            assert!(!seen[i], "index {} appears twice", i);
            seen[i] = true;
        }
        assert!(seen.iter().all(|&s| s));
        assert!(test.iter().all(|&i| i % 5 == 0));
        assert!(train.iter().all(|&i| i % 5 != 0));
    }
}

#[test]
fn count_correct_counts_matches() {
    let predicted = vec![1u32, 0, 1, 1, 0];
    let actual = vec![1u32, 1, 1, 0, 0];
    assert_eq!(count_correct(&predicted, &actual), 3);
}

#[test]
fn perfect_predictions_count_everything() {
    // Accuracy is the match count over the total, so equal vectors
    // score exactly 1.0.
    let labels = vec![1u32, 0, 0, 1, 1, 0];
    let n = count_correct(&labels, &labels);
    assert_eq!(n, labels.len());
    assert_eq!(n as f64 / labels.len() as f64, 1.0);
}

#[test]
fn disjoint_predictions_count_nothing() {
    let predicted = vec![1u32, 1, 1];
    let actual = vec![0u32, 0, 0];
    assert_eq!(count_correct(&predicted, &actual), 0);
}
