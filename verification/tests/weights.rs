use vose_alias::weights::check_distribution;
use vose_alias::{DEFAULT_TOLERANCE, UNIT};

const M: i64 = 1_000_000;

#[test]
fn weights_that_sum_to_one_are_a_distribution() {
    assert!(check_distribution(&vec![500 * M, 200 * M, 200 * M, 100 * M], DEFAULT_TOLERANCE));
    assert!(check_distribution(&vec![1000 * M], 0));
    assert!(check_distribution(&vec![0, 1000 * M, 0], 0));
}

#[test]
fn weights_that_miss_one_are_no_distribution() {
    assert!(!check_distribution(&vec![500 * M, 200 * M, 200 * M, 0], DEFAULT_TOLERANCE));
    assert!(!check_distribution(&vec![1000 * M, 1], 0));
    assert!(!check_distribution(&vec![999_999_999], 0));
    assert!(!check_distribution(&vec![], DEFAULT_TOLERANCE));
}

#[test]
fn the_sum_may_miss_one_by_the_tolerance_and_no_more() {
    let unit = UNIT as i64;
    assert!(check_distribution(&vec![unit - 7], 7));
    assert!(check_distribution(&vec![unit + 7], 7));
    assert!(!check_distribution(&vec![unit - 8], 7));
    assert!(!check_distribution(&vec![unit + 8], 7));
    assert!(check_distribution(&vec![], UNIT));
    assert!(!check_distribution(&vec![], UNIT - 1));
}

#[test]
fn a_negative_weight_is_no_part_of_a_distribution() {
    assert!(!check_distribution(&vec![-1, 1000 * M + 1], 0));
    assert!(!check_distribution(&vec![600 * M, 600 * M, -200 * M], DEFAULT_TOLERANCE));
    assert!(!check_distribution(&vec![-1], u64::MAX));
    assert!(!check_distribution(&vec![i64::MIN, i64::MAX, 1, 1000 * M], u64::MAX));
}

#[test]
fn large_weights_are_summed_without_wrapping() {
    assert!(check_distribution(&vec![i64::MAX], u64::MAX));
    assert!(check_distribution(&vec![i64::MAX, i64::MAX], u64::MAX));
    assert!(!check_distribution(&vec![i64::MAX, i64::MAX, i64::MAX], u64::MAX));
    assert!(!check_distribution(&vec![i64::MAX; 5], u64::MAX));
}
