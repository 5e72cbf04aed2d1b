use vose_alias::{ConstructionError, VoseAlias, DEFAULT_TOLERANCE, UNIT};

const M: i64 = 1_000_000;

/// What all buckets of `table` give to the element of bucket `to`, in parts of `UNIT`.
fn mass(table: &VoseAlias<u32>, to: usize) -> i128 {
    let mut given: i128 = 0;
    for from in 0..table.elements.len() {
        let p = table.prob[from] as i128;
        if from == to {
            given += p;
        }
        if table.alias[from] == Some(to) {
            given += UNIT as i128 - p;
        }
    }
    given
}

#[test]
fn construction_ok() {
    VoseAlias::new(vec![1, 2, 3, 4], vec![500 * M, 200 * M, 200 * M, 100 * M]).unwrap();
}

#[test]
#[should_panic]
fn size_not_ok() {
    VoseAlias::new(vec![1, 2, 3], vec![500 * M, 200 * M, 200 * M, 100 * M]).unwrap();
}

#[test]
#[should_panic]
fn sum_not_ok() {
    VoseAlias::new(vec![1, 2, 3, 4], vec![500 * M, 200 * M, 200 * M, 0]).unwrap();
}

#[test]
#[should_panic]
fn new_empty_vectors() {
    let element_vector: Vec<u16> = Vec::new();
    let probability_vector: Vec<i64> = Vec::new();
    VoseAlias::new(element_vector, probability_vector).unwrap();
}

#[test]
fn the_unit_and_the_default_tolerance() {
    assert_eq!(UNIT, 1_000_000_000);
    assert_eq!(DEFAULT_TOLERANCE, 100_000);
}

#[test]
fn mismatched_lengths_are_reported() {
    let made = VoseAlias::new(vec![1, 2, 3], vec![500 * M, 200 * M, 200 * M, 100 * M]);
    assert_eq!(made.unwrap_err(), ConstructionError::LengthMismatch);
    let made = VoseAlias::new(vec![1, 2, 3, 4, 5], vec![500 * M, 200 * M, 200 * M, 100 * M]);
    assert_eq!(made.unwrap_err(), ConstructionError::LengthMismatch);
}

#[test]
fn mismatched_lengths_come_before_every_other_fault() {
    let made = VoseAlias::new(Vec::<u8>::new(), vec![1000 * M]);
    assert_eq!(made.unwrap_err(), ConstructionError::LengthMismatch);
    let made = VoseAlias::new(vec![1u8], Vec::new());
    assert_eq!(made.unwrap_err(), ConstructionError::LengthMismatch);
    let made = VoseAlias::new(vec![1u8, 2], vec![-5, 700 * M, 700 * M]);
    assert_eq!(made.unwrap_err(), ConstructionError::LengthMismatch);
}

#[test]
fn empty_input_is_reported() {
    let made = VoseAlias::new(Vec::<u16>::new(), Vec::new());
    assert_eq!(made.unwrap_err(), ConstructionError::EmptyInput);
    let made = VoseAlias::with_tolerance(Vec::<u16>::new(), Vec::new(), u64::MAX);
    assert_eq!(made.unwrap_err(), ConstructionError::EmptyInput);
}

#[test]
fn weights_that_miss_one_are_reported() {
    let made = VoseAlias::new(vec![1, 2, 3, 4], vec![500 * M, 200 * M, 200 * M, 0]);
    assert_eq!(made.unwrap_err(), ConstructionError::InvalidDistribution);
    let made = VoseAlias::new(vec![1, 2], vec![600 * M, 600 * M]);
    assert_eq!(made.unwrap_err(), ConstructionError::InvalidDistribution);
    let made = VoseAlias::new(vec![1], vec![0]);
    assert_eq!(made.unwrap_err(), ConstructionError::InvalidDistribution);
}

#[test]
fn a_negative_weight_is_reported_even_where_the_sum_is_one() {
    let made = VoseAlias::new(vec![1, 2, 3], vec![700 * M, -100 * M, 400 * M]);
    assert_eq!(made.unwrap_err(), ConstructionError::InvalidDistribution);
    let made = VoseAlias::with_tolerance(vec![1, 2], vec![1000 * M + 1, -1], u64::MAX);
    assert_eq!(made.unwrap_err(), ConstructionError::InvalidDistribution);
    let made = VoseAlias::new(vec![1, 2], vec![i64::MIN, i64::MAX]);
    assert_eq!(made.unwrap_err(), ConstructionError::InvalidDistribution);
}

#[test]
fn the_tolerance_is_inclusive_on_both_sides() {
    let unit = UNIT as i64;
    let slack = DEFAULT_TOLERANCE as i64;
    assert!(VoseAlias::new(vec![1, 2], vec![unit / 2, unit / 2 + slack]).is_ok());
    assert!(VoseAlias::new(vec![1, 2], vec![unit / 2, unit / 2 - slack]).is_ok());
    let made = VoseAlias::new(vec![1, 2], vec![unit / 2, unit / 2 + slack + 1]);
    assert_eq!(made.unwrap_err(), ConstructionError::InvalidDistribution);
    let made = VoseAlias::new(vec![1, 2], vec![unit / 2, unit / 2 - slack - 1]);
    assert_eq!(made.unwrap_err(), ConstructionError::InvalidDistribution);
}

#[test]
fn the_tolerance_can_be_chosen() {
    let made = VoseAlias::with_tolerance(vec![1, 2, 3], vec![333_333_333; 3], 0);
    assert_eq!(made.unwrap_err(), ConstructionError::InvalidDistribution);
    assert!(VoseAlias::with_tolerance(vec![1, 2, 3], vec![333_333_333; 3], 1).is_ok());
    assert!(VoseAlias::with_tolerance(vec![1, 2], vec![400 * M, 600 * M], 0).is_ok());
    assert!(VoseAlias::with_tolerance(vec![1, 2], vec![900 * M, 900 * M], 800_000_000).is_ok());
    assert!(VoseAlias::with_tolerance(vec![1], vec![i64::MAX], u64::MAX).is_ok());
}

#[test]
fn four_buckets_by_hand() {
    let table = VoseAlias::new(vec![1, 2, 3, 4], vec![500 * M, 200 * M, 200 * M, 100 * M]).unwrap();
    assert_eq!(table.elements, vec![1, 2, 3, 4]);
    assert_eq!(table.alias, vec![None, Some(0), Some(0), Some(0)]);
    assert_eq!(table.prob, vec![UNIT, 800_000_000, 800_000_000, 400_000_000]);
}

#[test]
fn seven_buckets_by_hand() {
    let table = VoseAlias::new(
        vec!["orange", "yellow", "green", "turquoise", "grey", "blue", "pink"],
        vec![125 * M, 200 * M, 100 * M, 250 * M, 100 * M, 100 * M, 125 * M],
    )
    .unwrap();
    assert_eq!(
        table.alias,
        vec![Some(1), None, Some(3), Some(1), Some(3), Some(3), Some(3)]
    );
    assert_eq!(
        table.prob,
        vec![
            875_000_000,
            UNIT,
            700_000_000,
            725_000_000,
            700_000_000,
            700_000_000,
            875_000_000
        ]
    );
}

#[test]
fn a_large_bucket_that_turns_small_waits_with_the_small_ones() {
    // Bucket 3 pays for bucket 1 and is left with less than its share; it is then the next
    // small bucket to be settled, before bucket 0 that has waited longer.
    let table = VoseAlias::new(vec![10, 11, 12, 13], vec![100 * M, 100 * M, 500 * M, 300 * M]).unwrap();
    assert_eq!(table.alias, vec![Some(2), Some(3), None, Some(2)]);
    assert_eq!(table.prob, vec![400_000_000, 400_000_000, UNIT, 600_000_000]);
    let table = VoseAlias::new(vec![10, 11, 12], vec![500 * M, 100 * M, 400 * M]).unwrap();
    assert_eq!(table.alias, vec![None, Some(2), Some(0)]);
    assert_eq!(table.prob, vec![UNIT, 300_000_000, 500_000_000]);
}

#[test]
fn one_bucket_is_certain() {
    let table = VoseAlias::new(vec![42], vec![1000 * M]).unwrap();
    assert_eq!(table.alias, vec![None]);
    assert_eq!(table.prob, vec![UNIT]);
}

#[test]
fn equal_weights_need_no_alias() {
    let table = VoseAlias::new(vec![1, 2, 3, 4], vec![250 * M; 4]).unwrap();
    assert_eq!(table.alias, vec![None; 4]);
    assert_eq!(table.prob, vec![UNIT; 4]);
}

#[test]
fn a_weight_of_nothing_always_gives_way() {
    let table = VoseAlias::new(vec![1, 2, 3, 4], vec![500 * M, 200 * M, 0, 300 * M]).unwrap();
    assert_eq!(table.prob[2], 0);
    assert_eq!(table.alias[2], Some(3));
    assert_eq!(mass(&table, 2), 0);
}

#[test]
fn equal_elements_keep_their_own_buckets() {
    let table = VoseAlias::new(vec![5, 5, 5, 9], vec![100 * M, 100 * M, 100 * M, 700 * M]).unwrap();
    assert_eq!(table.elements, vec![5, 5, 5, 9]);
    assert_eq!(table.alias, vec![Some(3), Some(3), Some(3), None]);
    assert_eq!(table.prob, vec![400_000_000, 400_000_000, 400_000_000, UNIT]);
}

#[test]
fn every_bucket_has_a_probability_and_an_alias_where_it_needs_one() {
    let inputs: Vec<Vec<i64>> = vec![
        vec![500 * M, 200 * M, 200 * M, 100 * M],
        vec![125 * M, 200 * M, 100 * M, 250 * M, 100 * M, 100 * M, 125 * M],
        vec![333_333_333, 333_333_333, 333_333_334],
        vec![1, 999_999_999],
        vec![0, 0, 0, 1000 * M],
        vec![999_950_000, 0, 0],
        vec![500_050_000, 500_050_000],
    ];
    for weights in inputs {
        let n = weights.len();
        let elements: Vec<u32> = (0..n as u32).collect();
        let table = VoseAlias::new(elements, weights).unwrap();
        assert_eq!(table.elements.len(), n);
        assert_eq!(table.alias.len(), n);
        assert_eq!(table.prob.len(), n);
        for b in 0..n {
            assert!(table.prob[b] <= UNIT);
            match table.alias[b] {
                Some(a) => {
                    assert!(table.prob[b] < UNIT);
                    assert!(a < n);
                    assert_ne!(a, b);
                }
                None => assert_eq!(table.prob[b], UNIT),
            }
        }
    }
}

#[test]
fn weights_that_sum_to_one_are_reproduced_exactly() {
    let inputs: Vec<Vec<i64>> = vec![
        vec![500 * M, 200 * M, 200 * M, 100 * M],
        vec![125 * M, 200 * M, 100 * M, 250 * M, 100 * M, 100 * M, 125 * M],
        vec![333_333_333, 333_333_333, 333_333_334],
        vec![1, 999_999_999],
        vec![0, 0, 0, 1000 * M],
        vec![1, 2, 3, 4, 5, 6, 7, 999_999_972],
    ];
    for weights in inputs {
        let n = weights.len();
        let elements: Vec<u32> = (0..n as u32).collect();
        let table = VoseAlias::with_tolerance(elements, weights.clone(), 0).unwrap();
        for j in 0..n {
            assert_eq!(mass(&table, j), n as i128 * weights[j] as i128);
        }
    }
}

#[test]
fn weights_that_sum_to_less_are_rounded_up_within_the_tolerance() {
    let weights = vec![333_333_333i64; 3];
    let table = VoseAlias::new(vec![0, 1, 2], weights.clone()).unwrap();
    assert_eq!(table.alias, vec![None; 3]);
    assert_eq!(table.prob, vec![UNIT; 3]);
    for j in 0..3 {
        let due = 3 * weights[j] as i128;
        assert_eq!(mass(&table, j), due + 1);
        assert!(mass(&table, j) <= due + 3 * 1);
    }
}

#[test]
fn weights_that_sum_to_more_are_cut_within_the_tolerance() {
    let weights = vec![500_050_000i64, 500_050_000];
    let table = VoseAlias::new(vec![0, 1], weights.clone()).unwrap();
    assert_eq!(table.alias, vec![None; 2]);
    assert_eq!(table.prob, vec![UNIT; 2]);
    for j in 0..2 {
        let due = 2 * weights[j] as i128;
        assert_eq!(mass(&table, j), due - 100_000);
        assert!(mass(&table, j) >= due - 2 * 100_000);
    }
}

#[test]
fn construction_is_repeatable() {
    let weights = vec![125 * M, 200 * M, 100 * M, 250 * M, 100 * M, 100 * M, 125 * M];
    let first = VoseAlias::new(vec![1, 2, 3, 4, 5, 6, 7], weights.clone()).unwrap();
    let second = VoseAlias::new(vec![1, 2, 3, 4, 5, 6, 7], weights).unwrap();
    assert_eq!(first.elements, second.elements);
    assert_eq!(first.alias, second.alias);
    assert_eq!(first.prob, second.prob);
}
