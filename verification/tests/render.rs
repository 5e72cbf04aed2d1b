use vose_alias::VoseAlias;

const M: i64 = 1_000_000;

#[test]
fn four_buckets_as_text() {
    let table = VoseAlias::new(vec![1, 2, 3, 4], vec![500 * M, 200 * M, 200 * M, 100 * M]).unwrap();
    assert_eq!(
        table.render(),
        "{ elements: [ 1 2 3 4 ], alias: { 2:1, 3:1, 4:1 }, prob: {1:1.00, 2:0.80, 3:0.80, 4:0.40 }}"
    );
}

#[test]
fn seven_buckets_as_text() {
    let table = VoseAlias::new(
        vec!["orange", "yellow", "green", "turquoise", "grey", "blue", "pink"],
        vec![125 * M, 200 * M, 100 * M, 250 * M, 100 * M, 100 * M, 125 * M],
    )
    .unwrap();
    assert_eq!(
        table.render(),
        "{ elements: [ orange yellow green turquoise grey blue pink ], \
         alias: { orange:yellow, green:turquoise, turquoise:yellow, grey:turquoise, \
         blue:turquoise, pink:turquoise }, \
         prob: {orange:0.88, yellow:1.00, green:0.70, turquoise:0.72, grey:0.70, blue:0.70, \
         pink:0.88 }}"
    );
}

#[test]
fn one_bucket_as_text() {
    let table = VoseAlias::new(vec!['x'], vec![1000 * M]).unwrap();
    assert_eq!(table.render(), "{ elements: [ x ], alias: { }, prob: {x:1.00 }}");
}

#[test]
fn an_emptied_table_as_text() {
    let mut table = VoseAlias::new(vec!['x'], vec![1000 * M]).unwrap();
    table.elements.clear();
    assert_eq!(table.render(), "{ elements: [ ], alias: { }, prob: { }}");
}

#[test]
fn probabilities_are_rounded_to_the_nearest_hundredth() {
    let mut table = VoseAlias::new(vec![0, 1, 2, 3, 4, 5], vec![0, 0, 0, 0, 0, 1000 * M]).unwrap();
    table.prob = vec![0, 4_999_999, 5_000_001, 994_999_999, 995_000_001, 12_345_000_000];
    assert_eq!(
        table.render(),
        "{ elements: [ 0 1 2 3 4 5 ], alias: { 0:5, 1:5, 2:5, 3:5, 4:5 }, \
         prob: {0:0.00, 1:0.00, 2:0.01, 3:0.99, 4:1.00, 5:12.34 }}"
    );
    table.prob = vec![u64::MAX];
    assert_eq!(
        table.render(),
        "{ elements: [ 0 1 2 3 4 5 ], alias: { 0:5, 1:5, 2:5, 3:5, 4:5 }, \
         prob: {0:18446744073.71 }}"
    );
}

#[test]
fn labels_stand_for_the_elements() {
    let table = VoseAlias::new(vec![(), (), ()], vec![100 * M, 100 * M, 800 * M]).unwrap();
    let labels = vec!["a".to_string(), "b".to_string(), "c".to_string()];
    assert_eq!(
        table.render_with(&labels),
        "{ elements: [ a b c ], alias: { a:c, b:c }, prob: {a:0.30, b:0.30, c:1.00 }}"
    );
    let labels = vec!["a".to_string(), "b".to_string()];
    assert_eq!(
        table.render_with(&labels),
        "{ elements: [ a b ], alias: { }, prob: {a:0.30, b:0.30 }}"
    );
}

#[test]
fn an_alias_beyond_the_table_is_left_out() {
    let mut table = VoseAlias::new(vec![7, 8], vec![300 * M, 700 * M]).unwrap();
    assert_eq!(table.render(), "{ elements: [ 7 8 ], alias: { 7:8 }, prob: {7:0.60, 8:1.00 }}");
    table.alias[0] = Some(2);
    assert_eq!(table.render(), "{ elements: [ 7 8 ], alias: { }, prob: {7:0.60, 8:1.00 }}");
    table.alias.clear();
    table.prob.truncate(1);
    assert_eq!(table.render(), "{ elements: [ 7 8 ], alias: { }, prob: {7:0.60 }}");
}

#[test]
fn a_probability_in_the_middle_goes_to_the_even_hundredth() {
    let mut table = VoseAlias::new(vec![0, 1, 2, 3, 4, 5], vec![0, 0, 0, 0, 0, 1000 * M]).unwrap();
    table.alias = vec![None; 6];
    table.prob = vec![5_000_000, 15_000_000, 125_000_000, 375_000_000, 625_000_000, 995_000_000];
    assert_eq!(
        table.render(),
        "{ elements: [ 0 1 2 3 4 5 ], alias: { }, \
         prob: {0:0.00, 1:0.02, 2:0.12, 3:0.38, 4:0.62, 5:1.00 }}"
    );
}

#[test]
fn eighths_read_as_the_same_floats_do() {
    for eighths in 0..=8u64 {
        let mut table = VoseAlias::new(vec!['e'], vec![1000 * M]).unwrap();
        table.prob = vec![eighths * 125_000_000];
        let float = eighths as f32 / 8.0;
        assert_eq!(
            table.render(),
            format!("{{ elements: [ e ], alias: {{ }}, prob: {{e:{:.2} }}}}", float)
        );
    }
}

#[test]
fn the_probabilities_follow_their_brace_directly() {
    let table = VoseAlias::new(vec![1], vec![1000 * M]).unwrap();
    let text = table.render();
    assert!(text.starts_with("{ elements: [ 1 ], alias: "));
    assert!(text.ends_with(", prob: {1:1.00 }}"));
}
