use s2n_quic_sync::histogram::{
    count_per_char, largest_count, layout_rows, BucketLabels, MARK, WIDTH,
};

fn bucket(start: &str, end: &str, count: u64) -> BucketLabels {
    BucketLabels {
        start: start.chars().collect(),
        end: end.chars().collect(),
        count: count.to_string().chars().collect(),
        count_value: count,
    }
}

#[test]
fn count_per_char_scales_to_the_width() {
    assert_eq!(WIDTH, 50);
    assert_eq!(count_per_char(0), 1);
    assert_eq!(count_per_char(49), 1);
    assert_eq!(count_per_char(100), 2);
    assert_eq!(count_per_char(1000), 20);
}

#[test]
fn rows_are_aligned_and_skip_empty_buckets() {
    let buckets = vec![
        bucket("1", "9", 3),
        bucket("10", "99", 0),
        bucket("100", "999", 120),
    ];
    let rows: Vec<String> = layout_rows(&buckets)
        .into_iter()
        .map(|r| r.into_iter().collect())
        .collect();
    // 120 samples: each mark counts 2
    let bar = |n: usize| MARK.to_string().repeat(n);
    assert_eq!(
        rows,
        vec![
            format!("  1 ..   9 [   3 ]: {}", bar(1)),
            format!("100 .. 999 [ 120 ]: {}", bar(60)),
        ]
    );
}

#[test]
fn no_buckets_no_rows() {
    assert!(layout_rows(&Vec::new()).is_empty());
    assert!(layout_rows(&vec![bucket("1", "2", 0)]).is_empty());
}

#[test]
fn largest_count_of_buckets() {
    let buckets = vec![bucket("1", "9", 3), bucket("10", "99", 70), bucket("100", "999", 7)];
    assert_eq!(largest_count(&buckets), 70);
    assert_eq!(largest_count(&Vec::new()), 0);
}
