use rudu::units::{human_readable, magnitude_index};

#[test]
fn human_readable_zero_bytes() {
    assert_eq!(human_readable(0), ("0.00 B".to_string(), 0));
}

#[test]
fn human_readable_just_below_one_kilobyte() {
    assert_eq!(human_readable(1023), ("1023.00 B".to_string(), 0));
}

#[test]
fn human_readable_one_kilobyte() {
    assert_eq!(human_readable(1024), ("1.00 KB".to_string(), 1));
}

#[test]
fn human_readable_one_terabyte() {
    assert_eq!(human_readable(1024u64.pow(4)), ("1.00 TB".to_string(), 4));
}

#[test]
fn human_readable_fraction() {
    assert_eq!(human_readable(1536), ("1.50 KB".to_string(), 1));
    assert_eq!(human_readable(5 * 1024 * 1024 + 1024 * 1024 / 4), ("5.25 MB".to_string(), 2));
    assert_eq!(human_readable(3 * 1024 * 1024 * 1024), ("3.00 GB".to_string(), 3));
}

#[test]
fn human_readable_rounds_ties_to_even() {
    // 1152 bytes is exactly 1.125 KB; 1168 bytes is exactly 1.140625 KB.
    assert_eq!(human_readable(1152).0, "1.12 KB");
    assert_eq!(human_readable(1168).0, "1.14 KB");
    // 1.375 KB rounds up to the even neighbour.
    assert_eq!(human_readable(1408).0, "1.38 KB");
}

#[test]
fn human_readable_rounds_up_into_next_integer() {
    assert_eq!(human_readable(1024 * 1024 - 1), ("1024.00 KB".to_string(), 1));
}

#[test]
fn human_readable_largest_count_stays_in_terabytes() {
    assert_eq!(human_readable(u64::MAX), ("16777216.00 TB".to_string(), 4));
    assert_eq!(human_readable(2048 * 1024u64.pow(4)), ("2048.00 TB".to_string(), 4));
}

#[test]
fn magnitude_index_is_monotonic_across_boundaries() {
    let samples: [u64; 12] = [
        0,
        1,
        1023,
        1024,
        1024 * 1024 - 1,
        1024 * 1024,
        1024u64.pow(3) - 1,
        1024u64.pow(3),
        1024u64.pow(4) - 1,
        1024u64.pow(4),
        1024u64.pow(5),
        u64::MAX,
    ];
    let expected: [usize; 12] = [0, 0, 0, 1, 1, 2, 2, 3, 3, 4, 4, 4];
    let mut previous = 0;
    for (size, want) in samples.iter().zip(expected.iter()) {
        let index = magnitude_index(*size);
        assert_eq!(index, *want);
        assert!(index >= previous);
        assert_eq!(human_readable(*size).1, index);
        previous = index;
    }
}
