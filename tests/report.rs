use rudu::report::{build_report, sort_by_size_desc, subtree_size, FileInfo};

fn entries(list: &[(&str, u64)]) -> Vec<(String, u64)> {
    list.iter().map(|(n, s)| (n.to_string(), *s)).collect()
}

#[test]
fn subtree_size_skips_failed_readings() {
    assert_eq!(subtree_size(&vec![Some(2048), None]), Some(2048));
    assert_eq!(subtree_size(&vec![None, Some(4096), None, Some(4096)]), Some(8192));
}

#[test]
fn subtree_size_of_empty_or_unreadable_tree_is_zero() {
    assert_eq!(subtree_size(&vec![]), Some(0));
    assert_eq!(subtree_size(&vec![None, None]), Some(0));
}

#[test]
fn subtree_size_overflow() {
    assert_eq!(subtree_size(&vec![Some(u64::MAX), Some(0)]), Some(u64::MAX));
    assert_eq!(subtree_size(&vec![Some(u64::MAX), None, Some(1)]), None);
}

#[test]
fn file_info_new_line() {
    let line = FileInfo::new("docs".to_string(), 1024, 4096);
    assert_eq!(line.name, "\x1b[32mdocs\x1b[39m");
    assert_eq!(line.raw_size, 1024);
    assert_eq!(line.size, "\x1b[32m1.00 KB\x1b[39m");
    assert_eq!(line.percentage, "\x1b[32m[#####...............]  25.0%\x1b[39m");
}

#[test]
fn report_orders_by_size_descending() {
    let report = build_report(entries(&[("ten", 10), ("hundred", 100), ("one", 1)])).unwrap();
    let sizes: Vec<u64> = report.rows.iter().map(|r| r.raw_size).collect();
    assert_eq!(sizes, vec![100, 10, 1]);
    assert_eq!(report.rows[0].name, "\x1b[32mhundred\x1b[39m");
    assert_eq!(report.rows[2].name, "\x1b[32mone\x1b[39m");
}

#[test]
fn report_total_is_exact_sum() {
    let report = build_report(entries(&[("a", 10), ("b", 100), ("c", 1), ("d", 0)])).unwrap();
    assert_eq!(report.total, 111);
    let sum: u64 = report.rows.iter().map(|r| r.raw_size).sum();
    assert_eq!(report.total, sum);
    assert_eq!(report.rows.len(), 4);
}

#[test]
fn report_keeps_zero_sized_entries() {
    let report = build_report(entries(&[("empty", 0), ("full", 2048)])).unwrap();
    assert_eq!(report.rows.len(), 2);
    assert_eq!(report.rows[1].raw_size, 0);
    assert_eq!(report.rows[1].name, "\x1b[32mempty\x1b[39m");
}

#[test]
fn report_ties_keep_listing_order() {
    let report = build_report(entries(&[("a", 5), ("b", 7), ("c", 5), ("d", 5)])).unwrap();
    let names: Vec<&str> = report.rows.iter().map(|r| r.name.as_str()).collect();
    assert_eq!(
        names,
        vec![
            "\x1b[32mb\x1b[39m",
            "\x1b[32ma\x1b[39m",
            "\x1b[32mc\x1b[39m",
            "\x1b[32md\x1b[39m"
        ]
    );
}

#[test]
fn report_with_zero_total() {
    let report = build_report(entries(&[("x", 0), ("y", 0)])).unwrap();
    assert_eq!(report.total, 0);
    for row in &report.rows {
        assert_eq!(row.percentage, "\x1b[37m[....................]   0.0%\x1b[39m");
    }
}

#[test]
fn report_of_empty_directory() {
    let report = build_report(Vec::new()).unwrap();
    assert_eq!(report.total, 0);
    assert!(report.rows.is_empty());
}

#[test]
fn report_total_overflow() {
    assert!(build_report(entries(&[("a", u64::MAX), ("b", 1)])).is_none());
}

#[test]
fn report_percentages() {
    let report = build_report(entries(&[("small", 1), ("big", 3)])).unwrap();
    assert_eq!(report.rows[0].percentage, "\x1b[33m[###############.....]  75.0%\x1b[39m");
    assert_eq!(report.rows[1].percentage, "\x1b[32m[#####...............]  25.0%\x1b[39m");
}

#[test]
fn sort_by_size_desc_direct() {
    let lines = vec![
        FileInfo::new("p".to_string(), 3, 10),
        FileInfo::new("q".to_string(), 5, 10),
        FileInfo::new("r".to_string(), 2, 10),
    ];
    let sorted = sort_by_size_desc(lines);
    let sizes: Vec<u64> = sorted.iter().map(|r| r.raw_size).collect();
    assert_eq!(sizes, vec![5, 3, 2]);
}
