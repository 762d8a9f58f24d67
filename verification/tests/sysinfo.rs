use swaynyaad::sysinfo::{
    memory_usage_ppm, parse_meminfo, parse_u64, split_whitespace, MemInfoError,
};

fn lines(ls: &[&str]) -> Vec<String> {
    ls.iter().map(|s| s.to_string()).collect()
}

#[test]
fn memory_usage_three_quarters() {
    // MemTotal 1000 and MemAvailable 250 leave three quarters used.
    assert_eq!(memory_usage_ppm(1000, 250), 750_000);
}

#[test]
fn memory_usage_bounds() {
    assert_eq!(memory_usage_ppm(8, 8), 0);
    assert_eq!(memory_usage_ppm(8, 0), 1_000_000);
}

#[test]
fn meminfo_reads_both_figures() {
    let input = lines(&[
        "MemTotal:       16384256 kB",
        "MemFree:         8222228 kB",
        "MemAvailable:   12214824 kB",
    ]);
    let info = parse_meminfo(&input).unwrap();
    assert_eq!(info.total, 16384256);
    assert_eq!(info.available, 12214824);
}

#[test]
fn meminfo_two_field_lines_are_skipped() {
    let input = lines(&[
        "HugePages_Total: 0",
        "MemTotal: 1000 kB",
        "MemAvailable: 250 kB",
    ]);
    let info = parse_meminfo(&input).unwrap();
    assert_eq!(info.total, 1000);
    assert_eq!(info.available, 250);
    assert_eq!(memory_usage_ppm(info.total, info.available), 750_000);
}

#[test]
fn meminfo_malformed_line_is_fatal() {
    // A line with neither two nor three fields aborts the scan.
    let one_field = lines(&["MemTotal: 1000 kB", "garbage"]);
    assert_eq!(parse_meminfo(&one_field), Err(MemInfoError::UnexpectedFormat));

    let four_fields = lines(&["MemTotal: 1000 kB extra"]);
    assert_eq!(parse_meminfo(&four_fields), Err(MemInfoError::UnexpectedFormat));

    let empty_line = lines(&["", "MemTotal: 1000 kB"]);
    assert_eq!(parse_meminfo(&empty_line), Err(MemInfoError::UnexpectedFormat));
}

#[test]
fn meminfo_bad_numbers_are_fatal() {
    let bad_total = lines(&["MemTotal: lots kB"]);
    assert_eq!(parse_meminfo(&bad_total), Err(MemInfoError::BadTotalRam));

    let bad_available = lines(&["MemAvailable: ??? kB"]);
    assert_eq!(parse_meminfo(&bad_available), Err(MemInfoError::BadAvailableRam));
}

#[test]
fn meminfo_stops_after_both_figures() {
    // Once both figures are found the scan stops; later lines, malformed
    // or not, are never read.
    let input = lines(&[
        "MemTotal: 1000 kB",
        "MemAvailable: 250 kB",
        "this line is malformed beyond repair",
    ]);
    let info = parse_meminfo(&input).unwrap();
    assert_eq!(info.total, 1000);
    assert_eq!(info.available, 250);
}

#[test]
fn meminfo_missing_figures_default() {
    // Without a MemTotal line the total stays at one, so the fraction is
    // still defined.
    let info = parse_meminfo(&lines(&[])).unwrap();
    assert_eq!(info.total, 1);
    assert_eq!(info.available, 0);
}

#[test]
fn parse_u64_accepts_digits_and_plus() {
    assert_eq!(parse_u64("0"), Some(0));
    assert_eq!(parse_u64("16384256"), Some(16384256));
    assert_eq!(parse_u64("+42"), Some(42));
    assert_eq!(parse_u64("18446744073709551615"), Some(u64::MAX));
}

#[test]
fn parse_u64_rejects_junk() {
    assert_eq!(parse_u64(""), None);
    assert_eq!(parse_u64("+"), None);
    assert_eq!(parse_u64("-1"), None);
    assert_eq!(parse_u64("12a"), None);
    assert_eq!(parse_u64("1 2"), None);
    // One past the maximum overflows.
    assert_eq!(parse_u64("18446744073709551616"), None);
}

#[test]
fn split_whitespace_cuts_fields() {
    let f = split_whitespace("  MemTotal:   1000\tkB ");
    assert_eq!(f, vec!["MemTotal:", "1000", "kB"]);
    let empty = split_whitespace("   \t ");
    assert!(empty.is_empty());
}
