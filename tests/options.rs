use compress_jsonl::options::{parse_unsigned, Options, DEFAULT_LEVEL};

fn args(parts: &[&str]) -> Vec<String> {
    parts.iter().map(|s| s.to_string()).collect()
}

#[test]
fn unsigned_numbers_parse() {
    assert_eq!(parse_unsigned("0", 100), Some(0));
    assert_eq!(parse_unsigned("42", 100), Some(42));
    assert_eq!(parse_unsigned("+7", 100), Some(7));
    assert_eq!(parse_unsigned("007", 100), Some(7));
    assert_eq!(parse_unsigned("18446744073709551615", u64::MAX), Some(u64::MAX));
}

#[test]
fn malformed_or_large_numbers_do_not_parse() {
    assert_eq!(parse_unsigned("", 100), None);
    assert_eq!(parse_unsigned("+", 100), None);
    assert_eq!(parse_unsigned("-1", 100), None);
    assert_eq!(parse_unsigned("12a", 100), None);
    assert_eq!(parse_unsigned(" 1", 100), None);
    assert_eq!(parse_unsigned("101", 100), None);
    assert_eq!(parse_unsigned("18446744073709551616", u64::MAX), None);
}

#[test]
fn defaults_without_flags() {
    let o = Options::with_cpus(&args(&["prog"]), 32);
    assert_eq!(o, Options { workers: 12, level: 6 });
    let o = Options::with_cpus(&args(&["prog"]), 4);
    assert_eq!(o, Options { workers: 4, level: DEFAULT_LEVEL });
}

#[test]
fn flags_override_defaults() {
    let o = Options::with_cpus(&args(&["prog", "--level", "9", "--workers", "3"]), 8);
    assert_eq!(o, Options { workers: 3, level: 9 });
    let o = Options::with_cpus(&args(&["prog", "--workers", "40"]), 8);
    assert_eq!(o.workers, 40);
}

#[test]
fn unusable_values_fall_back() {
    let o = Options::with_cpus(&args(&["prog", "--level", "abc", "--workers", "x"]), 2);
    assert_eq!(o, Options { workers: 2, level: 6 });
    let o = Options::with_cpus(&args(&["prog", "--level", "10"]), 2);
    assert_eq!(o.level, 6);
    let o = Options::with_cpus(&args(&["prog", "--workers"]), 5);
    assert_eq!(o.workers, 5);
}

#[test]
fn first_flag_wins() {
    let o = Options::with_cpus(&args(&["--level", "1", "--level", "2"]), 1);
    assert_eq!(o.level, 1);
}

#[test]
fn default_worker_count_is_capped() {
    let o = Options::from_args(&args(&["prog"]));
    assert!(o.workers >= 1 && o.workers <= 12);
    assert_eq!(o.level, 6);
    let o = Options::from_args(&args(&["prog", "--workers", "64"]));
    assert_eq!(o.workers, 64);
}
