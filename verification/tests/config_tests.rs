use cpu_eater::config::{parse_args, Config, ConfigError};
use cpu_eater::decimal::{decimal_string, parse_count};

fn args(list: &[&str]) -> Vec<String> {
    list.iter().map(|s| s.to_string()).collect()
}

#[test]
fn parse_count_accepts_plain_and_plus_signed_digits() {
    assert_eq!(parse_count("42"), Some(42));
    assert_eq!(parse_count("+7"), Some(7));
    assert_eq!(parse_count("0"), Some(0));
    assert_eq!(parse_count("007"), Some(7));
}

#[test]
fn parse_count_rejects_other_text() {
    assert_eq!(parse_count(""), None);
    assert_eq!(parse_count("+"), None);
    assert_eq!(parse_count("-1"), None);
    assert_eq!(parse_count("-"), None);
    assert_eq!(parse_count(" 3"), None);
    assert_eq!(parse_count("3 "), None);
    assert_eq!(parse_count("1a"), None);
    assert_eq!(parse_count("++1"), None);
    assert_eq!(parse_count("\u{663}"), None);
}

#[test]
fn parse_count_bounds() {
    let max = usize::MAX.to_string();
    assert_eq!(parse_count(&max), Some(usize::MAX));
    let over = format!("{}0", usize::MAX);
    assert_eq!(parse_count(&over), None);
    let plus_one = (usize::MAX as u128 + 1).to_string();
    assert_eq!(parse_count(&plus_one), None);
}

#[test]
fn parse_count_agrees_with_std() {
    for text in ["12", "+12", "", "+", "x", "99999999999999999999", "0012", "1_0"] {
        assert_eq!(parse_count(text), text.parse::<usize>().ok(), "{:?}", text);
    }
}

#[test]
fn formatted_counts_parse_back() {
    for n in [0u128, 9, 10, 1234, usize::MAX as u128] {
        assert_eq!(parse_count(&decimal_string(n)), Some(n as usize));
    }
    assert_eq!(decimal_string(u128::MAX), u128::MAX.to_string());
}

#[test]
fn thread_count_from_first_argument() {
    assert_eq!(
        parse_args(&args(&["cpu-eater", "2"])),
        Ok(Config { nthreads: 2, sleep_time: 0 })
    );
}

#[test]
fn run_time_from_second_argument() {
    assert_eq!(
        parse_args(&args(&["cpu-eater", "4", "10"])),
        Ok(Config { nthreads: 4, sleep_time: 10 })
    );
    assert_eq!(
        parse_args(&args(&["cpu-eater", "4", "10", "ignored"])),
        Ok(Config { nthreads: 4, sleep_time: 10 })
    );
}

#[test]
fn missing_thread_count_is_refused() {
    assert_eq!(parse_args(&args(&["cpu-eater"])), Err(ConfigError::MissingThreadCount));
    assert_eq!(parse_args(&args(&[])), Err(ConfigError::MissingThreadCount));
}

#[test]
fn bad_counts_are_refused() {
    assert_eq!(parse_args(&args(&["cpu-eater", "two"])), Err(ConfigError::InvalidThreadCount));
    assert_eq!(parse_args(&args(&["cpu-eater", "two", "x"])), Err(ConfigError::InvalidThreadCount));
    assert_eq!(parse_args(&args(&["cpu-eater", "2", "-3"])), Err(ConfigError::InvalidSleepTime));
}

#[test]
fn stop_after_only_for_timed_runs() {
    assert_eq!(Config { nthreads: 1, sleep_time: 0 }.stop_after(), None);
    assert_eq!(Config { nthreads: 1, sleep_time: 5 }.stop_after(), Some(5));
}
