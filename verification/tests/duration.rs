use readygate::duration::Duration;

fn micros_of(input: &str) -> Option<u64> {
    Duration::from_literal(input.as_bytes()).ok().map(|d| d.get())
}

#[test]
fn seconds_short_form() {
    assert_eq!(micros_of("5s"), Some(5_000_000));
}

#[test]
fn seconds_long_forms() {
    assert_eq!(micros_of("1second"), Some(1_000_000));
    assert_eq!(micros_of("2seconds"), Some(2_000_000));
}

#[test]
fn milliseconds_forms() {
    assert_eq!(micros_of("10ms"), Some(10_000));
    assert_eq!(micros_of("1millisecond"), Some(1_000));
    assert_eq!(micros_of("3milliseconds"), Some(3_000));
}

#[test]
fn microseconds_forms() {
    assert_eq!(micros_of("3μs"), Some(3));
    assert_eq!(micros_of("1microsecond"), Some(1));
    assert_eq!(micros_of("9microseconds"), Some(9));
}

#[test]
fn minutes_forms() {
    assert_eq!(micros_of("1m"), Some(60_000_000));
    assert_eq!(micros_of("2minutes"), Some(120_000_000));
    assert_eq!(micros_of("1minute"), Some(60_000_000));
}

#[test]
fn blanks_between_digits_and_unit() {
    assert_eq!(micros_of("7 minutes"), Some(420_000_000));
    assert_eq!(micros_of("5\ts"), Some(5_000_000));
}

#[test]
fn case_insensitive_units() {
    assert_eq!(micros_of("5S"), Some(5_000_000));
    assert_eq!(micros_of("4SeCoNdS"), Some(4_000_000));
    assert_eq!(micros_of("8MS"), Some(8_000));
}

#[test]
fn zero_count_parses_as_zero() {
    assert_eq!(micros_of("0s"), Some(0));
    assert_eq!(micros_of("007ms"), Some(7_000));
}

#[test]
fn empty_digit_run_fails() {
    assert_eq!(micros_of("s"), None);
    assert_eq!(micros_of("seconds"), None);
    assert_eq!(micros_of(""), None);
}

#[test]
fn unknown_unit_fails() {
    assert_eq!(micros_of("5parsecs"), None);
    assert_eq!(micros_of("5"), None);
    assert_eq!(micros_of("5 "), None);
}

#[test]
fn overflowing_count_fails() {
    assert_eq!(micros_of("4294967295s"), Some(4_294_967_295_000_000));
    assert_eq!(micros_of("4294967296s"), None);
}

#[test]
fn trailing_input_fails() {
    assert_eq!(micros_of("5s later"), None);
    assert_eq!(micros_of("5sx"), None);
}

#[test]
fn plural_not_cut_short_by_prefix() {
    // `seconds` must be taken whole, not as `s` plus trailing garbage.
    assert_eq!(micros_of("6seconds"), Some(6_000_000));
    assert_eq!(micros_of("6m"), Some(360_000_000));
    assert_eq!(micros_of("6ms"), Some(6_000));
}
