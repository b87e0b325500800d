use fern::runtime::format_cmd_runtime;

#[test]
fn runtime_of_zero_is_empty() {
    assert_eq!(format_cmd_runtime(0), "");
}

#[test]
fn runtime_below_a_millisecond_shows_microseconds() {
    assert_eq!(format_cmd_runtime(999), "999µs");
}

#[test]
fn runtime_drops_microseconds_once_milliseconds_appear() {
    assert_eq!(format_cmd_runtime(1_500), "1ms");
}

#[test]
fn runtime_lists_units_from_large_to_small() {
    let micros: u128 = ((((2 * 24 + 3) * 60 + 4) * 60 + 5) * 1000 + 6) * 1000;
    assert_eq!(format_cmd_runtime(micros), "2 days 3h 4m 5s 6ms");
}

#[test]
fn runtime_uses_singular_for_one() {
    let day: u128 = 24 * 60 * 60 * 1_000_000;
    assert_eq!(format_cmd_runtime(day), "1 day");
    assert_eq!(format_cmd_runtime(7 * day), "1 week");
    assert_eq!(format_cmd_runtime(28 * day), "1 month");
}

#[test]
fn runtime_keeps_counting_months_past_a_year() {
    let day: u128 = 24 * 60 * 60 * 1_000_000;
    assert_eq!(format_cmd_runtime(13 * 28 * day), "1 year 13 months");
}
