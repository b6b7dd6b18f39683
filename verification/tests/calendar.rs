use esift::calendar::{civil_from_days, days_from_civil, format_epoch_secs, parse_epoch_secs};

#[test]
fn parse_and_format_round_trip() {
    // 2025-01-02T03:04:05Z is a known epoch.
    let epoch = parse_epoch_secs("2025-01-02T03:04:05Z").unwrap();
    assert_eq!(epoch, 1_735_787_045);
    assert_eq!(format_epoch_secs(epoch), "2025-01-02T03:04:05Z");
    // Unix epoch itself.
    assert_eq!(parse_epoch_secs("1970-01-01T00:00:00Z").unwrap(), 0);
    // A fractional + offset form parses to the same UTC instant.
    let a = parse_epoch_secs("2025-06-01T12:30:00.500Z").unwrap();
    let b = parse_epoch_secs("2025-06-01T14:30:00+02:00").unwrap();
    assert_eq!(a, b);
}

#[test]
fn offsets_are_read_in_every_form() {
    let utc = parse_epoch_secs("2025-06-01T12:00:00").unwrap();
    assert_eq!(parse_epoch_secs("2025-06-01 12:00:00z"), Some(utc));
    assert_eq!(parse_epoch_secs("2025-06-01t10:30:00-0130"), Some(utc));
    assert_eq!(parse_epoch_secs("2025-06-01T15:00:00.123456+03"), Some(utc));
}

#[test]
fn what_cannot_be_interpreted_is_nothing() {
    for text in [
        "",
        "2025-06-01",
        "2025/06/01T12:00:00Z",
        "2025-13-01T12:00:00Z",
        "2025-00-01T12:00:00Z",
        "2025-06-32T12:00:00Z",
        "2025-06-01X12:00:00Z",
        "2025-06-01T12-00-00Z",
        "2025-06-01T12:00:00Q",
        "2025-06-01T12:00:00+1",
        "2025-06-01T12:00:00+aa:bb",
        "abcd-06-01T12:00:00Z",
        "202é-06-01T12:00:00Z",
        "2025-06-01T12:00:0éZ",
        "2025-06-01T12:00:00é",
    ] {
        assert_eq!(parse_epoch_secs(text), None, "{}", text);
    }
}

#[test]
fn days_past_the_end_of_a_month_run_on() {
    assert_eq!(
        parse_epoch_secs("2025-02-31T00:00:00Z"),
        parse_epoch_secs("2025-03-03T00:00:00Z")
    );
}

#[test]
fn dates_and_days_are_inverse() {
    assert_eq!(days_from_civil(1970, 1, 1), 0);
    assert_eq!(days_from_civil(2000, 2, 29), 11_016);
    assert_eq!(days_from_civil(1969, 12, 31), -1);
    assert_eq!(days_from_civil(-400, 3, 1), -865_565);
    let mut day: i64 = -800_000;
    while day < 800_000 {
        let (y, m, d) = civil_from_days(day);
        assert_eq!(days_from_civil(y, m, d), day);
        day += 977;
    }
    assert_eq!(civil_from_days(11_016), (2000, 2, 29));
}

#[test]
fn instants_outside_four_digit_years_do_not_read_back() {
    assert_eq!(format_epoch_secs(-1), "1969-12-31T23:59:59Z");
    assert_eq!(format_epoch_secs(-62_167_219_201), "-001-12-31T23:59:59Z");
    assert_eq!(
        parse_epoch_secs("-001-12-31T23:59:59Z"),
        Some(-62_167_219_201)
    );
    assert_eq!(format_epoch_secs(253_402_300_800), "10000-01-01T00:00:00Z");
    assert_eq!(parse_epoch_secs("10000-01-01T00:00:00Z"), None);
    assert_eq!(
        format_epoch_secs(i64::MIN),
        "-292277022657-01-27T08:29:52Z"
    );
}

#[test]
fn distinct_instants_have_distinct_texts() {
    let mut texts: Vec<String> = Vec::new();
    let mut t: i64 = -3_000_000_000;
    while t < 3_000_000_000 {
        texts.push(format_epoch_secs(t));
        t += 86_399;
    }
    let count = texts.len();
    texts.sort();
    texts.dedup();
    assert_eq!(texts.len(), count);
}

#[test]
fn leap_years_have_a_leap_day() {
    for (y, leap) in [(1900, 0), (2000, 1), (2023, 0), (2024, 1), (2100, 0)] {
        assert_eq!(
            days_from_civil(y + 1, 1, 1) - days_from_civil(y, 1, 1),
            365 + leap
        );
    }
}

#[test]
fn columns_take_signs_as_numbers_do() {
    assert_eq!(
        parse_epoch_secs("2025-+1-02T03:04:05Z"),
        parse_epoch_secs("2025-01-02T03:04:05Z")
    );
    assert_eq!(
        parse_epoch_secs("2025-01-02T99:00:00Z"),
        parse_epoch_secs("2025-01-06T03:00:00Z")
    );
}
