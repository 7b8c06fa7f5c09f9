use repolyze::date_util::{
    add_days, day_of_week, format_unix_timestamp, format_ymd, from_jdn, month_abbrev,
    monday_of_week, parse_ymd, to_jdn, today_ymd,
};

#[test]
fn parse_ymd_valid() {
    assert_eq!(parse_ymd("2025-01-15"), Some((2025, 1, 15)));
    assert_eq!(parse_ymd("2000-12-31"), Some((2000, 12, 31)));
}

#[test]
fn parse_ymd_invalid() {
    assert!(parse_ymd("not-a-date").is_none());
    assert!(parse_ymd("2025-13-01").is_none());
    assert!(parse_ymd("2025-00-01").is_none());
    assert!(parse_ymd("2025-01-00").is_none());
}

#[test]
fn date_util_day_of_week_known_dates() {
    // 2025-01-13 is Monday (0)
    assert_eq!(day_of_week(2025, 1, 13), 0);
    // 2025-01-15 is Wednesday (2)
    assert_eq!(day_of_week(2025, 1, 15), 2);
    // 2025-01-19 is Sunday (6)
    assert_eq!(day_of_week(2025, 1, 19), 6);
    // 2024-02-29 is Thursday (3) — leap year
    assert_eq!(day_of_week(2024, 2, 29), 3);
}

#[test]
fn add_days_forward() {
    assert_eq!(add_days("2025-01-30", 2), "2025-02-01");
    assert_eq!(add_days("2025-12-31", 1), "2026-01-01");
}

#[test]
fn add_days_backward() {
    assert_eq!(add_days("2025-01-01", -1), "2024-12-31");
    assert_eq!(add_days("2025-03-01", -1), "2025-02-28");
}

#[test]
fn add_days_leap_year() {
    assert_eq!(add_days("2024-02-28", 1), "2024-02-29");
    assert_eq!(add_days("2024-02-29", 1), "2024-03-01");
    // Non-leap year
    assert_eq!(add_days("2025-02-28", 1), "2025-03-01");
}

#[test]
fn format_ymd_pads_correctly() {
    assert_eq!(format_ymd(2025, 1, 5), "2025-01-05");
    assert_eq!(format_ymd(2025, 12, 31), "2025-12-31");
}

#[test]
fn month_abbrev_all() {
    assert_eq!(month_abbrev(1), "Jan");
    assert_eq!(month_abbrev(6), "Jun");
    assert_eq!(month_abbrev(12), "Dec");
    assert_eq!(month_abbrev(0), "???");
}

#[test]
fn format_unix_timestamp_known_dates() {
    assert_eq!(format_unix_timestamp(0), "1970-01-01");
    assert_eq!(format_unix_timestamp(1704067200), "2024-01-01");
    assert_eq!(format_unix_timestamp(1710720000), "2024-03-18");
}

#[test]
fn monday_of_week_returns_same_date_for_monday() {
    // 2025-01-13 is a Monday
    assert_eq!(monday_of_week("2025-01-13").as_deref(), Some("2025-01-13"));
}

#[test]
fn monday_of_week_wednesday_rolls_back() {
    // 2025-01-15 is a Wednesday → Monday 2025-01-13
    assert_eq!(monday_of_week("2025-01-15").as_deref(), Some("2025-01-13"));
}

#[test]
fn monday_of_week_sunday_rolls_back_six_days() {
    // 2025-01-19 is a Sunday → Monday 2025-01-13
    assert_eq!(monday_of_week("2025-01-19").as_deref(), Some("2025-01-13"));
}

#[test]
fn monday_of_week_crosses_month_boundary() {
    // 2025-03-01 is a Saturday → Monday 2025-02-24
    assert_eq!(monday_of_week("2025-03-01").as_deref(), Some("2025-02-24"));
}

#[test]
fn monday_of_week_invalid_returns_none() {
    assert!(monday_of_week("not-a-date").is_none());
    assert!(monday_of_week("2025-13-01").is_none());
    assert!(monday_of_week("").is_none());
}

#[test]
fn today_ymd_format() {
    let today = today_ymd();
    assert_eq!(today.len(), 10);
    assert!(parse_ymd(&today).is_some());
}

#[test]
fn julian_day_numbers_round_trip() {
    assert_eq!(to_jdn(1970, 1, 1), 2_440_588);
    assert_eq!(from_jdn(2_440_588), (1970, 1, 1));
    for (y, m, d) in [(2024, 2, 29), (1999, 12, 31), (2000, 1, 1), (1, 1, 1)] {
        assert_eq!(from_jdn(to_jdn(y, m, d)), (y, m, d));
    }
}

#[test]
fn parse_and_format_round_trip() {
    for (y, m, d) in [(2025, 1, 5), (999, 12, 31), (10000, 6, 1)] {
        assert_eq!(parse_ymd(&format_ymd(y, m, d)), Some((y, m, d)));
    }
}

#[test]
fn add_days_on_unparsable_text_starts_from_the_epoch() {
    assert_eq!(add_days("garbage", 1), "1970-01-02");
}

#[test]
fn monday_of_week_rejects_days_beyond_the_month() {
    assert!(monday_of_week("2025-02-30").is_none());
    assert!(monday_of_week("2025-02-29").is_none());
    assert!(monday_of_week("2025-04-31").is_none());
    assert!(monday_of_week("1900-02-29").is_none());
    assert_eq!(monday_of_week("2024-02-29").as_deref(), Some("2024-02-26"));
    assert_eq!(monday_of_week("2000-02-29").as_deref(), Some("2000-02-28"));
}

#[test]
fn day_of_week_is_day_number_modulo_seven() {
    for (y, m, d) in [(1970, 1, 1), (2024, 2, 29), (2024, 3, 1), (2025, 12, 31), (2026, 1, 1)] {
        assert_eq!(day_of_week(y, m, d) as i64, to_jdn(y, m, d).rem_euclid(7));
    }
    assert_eq!(to_jdn(1970, 1, 1), 2440588);
    assert_eq!(to_jdn(2024, 3, 1), to_jdn(2024, 2, 29) + 1);
}

#[test]
fn add_days_composes_and_day_numbers_round_trip() {
    let s = "2024-02-27";
    assert_eq!(add_days(&add_days(s, 40), -15), add_days(s, 25));
    assert_eq!(add_days(&add_days(s, 3), -3), s);
    assert_eq!(add_days(s, 0), s);
    for (y, m, d) in [(1, 1, 1), (1600, 2, 29), (1999, 12, 31), (2000, 2, 29), (9999, 12, 31)] {
        assert_eq!(from_jdn(to_jdn(y, m, d)), (y, m, d));
        assert_eq!(parse_ymd(&format_ymd(y, m, d)), Some((y, m, d)));
    }
}

#[test]
fn well_formed_date_text_is_the_format_of_its_parse() {
    for s in ["2025-01-05", "0999-12-31", "2024-02-29", "0001-01-01"] {
        let (y, m, d) = parse_ymd(s).unwrap();
        assert_eq!(format_ymd(y, m, d), s);
    }
}
