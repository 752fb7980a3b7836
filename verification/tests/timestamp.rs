use quick_capture::timestamp::{civil_from_days, format_rfc3339};

#[test]
fn epoch_day_is_first_of_january_1970() {
    assert_eq!(civil_from_days(0), (1970, 1, 1));
}

#[test]
fn day_before_epoch_is_new_years_eve() {
    assert_eq!(civil_from_days(-1), (1969, 12, 31));
}

#[test]
fn leap_day_of_2000() {
    assert_eq!(civil_from_days(11016), (2000, 2, 29));
    assert_eq!(civil_from_days(11017), (2000, 3, 1));
}

#[test]
fn century_that_is_not_leap() {
    // 1900 is not a leap year: Feb 28 is followed by Mar 1.
    assert_eq!(civil_from_days(-25567), (1900, 1, 1));
    assert_eq!(civil_from_days(-25567 + 58), (1900, 2, 28));
    assert_eq!(civil_from_days(-25567 + 59), (1900, 3, 1));
}

#[test]
fn distant_dates() {
    assert_eq!(civil_from_days(19723), (2024, 1, 1));
    assert_eq!(civil_from_days(2932896), (9999, 12, 31));
    assert_eq!(civil_from_days(-719162), (1, 1, 1));
    assert_eq!(civil_from_days(-719468), (0, 3, 1));
    assert_eq!(civil_from_days(-719469), (0, 2, 29));
}

#[test]
fn consecutive_days_follow_the_calendar() {
    let mut prev = civil_from_days(-800);
    for z in -799..800i64 {
        let cur = civil_from_days(z);
        if cur.2 == 1 {
            assert!(cur.1 == prev.1 % 12 + 1);
        } else {
            assert_eq!((cur.0, cur.1, cur.2 - 1), prev);
        }
        prev = cur;
    }
}

#[test]
fn formats_epoch() {
    assert_eq!(format_rfc3339(0, 0), "1970-01-01T00:00:00.000Z");
}

#[test]
fn formats_known_instants() {
    assert_eq!(format_rfc3339(1_700_000_000, 5), "2023-11-14T22:13:20.005Z");
    assert_eq!(format_rfc3339(951_782_400, 999), "2000-02-29T00:00:00.999Z");
    assert_eq!(format_rfc3339(4_102_444_799, 120), "2099-12-31T23:59:59.120Z");
    assert_eq!(format_rfc3339(1_718_445_296, 42), "2024-06-15T09:54:56.042Z");
}

#[test]
fn year_beyond_four_digits_keeps_all_digits() {
    assert_eq!(format_rfc3339(253_402_300_800, 0), "10000-01-01T00:00:00.000Z");
}
