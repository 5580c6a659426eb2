use ferrite::calendar::{civil_from_days, date_stamp, iso_date};

#[test]
fn civil_dates_of_known_days() {
    assert_eq!(civil_from_days(0), (1970, 1, 1));
    assert_eq!(civil_from_days(-1), (1969, 12, 31));
    assert_eq!(civil_from_days(59), (1970, 3, 1));
    assert_eq!(civil_from_days(10957), (2000, 1, 1));
    assert_eq!(civil_from_days(11016), (2000, 2, 29));
    assert_eq!(civil_from_days(19782), (2024, 2, 29));
    assert_eq!(civil_from_days(20661), (2026, 7, 27));
    assert_eq!(civil_from_days(-719468), (0, 3, 1));
}

#[test]
fn consecutive_days_give_consecutive_dates() {
    let mut previous = civil_from_days(-800);
    for day in -799..900 {
        let next = civil_from_days(day);
        let (y, m, d) = previous;
        let month_len = match m {
            2 if (y % 4 == 0 && y % 100 != 0) || y % 400 == 0 => 29,
            2 => 28,
            4 | 6 | 9 | 11 => 30,
            _ => 31,
        };
        let expected = if d < month_len {
            (y, m, d + 1)
        } else if m < 12 {
            (y, m + 1, 1)
        } else {
            (y + 1, 1, 1)
        };
        assert_eq!(next, expected);
        previous = next;
    }
}

#[test]
fn iso_dates_are_zero_padded() {
    assert_eq!(iso_date(2026, 7, 27), "2026-07-27");
    assert_eq!(iso_date(987, 1, 2), "0987-01-02");
    assert_eq!(iso_date(12345, 12, 31), "12345-12-31");
    assert_eq!(iso_date(-5, 3, 1), "-005-03-01");
}

#[test]
fn date_stamp_of_seconds() {
    assert_eq!(date_stamp(0), "1970-01-01");
    assert_eq!(date_stamp(86_399), "1970-01-01");
    assert_eq!(date_stamp(86_400), "1970-01-02");
    assert_eq!(date_stamp(1_785_110_400), "2026-07-27");
    assert_eq!(date_stamp(-86_400), "1969-12-31");
    assert_eq!(date_stamp(-1), "1970-01-01");
}
