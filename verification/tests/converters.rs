use gmo_coin::number::{decimal_to_string, i64_to_string, str_to_decimal, str_to_i64, Decimal};
use gmo_coin::timestamp::{str_to_timestamp, Timestamp};

#[test]
fn integers_parse_exactly() {
    assert_eq!(str_to_i64("750760"), Some(750760));
    assert_eq!(str_to_i64("-42"), Some(-42));
    assert_eq!(str_to_i64("+7"), Some(7));
    assert_eq!(str_to_i64("007"), Some(7));
    assert_eq!(str_to_i64("9223372036854775807"), Some(i64::MAX));
    assert_eq!(str_to_i64("-9223372036854775808"), Some(i64::MIN));
}

#[test]
fn bad_integers_are_refused() {
    assert_eq!(str_to_i64(""), None);
    assert_eq!(str_to_i64("abc"), None);
    assert_eq!(str_to_i64("-"), None);
    assert_eq!(str_to_i64("12x"), None);
    assert_eq!(str_to_i64("9223372036854775808"), None);
    assert_eq!(str_to_i64("-9223372036854775809"), None);
}

#[test]
fn integers_round_trip_through_their_rendering() {
    for n in [0i64, 1, -1, 750760, i64::MAX, i64::MIN, 1000000] {
        let s = i64_to_string(n);
        assert_eq!(str_to_i64(&s), Some(n));
    }
    assert_eq!(i64_to_string(-42), "-42");
    assert_eq!(i64_to_string(0), "0");
}

#[test]
fn decimals_parse_exactly() {
    assert_eq!(
        str_to_decimal("0.1"),
        Some(Decimal { mantissa: 1, scale: 1 })
    );
    assert_eq!(
        str_to_decimal("-0.25"),
        Some(Decimal {
            mantissa: -25,
            scale: 2
        })
    );
    assert_eq!(
        str_to_decimal("12"),
        Some(Decimal {
            mantissa: 12,
            scale: 0
        })
    );
    assert_eq!(
        str_to_decimal("0.10"),
        Some(Decimal {
            mantissa: 10,
            scale: 2
        })
    );
}

#[test]
fn bad_decimals_are_refused() {
    assert_eq!(str_to_decimal(""), None);
    assert_eq!(str_to_decimal("abc"), None);
    assert_eq!(str_to_decimal("1."), None);
    assert_eq!(str_to_decimal(".5"), None);
    assert_eq!(str_to_decimal("1.2.3"), None);
    assert_eq!(str_to_decimal("0.1234567890123456789"), None);
}

#[test]
fn decimals_round_trip_through_their_rendering() {
    for d in [
        Decimal { mantissa: 1, scale: 1 },
        Decimal {
            mantissa: -25,
            scale: 2,
        },
        Decimal {
            mantissa: 0,
            scale: 3,
        },
        Decimal {
            mantissa: 750760,
            scale: 0,
        },
        Decimal {
            mantissa: i64::MIN,
            scale: 5,
        },
    ] {
        let s = decimal_to_string(d);
        assert_eq!(str_to_decimal(&s), Some(d));
    }
    assert_eq!(
        decimal_to_string(Decimal { mantissa: 1, scale: 1 }),
        "0.1"
    );
    assert_eq!(
        decimal_to_string(Decimal {
            mantissa: 10,
            scale: 2
        }),
        "0.10"
    );
}

#[test]
fn timestamps_parse_to_their_calendar_fields() {
    let t = str_to_timestamp("2018-03-30T12:34:56.789Z").unwrap();
    assert_eq!(
        t,
        Timestamp {
            year: 2018,
            month: 3,
            day: 30,
            hour: 12,
            minute: 34,
            second: 56,
            millisecond: 789,
        }
    );
    let u = str_to_timestamp("2019-03-28T09:28:07Z").unwrap();
    assert_eq!(u.millisecond, 0);
    assert_eq!(u.to_rfc3339_millis(), "2019-03-28T09:28:07.000Z");
}

#[test]
fn bad_timestamps_are_refused() {
    assert_eq!(str_to_timestamp(""), None);
    assert_eq!(str_to_timestamp("2018-03-30"), None);
    assert_eq!(str_to_timestamp("2018-13-01T00:00:00.000Z"), None);
    assert_eq!(str_to_timestamp("2018-02-29T00:00:00.000Z"), None);
    assert_eq!(str_to_timestamp("2018-03-30T24:00:00.000Z"), None);
    assert_eq!(str_to_timestamp("2018-03-30 12:34:56.789Z"), None);
}

#[test]
fn leap_years_admit_the_extra_day() {
    assert!(str_to_timestamp("2016-02-29T00:00:00.000Z").is_some());
    assert!(str_to_timestamp("2000-02-29T00:00:00.000Z").is_some());
    assert_eq!(str_to_timestamp("1900-02-29T00:00:00.000Z"), None);
}

#[test]
fn timestamps_render_back_to_the_wire_form() {
    let s = "2019-03-28T09:28:07.980Z";
    let t = str_to_timestamp(s).unwrap();
    assert_eq!(t.to_rfc3339_millis(), s);
}
