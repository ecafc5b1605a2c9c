use chrono::TimeZone;
use giant_file_exchange::usage::{choose_date, format_usage_date, usage_moment, Moment};

fn shown(seconds: i64) -> String {
    chrono::Local
        .timestamp_opt(seconds, 0)
        .single()
        .unwrap()
        .format("%Y-%m-%d %H:%M:%S")
        .to_string()
}

#[test]
fn missing_dates_are_named_so() {
    assert_eq!(format_usage_date(None), "未返回");
    assert_eq!(format_usage_date(Some("")), "未返回");
    assert_eq!(format_usage_date(Some(" \t")), "未返回");
}

#[test]
fn numbers_are_moments() {
    assert_eq!(format_usage_date(Some("1750000000")), shown(1750000000));
    assert_eq!(format_usage_date(Some(" 1750000000123 ")), shown(1750000000));
    assert_eq!(format_usage_date(Some("-1")), shown(-1));
    assert_eq!(format_usage_date(Some("-1750000000001")), shown(-1750000001));
    assert_eq!(format_usage_date(Some("00000000001")), shown(0));
}

#[test]
fn moments_are_told_apart_by_length_and_size() {
    assert_eq!(usage_moment("1750000000"), Some(Moment::Seconds(1750000000)));
    assert_eq!(usage_moment("9999999999"), Some(Moment::Seconds(9999999999)));
    assert_eq!(usage_moment("10000000000"), Some(Moment::Millis(10000000000)));
    assert_eq!(usage_moment("-999999999"), Some(Moment::Seconds(-999999999)));
    assert_eq!(usage_moment("-9999999999"), Some(Moment::Millis(-9999999999)));
    assert_eq!(
        usage_moment("-9223372036854775808"),
        Some(Moment::Millis(i64::MIN))
    );
    assert_eq!(usage_moment("soon"), None);
}

#[test]
fn dates_by_rfc_3339_are_shown_in_local_time() {
    let moment = chrono::DateTime::parse_from_rfc3339("2026-07-21T10:00:00Z").unwrap();
    assert_eq!(
        format_usage_date(Some("2026-07-21T10:00:00Z")),
        shown(moment.timestamp())
    );
    assert_eq!(
        format_usage_date(Some("2026-07-21T12:00:00.5+02:00")),
        shown(moment.timestamp())
    );
}

#[test]
fn other_texts_are_shown_as_they_are() {
    assert_eq!(format_usage_date(Some(" next month ")), "next month");
    assert_eq!(format_usage_date(Some("9223372036854775807")), "9223372036854775807");
    assert_eq!(format_usage_date(Some("2026-13-01T00:00:00Z")), "2026-13-01T00:00:00Z");
}

#[test]
fn the_ends_of_the_calendar_are_known() {
    for seconds in [-8334601228800_i64, -8334601228801, 8210266876799, 8210266876800] {
        let inside = (-8334601228800..=8210266876799).contains(&seconds);
        assert_eq!(chrono::Utc.timestamp_opt(seconds, 0).single().is_some(), inside);
        let millis = (seconds as i128 * 1000).to_string();
        let kept = format_usage_date(Some(&millis)) == millis;
        assert_eq!(kept, !inside);
    }
}

#[test]
fn the_number_is_preferred() {
    let text = || "value".to_owned();
    let number = || Some("number".to_owned());
    let rfc = || Some("rfc".to_owned());
    assert_eq!(choose_date(text(), number(), rfc()), "number");
    assert_eq!(choose_date(text(), None, rfc()), "rfc");
    assert_eq!(choose_date(text(), None, None), "value");
}
