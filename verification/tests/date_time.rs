use asez2_shared_db::date_time::{AsezDate, AsezTimestamp, Weekday};

fn date(s: &str) -> AsezDate {
    AsezDate::try_from_db_format(s).expect("date should be parsable")
}

fn timestamp(s: &str) -> AsezTimestamp {
    AsezTimestamp::try_from_text(s).expect("date should be parsable")
}

#[test]
fn with_next_weekday() {
    // Суббота, в месяце 31 дня
    let someday = date("2000-01-29");

    assert_eq!(date("2000-01-30"), someday.with_next_weekday(Weekday::Sunday));
    assert_eq!(date("2000-02-01"), someday.with_next_weekday(Weekday::Tuesday));
    assert_eq!(date("2000-02-05"), someday.with_next_weekday(Weekday::Saturday));
}

#[test]
fn to_moscow_timestamp() {
    let timestamp_utc = timestamp("08.08.2025 11:14:02");
    let expected = timestamp("08.08.2025 14:14:02");
    assert_eq!(expected, timestamp_utc.to_moscow_timestamp())
}

#[test]
fn moscow_timestamp_crosses_midnight() {
    let late = timestamp("08.08.2025 22:30:00");
    assert_eq!(timestamp("09.08.2025 01:30:00"), late.to_moscow_timestamp());
    assert_eq!(late.to_text_offset_3(), "09.08.2025 01:30:00");
}

#[test]
fn julian_day_round_trip() {
    let d = date("2000-01-29");
    assert_eq!(d.julian_day(), 2451573);
    assert_eq!(AsezDate::from_julian_day(2451573), d);
    assert_eq!(d.number_days_from_monday(), 5);
    assert_eq!(d.calendar(), (2000, 1, 29));
    assert_eq!(d.get_month(), 1);
}

#[test]
fn api_and_db_formats() {
    let d = date("2024-03-05");
    assert_eq!(AsezDate::try_from_api_format("05.03.2024").unwrap(), d);
    assert_eq!(AsezDate::try_from_text("05.03.2024").unwrap(), d);
    assert_eq!(AsezDate::try_from_text("2024-03-05").unwrap(), d);
    assert_eq!(d.to_text(), "05.03.2024");
    assert_eq!(d.plain_text(), "2024-03-05");
}

#[test]
fn invalid_date_message() {
    assert_eq!(
        AsezDate::try_from_db_format("31.02.2024").unwrap_err(),
        "31.02.2024 не может быть валидной датой"
    );
    assert!(AsezDate::try_from_text("not a date").is_err());
}

#[test]
fn ordinal_dates() {
    assert_eq!(AsezDate::try_from_yo(2024, 60).unwrap(), date("2024-02-29"));
    assert!(AsezDate::try_from_yo(2023, 366).is_err());
}

#[test]
fn empty_date_and_excel_serial() {
    let empty = AsezDate::default();
    assert!(empty.is_empty());
    assert_eq!(empty, date("1901-01-01"));
    assert_eq!(empty.get_month(), 0);
    assert_eq!(empty.excel_serial_day(), 0);
    // Серийный номер Excel 2024-01-01 -- 45292.
    assert_eq!(date("2024-01-01").excel_serial_day(), 45292);
}

#[test]
fn day_arithmetic() {
    let d = date("2024-02-28");
    assert_eq!(d.add_days(2), date("2024-03-01"));
    assert_eq!(d.whole_days_since(date("2024-03-01")), 2);
    assert_eq!(date("2024-03-01").whole_days_since(d), -2);
    assert!(date("2024-03-01").not_before(&d));
    assert!(!d.not_before(&date("2024-03-01")));
    assert_eq!(d.to_timestamp(), timestamp("2024-02-28 00:00:00"));
}

#[test]
fn working_days() {
    // Понедельник 2024-03-04 .. пятница 2024-03-15: две рабочие недели.
    assert_eq!(date("2024-03-04").working_days_between(date("2024-03-15")), 10);
    // Один и тот же рабочий день.
    assert_eq!(date("2024-03-04").working_days_between(date("2024-03-04")), 1);
    // Один и тот же выходной.
    assert_eq!(date("2024-03-09").working_days_between(date("2024-03-09")), 0);
    // Суббота .. понедельник.
    assert_eq!(date("2024-03-09").working_days_between(date("2024-03-11")), 1);
}

#[test]
fn unix_timestamps() {
    let t = timestamp("1970-01-02 00:00:10");
    assert_eq!(t.unix_timestamp(), 86_410);
    assert_eq!(AsezTimestamp::from_unix_timestamp(86_410), t);
    assert_eq!(AsezTimestamp::max().unix_timestamp(), 253_402_203_600);
    assert_eq!(t.hms_nano(), (0, 0, 10, 0));
}

#[test]
fn timestamp_formats() {
    let t = timestamp("2024-03-05 07:08:09");
    assert_eq!(t, AsezTimestamp::try_from_api_format("05.03.2024 07:08:09").unwrap());
    assert_eq!(t.date(), date("2024-03-05"));
    assert!(AsezTimestamp::try_from_text("05/03/2024").is_err());
    assert!(AsezTimestamp::default().is_empty());
}

#[test]
fn moscow_dates() {
    let t = timestamp("08.08.2025 22:30:00");
    assert_eq!(t.to_moscow_date(), date("2025-08-08"));
    assert_eq!(t.date_offset_3(), date("2025-08-08"));
}
