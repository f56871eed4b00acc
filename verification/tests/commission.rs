use asez2_shared_db::date_time::AsezDate;
use asez2_shared_db::essential::commission::{inner_commission_date_check, is_commission_date_possible};

/// Понедельник текущей недели и сегодняшняя дата.
fn current_monday_and_today() -> (AsezDate, AsezDate) {
    let today = AsezDate::today();
    let monday = today.add_days(-(today.number_days_from_monday() as i64));
    (monday, today)
}

#[test]
fn test_commission_date_before_monday() {
    // Текущая дата до 12:00 понедельника
    let (monday, today) = current_monday_and_today();
    assert!(inner_commission_date_check(monday, 11, today));
}

#[test]
fn test_commission_date_after_monday() {
    // Текущая дата после 12:00 понедельника
    let (monday, today) = current_monday_and_today();
    assert!(!inner_commission_date_check(monday, 12, today));
}

#[test]
fn commission_date_from_next_monday() {
    let wednesday = AsezDate::try_from_db_format("2024-03-06").unwrap();
    let sunday = AsezDate::try_from_db_format("2024-03-10").unwrap();
    let next_monday = AsezDate::try_from_db_format("2024-03-11").unwrap();
    assert!(!inner_commission_date_check(wednesday, 9, sunday));
    assert!(inner_commission_date_check(wednesday, 9, next_monday));
    // В понедельник до полудня можно выбрать даже прошедшую дату.
    let monday = AsezDate::try_from_db_format("2024-03-04").unwrap();
    assert!(inner_commission_date_check(monday, 11, wednesday));
    assert!(!inner_commission_date_check(monday, 12, wednesday));
    assert!(inner_commission_date_check(monday, 12, next_monday));
}

#[test]
fn far_future_commission_is_possible() {
    let far = AsezDate::try_from_db_format("9000-01-01").unwrap();
    assert!(is_commission_date_possible(far));
}
