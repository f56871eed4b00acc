use asez2_shared_db::essential::daily_task;

const HOUR: u64 = 60 * 60 * 1_000_000_000;
const MINUTE: u64 = 60 * 1_000_000_000;

#[test]
fn duration_within_24h() {
    let cases = [
        (10 * HOUR + 30 * MINUTE, 12 * HOUR + 30 * MINUTE, 2 * HOUR),
        (10 * HOUR + 30 * MINUTE, 9 * HOUR + 30 * MINUTE, 23 * HOUR),
    ];
    for (from, to, exp) in cases {
        assert_eq!(daily_task::duration_within_24h(from, to), exp);
    }
}

#[test]
fn same_time_waits_full_day() {
    assert_eq!(daily_task::duration_within_24h(5 * HOUR, 5 * HOUR), 24 * HOUR);
    assert_eq!(daily_task::duration_within_24h(0, 24 * HOUR - 1), 24 * HOUR - 1);
}
