//! Расписание ежедневной фоновой задачи.
use crate::date_time::NANOS_PER_DAY;
use vstd::prelude::*;

verus! {

/// Сколько наносекунд ждать от времени суток `from` до ближайшего наступления
/// времени суток `to`: при `to` не позже `from` -- переход через полночь
/// (при равных -- ровно сутки).
pub open spec fn wait_within_day(from: int, to: int) -> int {
    if from < to {
        to - from
    } else {
        NANOS_PER_DAY - (from - to)
    }
}

/// Продолжительность (в наносекундах) от момента суток `from` до момента `to`
/// с учётом перехода через полночь; моменты -- наносекунды от полуночи.
pub fn duration_within_24h(from: u64, to: u64) -> (r: u64)
    requires
        from < NANOS_PER_DAY,
        to < NANOS_PER_DAY,
    ensures
        r == wait_within_day(from as int, to as int),
        0 < r <= NANOS_PER_DAY,
{
    if from < to {
        to - from
    } else {
        NANOS_PER_DAY - (from - to)
    }
}

} // verus!
