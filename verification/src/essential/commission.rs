//! Правила выбора даты заседания сметной комиссии.
use crate::date_time::{hms_of, julian_in_range, moscow_shift, weekday_of, AsezDate, AsezTimestamp, DATE_MAX_JULIAN, NANOS_PER_DAY};
use vstd::prelude::*;

verus! {

/// Дату комиссии можно выбрать при текущих московских дате `now` и часе `hour`:
/// в понедельник до 12:00 -- любую, иначе не раньше понедельника следующей недели.
pub open spec fn commission_date_allowed(now: int, hour: int, commission: int) -> bool {
    if hour < 12 && weekday_of(now) == 0 {
        true
    } else {
        commission >= now + 7 - weekday_of(now)
    }
}

/// Проверка даты комиссии по текущим московским дате и часу.
pub fn inner_commission_date_check(now_date: AsezDate, now_hour: u8, commission_date: AsezDate) -> (r: bool)
    requires
        julian_in_range(now_date@ + 7),
    ensures
        r == commission_date_allowed(now_date@, now_hour as int, commission_date@),
{
    let days_from_monday = now_date.number_days_from_monday();
    if now_hour < 12 && days_from_monday == 0 {
        return true;
    }
    let enabled = now_date.add_days(7 - days_from_monday as i64);
    commission_date.not_before(&enabled)
}

/// Ответ проверки даты комиссии в момент UTC (`day`, `nanos`): правило
/// [`commission_date_allowed`] для московских даты и часа этого момента; ложь,
/// если до предельной даты остаётся меньше недели.
pub open spec fn commission_possible_at(day: int, nanos: int, commission: int) -> bool {
    let (moscow_day, moscow_nanos) = moscow_shift(day, nanos);
    &&& day + 1 < DATE_MAX_JULIAN
    &&& julian_in_range(moscow_day + 7)
    &&& commission_date_allowed(moscow_day, hms_of(moscow_nanos).0, commission)
}

/// Можно ли выбрать дату комиссии сейчас (по московскому времени).
///
/// Ответ -- правило для момента, в который сделан вызов; сам момент берётся
/// из часов машины.
pub fn is_commission_date_possible(commission_date: AsezDate) -> (r: bool)
    ensures
        exists|day: int, nanos: int| julian_in_range(day) && 0 <= nanos < NANOS_PER_DAY
            && r == #[trigger] commission_possible_at(day, nanos, commission_date@),
{
    let utc = AsezTimestamp::now();
    let utc_day: i32 = utc.date().julian_day();
    let _utc_nanos: u64 = utc.nanos();
    let ghost day = utc.day();
    let ghost nanos = utc.nanos_of_day();
    assert(julian_in_range(day) && 0 <= nanos < NANOS_PER_DAY);
    if utc_day as i64 + 1 >= DATE_MAX_JULIAN as i64 {
        assert(!commission_possible_at(day, nanos, commission_date@));
        return false;
    }
    let now = utc.to_moscow_timestamp();
    let (hour, _, _, _) = now.hms_nano();
    let today = now.date();
    if today.julian_day() as i64 + 7 > DATE_MAX_JULIAN as i64 {
        assert(!commission_possible_at(day, nanos, commission_date@));
        return false;
    }
    let r = inner_commission_date_check(today, hour, commission_date);
    assert(r == commission_possible_at(day, nanos, commission_date@));
    r
}

/// Юлианский день понедельника 2024-03-04 (точка отсчёта дней недели).
pub const KNOWN_MONDAY_JULIAN: i32 = 2460374;

/// Правило выбора даты комиссии при текущих московских дате `now` (юлианский
/// день) и часе `hour`: в понедельник до 12:00 можно выбрать любую дату; в
/// любой другой момент (другой день недели или понедельник с 12:00) -- только
/// дату не раньше понедельника следующей недели. Дни недели отсчитываются от
/// известного понедельника [`KNOWN_MONDAY_JULIAN`].
pub proof fn lemma_commission_rule(now: int, hour: int, commission: int)
    ensures
        ({
            let days_from_monday = (now - KNOWN_MONDAY_JULIAN) % 7;
            let next_monday = now - days_from_monday + 7;
            &&& days_from_monday == 0 && hour < 12 ==> commission_date_allowed(now, hour, commission)
            &&& !(days_from_monday == 0 && hour < 12) ==> (commission_date_allowed(now, hour, commission) <==> commission >= next_monday)
        }),
{
    assert((now - KNOWN_MONDAY_JULIAN) % 7 == now % 7) by {
        assert(KNOWN_MONDAY_JULIAN == 7 * 351482);
        vstd::arithmetic::div_mod::lemma_mod_sub_multiples_vanish(now, 7);
    }
}

} // verus!
