//! Дата и метка времени, хранящиеся как юлианский день и наносекунды суток.
//!
//! Календарные вычисления (год/месяц/день, разбор и форматирование строк)
//! выполняет крейт `time`; арифметика дней, недель и смещений -- здесь.
use crate::text::{copy_string, dec_text};
use vstd::prelude::*;

verus! {

/// Юлианский день минимальной даты крейта `time` (-9999-01-01).
pub const DATE_MIN_JULIAN: i32 = -1930999;
/// Юлианский день максимальной даты крейта `time` (9999-12-31).
pub const DATE_MAX_JULIAN: i32 = 5373484;
/// Юлианский день 1901-01-01 -- "пустая" дата по умолчанию.
pub const DEFAULT_JULIAN: i32 = 2415386;
/// Юлианский день 1970-01-01 (начало эпохи UNIX).
pub const UNIX_EPOCH_JULIAN: i32 = 2440588;
/// Юлианский день 1900-01-01 (отсчёт дат Excel).
pub const EXCEL_ZERO_JULIAN: i32 = 2415021;
/// Наносекунд в сутках.
pub const NANOS_PER_DAY: u64 = 86_400_000_000_000;
/// Наносекунд в секунде.
pub const NANOS_PER_SECOND: u64 = 1_000_000_000;
/// Секунд в сутках.
pub const SECONDS_PER_DAY: i64 = 86_400;

/// Формат даты БД.
pub const DB_DATE_FORMAT: &'static str = "[year]-[month]-[day]";
/// Формат метки времени БД.
pub const DB_TIMESTAMP_FORMAT: &'static str = "[year]-[month]-[day] [hour]:[minute]:[second]";
/// Формат, в котором показывается [`AsezDate`].
pub const DATE_FORMAT: &'static str = "[day].[month].[year]";
/// Формат, в котором показывается [`AsezTimestamp`].
pub const TIMESTAMP_FORMAT: &'static str = "[day].[month].[year] [hour]:[minute]:[second]";

/// Юлианский день допустим для крейта `time`.
pub open spec fn julian_in_range(jd: int) -> bool {
    DATE_MIN_JULIAN <= jd <= DATE_MAX_JULIAN
}

/// День недели как число дней от понедельника (юлианский день 0 -- понедельник).
pub open spec fn weekday_of(jd: int) -> int {
    jd % 7
}

/// День рабочий (понедельник--пятница).
pub open spec fn is_working_day(jd: int) -> bool {
    weekday_of(jd) < 5
}

/// Количество рабочих дней в отрезке `[a, b]` (0, если отрезок пуст).
pub open spec fn working_days_in(a: int, b: int) -> nat
    decreases b - a + 1,
{
    if b < a {
        0
    } else {
        working_days_in(a, b - 1) + if is_working_day(b) { 1nat } else { 0nat }
    }
}

// ---------------------------------------------------------------------------
// Вызовы крейта `time`.
// ---------------------------------------------------------------------------

/// Год, месяц и день юлианского дня по григорианскому календарю.
pub uninterp spec fn calendar_of_julian(jd: int) -> (int, int, int);

/// Юлианский день даты, заданной годом и номером дня в году, если она существует.
pub uninterp spec fn julian_of_ordinal(year: int, ordinal: int) -> Option<int>;

/// Юлианский день даты, разобранной из `s` по описанию формата `format`.
pub uninterp spec fn date_parsed(s: Seq<char>, format: Seq<char>) -> Option<int>;

/// Юлианский день и время суток (ч, мин, с, нс), разобранные из `s` по формату `format`.
pub uninterp spec fn datetime_parsed(s: Seq<char>, format: Seq<char>) -> Option<(int, int, int, int, int)>;

/// Дата, записанная по описанию формата `format`.
pub uninterp spec fn date_formatted(jd: int, format: Seq<char>) -> Seq<char>;

/// Дата и время суток, записанные по описанию формата `format`.
pub uninterp spec fn datetime_formatted(jd: int, h: int, m: int, s: int, ns: int, format: Seq<char>) -> Seq<char>;

/// Запись даты реализацией `Display` крейта `time`.
pub uninterp spec fn date_display(jd: int) -> Seq<char>;

/// Запись даты и времени реализацией `Display` крейта `time`.
pub uninterp spec fn datetime_display(jd: int, h: int, m: int, s: int, ns: int) -> Seq<char>;

/// `Date::from_julian_day(jd)` и `Date::to_calendar_date`.
///
/// Контракт: результат -- имя `calendar_of_julian` от `jd`; месяц в 1..=12,
/// день в 1..=31, год в пределах ±9999 (как документирует `time`).
#[verifier::external_body]
fn calendar_date(jd: i32) -> (r: (i32, u8, u8))
    requires
        julian_in_range(jd as int),
    ensures
        calendar_of_julian(jd as int) == (r.0 as int, r.1 as int, r.2 as int),
        1 <= r.1 <= 12,
        1 <= r.2 <= 31,
        -9999 <= r.0 <= 9999,
{
    let (y, m, d) = time::Date::from_julian_day(jd).unwrap().to_calendar_date();
    (y, m as u8, d)
}

/// `Date::from_ordinal_date(year, ordinal)` с переводом в юлианский день.
///
/// Контракт: результат -- имя `julian_of_ordinal`; найденный день допустим.
#[verifier::external_body]
fn ordinal_date_julian(year: i32, ordinal: u16) -> (r: Option<i32>)
    ensures
        match r {
            Some(j) => julian_of_ordinal(year as int, ordinal as int) == Some(j as int)
                && julian_in_range(j as int),
            None => julian_of_ordinal(year as int, ordinal as int) is None,
        },
{
    time::Date::from_ordinal_date(year, ordinal).ok().map(|d| d.to_julian_day())
}

/// `Date::parse(s, &format_description::parse(format))`.
///
/// Контракт: результат -- имя `date_parsed` от `s` и `format`; найденный день допустим.
#[verifier::external_body]
fn parse_date_julian(s: &str, format: &str) -> (r: Option<i32>)
    ensures
        match r {
            Some(j) => date_parsed(s@, format@) == Some(j as int) && julian_in_range(j as int),
            None => date_parsed(s@, format@) is None,
        },
{
    let items = time::format_description::parse(format).ok()?;
    time::Date::parse(s, &items).ok().map(|d| d.to_julian_day())
}

/// `PrimitiveDateTime::parse(s, &format_description::parse(format))`.
///
/// Контракт: результат -- имя `datetime_parsed`; компоненты времени в своих диапазонах.
#[verifier::external_body]
fn parse_datetime_parts(s: &str, format: &str) -> (r: Option<(i32, u8, u8, u8, u32)>)
    ensures
        match r {
            Some(p) => datetime_parsed(s@, format@) == Some(
                (p.0 as int, p.1 as int, p.2 as int, p.3 as int, p.4 as int),
            ) && julian_in_range(p.0 as int) && p.1 < 24 && p.2 < 60 && p.3 < 60 && p.4 < 1_000_000_000,
            None => datetime_parsed(s@, format@) is None,
        },
{
    let items = time::format_description::parse(format).ok()?;
    let t = time::PrimitiveDateTime::parse(s, &items).ok()?;
    let (h, m, sec, ns) = t.time().as_hms_nano();
    Some((t.date().to_julian_day(), h, m, sec, ns))
}

/// `Date::format(&format_description::parse(format))`.
///
/// Контракт: результат -- имя `date_formatted` от дня и формата.
#[verifier::external_body]
fn format_date_julian(jd: i32, format: &str) -> (r: String)
    requires
        julian_in_range(jd as int),
    ensures
        r@ == date_formatted(jd as int, format@),
{
    match time::format_description::parse(format) {
        Ok(items) => time::Date::from_julian_day(jd).unwrap().format(&items).unwrap_or_default(),
        Err(_) => String::new(),
    }
}

/// `PrimitiveDateTime::format(&format_description::parse(format))`.
///
/// Контракт: результат -- имя `datetime_formatted` от компонентов и формата.
#[verifier::external_body]
fn format_datetime_parts(jd: i32, h: u8, m: u8, s: u8, ns: u32, format: &str) -> (r: String)
    requires
        julian_in_range(jd as int),
        h < 24,
        m < 60,
        s < 60,
        ns < 1_000_000_000,
    ensures
        r@ == datetime_formatted(jd as int, h as int, m as int, s as int, ns as int, format@),
{
    let date = time::Date::from_julian_day(jd).unwrap();
    let t = time::Time::from_hms_nano(h, m, s, ns).unwrap();
    match time::format_description::parse(format) {
        Ok(items) => time::PrimitiveDateTime::new(date, t).format(&items).unwrap_or_default(),
        Err(_) => String::new(),
    }
}

/// `<Date as Display>::to_string`.
///
/// Контракт: результат -- имя `date_display` от дня.
#[verifier::external_body]
fn date_display_text(jd: i32) -> (r: String)
    requires
        julian_in_range(jd as int),
    ensures
        r@ == date_display(jd as int),
{
    time::Date::from_julian_day(jd).unwrap().to_string()
}

/// `<PrimitiveDateTime as Display>::to_string`.
///
/// Контракт: результат -- имя `datetime_display` от компонентов.
#[verifier::external_body]
fn datetime_display_text(jd: i32, h: u8, m: u8, s: u8, ns: u32) -> (r: String)
    requires
        julian_in_range(jd as int),
        h < 24,
        m < 60,
        s < 60,
        ns < 1_000_000_000,
    ensures
        r@ == datetime_display(jd as int, h as int, m as int, s as int, ns as int),
{
    let date = time::Date::from_julian_day(jd).unwrap();
    let t = time::Time::from_hms_nano(h, m, s, ns).unwrap();
    time::PrimitiveDateTime::new(date, t).to_string()
}

/// `OffsetDateTime::now_utc()`: текущие дата и время суток UTC.
///
/// Контракт: только диапазоны компонентов; сами значения зависят от часов машины.
#[verifier::external_body]
fn now_utc_parts() -> (r: (i32, u8, u8, u8, u32))
    ensures
        julian_in_range(r.0 as int),
        r.1 < 24,
        r.2 < 60,
        r.3 < 60,
        r.4 < 1_000_000_000,
{
    let t = time::OffsetDateTime::now_utc();
    let (h, m, s, ns) = t.time().as_hms_nano();
    (t.date().to_julian_day(), h, m, s, ns)
}

// ---------------------------------------------------------------------------
// День недели.
// ---------------------------------------------------------------------------

/// День недели.
#[derive(Clone, Copy, Debug, PartialEq, Eq)]
pub enum Weekday {
    Monday,
    Tuesday,
    Wednesday,
    Thursday,
    Friday,
    Saturday,
    Sunday,
}

impl Weekday {
    /// Номер дня недели, считая понедельник нулём.
    pub open spec fn index(self) -> int {
        match self {
            Weekday::Monday => 0,
            Weekday::Tuesday => 1,
            Weekday::Wednesday => 2,
            Weekday::Thursday => 3,
            Weekday::Friday => 4,
            Weekday::Saturday => 5,
            Weekday::Sunday => 6,
        }
    }

    /// Количество дней от понедельника.
    pub fn number_days_from_monday(self) -> (r: u8)
        ensures
            r as int == self.index(),
    {
        match self {
            Weekday::Monday => 0,
            Weekday::Tuesday => 1,
            Weekday::Wednesday => 2,
            Weekday::Thursday => 3,
            Weekday::Friday => 4,
            Weekday::Saturday => 5,
            Weekday::Sunday => 6,
        }
    }
}

// ---------------------------------------------------------------------------
// AsezDate.
// ---------------------------------------------------------------------------

/// Дата (юлианский день) с реализацией `Default`.
#[derive(Clone, Copy, Debug, PartialEq, Eq, Hash, PartialOrd, Ord)]
pub struct AsezDate {
    julian: i32,
}

impl View for AsezDate {
    type V = int;

    closed spec fn view(&self) -> int {
        self.julian as int
    }
}

/// Текст ошибки разбора даты.
pub open spec fn invalid_date_text(value: Seq<char>) -> Seq<char> {
    value + " не может быть валидной датой"@
}

fn invalid_date_message(value: &str) -> (r: String)
    ensures
        r@ == invalid_date_text(value@),
{
    let mut r = String::from_str(value);
    r.append(" не может быть валидной датой");
    r
}

impl AsezDate {
    #[verifier::type_invariant]
    spec fn inv(self) -> bool {
        julian_in_range(self.julian as int)
    }

    /// Юлианский день даты.
    pub fn julian_day(&self) -> (r: i32)
        ensures
            r as int == self@,
            julian_in_range(r as int),
    {
        proof {
            use_type_invariant(self);
        }
        self.julian
    }

    /// Дата по юлианскому дню.
    pub fn from_julian_day(julian_date: i64) -> (r: Self)
        requires
            julian_in_range(julian_date as int),
        ensures
            r@ == julian_date,
    {
        AsezDate { julian: julian_date as i32 }
    }

    /// Сегодняшняя дата (UTC).
    pub fn today() -> (r: Self) {
        let now = now_utc_parts();
        AsezDate { julian: now.0 }
    }

    /// Дата по году и номеру дня в году.
    pub fn try_from_yo(year: i32, day: u16) -> (r: Result<Self, String>)
        ensures
            match julian_of_ordinal(year as int, day as int) {
                Some(j) => r == Ok::<Self, String>(Self::spec_from_julian(j)),
                None => r is Err,
            },
    {
        match ordinal_date_julian(year, day) {
            Some(j) => Ok(AsezDate { julian: j }),
            None => {
                let mut msg = crate::text::i64_text(year as i64);
                msg.append(" год с ");
                let d = crate::text::u64_text(day as u64);
                msg.append(d.as_str());
                msg.append(" днем не может быть валидной датой");
                Err(msg)
            },
        }
    }

    /// Дата с юлианским днём `j` (для спецификаций).
    pub closed spec fn spec_from_julian(j: int) -> Self {
        AsezDate { julian: j as i32 }
    }

    /// Количество дней от понедельника.
    pub fn number_days_from_monday(self) -> (r: u8)
        ensures
            r as int == weekday_of(self@),
    {
        proof {
            use_type_invariant(&self);
        }
        let r = self.julian % 7;
        if r < 0 {
            (r + 7) as u8
        } else {
            r as u8
        }
    }

    /// Ближайшая дата строго после `self`, приходящаяся на день недели `weekday`.
    pub fn with_next_weekday(&self, weekday: Weekday) -> (r: Self)
        requires
            self@ + 7 <= DATE_MAX_JULIAN,
        ensures
            r@ - self@ == (if (weekday.index() + 7 - weekday_of(self@)) % 7 == 0 { 7 } else {
                (weekday.index() + 7 - weekday_of(self@)) % 7
            }),
    {
        proof {
            use_type_invariant(self);
        }
        let maybe_days = (weekday.number_days_from_monday() + 7 - self.number_days_from_monday()) % 7;
        let days = if maybe_days == 0 { 7 } else { maybe_days };
        AsezDate { julian: self.julian + days as i32 }
    }

    /// Дата по умолчанию (1901-01-01) считается пустой.
    pub fn is_empty(&self) -> (r: bool)
        ensures
            r == (self@ == DEFAULT_JULIAN),
    {
        self.julian == DEFAULT_JULIAN
    }

    /// Год, месяц и день даты.
    pub fn calendar(&self) -> (r: (i32, u8, u8))
        ensures
            calendar_of_julian(self@) == (r.0 as int, r.1 as int, r.2 as int),
            1 <= r.1 <= 12,
            1 <= r.2 <= 31,
    {
        proof {
            use_type_invariant(self);
        }
        calendar_date(self.julian)
    }

    /// Месяц даты; 0 для пустой даты.
    pub fn get_month(&self) -> (r: u8)
        ensures
            r as int == if self@ == DEFAULT_JULIAN { 0 } else { calendar_of_julian(self@).1 },
    {
        if self.julian == DEFAULT_JULIAN {
            0
        } else {
            self.calendar().1
        }
    }

    /// Порядковый номер дня в системе Excel (дней от 1900-01-01 плюс 2); 0 для пустой даты.
    ///
    /// Значение с плавающей точкой получается приведением этого числа.
    pub fn excel_serial_day(&self) -> (r: i64)
        ensures
            r == if self@ == DEFAULT_JULIAN { 0 } else { self@ - EXCEL_ZERO_JULIAN + 2 },
    {
        proof {
            use_type_invariant(self);
        }
        if self.julian == DEFAULT_JULIAN {
            0
        } else {
            (self.julian as i64) - (EXCEL_ZERO_JULIAN as i64) + 2
        }
    }

    /// Количество рабочих дней от `self` до `end`, включая обе даты.
    ///
    /// При `end` раньше `self` возвращает отрицательное число недель, умноженное
    /// на 5 и приведённое к `u16` (как и исходная формула).
    pub fn working_days_between(&self, end: AsezDate) -> (r: u16)
        ensures
            self@ <= end@ ==> r == #[verifier::truncate] (working_days_in(self@, end@) as u16),
            end@ < self@ ==> r == #[verifier::truncate] ((-(((self@ - end@) / 7) * 5) + if (self@ - end@) % 7 == 0
                && is_working_day(self@) { 1int } else { 0int }) as u16),
    {
        proof {
            use_type_invariant(self);
            use_type_invariant(&end);
        }
        let start_date = self.julian;
        let end_date = end.julian;
        if start_date == end_date {
            let wd = self.number_days_from_monday();
            proof {
                reveal_with_fuel(working_days_in, 2);
            }
            return if wd < 5 { 1 } else { 0 };
        }
        let total_days: i64 = (end_date as i64) - (start_date as i64);
        let full_weeks_working_days: i64 = (total_days / 7) * 5;
        let remaining_days: i64 = total_days % 7;
        let start_weekday = self.number_days_from_monday();
        let mut additional: i64 = 0;
        let mut i: i64 = 0;
        while i <= remaining_days
            invariant
                0 <= i <= 7,
                remaining_days < 7,
                remaining_days >= 0 ==> i <= remaining_days + 1,
                remaining_days < 0 ==> i == 0,
                start_weekday as int == weekday_of(start_date as int),
                total_days == end_date - start_date,
                0 <= additional <= i,
                i >= 1 ==> additional == working_days_in(start_date as int, start_date + i - 1),
            decreases 8 - i,
        {
            if (start_weekday as i64 + i) % 7 < 5 {
                additional = additional + 1;
            }
            proof {
                lemma_weekday_shift(start_date as int, i as int);
                reveal_with_fuel(working_days_in, 2);
                if i >= 1 {
                    assert(working_days_in(start_date as int, start_date + i) == working_days_in(
                        start_date as int,
                        start_date + i - 1,
                    ) + if is_working_day(start_date + i) { 1nat } else { 0nat });
                }
            }
            i = i + 1;
        }
        proof {
            if start_date < end_date {
                lemma_working_days_weeks(start_date as int, total_days / 7, remaining_days as int);
                assert(i == remaining_days + 1);
            } else {
                assert(remaining_days <= 0);
                assert(full_weeks_working_days == -(((start_date - end_date) / 7) * 5));
                if remaining_days == 0 {
                    assert((start_date - end_date) % 7 == 0);
                    assert(i == 1);
                    reveal_with_fuel(working_days_in, 2);
                    assert(additional == working_days_in(start_date as int, start_date as int));
                } else {
                    assert((start_date - end_date) % 7 != 0);
                    assert(i == 0);
                    assert(additional == 0);
                }
            }
        }
        #[verifier::truncate]
        ((full_weeks_working_days + additional) as u16)
    }

    /// Количество дней от `self` до `other`.
    pub fn whole_days_since(self, other: AsezDate) -> (r: i64)
        ensures
            r == other@ - self@,
    {
        (other.julian as i64) - (self.julian as i64)
    }

    /// Полночь этой даты.
    pub fn to_timestamp(self) -> (r: AsezTimestamp)
        ensures
            r.day() == self@,
            r.nanos_of_day() == 0,
    {
        AsezTimestamp { date: self, nanos: 0 }
    }

    /// Дата, сдвинутая на `days` дней.
    pub fn add_days(&self, days: i64) -> (r: Self)
        requires
            julian_in_range(self@ + days),
        ensures
            r@ == self@ + days,
    {
        AsezDate { julian: (self.julian as i64 + days) as i32 }
    }

    /// Разбор даты в формате БД [`DB_DATE_FORMAT`].
    pub fn try_from_db_format(value: &str) -> (r: Result<Self, String>)
        ensures
            match date_parsed(value@, DB_DATE_FORMAT@) {
                Some(j) => r is Ok && r->Ok_0@ == j,
                None => r is Err && r->Err_0@ == invalid_date_text(value@),
            },
    {
        match parse_date_julian(value, DB_DATE_FORMAT) {
            Some(j) => Ok(AsezDate { julian: j }),
            None => Err(invalid_date_message(value)),
        }
    }

    /// Разбор даты в формате API [`DATE_FORMAT`].
    pub fn try_from_api_format(value: &str) -> (r: Result<Self, String>)
        ensures
            match date_parsed(value@, DATE_FORMAT@) {
                Some(j) => r is Ok && r->Ok_0@ == j,
                None => r is Err && r->Err_0@ == invalid_date_text(value@),
            },
    {
        match parse_date_julian(value, DATE_FORMAT) {
            Some(j) => Ok(AsezDate { julian: j }),
            None => Err(invalid_date_message(value)),
        }
    }

    /// Разбор даты: сначала формат API, затем формат БД.
    pub fn try_from_text(value: &str) -> (r: Result<Self, String>)
        ensures
            match date_parsed(value@, DATE_FORMAT@) {
                Some(j) => r is Ok && r->Ok_0@ == j,
                None => match date_parsed(value@, DB_DATE_FORMAT@) {
                    Some(j) => r is Ok && r->Ok_0@ == j,
                    None => r is Err && r->Err_0@ == invalid_date_text(value@),
                },
            },
    {
        match Self::try_from_api_format(value) {
            Ok(d) => Ok(d),
            Err(_) => match Self::try_from_db_format(value) {
                Ok(d) => Ok(d),
                Err(_) => Err(invalid_date_message(value)),
            },
        }
    }

    /// Запись даты в формате [`DATE_FORMAT`] (реализация `Display`).
    pub fn to_text(&self) -> (r: String)
        ensures
            r@ == date_formatted(self@, DATE_FORMAT@),
    {
        proof {
            use_type_invariant(self);
        }
        format_date_julian(self.julian, DATE_FORMAT)
    }

    /// Запись даты реализацией `Display` крейта `time`.
    pub fn plain_text(&self) -> (r: String)
        ensures
            r@ == date_display(self@),
    {
        proof {
            use_type_invariant(self);
        }
        date_display_text(self.julian)
    }

    /// Сравнение дат: `self` не раньше `other`.
    pub fn not_before(&self, other: &AsezDate) -> (r: bool)
        ensures
            r == (self@ >= other@),
    {
        self.julian >= other.julian
    }

    /// Пустая дата 1901-01-01.
    pub fn empty() -> (r: Self)
        ensures
            r@ == DEFAULT_JULIAN,
    {
        AsezDate { julian: DEFAULT_JULIAN }
    }
}

impl Default for AsezDate {
    fn default() -> (r: Self)
        ensures
            r@ == DEFAULT_JULIAN,
    {
        AsezDate { julian: DEFAULT_JULIAN }
    }
}

// ---------------------------------------------------------------------------
// Леммы о рабочих днях.
// ---------------------------------------------------------------------------

proof fn lemma_weekday_shift(a: int, i: int)
    requires
        0 <= i,
    ensures
        (weekday_of(a) + i) % 7 == weekday_of(a + i),
{
}

proof fn lemma_working_days_split(a: int, m: int, b: int)
    requires
        a - 1 <= m <= b,
    ensures
        working_days_in(a, b) == working_days_in(a, m) + working_days_in(m + 1, b),
    decreases b - m,
{
    if m < b {
        lemma_working_days_split(a, m, b - 1);
    }
}

proof fn lemma_working_days_week(x: int)
    ensures
        working_days_in(x, x + 6) == 5,
{
    reveal_with_fuel(working_days_in, 8);
    assert(weekday_of(x + 1) == (weekday_of(x) + 1) % 7);
    assert(weekday_of(x + 2) == (weekday_of(x) + 2) % 7);
    assert(weekday_of(x + 3) == (weekday_of(x) + 3) % 7);
    assert(weekday_of(x + 4) == (weekday_of(x) + 4) % 7);
    assert(weekday_of(x + 5) == (weekday_of(x) + 5) % 7);
    assert(weekday_of(x + 6) == (weekday_of(x) + 6) % 7);
}

proof fn lemma_working_days_periodic(a: int, b: int)
    ensures
        working_days_in(a + 7, b + 7) == working_days_in(a, b),
    decreases b - a + 1,
{
    if b >= a {
        lemma_working_days_periodic(a, b - 1);
        assert(weekday_of(b + 7) == weekday_of(b));
    }
}

proof fn lemma_working_days_weeks(a: int, k: int, r: int)
    requires
        k >= 0,
        0 <= r < 7,
    ensures
        working_days_in(a, a + 7 * k + r) == 5 * k + working_days_in(a, a + r),
    decreases k,
{
    if k > 0 {
        lemma_working_days_weeks(a, k - 1, r);
        lemma_working_days_split(a, a + 6, a + 7 * k + r);
        lemma_working_days_week(a);
        lemma_working_days_periodic(a, a + 7 * (k - 1) + r);
        assert(working_days_in(a + 7, a + 7 * k + r) == working_days_in(a, a + 7 * (k - 1) + r));
        lemma_working_days_split(a, a + r, a + 7 * (k - 1) + r);
        lemma_working_days_split(a + 7, a + 7 + r, a + 7 * k + r);
        lemma_working_days_periodic(a, a + r);
        lemma_working_days_split(a, a + 6, a + 7 + r);
        lemma_working_days_split(a, a + r, a + 7 + r);
        lemma_working_days_periodic(a + r + 1, a + 6);
    }
}

// ---------------------------------------------------------------------------
// AsezTimestamp.
// ---------------------------------------------------------------------------

/// Метка времени без часового пояса: дата и наносекунды от полуночи.
#[derive(Clone, Copy, Debug, PartialEq, Eq, Hash, PartialOrd, Ord)]
pub struct AsezTimestamp {
    date: AsezDate,
    nanos: u64,
}

/// Часы, минуты, секунды и наносекунды, составляющие `n` наносекунд суток.
pub open spec fn hms_of(n: int) -> (int, int, int, int) {
    (n / 3_600_000_000_000, (n / 60_000_000_000) % 60, (n / 1_000_000_000) % 60, n % 1_000_000_000)
}

/// День и наносекунды суток, в которые переходит метка (`day`, `nanos`) UTC
/// в часовом поясе UTC+3.
pub open spec fn moscow_shift(day: int, nanos: int) -> (int, int) {
    if nanos + 3 * 3_600_000_000_000 >= NANOS_PER_DAY {
        (day + 1, nanos + 3 * 3_600_000_000_000 - NANOS_PER_DAY)
    } else {
        (day, nanos + 3 * 3_600_000_000_000)
    }
}

/// Секунды UNIX, соответствующие дню `jd` и наносекундам суток `nanos`.
pub open spec fn unix_seconds(jd: int, nanos: int) -> int {
    (jd - UNIX_EPOCH_JULIAN) * SECONDS_PER_DAY + nanos / (NANOS_PER_SECOND as int)
}

/// Текст ошибки разбора метки времени.
pub open spec fn invalid_timestamp_text(value: Seq<char>) -> Seq<char> {
    value + " не может быть валидной датой"@
}

/// Текст ошибки разбора метки времени в обоих форматах (`{:?}` строки).
pub open spec fn invalid_timestamp_any_text(quoted: Seq<char>) -> Seq<char> {
    quoted + " не может быть валидным таймстемпом"@
}

impl AsezTimestamp {
    #[verifier::type_invariant]
    spec fn inv(self) -> bool {
        self.nanos < NANOS_PER_DAY
    }

    /// Юлианский день метки времени.
    pub closed spec fn day(self) -> int {
        self.date@
    }

    /// Наносекунды от полуночи.
    pub closed spec fn nanos_of_day(self) -> int {
        self.nanos as int
    }

    /// Дата метки времени.
    pub fn date(&self) -> (r: AsezDate)
        ensures
            r@ == self.day(),
    {
        self.date
    }

    /// Наносекунды от полуночи.
    pub fn nanos(&self) -> (r: u64)
        ensures
            r == self.nanos_of_day(),
            r < NANOS_PER_DAY,
    {
        proof {
            use_type_invariant(self);
        }
        self.nanos
    }

    /// Часы, минуты, секунды и наносекунды времени суток.
    pub fn hms_nano(&self) -> (r: (u8, u8, u8, u32))
        ensures
            (r.0 as int, r.1 as int, r.2 as int, r.3 as int) == hms_of(self.nanos_of_day()),
            r.0 < 24,
            r.1 < 60,
            r.2 < 60,
            r.3 < 1_000_000_000,
    {
        proof {
            use_type_invariant(self);
        }
        let n = self.nanos;
        let h = n / 3_600_000_000_000;
        let m = (n / 60_000_000_000) % 60;
        let s = (n / 1_000_000_000) % 60;
        let ns = n % 1_000_000_000;
        assert(h < 24) by (nonlinear_arith)
            requires
                n < 86_400_000_000_000,
                h == n / 3_600_000_000_000,
        ;
        (h as u8, m as u8, s as u8, ns as u32)
    }

    /// Метка времени по компонентам.
    fn from_parts(jd: i32, h: u8, m: u8, s: u8, ns: u32) -> (r: Self)
        requires
            julian_in_range(jd as int),
            h < 24,
            m < 60,
            s < 60,
            ns < 1_000_000_000,
        ensures
            r.day() == jd,
            r.nanos_of_day() == h * 3_600_000_000_000 + m * 60_000_000_000 + s * 1_000_000_000 + ns,
    {
        let nanos = (h as u64) * 3_600_000_000_000 + (m as u64) * 60_000_000_000 + (s as u64)
            * 1_000_000_000 + ns as u64;
        AsezTimestamp { date: AsezDate { julian: jd }, nanos }
    }

    /// Секунды UNIX (время считается UTC).
    pub fn unix_timestamp(&self) -> (r: i64)
        ensures
            r == unix_seconds(self.day(), self.nanos_of_day()),
    {
        proof {
            use_type_invariant(self);
        }
        let jd = self.date.julian_day() as i64;
        (jd - UNIX_EPOCH_JULIAN as i64) * SECONDS_PER_DAY + (self.nanos / NANOS_PER_SECOND) as i64
    }

    /// Метка времени по секундам UNIX.
    pub fn from_unix_timestamp(timestamp: i64) -> (r: Self)
        requires
            julian_in_range(UNIX_EPOCH_JULIAN + timestamp / SECONDS_PER_DAY),
        ensures
            r.day() == UNIX_EPOCH_JULIAN + timestamp / SECONDS_PER_DAY,
            r.nanos_of_day() == (timestamp % SECONDS_PER_DAY) * (NANOS_PER_SECOND as int),
            unix_seconds(r.day(), r.nanos_of_day() as int) == timestamp,
    {
        let mut days = timestamp / SECONDS_PER_DAY;
        let mut secs = timestamp % SECONDS_PER_DAY;
        if secs < 0 {
            secs = secs + SECONDS_PER_DAY;
            days = days - 1;
        }
        let jd = (UNIX_EPOCH_JULIAN as i64 + days) as i32;
        let nanos = (secs as u64) * NANOS_PER_SECOND;
        AsezTimestamp { date: AsezDate { julian: jd }, nanos }
    }

    /// Текущий момент (UTC).
    pub fn now() -> (r: Self)
        ensures
    {
        let p = now_utc_parts();
        Self::from_parts(p.0, p.1, p.2, p.3, p.4)
    }

    /// Текущий момент с точностью до микросекунд (как в Postgres).
    pub fn now_us() -> (r: Self)
        ensures
            r.nanos_of_day() % 1000 == 0,
    {
        let p = now_utc_parts();
        let micro_ns = p.4 - p.4 % 1000;
        Self::from_parts(p.0, p.1, p.2, p.3, micro_ns)
    }

    /// Дата метки времени (метка считается московским временем).
    pub fn to_moscow_date(&self) -> (r: AsezDate)
        ensures
            r@ == self.day(),
    {
        self.date
    }

    /// Метка времени UTC, переведённая в московское время (UTC+3).
    pub fn to_moscow_timestamp(&self) -> (r: Self)
        requires
            self.day() < DATE_MAX_JULIAN,
        ensures
            (r.day(), r.nanos_of_day()) == moscow_shift(self.day(), self.nanos_of_day()),
            r.day() * (NANOS_PER_DAY as int) + r.nanos_of_day() == self.day() * (NANOS_PER_DAY as int) + self.nanos_of_day()
                + 3 * 3_600_000_000_000,
    {
        proof {
            use_type_invariant(self);
        }
        let shifted = self.nanos + 3 * 3_600_000_000_000;
        let jd = self.date.julian_day();
        if shifted >= NANOS_PER_DAY {
            AsezTimestamp { date: AsezDate { julian: jd + 1 }, nanos: shifted - NANOS_PER_DAY }
        } else {
            AsezTimestamp { date: AsezDate { julian: jd }, nanos: shifted }
        }
    }

    /// Пустая метка времени: дата 1901-01-01.
    pub fn is_empty(&self) -> (r: bool)
        ensures
            r == (self.day() == DEFAULT_JULIAN),
    {
        self.date.is_empty()
    }

    /// Максимальная метка времени (9999-12-31 21:00:00 UTC).
    pub fn max() -> (r: Self)
        ensures
            unix_seconds(r.day(), r.nanos_of_day() as int) == 253_402_203_600,
    {
        Self::from_unix_timestamp(253_402_203_600)
    }

    /// Дата метки времени для выгрузки (метка считается временем UTC+3).
    pub fn date_offset_3(&self) -> (r: AsezDate)
        ensures
            r@ == self.day(),
    {
        self.date
    }

    /// Запись московского времени в формате [`TIMESTAMP_FORMAT`].
    pub fn to_text_offset_3(&self) -> (r: String)
        requires
            self.day() < DATE_MAX_JULIAN,
        ensures
            ({
                let (day, nanos) = moscow_shift(self.day(), self.nanos_of_day());
                let (h, m, s, ns) = hms_of(nanos);
                r@ == datetime_formatted(day, h, m, s, ns, TIMESTAMP_FORMAT@)
            }),
    {
        let moscow = self.to_moscow_timestamp();
        moscow.to_text()
    }

    /// Запись в формате [`TIMESTAMP_FORMAT`] (реализация `Display`).
    pub fn to_text(&self) -> (r: String)
        ensures
            ({
                let (h, m, s, ns) = hms_of(self.nanos_of_day());
                r@ == datetime_formatted(self.day(), h, m, s, ns, TIMESTAMP_FORMAT@)
            }),
    {
        let (h, m, s, ns) = self.hms_nano();
        let jd = self.date.julian_day();
        format_datetime_parts(jd, h, m, s, ns, TIMESTAMP_FORMAT)
    }

    /// Запись реализацией `Display` крейта `time`.
    pub fn plain_text(&self) -> (r: String)
        ensures
            ({
                let (h, m, s, ns) = hms_of(self.nanos_of_day());
                r@ == datetime_display(self.day(), h, m, s, ns)
            }),
    {
        let (h, m, s, ns) = self.hms_nano();
        let jd = self.date.julian_day();
        datetime_display_text(jd, h, m, s, ns)
    }

    /// Разбор по формату `format`.
    fn parse_with(value: &str, format: &str) -> (r: Option<Self>)
        ensures
            match datetime_parsed(value@, format@) {
                Some(p) => r is Some && r->0.day() == p.0 && r->0.nanos_of_day() == p.1
                    * 3_600_000_000_000 + p.2 * 60_000_000_000 + p.3 * 1_000_000_000 + p.4,
                None => r is None,
            },
    {
        match parse_datetime_parts(value, format) {
            Some(p) => Some(Self::from_parts(p.0, p.1, p.2, p.3, p.4)),
            None => None,
        }
    }

    /// Разбор в формате БД [`DB_TIMESTAMP_FORMAT`].
    pub fn try_from_db_format(value: &str) -> (r: Result<Self, String>)
        ensures
            match datetime_parsed(value@, DB_TIMESTAMP_FORMAT@) {
                Some(p) => r is Ok && r->Ok_0.day() == p.0 && r->Ok_0.nanos_of_day() == p.1
                    * 3_600_000_000_000 + p.2 * 60_000_000_000 + p.3 * 1_000_000_000 + p.4,
                None => r is Err && r->Err_0@ == invalid_timestamp_text(value@),
            },
    {
        match Self::parse_with(value, DB_TIMESTAMP_FORMAT) {
            Some(t) => Ok(t),
            None => Err(invalid_date_message(value)),
        }
    }

    /// Разбор в формате API [`TIMESTAMP_FORMAT`].
    pub fn try_from_api_format(value: &str) -> (r: Result<Self, String>)
        ensures
            match datetime_parsed(value@, TIMESTAMP_FORMAT@) {
                Some(p) => r is Ok && r->Ok_0.day() == p.0 && r->Ok_0.nanos_of_day() == p.1
                    * 3_600_000_000_000 + p.2 * 60_000_000_000 + p.3 * 1_000_000_000 + p.4,
                None => r is Err && r->Err_0@ == invalid_timestamp_text(value@),
            },
    {
        match Self::parse_with(value, TIMESTAMP_FORMAT) {
            Some(t) => Ok(t),
            None => Err(invalid_date_message(value)),
        }
    }

    /// Разбор: сначала формат API, затем формат БД.
    pub fn try_from_text(value: &str) -> (r: Result<Self, String>)
        ensures
            datetime_parsed(value@, TIMESTAMP_FORMAT@) is Some ==> r is Ok,
            datetime_parsed(value@, TIMESTAMP_FORMAT@) is None ==> (r is Ok <==> datetime_parsed(
                value@,
                DB_TIMESTAMP_FORMAT@,
            ) is Some),
            r is Err ==> r->Err_0@ == invalid_timestamp_any_text(seq!['"'] + value@ + seq!['"']),
    {
        match Self::try_from_api_format(value) {
            Ok(t) => Ok(t),
            Err(_) => match Self::try_from_db_format(value) {
                Ok(t) => Ok(t),
                Err(_) => {
                    let mut msg = String::from_str("\"");
                    msg.append(value);
                    msg.append("\"");
                    msg.append(" не может быть валидным таймстемпом");
                    proof {
                        reveal_strlit("\"");
                    }
                    assert(msg@ =~= invalid_timestamp_any_text(seq!['"'] + value@ + seq!['"']));
                    Err(msg)
                },
            },
        }
    }
}

impl Default for AsezTimestamp {
    fn default() -> (r: Self)
        ensures
            r.day() == DEFAULT_JULIAN,
            r.nanos_of_day() == 0,
    {
        AsezTimestamp { date: AsezDate { julian: DEFAULT_JULIAN }, nanos: 0 }
    }
}

} // verus!
