//! Универсальное значение фильтров и выгрузки.
use crate::date_time::{date_display, datetime_display, hms_of, AsezDate, AsezTimestamp};
use crate::result::SharedDbError;
use crate::text::{copy_string, dec_text, int_text, i64_text, seq_join, strings_view};
use vstd::prelude::*;

verus! {

/// Целое число вместе с исходной записью числа с плавающей точкой.
///
/// `original` -- десятичная запись исходного числа (как её печатает `Display`).
#[derive(Debug, Clone, PartialEq)]
pub struct IntWithOriginal {
    /// Целочисленное представление значения.
    pub int: i64,
    /// Запись исходного числа с плавающей точкой.
    pub original: String,
    /// Количество знаков после запятой у `original`.
    pub precision: u8,
}

/// Обёртка над вектором целых для массивов PostgreSQL.
#[derive(Default, Debug, Clone, PartialEq, PartialOrd, Ord, Eq)]
pub struct AsezArray<T>(pub Vec<T>);

impl<T> AsezArray<T> {
    /// Дописывает элементы `rhs` в конец массива.
    pub fn concat(self, rhs: Vec<T>) -> (r: Self)
        ensures
            r.0@ == self.0@ + rhs@,
    {
        let mut v = self.0;
        let mut rhs = rhs;
        v.append(&mut rhs);
        AsezArray(v)
    }
}

/// Значение фильтра или поля.
///
/// `Float` хранит десятичную запись числа с плавающей точкой, `Uuid` --
/// 128-битное число UUID.
#[derive(Debug, Clone, PartialEq)]
pub enum Value {
    String(String),
    /// Любое целое число.
    Int(i64),
    /// Целое число вместе с исходной записью числа с плавающей точкой.
    IntWithOriginal(IntWithOriginal),
    /// Число с плавающей точкой (его десятичная запись).
    Float(String),
    Bool(bool),
    Uuid(u128),
    /// Отсутствие значения -- SQL NULL.
    Null,
    Vec64(AsezArray<i64>),
    Vec32(AsezArray<i32>),
    Vec16(AsezArray<i16>),
    Date(AsezDate),
    Timestamp(AsezTimestamp),
}

/// Математическая модель [`Value`]: строки и массивы взяты через их представления.
pub enum ValueModel {
    String(Seq<char>),
    Int(i64),
    IntWithOriginal(i64, Seq<char>, u8),
    Float(Seq<char>),
    Bool(bool),
    Uuid(u128),
    Null,
    Vec64(Seq<i64>),
    Vec32(Seq<i32>),
    Vec16(Seq<i16>),
    Date(AsezDate),
    Timestamp(AsezTimestamp),
}

impl View for Value {
    type V = ValueModel;

    open spec fn view(&self) -> ValueModel {
        match self {
            Value::String(s) => ValueModel::String(s@),
            Value::Int(i) => ValueModel::Int(*i),
            Value::IntWithOriginal(x) => ValueModel::IntWithOriginal(x.int, x.original@, x.precision),
            Value::Float(f) => ValueModel::Float(f@),
            Value::Bool(b) => ValueModel::Bool(*b),
            Value::Uuid(u) => ValueModel::Uuid(*u),
            Value::Null => ValueModel::Null,
            Value::Vec64(a) => ValueModel::Vec64(a.0@),
            Value::Vec32(a) => ValueModel::Vec32(a.0@),
            Value::Vec16(a) => ValueModel::Vec16(a.0@),
            Value::Date(d) => ValueModel::Date(*d),
            Value::Timestamp(t) => ValueModel::Timestamp(*t),
        }
    }
}

/// Модели значений списка.
pub open spec fn values_view(vs: Seq<Value>) -> Seq<ValueModel> {
    vs.map_values(|v: Value| v@)
}

// ---------------------------------------------------------------------------
// UUID (крейт `uuid`).
// ---------------------------------------------------------------------------

/// Запись UUID через дефисы в нижнем регистре.
pub uninterp spec fn uuid_display(v: int) -> Seq<char>;

/// UUID, разобранный из строки, если строка -- допустимая запись UUID.
pub uninterp spec fn uuid_parsed(s: Seq<char>) -> Option<int>;

/// `Uuid::from_u128(v).to_string()`.
///
/// Контракт: результат -- имя `uuid_display` от числа.
#[verifier::external_body]
pub(crate) fn uuid_text(v: u128) -> (r: String)
    ensures
        r@ == uuid_display(v as int),
{
    uuid::Uuid::from_u128(v).to_string()
}

/// `Uuid::parse_str(s)` с переводом в `u128`.
///
/// Контракт: результат -- имя `uuid_parsed` от строки.
#[verifier::external_body]
pub(crate) fn parse_uuid(s: &str) -> (r: Option<u128>)
    ensures
        match r {
            Some(u) => uuid_parsed(s@) == Some(u as int),
            None => uuid_parsed(s@) is None,
        },
{
    uuid::Uuid::parse_str(s).ok().map(|u| u.as_u128())
}

// ---------------------------------------------------------------------------
// Текстовые представления.
// ---------------------------------------------------------------------------

/// Элементы целочисленного массива в виде десятичных записей.
pub open spec fn ints_text(v: Seq<int>) -> Seq<Seq<char>> {
    v.map_values(|i: int| int_text(i))
}

/// Запись времени метки по компонентам.
pub open spec fn timestamp_plain(t: AsezTimestamp) -> Seq<char> {
    let (h, m, s, ns) = hms_of(t.nanos_of_day());
    datetime_display(t.day(), h, m, s, ns)
}

/// `String::from(Value)`: запись значения для выгрузки.
pub open spec fn value_text(v: ValueModel) -> Seq<char> {
    match v {
        ValueModel::String(s) => s,
        ValueModel::Int(i) => int_text(i as int),
        ValueModel::IntWithOriginal(i, _, _) => int_text(i as int),
        ValueModel::Float(f) => f,
        ValueModel::Bool(b) => if b { "true"@ } else { "false"@ },
        ValueModel::Uuid(u) => uuid_display(u as int),
        ValueModel::Date(d) => crate::date_time::date_formatted(d@, crate::date_time::DATE_FORMAT@),
        ValueModel::Timestamp(t) => {
            let (h, m, s, ns) = hms_of(t.nanos_of_day());
            crate::date_time::datetime_formatted(t.day(), h, m, s, ns, crate::date_time::TIMESTAMP_FORMAT@)
        },
        ValueModel::Null => "null"@,
        ValueModel::Vec64(a) => seq_join(ints_text(a.map_values(|x: i64| x as int)), ","@),
        ValueModel::Vec32(a) => seq_join(ints_text(a.map_values(|x: i32| x as int)), ","@),
        ValueModel::Vec16(a) => seq_join(ints_text(a.map_values(|x: i16| x as int)), ","@),
    }
}

/// Запись массива в отладочном виде `AsezArray([1, 2])`.
pub open spec fn array_debug(v: Seq<int>) -> Seq<char> {
    "AsezArray(["@ + seq_join(ints_text(v), ", "@) + "])"@
}

/// `Display` для значения.
pub open spec fn value_display(v: ValueModel) -> Seq<char> {
    match v {
        ValueModel::Date(d) => date_display(d@),
        ValueModel::Timestamp(t) => timestamp_plain(t),
        ValueModel::Vec64(a) => array_debug(a.map_values(|x: i64| x as int)),
        ValueModel::Vec32(a) => array_debug(a.map_values(|x: i32| x as int)),
        ValueModel::Vec16(a) => array_debug(a.map_values(|x: i16| x as int)),
        _ => value_text(v),
    }
}

/// Отладочная запись символа внутри строки в кавычках.
pub open spec fn escaped_char(c: char) -> Seq<char> {
    if c == '"' {
        seq!['\\', '"']
    } else if c == '\\' {
        seq!['\\', '\\']
    } else if c == '\n' {
        seq!['\\', 'n']
    } else if c == '\r' {
        seq!['\\', 'r']
    } else if c == '\t' {
        seq!['\\', 't']
    } else if c == '\0' {
        seq!['\\', '0']
    } else {
        seq![c]
    }
}

/// Отладочная запись строки: в кавычках, со служебными символами через `\`.
pub open spec fn quoted_text(s: Seq<char>) -> Seq<char>
    decreases s.len(),
{
    if s.len() == 0 {
        seq![]
    } else {
        quoted_text(s.drop_last()) + escaped_char(s.last())
    }
}

/// Отладочная запись (`{:?}`) значения.
pub open spec fn value_debug(v: ValueModel) -> Seq<char> {
    match v {
        ValueModel::String(s) => "String(\""@ + quoted_text(s) + "\")"@,
        ValueModel::Int(i) => "Int("@ + int_text(i as int) + ")"@,
        ValueModel::IntWithOriginal(i, o, p) => "IntWithOriginal(IntWithOriginal { int: "@ + int_text(i as int)
            + ", original: "@ + o + ", precision: "@ + dec_text(p as nat) + " })"@,
        ValueModel::Float(f) => "Float("@ + f + ")"@,
        ValueModel::Bool(b) => "Bool("@ + (if b { "true"@ } else { "false"@ }) + ")"@,
        ValueModel::Uuid(u) => "Uuid("@ + uuid_display(u as int) + ")"@,
        ValueModel::Null => "Null"@,
        ValueModel::Vec64(a) => "Vec64("@ + array_debug(a.map_values(|x: i64| x as int)) + ")"@,
        ValueModel::Vec32(a) => "Vec32("@ + array_debug(a.map_values(|x: i32| x as int)) + ")"@,
        ValueModel::Vec16(a) => "Vec16("@ + array_debug(a.map_values(|x: i16| x as int)) + ")"@,
        ValueModel::Date(d) => "Date(AsezDate("@ + date_display(d@) + "))"@,
        ValueModel::Timestamp(t) => "Timestamp(AsezTimestamp("@ + timestamp_plain(t) + "))"@,
    }
}

/// Отладочная запись списка значений `[a, b]`.
pub open spec fn values_debug(vs: Seq<ValueModel>) -> Seq<char> {
    "["@ + seq_join(vs.map_values(|v: ValueModel| value_debug(v)), ", "@) + "]"@
}

fn i64s_join(v: &Vec<i64>, sep: &str) -> (r: String)
    ensures
        r@ == seq_join(ints_text(v@.map_values(|x: i64| x as int)), sep@),
{
    let ghost view = ints_text(v@.map_values(|x: i64| x as int));
    let mut r = String::new();
    let mut i: usize = 0;
    while i < v.len()
        invariant
            i <= v.len(),
            view == ints_text(v@.map_values(|x: i64| x as int)),
            r@ == seq_join(view.take(i as int), sep@),
        decreases v.len() - i,
    {
        if i != 0 {
            r.append(sep);
        }
        let t = i64_text(v[i]);
        r.append(t.as_str());
        assert(view.take(i + 1).drop_last() =~= view.take(i as int));
        proof {
            if i == 0 {
                assert(r@ =~= seq_join(view.take(1), sep@));
            }
        }
        i = i + 1;
    }
    assert(view.take(v.len() as int) =~= view);
    r
}

fn i32s_join(v: &Vec<i32>, sep: &str) -> (r: String)
    ensures
        r@ == seq_join(ints_text(v@.map_values(|x: i32| x as int)), sep@),
{
    let ghost view = ints_text(v@.map_values(|x: i32| x as int));
    let mut r = String::new();
    let mut i: usize = 0;
    while i < v.len()
        invariant
            i <= v.len(),
            view == ints_text(v@.map_values(|x: i32| x as int)),
            r@ == seq_join(view.take(i as int), sep@),
        decreases v.len() - i,
    {
        if i != 0 {
            r.append(sep);
        }
        let t = i64_text(v[i] as i64);
        r.append(t.as_str());
        assert(view.take(i + 1).drop_last() =~= view.take(i as int));
        proof {
            if i == 0 {
                assert(r@ =~= seq_join(view.take(1), sep@));
            }
        }
        i = i + 1;
    }
    assert(view.take(v.len() as int) =~= view);
    r
}

fn i16s_join(v: &Vec<i16>, sep: &str) -> (r: String)
    ensures
        r@ == seq_join(ints_text(v@.map_values(|x: i16| x as int)), sep@),
{
    let ghost view = ints_text(v@.map_values(|x: i16| x as int));
    let mut r = String::new();
    let mut i: usize = 0;
    while i < v.len()
        invariant
            i <= v.len(),
            view == ints_text(v@.map_values(|x: i16| x as int)),
            r@ == seq_join(view.take(i as int), sep@),
        decreases v.len() - i,
    {
        if i != 0 {
            r.append(sep);
        }
        let t = i64_text(v[i] as i64);
        r.append(t.as_str());
        assert(view.take(i + 1).drop_last() =~= view.take(i as int));
        proof {
            if i == 0 {
                assert(r@ =~= seq_join(view.take(1), sep@));
            }
        }
        i = i + 1;
    }
    assert(view.take(v.len() as int) =~= view);
    r
}


/// Отладочная запись строки (без внешних кавычек).
pub fn quoted(s: &str) -> (r: String)
    ensures
        r@ == quoted_text(s@),
{
    let n = s.unicode_len();
    let mut r = String::new();
    let mut i: usize = 0;
    while i < n
        invariant
            n == s@.len(),
            i <= n,
            r@ == quoted_text(s@.subrange(0, i as int)),
        decreases n - i,
    {
        let c = s.get_char(i);
        proof {
            reveal_strlit("\\\"");
            reveal_strlit("\\\\");
            reveal_strlit("\\n");
            reveal_strlit("\\r");
            reveal_strlit("\\t");
            reveal_strlit("\\0");
        }
        if c == '"' {
            r.append("\\\"");
        } else if c == '\\' {
            r.append("\\\\");
        } else if c == '\n' {
            r.append("\\n");
        } else if c == '\r' {
            r.append("\\r");
        } else if c == '\t' {
            r.append("\\t");
        } else if c == '\0' {
            r.append("\\0");
        } else {
            let one = s.substring_char(i, i + 1);
            assert(one@ =~= seq![c]);
            r.append(one);
        }
        assert(s@.subrange(0, i + 1).drop_last() =~= s@.subrange(0, i as int));
        assert(s@.subrange(0, i + 1).last() == c);
        assert(quoted_text(s@.subrange(0, i + 1)) == quoted_text(s@.subrange(0, i as int)) + escaped_char(c));
        assert(r@ =~= quoted_text(s@.subrange(0, i as int)) + escaped_char(c));
        i = i + 1;
    }
    assert(s@.subrange(0, n as int) =~= s@);
    r
}

fn bool_text(b: bool) -> (r: String)
    ensures
        r@ == if b { "true"@ } else { "false"@ },
{
    if b { String::from_str("true") } else { String::from_str("false") }
}

fn copy_i32s(v: &Vec<i32>) -> (r: Vec<i32>)
    ensures
        r@ == v@,
{
    let mut r: Vec<i32> = Vec::new();
    let mut i: usize = 0;
    while i < v.len()
        invariant
            i <= v.len(),
            r@ == v@.subrange(0, i as int),
        decreases v.len() - i,
    {
        r.push(v[i]);
        assert(r@ =~= v@.subrange(0, i + 1));
        i = i + 1;
    }
    assert(r@ =~= v@);
    r
}

fn copy_i16s(v: &Vec<i16>) -> (r: Vec<i16>)
    ensures
        r@ == v@,
{
    let mut r: Vec<i16> = Vec::new();
    let mut i: usize = 0;
    while i < v.len()
        invariant
            i <= v.len(),
            r@ == v@.subrange(0, i as int),
        decreases v.len() - i,
    {
        r.push(v[i]);
        assert(r@ =~= v@.subrange(0, i + 1));
        i = i + 1;
    }
    assert(r@ =~= v@);
    r
}

/// Копия списка значений.
pub fn copy_values(vs: &Vec<Value>) -> (r: Vec<Value>)
    ensures
        values_view(r@) == values_view(vs@),
{
    let mut r: Vec<Value> = Vec::new();
    let mut i: usize = 0;
    while i < vs.len()
        invariant
            i <= vs.len(),
            values_view(r@) == values_view(vs@.subrange(0, i as int)),
        decreases vs.len() - i,
    {
        let c = vs[i].copy();
        let ghost old_r = r@;
        r.push(c);
        assert(values_view(r@) =~= values_view(old_r).push(c@));
        assert(values_view(vs@.subrange(0, i + 1)) =~= values_view(vs@.subrange(0, i as int)).push(vs@[i as int]@));
        i = i + 1;
    }
    assert(vs@.subrange(0, vs.len() as int) =~= vs@);
    r
}

impl Value {
    /// Копия значения.
    pub fn copy(&self) -> (r: Value)
        ensures
            r@ == self@,
    {
        match self {
            Value::String(s) => Value::String(copy_string(s)),
            Value::Int(i) => Value::Int(*i),
            Value::IntWithOriginal(x) => Value::IntWithOriginal(
                IntWithOriginal { int: x.int, original: copy_string(&x.original), precision: x.precision },
            ),
            Value::Float(f) => Value::Float(copy_string(f)),
            Value::Bool(b) => Value::Bool(*b),
            Value::Uuid(u) => Value::Uuid(*u),
            Value::Null => Value::Null,
            Value::Vec64(a) => Value::Vec64(AsezArray(copy_i64s(&a.0))),
            Value::Vec32(a) => Value::Vec32(AsezArray(copy_i32s(&a.0))),
            Value::Vec16(a) => Value::Vec16(AsezArray(copy_i16s(&a.0))),
            Value::Date(d) => Value::Date(*d),
            Value::Timestamp(t) => Value::Timestamp(*t),
        }
    }

    /// UUID из значения (`TryFrom<&Value> for Uuid`); для другого варианта --
    /// ошибка значения с его отладочной записью.
    pub fn try_uuid(&self) -> (r: Result<u128, SharedDbError>)
        ensures
            match self@ {
                ValueModel::Uuid(u) => r == Ok::<u128, SharedDbError>(u),
                _ => r is Err && r->Err_0 is ValueError && r->Err_0.text() == value_debug(self@) + " is not a valid Uuid"@,
            },
    {
        match self {
            Value::Uuid(u) => Ok(*u),
            _ => {
                let mut m = self.debug_text();
                m.append(" is not a valid Uuid");
                Err(SharedDbError::ValueError(m))
            },
        }
    }

    /// Значение -- SQL NULL.
    pub fn is_null(&self) -> (r: bool)
        ensures
            r == (*self is Null),
    {
        match self {
            Value::Null => true,
            _ => false,
        }
    }

    /// Запись значения для выгрузки (`String::from(Value)`).
    pub fn to_text(&self) -> (r: String)
        ensures
            r@ == value_text(self@),
    {
        match self {
            Value::String(s) => copy_string(s),
            Value::Int(i) => i64_text(*i),
            Value::IntWithOriginal(x) => i64_text(x.int),
            Value::Float(f) => copy_string(f),
            Value::Bool(b) => bool_text(*b),
            Value::Uuid(u) => uuid_text(*u),
            Value::Date(d) => d.to_text(),
            Value::Timestamp(t) => t.to_text(),
            Value::Null => String::from_str("null"),
            Value::Vec64(a) => i64s_join(&a.0, ","),
            Value::Vec32(a) => i32s_join(&a.0, ","),
            Value::Vec16(a) => i16s_join(&a.0, ","),
        }
    }

    /// Запись значения реализацией `Display`.
    pub fn display_text(&self) -> (r: String)
        ensures
            r@ == value_display(self@),
    {
        match self {
            Value::Date(d) => d.plain_text(),
            Value::Timestamp(t) => t.plain_text(),
            Value::Vec64(a) => {
                let mut r = String::from_str("AsezArray([");
                let j = i64s_join(&a.0, ", ");
                r.append(j.as_str());
                r.append("])");
                r
            },
            Value::Vec32(a) => {
                let mut r = String::from_str("AsezArray([");
                let j = i32s_join(&a.0, ", ");
                r.append(j.as_str());
                r.append("])");
                r
            },
            Value::Vec16(a) => {
                let mut r = String::from_str("AsezArray([");
                let j = i16s_join(&a.0, ", ");
                r.append(j.as_str());
                r.append("])");
                r
            },
            _ => self.to_text(),
        }
    }

    /// Отладочная запись значения (`{:?}`).
    pub fn debug_text(&self) -> (r: String)
        ensures
            r@ == value_debug(self@),
    {
        let (prefix, body, suffix): (&str, String, &str) = match self {
            Value::String(s) => ("String(\"", quoted(s.as_str()), "\")"),
            Value::Int(i) => ("Int(", i64_text(*i), ")"),
            Value::IntWithOriginal(x) => {
                let mut b = i64_text(x.int);
                b.append(", original: ");
                b.append(x.original.as_str());
                b.append(", precision: ");
                let p = crate::text::u64_text(x.precision as u64);
                b.append(p.as_str());
                ("IntWithOriginal(IntWithOriginal { int: ", b, " })")
            },
            Value::Float(f) => ("Float(", copy_string(f), ")"),
            Value::Bool(b) => ("Bool(", bool_text(*b), ")"),
            Value::Uuid(u) => ("Uuid(", uuid_text(*u), ")"),
            Value::Null => ("Null", String::new(), ""),
            Value::Vec64(_) => ("Vec64(", self.display_text(), ")"),
            Value::Vec32(_) => ("Vec32(", self.display_text(), ")"),
            Value::Vec16(_) => ("Vec16(", self.display_text(), ")"),
            Value::Date(d) => ("Date(AsezDate(", d.plain_text(), "))"),
            Value::Timestamp(t) => ("Timestamp(AsezTimestamp(", t.plain_text(), "))"),
        };
        let mut r = String::from_str(prefix);
        r.append(body.as_str());
        r.append(suffix);
        proof {
            reveal_strlit("");
        }
        assert(r@ =~= value_debug(self@));
        r
    }

    /// Значение из строки: метка времени, дата, UUID или сама строка
    /// (в этом порядке, по первому удачному разбору).
    pub fn from_text(v: &str) -> (r: Value)
        ensures
            text_value(v@, r@),
    {
        if let Ok(t) = AsezTimestamp::try_from_api_format(v) {
            return Value::Timestamp(t);
        }
        if let Ok(d) = AsezDate::try_from_api_format(v) {
            return Value::Date(d);
        }
        match parse_uuid(v) {
            Some(u) => Value::Uuid(u),
            None => Value::String(String::from_str(v)),
        }
    }
}

/// Значение `v` разобрано из строки `s`: метка времени, дата, UUID или сама строка
/// (в этом порядке, по первому удачному разбору).
pub open spec fn text_value(s: Seq<char>, v: ValueModel) -> bool {
    match crate::date_time::datetime_parsed(s, crate::date_time::TIMESTAMP_FORMAT@) {
        Some(p) => v is Timestamp && v->Timestamp_0.day() == p.0
            && v->Timestamp_0.nanos_of_day() == p.1 * 3_600_000_000_000 + p.2 * 60_000_000_000
            + p.3 * 1_000_000_000 + p.4,
        None => match crate::date_time::date_parsed(s, crate::date_time::DATE_FORMAT@) {
            Some(j) => v is Date && v->Date_0@ == j,
            None => match uuid_parsed(s) {
                Some(u) => v is Uuid && v->Uuid_0 == u,
                None => v == ValueModel::String(s),
            },
        },
    }
}

/// Текстовая запись значения для подстановки в выражения (как `Display`).
pub trait DisplayText {
    /// Запись значения.
    spec fn display_spec(&self) -> Seq<char>;

    /// Запись значения.
    fn display_string(&self) -> (r: String)
        ensures
            r@ == self.display_spec(),
    ;
}

impl DisplayText for i32 {
    open spec fn display_spec(&self) -> Seq<char> {
        int_text(*self as int)
    }

    fn display_string(&self) -> (r: String) {
        i64_text(*self as i64)
    }
}

impl DisplayText for i64 {
    open spec fn display_spec(&self) -> Seq<char> {
        int_text(*self as int)
    }

    fn display_string(&self) -> (r: String) {
        i64_text(*self)
    }
}

impl DisplayText for Value {
    open spec fn display_spec(&self) -> Seq<char> {
        value_display(self@)
    }

    fn display_string(&self) -> (r: String) {
        self.display_text()
    }
}

/// Отладочная запись списка значений.
pub fn values_debug_text(vs: &Vec<Value>) -> (r: String)
    ensures
        r@ == values_debug(values_view(vs@)),
{
    let ghost view = values_view(vs@).map_values(|v: ValueModel| value_debug(v));
    let mut r = String::new();
    let mut i: usize = 0;
    while i < vs.len()
        invariant
            i <= vs.len(),
            view == values_view(vs@).map_values(|v: ValueModel| value_debug(v)),
            r@ == seq_join(view.take(i as int), ", "@),
        decreases vs.len() - i,
    {
        if i != 0 {
            r.append(", ");
        }
        let t = vs[i].debug_text();
        r.append(t.as_str());
        assert(view.take(i + 1).drop_last() =~= view.take(i as int));
        proof {
            if i == 0 {
                assert(r@ =~= seq_join(view.take(1), ", "@));
            }
        }
        i = i + 1;
    }
    assert(view.take(vs.len() as int) =~= view);
    assert(seq_join(view, ", "@) == seq_join(values_view(vs@).map_values(|v: ValueModel| value_debug(v)), ", "@));
    let mut out = String::from_str("[");
    out.append(r.as_str());
    out.append("]");
    out
}

/// Ровно одно значение в `values`; иначе ошибка.
pub fn single_value<T>(values: &[T]) -> (r: Result<&T, &'static str>)
    ensures
        values@.len() == 1 ==> r == Ok::<&T, &'static str>(&values@[0]),
        values@.len() != 1 ==> r == Err::<&T, &'static str>("ожидается ровно одно значение"),
{
    if values.len() == 1 {
        Ok(&values[0])
    } else {
        Err("ожидается ровно одно значение")
    }
}

/// Ровно два значения в `values`; иначе ошибка.
pub fn two_values<T>(values: &[T]) -> (r: Result<(&T, &T), &'static str>)
    ensures
        values@.len() == 2 ==> r == Ok::<(&T, &T), &'static str>((&values@[0], &values@[1])),
        values@.len() != 2 ==> r == Err::<(&T, &T), &'static str>("ожидается ровно два значения"),
{
    if values.len() == 2 {
        Ok((&values[0], &values[1]))
    } else {
        Err("ожидается ровно два значения")
    }
}


/// Однотипный массив значений для привязки `field = ANY($n)`.
#[derive(Debug)]
pub enum AggrValue {
    String(Vec<String>),
    Int(Vec<i64>),
    Float(Vec<String>),
    Bool(Vec<bool>),
    Uuid(Vec<u128>),
    Vec64(Vec<i64>),
    Date(Vec<AsezDate>),
    Timestamp(Vec<AsezTimestamp>),
    /// Нет ненулевых значений -- массив не нужен.
    Null,
}

/// Математическая модель [`AggrValue`].
pub enum AggrModel {
    String(Seq<Seq<char>>),
    Int(Seq<i64>),
    Float(Seq<Seq<char>>),
    Bool(Seq<bool>),
    Uuid(Seq<u128>),
    Vec64(Seq<i64>),
    Date(Seq<AsezDate>),
    Timestamp(Seq<AsezTimestamp>),
    Null,
}

impl View for AggrValue {
    type V = AggrModel;

    open spec fn view(&self) -> AggrModel {
        match self {
            AggrValue::String(v) => AggrModel::String(strings_view(v@)),
            AggrValue::Int(v) => AggrModel::Int(v@),
            AggrValue::Float(v) => AggrModel::Float(strings_view(v@)),
            AggrValue::Bool(v) => AggrModel::Bool(v@),
            AggrValue::Uuid(v) => AggrModel::Uuid(v@),
            AggrValue::Vec64(v) => AggrModel::Vec64(v@),
            AggrValue::Date(v) => AggrModel::Date(v@),
            AggrValue::Timestamp(v) => AggrModel::Timestamp(v@),
            AggrValue::Null => AggrModel::Null,
        }
    }
}

/// Один шаг сборки массива: первое ненулевое значение задаёт тип,
/// следующие того же типа дописываются, остальные пропускаются.
pub open spec fn aggr_step(acc: AggrModel, x: ValueModel) -> AggrModel {
    match (x, acc) {
        (ValueModel::String(s), AggrModel::String(out)) => AggrModel::String(out.push(s)),
        (ValueModel::Int(i), AggrModel::Int(out)) => AggrModel::Int(out.push(i)),
        (ValueModel::IntWithOriginal(i, _, _), AggrModel::Int(out)) => AggrModel::Int(out.push(i)),
        (ValueModel::Float(f), AggrModel::Float(out)) => AggrModel::Float(out.push(f)),
        (ValueModel::Bool(b), AggrModel::Bool(out)) => AggrModel::Bool(out.push(b)),
        (ValueModel::Uuid(u), AggrModel::Uuid(out)) => AggrModel::Uuid(out.push(u)),
        (ValueModel::Vec64(a), AggrModel::Vec64(out)) => AggrModel::Vec64(out + a),
        (ValueModel::Date(d), AggrModel::Date(out)) => AggrModel::Date(out.push(d)),
        (ValueModel::Timestamp(t), AggrModel::Timestamp(out)) => AggrModel::Timestamp(out.push(t)),
        (ValueModel::String(s), AggrModel::Null) => AggrModel::String(seq![s]),
        (ValueModel::Int(i), AggrModel::Null) => AggrModel::Int(seq![i]),
        (ValueModel::Float(f), AggrModel::Null) => AggrModel::Float(seq![f]),
        (ValueModel::Bool(b), AggrModel::Null) => AggrModel::Bool(seq![b]),
        (ValueModel::Uuid(u), AggrModel::Null) => AggrModel::Uuid(seq![u]),
        (ValueModel::Vec64(a), AggrModel::Null) => AggrModel::Vec64(a),
        (ValueModel::Date(d), AggrModel::Null) => AggrModel::Date(seq![d]),
        (ValueModel::Timestamp(t), AggrModel::Null) => AggrModel::Timestamp(seq![t]),
        _ => acc,
    }
}

/// Массив, собранный из значений слева направо.
pub open spec fn aggr_of(vs: Seq<ValueModel>) -> AggrModel
    decreases vs.len(),
{
    if vs.len() == 0 {
        AggrModel::Null
    } else {
        aggr_step(aggr_of(vs.drop_last()), vs.last())
    }
}

fn push_string(out: &mut Vec<String>, s: &String)
    ensures
        strings_view(final(out)@) == strings_view(old(out)@).push(s@),
{
    out.push(copy_string(s));
    assert(strings_view(out@) =~= strings_view(old(out)@).push(s@));
}

fn copy_i64s(v: &Vec<i64>) -> (r: Vec<i64>)
    ensures
        r@ == v@,
{
    let mut r: Vec<i64> = Vec::new();
    let mut i: usize = 0;
    while i < v.len()
        invariant
            i <= v.len(),
            r@ == v@.subrange(0, i as int),
        decreases v.len() - i,
    {
        r.push(v[i]);
        assert(r@ =~= v@.subrange(0, i + 1));
        i = i + 1;
    }
    assert(r@ =~= v@);
    r
}

impl AggrValue {
    /// Собирает однотипный массив из значений, пропуская `Null` и значения другого типа.
    pub fn build(values: &[Value]) -> (r: AggrValue)
        ensures
            r@ == aggr_of(values_view(values@)),
    {
        let mut output = AggrValue::Null;
        let mut i: usize = 0;
        while i < values.len()
            invariant
                i <= values.len(),
                output@ == aggr_of(values_view(values@.subrange(0, i as int))),
            decreases values.len() - i,
        {
            let x = &values[i];
            let ghost before = output@;
            match x {
                Value::String(s) => {
                    if let AggrValue::String(out) = &mut output {
                        push_string(out, s);
                    } else if let AggrValue::Null = output {
                        let mut v = Vec::new();
                        push_string(&mut v, s);
                        assert(strings_view(v@) =~= seq![s@]);
                        output = AggrValue::String(v);
                    }
                },
                Value::Int(n) => {
                    if let AggrValue::Int(out) = &mut output {
                        out.push(*n);
                    } else if let AggrValue::Null = output {
                        let mut v = Vec::new();
                        v.push(*n);
                        output = AggrValue::Int(v);
                    }
                },
                Value::IntWithOriginal(w) => {
                    if let AggrValue::Int(out) = &mut output {
                        out.push(w.int);
                    }
                },
                Value::Float(f) => {
                    if let AggrValue::Float(out) = &mut output {
                        push_string(out, f);
                    } else if let AggrValue::Null = output {
                        let mut v = Vec::new();
                        push_string(&mut v, f);
                        assert(strings_view(v@) =~= seq![f@]);
                        output = AggrValue::Float(v);
                    }
                },
                Value::Bool(b) => {
                    if let AggrValue::Bool(out) = &mut output {
                        out.push(*b);
                    } else if let AggrValue::Null = output {
                        let mut v = Vec::new();
                        v.push(*b);
                        output = AggrValue::Bool(v);
                    }
                },
                Value::Uuid(u) => {
                    if let AggrValue::Uuid(out) = &mut output {
                        out.push(*u);
                    } else if let AggrValue::Null = output {
                        let mut v = Vec::new();
                        v.push(*u);
                        output = AggrValue::Uuid(v);
                    }
                },
                Value::Vec64(arr) => {
                    if let AggrValue::Vec64(out) = &mut output {
                        let mut extra = copy_i64s(&arr.0);
                        out.append(&mut extra);
                    } else if let AggrValue::Null = output {
                        output = AggrValue::Vec64(copy_i64s(&arr.0));
                    }
                },
                Value::Date(d) => {
                    if let AggrValue::Date(out) = &mut output {
                        out.push(*d);
                    } else if let AggrValue::Null = output {
                        let mut v = Vec::new();
                        v.push(*d);
                        output = AggrValue::Date(v);
                    }
                },
                Value::Timestamp(t) => {
                    if let AggrValue::Timestamp(out) = &mut output {
                        out.push(*t);
                    } else if let AggrValue::Null = output {
                        let mut v = Vec::new();
                        v.push(*t);
                        output = AggrValue::Timestamp(v);
                    }
                },
                _ => {},
            }
            assert(output@ == aggr_step(before, x@));
            assert(values_view(values@.subrange(0, i + 1)).drop_last() =~= values_view(values@.subrange(0, i as int)));
            assert(values_view(values@.subrange(0, i + 1)).last() == x@);
            i = i + 1;
        }
        assert(values@.subrange(0, values.len() as int) =~= values@);
        output
    }
}

} // verus!
