//! Идентификаторы записей внешних справочников: число или строка.
use crate::essential::lookup::{DictionaryKind, LookupRecordData, LookupRecordId};
use crate::text::{copy_string, dec_text, i64_text, int_text, u64_text};
use vstd::prelude::*;

verus! {

/// Число, которое `str::parse::<i32>` разбирает из строки, если разбор удался.
pub uninterp spec fn i32_parsed(s: Seq<char>) -> Option<int>;

/// `s.parse::<i32>()`.
///
/// Контракт: результат -- имя `i32_parsed` от строки; разобранное число лежит
/// в пределах `i32`.
#[verifier::external_body]
fn parse_i32(s: &str) -> (r: Option<i32>)
    ensures
        match r {
            Some(v) => i32_parsed(s@) == Some(v as int),
            None => i32_parsed(s@) is None,
        },
{
    s.parse::<i32>().ok()
}

/// Идентификатор записи внешнего справочника: строкой или числом.
#[derive(Debug, Clone, PartialEq, Eq, Hash)]
pub enum SimpleExtId {
    Str(String),
    Int(i32),
}

impl Default for SimpleExtId {
    fn default() -> (r: Self)
        ensures
            r == SimpleExtId::Int(0),
    {
        SimpleExtId::Int(0)
    }
}

impl SimpleExtId {
    /// Идентификатор числом: строка разбирается как `i32`, неразборчивая -- 0.
    pub fn as_int(&self) -> (r: i32)
        ensures
            match self {
                SimpleExtId::Str(s) => r as int == match i32_parsed(s@) {
                    Some(v) => v,
                    None => 0,
                },
                SimpleExtId::Int(i) => r == *i,
            },
    {
        match self {
            SimpleExtId::Str(s) => match parse_i32(s.as_str()) {
                Some(v) => v,
                None => 0,
            },
            SimpleExtId::Int(i) => *i,
        }
    }

    /// Идентификатор строкой: число -- его десятичная запись.
    pub fn as_str(&self) -> (r: String)
        ensures
            match self {
                SimpleExtId::Str(s) => r@ == s@,
                SimpleExtId::Int(i) => r@ == int_text(*i as int),
            },
    {
        match self {
            SimpleExtId::Str(s) => copy_string(s),
            SimpleExtId::Int(i) => i64_text(*i as i64),
        }
    }
}

/// Идентификатор для запроса `search_by_id`.
#[derive(Debug, Clone, PartialEq, Eq, Hash)]
pub struct Id {
    pub id: SimpleExtId,
}

impl Id {
    /// Числовой идентификатор.
    pub fn integer(id: i32) -> (r: Self)
        ensures
            r.id == SimpleExtId::Int(id),
    {
        Id { id: SimpleExtId::Int(id) }
    }

    /// Строковый идентификатор.
    pub fn str(id: String) -> (r: Self)
        ensures
            r.id == SimpleExtId::Str(id),
    {
        Id { id: SimpleExtId::Str(id) }
    }
}


/// Число, которое даёт идентификатор (`SimpleExtId::as_int`).
pub open spec fn ext_id_int(id: SimpleExtId) -> int {
    match id {
        SimpleExtId::Str(s) => match i32_parsed(s@) {
            Some(v) => v,
            None => 0,
        },
        SimpleExtId::Int(i) => i as int,
    }
}

/// Строка, которую даёт идентификатор (`SimpleExtId::as_str`).
pub open spec fn ext_id_text(id: SimpleExtId) -> Seq<char> {
    match id {
        SimpleExtId::Str(s) => s@,
        SimpleExtId::Int(i) => int_text(i as int),
    }
}

/// Запись внешнего справочника.
#[derive(Debug, Default)]
pub struct SimpleExtRecord {
    pub id: SimpleExtId,
    pub text: String,
    pub parent_id: SimpleExtId,
    pub code: SimpleExtId,
    pub scheme_id: SimpleExtId,
}

/// Данные записи справочника `kind` из записи `r` внешнего справочника.
pub open spec fn record_data_matches(d: LookupRecordData, kind: DictionaryKind, r: SimpleExtRecord) -> bool {
    &&& d.id == ext_id_int(r.id)
    &&& d.parent_id == ext_id_int(r.parent_id)
    &&& d.text@ == r.text@
    &&& d.code@ == ext_id_text(r.code)
    &&& d.dictionary_kind == kind
}

/// Ключ и данные записи справочника монолита `kind`: у справочника статусов
/// ключ составной (идентификатор и схема), у остальных -- идентификатор.
pub fn monolith_lookup_entry(kind: DictionaryKind, record: &SimpleExtRecord) -> (r: (LookupRecordId, LookupRecordData))
    ensures
        r.0 == (if kind == DictionaryKind::Status {
            LookupRecordId { id: ext_id_int(record.id) as i32, second_id: ext_id_int(record.scheme_id) as i32 }
        } else {
            LookupRecordId { id: ext_id_int(record.id) as i32, second_id: 0 }
        }),
        record_data_matches(r.1, kind, *record),
{
    let id = record.id.as_int();
    let key = if kind == DictionaryKind::Status {
        LookupRecordId::new(id, record.scheme_id.as_int())
    } else {
        LookupRecordId::with_id(id)
    };
    let data = LookupRecordData {
        id,
        parent_id: record.parent_id.as_int(),
        text: copy_string(&record.text),
        code: record.code.as_str(),
        dictionary_kind: kind,
    };
    (key, data)
}

/// Ключ и данные записи, полученной запросом `search_by_id` (вид справочника
/// не известен).
pub fn search_lookup_entry(record: &SimpleExtRecord) -> (r: (LookupRecordId, LookupRecordData))
    ensures
        r.0 == (LookupRecordId { id: ext_id_int(record.id) as i32, second_id: 0 }),
        record_data_matches(r.1, DictionaryKind::Unknown, *record),
{
    let id = record.id.as_int();
    let data = LookupRecordData {
        id,
        parent_id: record.parent_id.as_int(),
        text: copy_string(&record.text),
        code: record.code.as_str(),
        dictionary_kind: DictionaryKind::Unknown,
    };
    (LookupRecordId::with_id(id), data)
}

/// Путь запроса обновлений справочников монолита начиная с отметки `timestamp`
/// (`0` в пути `/api/json/master_data/get_updates/0/` заменяется отметкой).
pub fn monolith_updates_path(timestamp: u32) -> (r: String)
    ensures
        r@ == "/api/json/master_data/get_updates/"@ + dec_text(timestamp as nat) + "/"@,
{
    let mut r = String::from_str("/api/json/master_data/get_updates/");
    let t = u64_text(timestamp as u64);
    r.append(t.as_str());
    r.append("/");
    r
}

} // verus!
