//! Запросы `search_by_id` к справочникам: адреса ручек, идентификаторы для
//! запроса и отбор записей ответа.
use crate::essential::external_id::{ext_id_int, ext_id_text, record_data_matches, search_lookup_entry, Id, SimpleExtId, SimpleExtRecord};
use crate::essential::lookup::{DictionaryKind, IdLookupSource, IdLookupSourceHost, LookupRecordData, LookupRecordId};
use crate::text::{copy_string, str_eq};
use vstd::prelude::*;

verus! {

/// Адрес, который даёт `Url::parse(base)` с последующим `Url::join(path)`
/// (сериализация результата), если разбор и присоединение удались.
pub uninterp spec fn url_joined(base: Seq<char>, path: Seq<char>) -> Option<Seq<char>>;

/// `url::Url::parse(base)`, затем `Url::join(path)` крейта `url`.
///
/// Контракт: успех ровно тогда, когда имя `url_joined` от аргументов есть, и
/// тогда результат -- его текст. Текст ошибки (описание `ParseError`) не описан.
#[verifier::external_body]
pub(crate) fn url_join(base: &str, path: &str) -> (r: Result<String, String>)
    ensures
        match url_joined(base@, path@) {
            Some(t) => r is Ok && r->Ok_0@ == t,
            None => r is Err,
        },
{
    let u = match url::Url::parse(base) {
        Ok(u) => u,
        Err(e) => return Err(e.to_string()),
    };
    match u.join(path) {
        Ok(j) => Ok(j.to_string()),
        Err(e) => Err(e.to_string()),
    }
}

/// Путь ручки `search_by_id` справочника `dict_name`.
pub open spec fn search_by_id_path(dict_name: Seq<char>) -> Seq<char> {
    "/api/json/"@ + dict_name + "/search_by_id/"@
}

/// Адрес ручки `search_by_id` справочника `dict_name` на хосте `base`.
pub fn search_by_id_url(base: &str, dict_name: &str) -> (r: Result<String, String>)
    ensures
        match url_joined(base@, search_by_id_path(dict_name@)) {
            Some(t) => r is Ok && r->Ok_0@ == t,
            None => r is Err,
        },
{
    let mut path = String::from_str("/api/json/");
    path.append(dict_name);
    path.append("/search_by_id/");
    url_join(base, path.as_str())
}

/// Пары «идентификатор, текст» в виде значений.
pub open spec fn entries_view(entries: Seq<(i64, String)>) -> Seq<(i64, Seq<char>)> {
    entries.map_values(|e: (i64, String)| (e.0, e.1@))
}

/// Записи из `entries`, идентификаторы которых есть в `ids`, по порядку.
pub open spec fn entries_with_ids(entries: Seq<(i64, Seq<char>)>, ids: Seq<i64>) -> Seq<(i64, Seq<char>)>
    decreases entries.len(),
{
    if entries.len() == 0 {
        seq![]
    } else {
        let rest = entries_with_ids(entries.drop_last(), ids);
        if ids.contains(entries.last().0) {
            rest.push(entries.last())
        } else {
            rest
        }
    }
}

/// Текст ошибки ответа с неуспешным статусом.
pub open spec fn search_status_error() -> Seq<char> {
    "search_by_id API returned non-success status"@
}

fn contains_id(ids: &Vec<i64>, id: i64) -> (r: bool)
    ensures
        r == ids@.contains(id),
{
    let mut i: usize = 0;
    while i < ids.len()
        invariant
            i <= ids@.len(),
            forall|j: int| 0 <= j < i ==> ids@[j] != id,
        decreases ids.len() - i,
    {
        if ids[i] == id {
            return true;
        }
        i = i + 1;
    }
    false
}

/// Итог запроса `search_by_id` по идентификаторам `ids`: без идентификаторов --
/// пустой (запрос не нужен); при статусе ответа не `"s"` -- ошибка; иначе --
/// записи ответа `entries` с идентификаторами из `ids`, по порядку.
pub fn search_by_id_result(ids: &Vec<i64>, status: &str, entries: Vec<(i64, String)>) -> (r: Result<Vec<(i64, String)>, String>)
    ensures
        ids@.len() == 0 ==> r is Ok && r->Ok_0@.len() == 0,
        ids@.len() > 0 && status@ != "s"@ ==> r is Err && r->Err_0@ == search_status_error(),
        ids@.len() > 0 && status@ == "s"@ ==> r is Ok && entries_view(r->Ok_0@) == entries_with_ids(entries_view(entries@), ids@),
{
    if ids.len() == 0 {
        return Ok(Vec::new());
    }
    if !str_eq(status, "s") {
        return Err(String::from_str("search_by_id API returned non-success status"));
    }
    let ghost all = entries_view(entries@);
    let mut out: Vec<(i64, String)> = Vec::new();
    for e in it: entries
        invariant
            all == entries_view(it.seq()),
            entries_view(out@) == entries_with_ids(all.take(it.index() as int), ids@),
    {
        let ghost k = it.index() as int;
        assert(all[k] == (e.0, e.1@));
        assert(all.take(k + 1).drop_last() =~= all.take(k));
        if contains_id(ids, e.0) {
            let ghost before = out@;
            out.push(e);
            assert(entries_view(out@) =~= entries_view(before).push(all[k]));
        }
    }
    assert(all.take(all.len() as int) =~= all);
    Ok(out)
}

/// Идентификаторы равны: оба числа или обе строки с одним текстом.
pub open spec fn same_ext_id(a: SimpleExtId, b: SimpleExtId) -> bool {
    match (a, b) {
        (SimpleExtId::Int(x), SimpleExtId::Int(y)) => x == y,
        (SimpleExtId::Str(s), SimpleExtId::Str(t)) => s@ == t@,
        _ => false,
    }
}

/// Идентификатор для запроса: при `is_int` -- как есть, иначе -- строкой
/// (число -- его десятичной записью).
pub open spec fn lookup_id_of(id: SimpleExtId, is_int: bool, r: SimpleExtId) -> bool {
    if is_int {
        same_ext_id(r, id)
    } else {
        r matches SimpleExtId::Str(s) && s@ == ext_id_text(id)
    }
}

fn copy_ext_id(id: &SimpleExtId) -> (r: SimpleExtId)
    ensures
        same_ext_id(r, *id),
{
    match id {
        SimpleExtId::Str(s) => SimpleExtId::Str(copy_string(s)),
        SimpleExtId::Int(i) => SimpleExtId::Int(*i),
    }
}

/// Идентификаторы для запроса `search_by_id`: одни справочники принимают
/// числа, другие -- только строки.
pub fn lookup_ids(values: &Vec<Id>, is_int: bool) -> (r: Vec<Id>)
    ensures
        r@.len() == values@.len(),
        forall|i: int| 0 <= i < values@.len() ==> lookup_id_of(values@[i].id, is_int, #[trigger] r@[i].id),
{
    let mut out: Vec<Id> = Vec::new();
    let mut i: usize = 0;
    while i < values.len()
        invariant
            i <= values@.len(),
            out@.len() == i,
            forall|k: int| 0 <= k < i ==> lookup_id_of(values@[k].id, is_int, #[trigger] out@[k].id),
        decreases values.len() - i,
    {
        let id = if is_int {
            Id { id: copy_ext_id(&values[i].id) }
        } else {
            Id::str(values[i].id.as_str())
        };
        out.push(id);
        i = i + 1;
    }
    out
}

/// Запрос данных для поля источника `source` хоста `host`: адрес ручки и
/// идентификаторы, приведённые к виду, который принимает хост.
pub fn lookup_request(host: &IdLookupSourceHost, source: &IdLookupSource, values: &Vec<Id>) -> (r: Result<(String, Vec<Id>), String>)
    ensures
        match url_joined(host.host@, source.path@) {
            Some(t) => r is Ok && r->Ok_0.0@ == t && r->Ok_0.1@.len() == values@.len()
                && forall|i: int| 0 <= i < values@.len() ==> lookup_id_of(values@[i].id, host.is_int, #[trigger] r->Ok_0.1@[i].id),
            None => r is Err,
        },
{
    let url = url_join(host.host.as_str(), source.path.as_str())?;
    Ok((url, lookup_ids(values, host.is_int)))
}

/// Ключи и данные записей ответа `search_by_id`, по порядку: ключ -- идентификатор
/// записи числом, вид справочника не известен.
pub fn search_by_id_entries(records: &Vec<SimpleExtRecord>) -> (r: Vec<(LookupRecordId, LookupRecordData)>)
    ensures
        r@.len() == records@.len(),
        forall|i: int| 0 <= i < records@.len() ==> (#[trigger] r@[i]).0 == (LookupRecordId { id: ext_id_int(records@[i].id) as i32, second_id: 0 })
            && record_data_matches(r@[i].1, DictionaryKind::Unknown, records@[i]),
{
    let mut out: Vec<(LookupRecordId, LookupRecordData)> = Vec::new();
    let mut i: usize = 0;
    while i < records.len()
        invariant
            i <= records@.len(),
            out@.len() == i,
            forall|k: int| 0 <= k < i ==> (#[trigger] out@[k]).0 == (LookupRecordId { id: ext_id_int(records@[k].id) as i32, second_id: 0 })
                && record_data_matches(out@[k].1, DictionaryKind::Unknown, records@[k]),
        decreases records.len() - i,
    {
        out.push(search_lookup_entry(&records[i]));
        i = i + 1;
    }
    out
}

} // verus!
