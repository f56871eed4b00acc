//! Наименования статусов из справочника статусов.
use crate::date_time::{datetime_formatted, hms_of, moscow_shift, AsezTimestamp, DATE_MAX_JULIAN, TIMESTAMP_FORMAT};
use crate::essential::lookup::LookupRecordData;
use crate::text::{join_strings, seq_join, strings_view};
use ahash::AHashMap;
use vstd::prelude::*;

verus! {

/// Записи справочника статусов: по ключу `(id, scheme_id)` -- идентификатор
/// родительского статуса и наименование.
pub uninterp spec fn status_map_contents(m: AHashMap<(i32, i32), LookupRecordData>) -> Map<(i32, i32), (i32, Seq<char>)>;

/// Родитель и наименование статуса по ключу: `AHashMap::get`.
///
/// Контракт: значение из содержимого, если ключ есть, иначе `None`.
#[verifier::external_body]
fn status_map_get(m: &AHashMap<(i32, i32), LookupRecordData>, key: (i32, i32)) -> (r: Option<(i32, String)>)
    ensures
        match r {
            Some(p) => status_map_contents(*m).contains_key(key) && status_map_contents(*m)[key] == (p.0, p.1@),
            None => !status_map_contents(*m).contains_key(key),
        },
{
    m.get(&key).map(|d| (d.parent_id, d.text.clone()))
}

/// Наименование статуса `status_id` схемы `scheme_id` и наименование его
/// родителя (если родитель указан и есть в справочнике).
pub open spec fn status_names(c: Map<(i32, i32), (i32, Seq<char>)>, status_id: i32, scheme_id: i32) -> (
    Option<Seq<char>>,
    Option<Seq<char>>,
) {
    if !c.contains_key((status_id, scheme_id)) {
        (None, None)
    } else {
        let (parent, text) = c[(status_id, scheme_id)];
        (Some(text), if parent > 0 && c.contains_key((parent, scheme_id)) {
            Some(c[(parent, scheme_id)].1)
        } else {
            None
        })
    }
}

/// Модель необязательной строки.
pub open spec fn opt_text(s: Option<String>) -> Option<Seq<char>> {
    match s {
        Some(t) => Some(t@),
        None => None,
    }
}

/// Наименование статуса вместе с наименованием родительского статуса.
pub fn get_status_name_with_parent(status_map: &AHashMap<(i32, i32), LookupRecordData>, status_id: i32, scheme_id: i32) -> (r: (
    Option<String>,
    Option<String>,
))
    ensures
        (opt_text(r.0), opt_text(r.1)) == status_names(status_map_contents(*status_map), status_id, scheme_id),
{
    match status_map_get(status_map, (status_id, scheme_id)) {
        None => (None, None),
        Some((parent_id, text)) => {
            let parent_name = if parent_id > 0 {
                match status_map_get(status_map, (parent_id, scheme_id)) {
                    Some((_, p)) => Some(p),
                    None => None,
                }
            } else {
                None
            };
            (Some(text), parent_name)
        },
    }
}

/// Запись статуса для выгрузки: `<время> <родитель>. <статус>` (отсутствующие
/// части пропускаются вместе с разделителями).
pub open spec fn status_line(timestamp: Option<Seq<char>>, parent: Option<Seq<char>>, status: Option<Seq<char>>) -> Seq<char> {
    (match timestamp {
        Some(t) => t + " "@,
        None => seq![],
    }) + (match parent {
        Some(p) => p + ". "@,
        None => seq![],
    }) + (match status {
        Some(s) => s,
        None => seq![],
    })
}

/// Склеивает время, наименование родительского статуса и статуса.
pub fn concat_status_names(timestamp: Option<String>, parent_status_name: Option<String>, status_name: Option<String>) -> (r: String)
    ensures
        r@ == status_line(opt_text(timestamp), opt_text(parent_status_name), opt_text(status_name)),
{
    let mut result = String::new();
    if let Some(ts) = timestamp {
        result.append(ts.as_str());
        result.append(" ");
    }
    if let Some(parent) = parent_status_name {
        result.append(parent.as_str());
        result.append(". ");
    }
    if let Some(status) = status_name {
        result.append(status.as_str());
    }
    result
}

/// Запись истории статусов документа: момент изменения (UTC) и новый статус.
#[derive(Debug, Clone, Copy)]
pub struct StatusHistoryEntry {
    pub changed_at: AsezTimestamp,
    pub status_id: u16,
}

/// Момент `t` (UTC) московским временем в формате [`TIMESTAMP_FORMAT`].
pub open spec fn moscow_text(t: AsezTimestamp) -> Seq<char> {
    let (day, nanos) = moscow_shift(t.day(), t.nanos_of_day());
    let (h, m, s, ns) = hms_of(nanos);
    datetime_formatted(day, h, m, s, ns, TIMESTAMP_FORMAT@)
}

/// Строки истории статусов: по записи -- московское время, родительский статус
/// и статус схемы `scheme_id` по справочнику `c`.
pub open spec fn history_lines(entries: Seq<StatusHistoryEntry>, c: Map<(i32, i32), (i32, Seq<char>)>, scheme_id: i32) -> Seq<Seq<char>> {
    entries.map_values(|e: StatusHistoryEntry| {
        let names = status_names(c, e.status_id as i32, scheme_id);
        status_line(Some(moscow_text(e.changed_at)), names.1, names.0)
    })
}

/// История статусов документа для выгрузки: строки по записям через перевод строки.
pub fn status_history_text(
    entries: &Vec<StatusHistoryEntry>,
    status_map: &AHashMap<(i32, i32), LookupRecordData>,
    scheme_id: i32,
) -> (r: String)
    requires
        forall|i: int| 0 <= i < entries@.len() ==> (#[trigger] entries@[i]).changed_at.day() < DATE_MAX_JULIAN,
    ensures
        r@ == seq_join(history_lines(entries@, status_map_contents(*status_map), scheme_id), "\n"@),
{
    let ghost c = status_map_contents(*status_map);
    let mut lines: Vec<String> = Vec::new();
    let mut i: usize = 0;
    while i < entries.len()
        invariant
            i <= entries@.len(),
            c == status_map_contents(*status_map),
            forall|k: int| 0 <= k < entries@.len() ==> (#[trigger] entries@[k]).changed_at.day() < DATE_MAX_JULIAN,
            strings_view(lines@) == history_lines(entries@.take(i as int), c, scheme_id),
        decreases entries.len() - i,
    {
        let e = entries[i];
        let ts = e.changed_at.to_text_offset_3();
        let (status_name, parent_name) = get_status_name_with_parent(status_map, e.status_id as i32, scheme_id);
        let line = concat_status_names(Some(ts), parent_name, status_name);
        let ghost before = lines@;
        lines.push(line);
        proof {
            assert(entries@.take(i + 1) =~= entries@.take(i as int).push(e));
            assert(history_lines(entries@.take(i + 1), c, scheme_id) =~= history_lines(entries@.take(i as int), c, scheme_id).push(line@));
            assert(strings_view(lines@) =~= strings_view(before).push(line@));
        }
        i = i + 1;
    }
    assert(entries@.take(entries@.len() as int) =~= entries@);
    join_strings(&lines, "\n")
}

} // verus!
