//! Разбор ответа монолита с обновлениями справочников.
use crate::essential::external_id::{monolith_lookup_entry, monolith_updates_path, record_data_matches, ext_id_int, SimpleExtRecord};
use crate::essential::lookup::{DictionaryKind, LookupRecordData, LookupRecordId};
use crate::essential::search_by_id::{url_join, url_joined};
use crate::text::dec_text;
use crate::essential::maps::map_2;
use crate::text::str_eq;
use vstd::prelude::*;

verus! {

/// Вид справочника по его имени в ответе монолита (имени варианта).
pub open spec fn kind_of_name(s: Seq<char>) -> Option<DictionaryKind> {
    if s == "Category"@ {
        Some(DictionaryKind::Category)
    } else if s == "ContractAmendmentItemKind"@ {
        Some(DictionaryKind::ContractAmendmentItemKind)
    } else if s == "ContractAmendmentKind"@ {
        Some(DictionaryKind::ContractAmendmentKind)
    } else if s == "Country"@ {
        Some(DictionaryKind::Country)
    } else if s == "Currency"@ {
        Some(DictionaryKind::Currency)
    } else if s == "Customer"@ {
        Some(DictionaryKind::Customer)
    } else if s == "Department"@ {
        Some(DictionaryKind::Department)
    } else if s == "FundingSource"@ {
        Some(DictionaryKind::FundingSource)
    } else if s == "MasterSystem"@ {
        Some(DictionaryKind::MasterSystem)
    } else if s == "NomenclatureGroup"@ {
        Some(DictionaryKind::NomenclatureGroup)
    } else if s == "Organization"@ {
        Some(DictionaryKind::Organization)
    } else if s == "PublicationType"@ {
        Some(DictionaryKind::PublicationType)
    } else if s == "PurchasingMethod"@ {
        Some(DictionaryKind::PurchasingMethod)
    } else if s == "PurchasingPolicyItem"@ {
        Some(DictionaryKind::PurchasingPolicyItem)
    } else if s == "PurchasingTrend"@ {
        Some(DictionaryKind::PurchasingTrend)
    } else if s == "RegulationDocument"@ {
        Some(DictionaryKind::RegulationDocument)
    } else if s == "Section"@ {
        Some(DictionaryKind::Section)
    } else if s == "SmbException"@ {
        Some(DictionaryKind::SmbException)
    } else if s == "Status"@ {
        Some(DictionaryKind::Status)
    } else if s == "Unit"@ {
        Some(DictionaryKind::Unit)
    } else if s == "Vat"@ {
        Some(DictionaryKind::Vat)
    } else if s == "BudgetItem"@ {
        Some(DictionaryKind::BudgetItem)
    } else if s == "ContractAmendmentApprovingDecision"@ {
        Some(DictionaryKind::ContractAmendmentApprovingDecision)
    } else if s == "PaymentBalanceItem"@ {
        Some(DictionaryKind::PaymentBalanceItem)
    } else if s == "PurchasingPolicy"@ {
        Some(DictionaryKind::PurchasingPolicy)
    } else if s == "Unknown"@ {
        Some(DictionaryKind::Unknown)
    } else {
        None
    }
}

/// Вид справочника по имени из ответа монолита.
pub fn dictionary_kind_from_name(s: &str) -> (r: Option<DictionaryKind>)
    ensures
        r == kind_of_name(s@),
{
    if str_eq(s, "Category") {
        Some(DictionaryKind::Category)
    } else if str_eq(s, "ContractAmendmentItemKind") {
        Some(DictionaryKind::ContractAmendmentItemKind)
    } else if str_eq(s, "ContractAmendmentKind") {
        Some(DictionaryKind::ContractAmendmentKind)
    } else if str_eq(s, "Country") {
        Some(DictionaryKind::Country)
    } else if str_eq(s, "Currency") {
        Some(DictionaryKind::Currency)
    } else if str_eq(s, "Customer") {
        Some(DictionaryKind::Customer)
    } else if str_eq(s, "Department") {
        Some(DictionaryKind::Department)
    } else if str_eq(s, "FundingSource") {
        Some(DictionaryKind::FundingSource)
    } else if str_eq(s, "MasterSystem") {
        Some(DictionaryKind::MasterSystem)
    } else if str_eq(s, "NomenclatureGroup") {
        Some(DictionaryKind::NomenclatureGroup)
    } else if str_eq(s, "Organization") {
        Some(DictionaryKind::Organization)
    } else if str_eq(s, "PublicationType") {
        Some(DictionaryKind::PublicationType)
    } else if str_eq(s, "PurchasingMethod") {
        Some(DictionaryKind::PurchasingMethod)
    } else if str_eq(s, "PurchasingPolicyItem") {
        Some(DictionaryKind::PurchasingPolicyItem)
    } else if str_eq(s, "PurchasingTrend") {
        Some(DictionaryKind::PurchasingTrend)
    } else if str_eq(s, "RegulationDocument") {
        Some(DictionaryKind::RegulationDocument)
    } else if str_eq(s, "Section") {
        Some(DictionaryKind::Section)
    } else if str_eq(s, "SmbException") {
        Some(DictionaryKind::SmbException)
    } else if str_eq(s, "Status") {
        Some(DictionaryKind::Status)
    } else if str_eq(s, "Unit") {
        Some(DictionaryKind::Unit)
    } else if str_eq(s, "Vat") {
        Some(DictionaryKind::Vat)
    } else if str_eq(s, "BudgetItem") {
        Some(DictionaryKind::BudgetItem)
    } else if str_eq(s, "ContractAmendmentApprovingDecision") {
        Some(DictionaryKind::ContractAmendmentApprovingDecision)
    } else if str_eq(s, "PaymentBalanceItem") {
        Some(DictionaryKind::PaymentBalanceItem)
    } else if str_eq(s, "PurchasingPolicy") {
        Some(DictionaryKind::PurchasingPolicy)
    } else if str_eq(s, "Unknown") {
        Some(DictionaryKind::Unknown)
    } else {
        None
    }
}

/// Что делать с очередным ключом объекта справочника в ответе монолита.
#[derive(Debug, Clone, Copy, PartialEq, Eq, Structural)]
pub enum DictionaryKeyAction {
    /// Служебный ключ (`type`, `changed_at`): значение пропускается.
    SkipService,
    /// Ключ -- имя справочника: значение -- его записи.
    ReadItems(DictionaryKind),
    /// Неизвестное имя справочника: значение пропускается.
    SkipUnknownKind,
    /// Справочник уже прочитан: значение пропускается.
    SkipDuplicate,
}

/// Действие для ключа `key` объекта справочника, когда справочник уже
/// найден (`dictionary_found`) или ещё нет.
pub fn dictionary_key_action(dictionary_found: bool, key: &str) -> (r: DictionaryKeyAction)
    ensures
        r == (if key@ == "type"@ || key@ == "changed_at"@ {
            DictionaryKeyAction::SkipService
        } else if dictionary_found {
            DictionaryKeyAction::SkipDuplicate
        } else {
            match kind_of_name(key@) {
                Some(k) => DictionaryKeyAction::ReadItems(k),
                None => DictionaryKeyAction::SkipUnknownKind,
            }
        }),
{
    proof {
        reveal_strlit("type");
        reveal_strlit("changed_at");
    }
    if str_eq(key, "type") || str_eq(key, "changed_at") {
        return DictionaryKeyAction::SkipService;
    }
    if dictionary_found {
        return DictionaryKeyAction::SkipDuplicate;
    }
    match dictionary_kind_from_name(key) {
        Some(k) => DictionaryKeyAction::ReadItems(k),
        None => DictionaryKeyAction::SkipUnknownKind,
    }
}

/// Итог разбора объекта справочника: найденные вид и записи; если чего-то
/// нет -- неизвестный справочник без записей.
pub fn dictionary_record_parts(dictionary: Option<DictionaryKind>, items: Option<Vec<SimpleExtRecord>>) -> (r: (
    DictionaryKind,
    Vec<SimpleExtRecord>,
))
    ensures
        match (dictionary, items) {
            (Some(k), Some(v)) => r.0 == k && r.1 == v,
            _ => r.0 == DictionaryKind::Unknown && r.1@.len() == 0,
        },
{
    let both = map_2(dictionary, items, |k: DictionaryKind, v: Vec<SimpleExtRecord>| -> (r: (DictionaryKind, Vec<SimpleExtRecord>))
        ensures
            r.0 == k && r.1 == v,
        { (k, v) });
    match both {
        Some(p) => p,
        None => (DictionaryKind::Unknown, Vec::new()),
    }
}

/// Адрес запроса обновлений справочников монолита с хоста `base` начиная с
/// отметки `timestamp`.
pub fn monolith_updates_url(base: &str, timestamp: u32) -> (r: Result<String, String>)
    ensures
        match url_joined(base@, "/api/json/master_data/get_updates/"@ + dec_text(timestamp as nat) + "/"@) {
            Some(t) => r is Ok && r->Ok_0@ == t,
            None => r is Err,
        },
{
    let path = monolith_updates_path(timestamp);
    url_join(base, path.as_str())
}

/// Ключ записи справочника монолита `kind`: у справочника статусов --
/// идентификатор и схема, у остальных -- идентификатор.
pub open spec fn monolith_entry_key(kind: DictionaryKind, record: SimpleExtRecord) -> LookupRecordId {
    if kind == DictionaryKind::Status {
        LookupRecordId { id: ext_id_int(record.id) as i32, second_id: ext_id_int(record.scheme_id) as i32 }
    } else {
        LookupRecordId { id: ext_id_int(record.id) as i32, second_id: 0 }
    }
}

/// Ключи и данные записей справочника монолита `kind`, по порядку записей.
pub fn dictionary_entries(kind: DictionaryKind, records: &Vec<SimpleExtRecord>) -> (r: Vec<(LookupRecordId, LookupRecordData)>)
    ensures
        r@.len() == records@.len(),
        forall|i: int| 0 <= i < records@.len() ==> (#[trigger] r@[i]).0 == monolith_entry_key(kind, records@[i])
            && record_data_matches(r@[i].1, kind, records@[i]),
{
    let mut out: Vec<(LookupRecordId, LookupRecordData)> = Vec::new();
    let mut i: usize = 0;
    while i < records.len()
        invariant
            i <= records@.len(),
            out@.len() == i,
            forall|k: int| 0 <= k < i ==> (#[trigger] out@[k]).0 == monolith_entry_key(kind, records@[k])
                && record_data_matches(out@[k].1, kind, records@[k]),
        decreases records.len() - i,
    {
        out.push(monolith_lookup_entry(kind, &records[i]));
        i = i + 1;
    }
    out
}

} // verus!
