//! Конфигурация справочников: какие поля каким справочником заменяются.
use crate::text::strings_view;
use crate::value::DisplayText;
use vstd::prelude::*;

verus! {

/// Вид справочника монолита.
#[derive(Clone, Copy, Debug, PartialEq, Eq, Hash, Default, Structural)]
pub enum DictionaryKind {
    Category,
    ContractAmendmentItemKind,
    ContractAmendmentKind,
    Country,
    Currency,
    Customer,
    Department,
    FundingSource,
    MasterSystem,
    NomenclatureGroup,
    Organization,
    PublicationType,
    PurchasingMethod,
    PurchasingPolicyItem,
    PurchasingTrend,
    RegulationDocument,
    Section,
    SmbException,
    Status,
    Unit,
    Vat,
    BudgetItem,
    ContractAmendmentApprovingDecision,
    PaymentBalanceItem,
    PurchasingPolicy,
    #[default]
    Unknown,
}

/// Идентификатор записи справочника; у справочника статусов он составной (`id` и схема).
#[derive(Clone, Copy, Debug, PartialEq, Eq, Hash, Default, Structural)]
pub struct LookupRecordId {
    pub id: i32,
    pub second_id: i32,
}

impl LookupRecordId {
    /// Составной идентификатор.
    pub fn new(id: i32, second_id: i32) -> (r: Self)
        ensures
            r == (LookupRecordId { id, second_id }),
    {
        LookupRecordId { id, second_id }
    }

    /// Простой идентификатор (вторая часть нулевая).
    pub fn with_id(id: i32) -> (r: Self)
        ensures
            r == (LookupRecordId { id, second_id: 0 }),
    {
        LookupRecordId { id, second_id: 0 }
    }
}

/// Данные записи справочника.
#[derive(Clone, Debug, Default)]
pub struct LookupRecordData {
    pub dictionary_kind: DictionaryKind,
    pub id: i32,
    pub parent_id: i32,
    pub text: String,
    pub code: String,
}

/// Замена значений поля `field_name` данными справочника `dictionary_kind`.
#[derive(Debug)]
pub struct CommonLookupReplacement {
    pub field_name: String,
    pub dictionary_kind: DictionaryKind,
}

/// Замены по общим справочникам монолита.
#[derive(Debug)]
pub struct CommonLookupCfg {
    pub records: Vec<CommonLookupReplacement>,
}

/// Поля и справочники замен по умолчанию.
pub open spec fn common_lookup_table() -> Seq<(Seq<char>, DictionaryKind)> {
    seq![
        ("category_id"@, DictionaryKind::Category),
        ("country_id"@, DictionaryKind::Country),
        ("currency_id"@, DictionaryKind::Currency),
        ("customer_id"@, DictionaryKind::Customer),
        ("department_id"@, DictionaryKind::Department),
        ("purchasing_method_id"@, DictionaryKind::PurchasingMethod),
        ("section_id"@, DictionaryKind::Section),
        ("unit_id"@, DictionaryKind::Unit),
        ("vat_id"@, DictionaryKind::Vat),
        ("single_supplier_reason_id"@, DictionaryKind::PurchasingPolicyItem),
        ("contract_amendment_types"@, DictionaryKind::ContractAmendmentKind),
    ]
}

fn replacement(field_name: &str, dictionary_kind: DictionaryKind) -> (r: CommonLookupReplacement)
    ensures
        r.field_name@ == field_name@,
        r.dictionary_kind == dictionary_kind,
{
    CommonLookupReplacement { field_name: String::from_str(field_name), dictionary_kind }
}

impl CommonLookupCfg {
    /// Модель замен: пары «поле, справочник».
    pub open spec fn pairs(&self) -> Seq<(Seq<char>, DictionaryKind)> {
        self.records@.map_values(|r: CommonLookupReplacement| (r.field_name@, r.dictionary_kind))
    }
}

impl Default for CommonLookupCfg {
    fn default() -> (r: Self)
        ensures
            r.pairs() == common_lookup_table(),
    {
        let mut records: Vec<CommonLookupReplacement> = Vec::new();
        records.push(replacement("category_id", DictionaryKind::Category));
        records.push(replacement("country_id", DictionaryKind::Country));
        records.push(replacement("currency_id", DictionaryKind::Currency));
        records.push(replacement("customer_id", DictionaryKind::Customer));
        records.push(replacement("department_id", DictionaryKind::Department));
        records.push(replacement("purchasing_method_id", DictionaryKind::PurchasingMethod));
        records.push(replacement("section_id", DictionaryKind::Section));
        records.push(replacement("unit_id", DictionaryKind::Unit));
        records.push(replacement("vat_id", DictionaryKind::Vat));
        records.push(replacement("single_supplier_reason_id", DictionaryKind::PurchasingPolicyItem));
        records.push(replacement("contract_amendment_types", DictionaryKind::ContractAmendmentKind));
        let r = CommonLookupCfg { records };
        assert(r.pairs() =~= common_lookup_table());
        r
    }
}

/// Источник данных для поля: путь ручки `search_by_id`.
#[derive(Debug)]
pub struct IdLookupSource {
    /// Поле, значения которого заменяются.
    pub replace_field: String,
    /// Путь ручки.
    pub path: String,
}

/// Хост и источники данных на нём.
#[derive(Debug)]
pub struct IdLookupSourceHost {
    /// Адрес хоста.
    pub host: String,
    pub replacements: Vec<IdLookupSource>,
    /// Идентификаторы -- целые числа (иначе строки).
    pub is_int: bool,
}

/// Полная конфигурация запросов данных по идентификаторам.
#[derive(Debug)]
pub struct IdLookupCfg {
    pub records: Vec<IdLookupSourceHost>,
}

/// Источники по умолчанию: (на монолите ли, поле, путь, целые ли идентификаторы).
pub open spec fn id_lookup_table() -> Seq<(bool, Seq<char>, Seq<char>, bool)> {
    seq![
        (true, "pricing_expert_id"@, "/api/json/users/search_by_id/"@, false),
        (true, "created_by"@, "/api/json/users/search_by_id/"@, false),
        (true, "changed_by"@, "/api/json/users/search_by_id/"@, false),
        (true, "supplier_id"@, "/api/json/organization/search_by_id/"@, false),
        (true, "user_id"@, "/api/json/users/search_by_id/"@, false),
        (false, "agenda_status_id"@, "/v1/agenda_status/search_by_id/"@, true),
        (false, "expert_conclusion_id"@, "/v1/expert_conclusion_type/search_by_id/"@, true),
        (false, "pricing_method_id"@, "/v1/price_analysis_method/search_by_id/"@, true),
        (false, "pricing_organization_unit_id"@, "/v1/pricing_unit/search_by_id/"@, true),
        (true, "okved2_id"@, "/api/json/okved2/search_by_id/"@, false),
        (true, "okpd2_id"@, "/api/json/okpd2/search_by_id/"@, false),
        (true, "okato_id"@, "/api/json/okato/search_by_id/"@, false),
    ]
}

/// Хост с одним источником соответствует строке таблицы источников.
pub open spec fn host_matches(h: IdLookupSourceHost, row: (bool, Seq<char>, Seq<char>, bool), monolith: Seq<char>, master_data: Seq<char>) -> bool {
    &&& h.host@ == (if row.0 { monolith } else { master_data })
    &&& h.replacements@.len() == 1
    &&& h.replacements@[0].replace_field@ == row.1
    &&& h.replacements@[0].path@ == row.2
    &&& h.is_int == row.3
}

/// Поля всех источников по порядку.
pub open spec fn source_fields(records: Seq<IdLookupSourceHost>) -> Seq<Seq<char>>
    decreases records.len(),
{
    if records.len() == 0 {
        seq![]
    } else {
        source_fields(records.drop_last()) + records.last().replacements@.map_values(|s: IdLookupSource| s.replace_field@)
    }
}

fn single_source(host: &str, replace_field: &str, path: &str, is_int: bool) -> (r: IdLookupSourceHost)
    ensures
        r.host@ == host@,
        r.replacements@.len() == 1,
        r.replacements@[0].replace_field@ == replace_field@,
        r.replacements@[0].path@ == path@,
        r.is_int == is_int,
{
    let mut replacements: Vec<IdLookupSource> = Vec::new();
    replacements.push(IdLookupSource { replace_field: String::from_str(replace_field), path: String::from_str(path) });
    IdLookupSourceHost { host: String::from_str(host), replacements, is_int }
}

impl IdLookupCfg {
    /// Конфигурация по умолчанию для адресов монолита и НСИ.
    pub fn with_hosts(monolith: &str, master_data: &str) -> (r: Self)
        ensures
            r.records@.len() == id_lookup_table().len(),
            forall|i: int| 0 <= i < r.records@.len() ==> #[trigger] host_matches(r.records@[i], id_lookup_table()[i], monolith@, master_data@),
    {
        let mut records: Vec<IdLookupSourceHost> = Vec::new();
        records.push(single_source(monolith, "pricing_expert_id", "/api/json/users/search_by_id/", false));
        records.push(single_source(monolith, "created_by", "/api/json/users/search_by_id/", false));
        records.push(single_source(monolith, "changed_by", "/api/json/users/search_by_id/", false));
        records.push(single_source(monolith, "supplier_id", "/api/json/organization/search_by_id/", false));
        records.push(single_source(monolith, "user_id", "/api/json/users/search_by_id/", false));
        records.push(single_source(master_data, "agenda_status_id", "/v1/agenda_status/search_by_id/", true));
        records.push(single_source(master_data, "expert_conclusion_id", "/v1/expert_conclusion_type/search_by_id/", true));
        records.push(single_source(master_data, "pricing_method_id", "/v1/price_analysis_method/search_by_id/", true));
        records.push(single_source(master_data, "pricing_organization_unit_id", "/v1/pricing_unit/search_by_id/", true));
        records.push(single_source(monolith, "okved2_id", "/api/json/okved2/search_by_id/", false));
        records.push(single_source(monolith, "okpd2_id", "/api/json/okpd2/search_by_id/", false));
        records.push(single_source(monolith, "okato_id", "/api/json/okato/search_by_id/", false));
        IdLookupCfg { records }
    }

    /// Поля всех источников по порядку.
    pub fn fields(&self) -> (r: Vec<String>)
        ensures
            strings_view(r@) == source_fields(self.records@),
    {
        let mut out: Vec<String> = Vec::new();
        let mut i: usize = 0;
        while i < self.records.len()
            invariant
                i <= self.records@.len(),
                strings_view(out@) == source_fields(self.records@.take(i as int)),
            decreases self.records.len() - i,
        {
            let reps = &self.records[i].replacements;
            let ghost before = strings_view(out@);
            let mut j: usize = 0;
            while j < reps.len()
                invariant
                    j <= reps@.len(),
                    strings_view(out@) == before + reps@.take(j as int).map_values(|s: IdLookupSource| s.replace_field@),
                decreases reps.len() - j,
            {
                let ghost b2 = out@;
                out.push(crate::text::copy_string(&reps[j].replace_field));
                assert(reps@.take(j + 1) =~= reps@.take(j as int).push(reps@[j as int]));
                assert(strings_view(out@) =~= strings_view(b2).push(reps@[j as int].replace_field@));
                assert(strings_view(out@) =~= before + reps@.take(j + 1).map_values(|s: IdLookupSource| s.replace_field@));
                j = j + 1;
            }
            proof {
                assert(reps@.take(reps@.len() as int) =~= reps@);
                assert(self.records@.take(i + 1).drop_last() =~= self.records@.take(i as int));
            }
            i = i + 1;
        }
        assert(self.records@.take(self.records@.len() as int) =~= self.records@);
        out
    }
}


/// Запись справочника для значения перечисления с числом `disc` и записью `text`.
pub open spec fn enum_record_matches(e: (LookupRecordId, LookupRecordData), disc: i16, text: Seq<char>) -> bool {
    &&& e.0 == (LookupRecordId { id: disc as i32, second_id: 0 })
    &&& e.1.id == disc as i32
    &&& e.1.parent_id == 0
    &&& e.1.text@ == text
    &&& e.1.code@.len() == 0
    &&& e.1.dictionary_kind == DictionaryKind::Unknown
}

/// Справочные записи значений перечисления: по числу значения в базе --
/// его запись для показа.
pub fn get_enum_display_values<T: DisplayText>(discriminants: &Vec<(T, i16)>) -> (r: Vec<(LookupRecordId, LookupRecordData)>)
    ensures
        r@.len() == discriminants@.len(),
        forall|i: int| 0 <= i < r@.len() ==> #[trigger] enum_record_matches(
            r@[i],
            discriminants@[i].1,
            discriminants@[i].0.display_spec(),
        ),
{
    let mut out: Vec<(LookupRecordId, LookupRecordData)> = Vec::new();
    let mut i: usize = 0;
    while i < discriminants.len()
        invariant
            i <= discriminants@.len(),
            out@.len() == i,
            forall|k: int| 0 <= k < i ==> #[trigger] enum_record_matches(
                out@[k],
                discriminants@[k].1,
                discriminants@[k].0.display_spec(),
            ),
        decreases discriminants.len() - i,
    {
        let disc = discriminants[i].1;
        let text = discriminants[i].0.display_string();
        let data = LookupRecordData {
            dictionary_kind: DictionaryKind::Unknown,
            id: disc as i32,
            parent_id: 0,
            text,
            code: String::new(),
        };
        out.push((LookupRecordId::with_id(disc as i32), data));
        i = i + 1;
    }
    out
}

} // verus!
