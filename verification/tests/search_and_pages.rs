use asez2_shared_db::date_time::AsezTimestamp;
use asez2_shared_db::db_item::query::{chunk_ranges, paginated_page, PageRows, ReturningEither, WithCount};
use asez2_shared_db::db_item::selection::filters::{Filter, FilterTree, SelectionKind};
use asez2_shared_db::essential::directory::MasterDataError;
use asez2_shared_db::essential::external_id::{Id, SimpleExtId};
use asez2_shared_db::essential::lookup::{DictionaryKind, IdLookupSource, IdLookupSourceHost, LookupRecordData, LookupRecordId};
use asez2_shared_db::essential::monolith::{dictionary_entries, monolith_updates_url};
use asez2_shared_db::essential::external_id::SimpleExtRecord;
use asez2_shared_db::essential::search_by_id::{
    lookup_ids, lookup_request, search_by_id_entries, search_by_id_result, search_by_id_url,
};
use asez2_shared_db::essential::status::{status_history_text, StatusHistoryEntry};
use asez2_shared_db::value::Value;

#[test]
fn search_by_id_url_joins_dictionary_path() {
    let url = search_by_id_url("http://monolith.local/base/", "okved2").unwrap();
    assert_eq!(url, "http://monolith.local/api/json/okved2/search_by_id/");
    assert!(search_by_id_url("not a url", "okved2").is_err());
}

#[test]
fn search_by_id_result_keeps_requested_ids_in_order() {
    let entries = vec![(647, "a".to_string()), (1, "b".to_string()), (442, "c".to_string())];
    let found = search_by_id_result(&vec![442, 647], "s", entries).unwrap();
    assert_eq!(found, vec![(647, "a".to_string()), (442, "c".to_string())]);
}

#[test]
fn search_by_id_result_rejects_non_success_status() {
    let err = search_by_id_result(&vec![1], "e", vec![(1, "x".to_string())]).unwrap_err();
    assert_eq!(err, "search_by_id API returned non-success status");
}

#[test]
fn search_by_id_result_without_ids_is_empty() {
    assert_eq!(search_by_id_result(&vec![], "e", vec![(1, "x".to_string())]).unwrap(), vec![]);
}

#[test]
fn lookup_ids_turn_numbers_into_strings_for_string_hosts() {
    let values = vec![Id::integer(5), Id::str("x7".to_string())];
    let as_strings = lookup_ids(&values, false);
    assert_eq!(as_strings, vec![Id::str("5".to_string()), Id::str("x7".to_string())]);
    let as_is = lookup_ids(&values, true);
    assert_eq!(as_is, values);
}

#[test]
fn lookup_request_joins_host_and_path() {
    let host = IdLookupSourceHost { host: "http://md.local/".to_string(), replacements: vec![], is_int: false };
    let source = IdLookupSource { replace_field: "user_id".to_string(), path: "/api/json/users/search_by_id/".to_string() };
    let (url, ids) = lookup_request(&host, &source, &vec![Id::integer(3)]).unwrap();
    assert_eq!(url, "http://md.local/api/json/users/search_by_id/");
    assert_eq!(ids, vec![Id { id: SimpleExtId::Str("3".to_string()) }]);
}

#[test]
fn chunk_ranges_cover_items_in_order() {
    assert_eq!(chunk_ranges(5, 2), vec![(0, 2), (2, 4), (4, 5)]);
    assert_eq!(chunk_ranges(4, 2), vec![(0, 2), (2, 4)]);
    assert_eq!(chunk_ranges(0, 3), vec![]);
}

#[test]
fn returning_either_accumulates() {
    let mut count: ReturningEither<i32> = ReturningEither::new(false);
    count.absorb(3, vec![]);
    count.absorb(4, vec![]);
    assert!(matches!(count, ReturningEither::RowsAffected(7)));
    let mut rows: ReturningEither<i32> = ReturningEither::new(true);
    rows.absorb(0, vec![1, 2]);
    rows.absorb(0, vec![3]);
    assert!(matches!(rows, ReturningEither::Items(ref v) if v == &vec![1, 2, 3]));
}

#[test]
fn page_without_counting_has_no_total() {
    let page = paginated_page(PageRows::Plain(vec![1, 2]), 0);
    assert_eq!(page.items, vec![1, 2]);
    assert_eq!(page.total, None);
    let counted = paginated_page(PageRows::Counted(vec![WithCount::new(5, 42)]), 10);
    assert_eq!(counted.items, vec![5]);
    assert_eq!(counted.total, Some(42));
    let empty_later: asez2_shared_db::db_item::query::Paginated<i32> = paginated_page(PageRows::Counted(vec![]), 10);
    assert_eq!(empty_later.total, None);
}

fn status(id: i32, parent_id: i32, text: &str) -> LookupRecordData {
    LookupRecordData { id, parent_id, text: text.to_string(), ..Default::default() }
}

#[test]
fn status_history_lines() {
    let map: ahash::AHashMap<(i32, i32), LookupRecordData> =
        vec![((5, 4), status(5, 0, "Черновик")), ((7, 4), status(7, 5, "На согласовании"))].into_iter().collect();
    let entries = vec![
        StatusHistoryEntry { changed_at: AsezTimestamp::try_from_text("08.08.2025 22:30:00").unwrap(), status_id: 5 },
        StatusHistoryEntry { changed_at: AsezTimestamp::try_from_text("09.08.2025 08:00:00").unwrap(), status_id: 7 },
    ];
    assert_eq!(
        status_history_text(&entries, &map, 4),
        "09.08.2025 01:30:00 Черновик\n09.08.2025 11:00:00 Черновик. На согласовании"
    );
}

#[test]
fn group_of_empty_trees_writes_nothing() {
    let mut sql = String::new();
    let n = FilterTree::And(vec![FilterTree::Empty, FilterTree::Or(vec![])]).build_sql(&mut sql, 1).unwrap();
    assert_eq!(n, 1);
    assert_eq!(sql, "");
}

#[test]
fn rejected_filter_leaves_text_unchanged() {
    let f = Filter {
        field: "habitat".to_string(),
        kind: SelectionKind::Equals,
        values: vec![Value::Null, Value::String("1".into()), Value::String("2".into())],
    };
    let mut sql = "SELECT".to_string();
    assert!(f.add_to_string(&mut sql, 1).is_err());
    assert_eq!(sql, "SELECT");
    let g = Filter { field: "age".to_string(), kind: SelectionKind::GreaterEqual, values: vec![Value::Null] };
    assert!(g.add_to_string(&mut sql, 1).is_err());
    assert_eq!(sql, "SELECT");
}

#[test]
fn unknown_directory_error_message() {
    let e = MasterDataError::InternalError("x".to_string());
    assert_eq!(e.message(), "x");
}

#[test]
fn monolith_updates_url_joins_path() {
    assert_eq!(
        monolith_updates_url("http://monolith.local/x/", 0).unwrap(),
        "http://monolith.local/api/json/master_data/get_updates/0/"
    );
}

#[test]
fn dictionary_entries_keep_order_and_keys() {
    let records = vec![
        SimpleExtRecord { id: SimpleExtId::Int(3), text: "a".to_string(), scheme_id: SimpleExtId::Int(4), ..Default::default() },
        SimpleExtRecord { id: SimpleExtId::Str("5".to_string()), text: "b".to_string(), ..Default::default() },
    ];
    let status = dictionary_entries(DictionaryKind::Status, &records);
    assert_eq!(status[0].0, LookupRecordId::new(3, 4));
    assert_eq!(status[1].0, LookupRecordId::new(5, 0));
    let plain = dictionary_entries(DictionaryKind::Category, &records);
    assert_eq!(plain[0].0, LookupRecordId::with_id(3));
    assert_eq!(plain[1].1.text, "b");
}

#[test]
fn search_by_id_entries_key_by_id() {
    let records = vec![SimpleExtRecord {
        id: SimpleExtId::Str("12".to_string()),
        text: "t".to_string(),
        code: SimpleExtId::Int(7),
        ..Default::default()
    }];
    let e = search_by_id_entries(&records);
    assert_eq!(e[0].0, LookupRecordId::with_id(12));
    assert_eq!(e[0].1.code, "7");
    assert_eq!(e[0].1.dictionary_kind, DictionaryKind::Unknown);
}
