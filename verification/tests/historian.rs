use asez2_shared_db::date_time::{AsezDate, AsezTimestamp};
use asez2_shared_db::db_item::traits::Field;
use asez2_shared_db::db_item::selection::filters::SelectionKind;
use asez2_shared_db::db_item::table::DbTable;
use asez2_shared_db::essential::historian::{
    completion_fields, crosscheck, make_select_by_uuids, with_insert_ctx, with_update_ctx, missing_rows_message, CrossCheckResult, HistorianMode,
    NewFieldChange, ProcessUpsert, UpdateCtx,
};
use asez2_shared_db::value::Value;

#[derive(Debug, Clone, PartialEq)]
struct Hedgehog {
    uuid: u128,
    favourite_food: String,
    born_on: AsezDate,
    died_on: Option<AsezDate>,
    changed_by: i32,
}

const FIELDS: &[&str] = &["uuid", "favourite_food", "born_on", "died_on", "changed_by"];

impl Hedgehog {
    fn values(&self) -> Vec<(&'static str, Value)> {
        vec![
            ("uuid", Value::Uuid(self.uuid)),
            ("favourite_food", Value::String(self.favourite_food.clone())),
            ("born_on", Value::Date(self.born_on)),
            ("died_on", self.died_on.map(Value::Date).unwrap_or(Value::Null)),
            ("changed_by", Value::Int(self.changed_by as i64)),
        ]
    }
}

impl ProcessUpsert for Hedgehog {
    fn table_name() -> &'static str {
        "hedgehogs"
    }

    fn ctx_update_fields() -> Vec<String> {
        vec!["changed_by".to_string()]
    }

    fn record_uuid(&self) -> u128 {
        self.uuid
    }

    fn differing_fields(&self, other: &Self) -> Vec<Field> {
        self.values()
            .into_iter()
            .zip(other.values())
            .filter(|(a, b)| a.1 != b.1)
            .map(|(_, (name, v))| Field::new(name, Some(v)))
            .collect()
    }

    fn fields_with_values(&self) -> Vec<Field> {
        self.values().into_iter().map(|(name, v)| Field::new(name, Some(v))).collect()
    }

    fn apply_update_ctx(&mut self, ctx: &UpdateCtx) {
        self.changed_by = ctx.user_id;
    }

    fn apply_insert_ctx(&mut self, ctx: &UpdateCtx) {
        self.changed_by = ctx.user_id;
    }
}

fn uuid(s: &str) -> u128 {
    uuid::Uuid::parse_str(s).unwrap().as_u128()
}

fn day(s: &str) -> AsezDate {
    AsezDate::try_from_db_format(s).unwrap()
}

fn hog(id: &str, food: &str, born: &str, died: Option<&str>, changed_by: i32) -> Hedgehog {
    Hedgehog {
        uuid: uuid(id),
        favourite_food: food.to_string(),
        born_on: day(born),
        died_on: died.map(day),
        changed_by,
    }
}

fn original_hedgehogs() -> Vec<Hedgehog> {
    vec![
        hog("12345678-1234-1234-1234-123412341234", "Caterpillars", "2000-01-01", None, 0),
        hog("22345678-1234-1234-1234-123412341234", "Apples", "2000-02-01", None, 0),
        hog("32345678-1234-1234-1234-123412341234", "Snakes", "2000-03-01", None, 0),
        hog("42345678-1234-1234-1234-123412341234", "Engine oil", "2000-04-01", None, 0),
    ]
}

fn new_hedgehogs(changed_by: i32) -> Vec<Hedgehog> {
    vec![
        hog("12345678-1234-1234-1234-123412341234", "Caterpillars", "2000-01-01", None, 0),
        hog("22345678-1234-1234-1234-123412341234", "Caterpillars", "2000-02-01", None, changed_by),
        hog("32345678-1234-1234-1234-123412341234", "Bananas", "2000-03-01", None, changed_by),
        hog("42345678-1234-1234-1234-123412341234", "Engine oil", "2000-04-01", Some("2001-04-01"), changed_by),
    ]
}

fn ctx(user_id: i32) -> UpdateCtx {
    UpdateCtx { user_id, timestamp: AsezTimestamp::default(), is_external: false }
}

fn fields() -> Vec<String> {
    FIELDS.iter().map(|f| f.to_string()).collect()
}

#[test]
fn test_hedgehog_crosscheck_same() {
    let old_hogs = original_hedgehogs();
    let new_hogs = old_hogs.clone();
    let CrossCheckResult { changes, new_uuids: orphans, .. } = crosscheck(old_hogs, new_hogs, &fields(), &ctx(0));
    assert!(changes.is_empty());
    assert!(orphans.is_empty());
}

#[test]
fn test_hedgehog_crosscheck1() {
    let old_hogs = original_hedgehogs();
    let new_hogs = new_hedgehogs(0);
    assert_ne!(new_hogs, old_hogs);
    let CrossCheckResult { changes, new_uuids: orphans, .. } = crosscheck(old_hogs, new_hogs, &fields(), &ctx(0));
    assert!(orphans.is_empty());
    assert_eq!(changes.len(), 3, "{:#?}", changes);
    assert_eq!(
        changes,
        vec![
            NewFieldChange {
                record_uuid: uuid("22345678-1234-1234-1234-123412341234"),
                table_name: "hedgehogs".to_string(),
                field_name: "favourite_food".to_string(),
                field_value: Some(Value::from_text("Caterpillars")),
            },
            NewFieldChange {
                record_uuid: uuid("32345678-1234-1234-1234-123412341234"),
                table_name: "hedgehogs".to_string(),
                field_name: "favourite_food".to_string(),
                field_value: Some(Value::from_text("Bananas")),
            },
            NewFieldChange {
                record_uuid: uuid("42345678-1234-1234-1234-123412341234"),
                table_name: "hedgehogs".to_string(),
                field_name: "died_on".to_string(),
                field_value: Some(Value::Date(day("2001-04-01"))),
            },
        ]
    );
}

#[test]
fn test_hedgehog_crosscheck2() {
    let old_hogs = vec![];
    let new_hogs = vec![
        hog("12345678-1234-1234-1234-123412341234", "Caterpillars", "2000-01-01", None, 0),
        hog("22345678-1234-1234-1234-123412341234", "Caterpillars", "2000-02-01", None, 0),
        hog("32345678-1234-1234-1234-123412341234", "Bananas", "2000-03-01", None, 0),
        hog("42345678-1234-1234-1234-123412341234", "Engine Oil", "2000-04-01", Some("2001-04-01"), 0),
    ];
    let CrossCheckResult { changes, new_uuids: orphans, .. } = crosscheck(old_hogs, new_hogs, &fields(), &ctx(0));
    // All of them have changed.
    assert_eq!(orphans.len(), 4);
    assert_eq!(changes.len(), 16, "{changes:#?}");
}

#[test]
fn crosscheck_partitions_items() {
    let old_hogs = original_hedgehogs();
    let mut new_hogs = new_hedgehogs(7);
    new_hogs.push(hog("52345678-1234-1234-1234-123412341234", "Worms", "2003-01-01", None, 0));
    let r = crosscheck(old_hogs, new_hogs, &fields(), &ctx(7));
    assert_eq!(r.unchanged_items.len(), 1);
    assert_eq!(r.items.len(), 4);
    assert_eq!(r.old_items.len(), 3);
    assert_eq!(r.new_uuids, vec![uuid("52345678-1234-1234-1234-123412341234")]);
    assert!(r.items.iter().all(|h| h.changed_by == 7));
    // Только отслеживаемые поля попадают в изменения.
    let r = crosscheck(original_hedgehogs(), new_hedgehogs(0), &vec!["died_on".to_string()], &ctx(0));
    assert_eq!(r.changes.len(), 1);
    assert_eq!(r.unchanged_items.len(), 3);
}

#[test]
fn update_ctx_now() {
    let c = UpdateCtx::new(42);
    assert_eq!(c.user_id, 42);
    assert!(!c.is_external);
    assert_eq!(c.timestamp.hms_nano().3 % 1000, 0);
}

fn hedgehog_table() -> DbTable {
    let names: Vec<String> = FIELDS.iter().map(|f| f.to_string()).collect();
    DbTable {
        table: "hedgehogs".to_string(),
        fields: names.clone(),
        primary_keys: vec!["uuid".to_string()],
        primary_key_indices: vec![0],
        insert_fields: names.clone(),
        update_fields: names[1..].to_vec(),
        no_update_indices: vec![],
        tolerated: vec![],
    }
}

#[test]
fn select_by_uuids() {
    let hogs = original_hedgehogs();
    let select = make_select_by_uuids(&hogs, &vec!["favourite_food".to_string(), "uuid".to_string()], &hedgehog_table());
    assert_eq!(select.field_list, vec!["favourite_food".to_string(), "uuid".to_string()]);
    let filters = select.filter_list.slice();
    assert_eq!(filters.len(), 1);
    assert_eq!(filters[0].field, "uuid");
    assert_eq!(filters[0].kind, SelectionKind::In);
    assert_eq!(filters[0].values, hogs.iter().map(|h| Value::Uuid(h.uuid)).collect::<Vec<_>>());
    let select = make_select_by_uuids(&hogs, &vec!["died_on".to_string()], &hedgehog_table());
    assert_eq!(select.field_list, vec!["died_on".to_string(), "uuid".to_string()]);
}

#[test]
fn missing_rows() {
    let msg = missing_rows_message(&vec![uuid("12345678-1234-1234-1234-123412341234"), uuid("22345678-1234-1234-1234-123412341234")]);
    assert_eq!(
        msg,
        "Строки с UUID 12345678-1234-1234-1234-123412341234, 22345678-1234-1234-1234-123412341234 не существует."
    );
}

#[test]
fn completion_field_lists() {
    let f = vec!["favourite_food".to_string()];
    let ctx = vec!["changed_by".to_string()];
    assert_eq!(completion_fields(&f, &ctx, HistorianMode::Insert), f);
    assert_eq!(
        completion_fields(&f, &ctx, HistorianMode::Update),
        vec!["favourite_food".to_string(), "changed_by".to_string()]
    );
    assert_eq!(completion_fields(&f, &ctx, HistorianMode::Upsert).len(), 2);
}

#[test]
fn crosscheck_applies_contexts_to_written_items() {
    let r = crosscheck(vec![], new_hedgehogs(0), &fields(), &ctx(9));
    assert!(r.items.iter().all(|h| h.changed_by == 9));
    assert_eq!(r.new_uuids.len(), r.items.len());
}

#[test]
fn contexts_fill_changed_by() {
    let h = hog("12345678-1234-1234-1234-123412341234", "Worms", "2000-01-01", None, 0);
    assert_eq!(with_update_ctx(h, &ctx(5)).changed_by, 5);
    let h = hog("12345678-1234-1234-1234-123412341234", "Worms", "2000-01-01", None, 0);
    assert_eq!(with_insert_ctx(h, &ctx(6)).changed_by, 6);
}
