use ahash::AHashSet;
use asez2_shared_db::date_time::{AsezDate, AsezTimestamp};
use asez2_shared_db::db_item::selection::filters::{BindValue, Filter, FilterTree, SelectionKind};
use asez2_shared_db::value::Value;

fn names(v: &[&str]) -> AHashSet<String> {
    v.iter().map(|x| x.to_string()).collect()
}

fn sql(t: &FilterTree) -> String {
    let mut s = String::new();
    t.build_sql(&mut s, 1).unwrap();
    s
}

fn sample() -> FilterTree {
    Filter::eq("id", Value::Int(1))
        .bitand(Filter::in_any("name", vec![Value::String("bob".into())]))
        .or(FilterTree::filter(Filter::eq("id", Value::Int(2))))
}

#[test]
fn number_matching() {
    let eq = Filter::with_values("x", SelectionKind::Equals, vec![Value::Int(5), Value::String("17".into())]);
    assert!(eq.matches_number(5));
    assert!(eq.matches_number(17));
    assert!(!eq.matches_number(6));
    let contains = Filter::with_values("x", SelectionKind::Contains, vec![Value::Int(23), Value::String("-9".into())]);
    assert!(contains.matches_number(1234));
    assert!(contains.matches_number(-95));
    assert!(!contains.matches_number(32));
    let less = Filter::with_value("x", SelectionKind::Less, Value::Int(5));
    assert!(!less.matches_number(5));
}

#[test]
fn date_matching() {
    let day = |s: &str| AsezDate::try_from_db_format(s).unwrap();
    let noon = AsezTimestamp::try_from_db_format("2024-03-05 12:00:00").unwrap();
    let eq = Filter::with_values("d", SelectionKind::Equals, vec![Value::Int(1), Value::Date(day("2024-03-05"))]);
    assert!(eq.matches_date(&noon));
    let between = Filter::between("d", Value::Date(day("2024-03-01")), Value::Timestamp(day("2024-03-05").to_timestamp()));
    // BETWEEN включает обе границы.
    assert!(between.matches_date(&noon));
    assert!(!between.matches_date(&AsezTimestamp::try_from_db_format("2024-03-06 00:00:00").unwrap()));
    let wrong = Filter::between("d", Value::Int(1), Value::Date(day("2024-03-05")));
    assert!(!wrong.matches_date(&noon));
    assert!(!Filter::with_value("d", SelectionKind::Less, Value::Date(day("2024-03-05"))).matches_date(&noon));
}

#[test]
fn split_keeps_every_filter() {
    let (restricted, rest) = sample().split_by_fields(&names(&["name"]));
    let a = restricted.into_filters();
    let b = rest.into_filters();
    assert_eq!(a.len(), 1);
    assert_eq!(a[0].field, "name");
    assert_eq!(b.len(), 2);
    assert!(b.iter().all(|f| f.field == "id"));
}

#[test]
fn remove_returns_field_filters() {
    let mut t = sample();
    let removed = t.remove_by_field("id");
    assert_eq!(removed.len(), 2);
    assert!(removed.iter().all(|f| f.field == "id"));
    assert!(!t.finds_field("id"));
    assert!(t.finds_field("name"));
    assert_eq!(sql(&t), " ( ( name=ANY($1)))");
}

#[test]
fn purge_keeps_named_fields() {
    let mut t = sample();
    t.purge_by_fields(&names(&["id"]));
    let left = t.slice();
    assert_eq!(left.len(), 2);
    assert!(left.iter().all(|f| f.field == "id"));
}

#[test]
fn push_and_expand() {
    let mut t = FilterTree::Empty;
    assert!(t.is_empty());
    t.push_filter(Filter::eq("a", Value::Int(1)));
    t.push_filter(Filter::eq("b", Value::Int(2)));
    assert_eq!(sql(&t), " ( a =$1 AND b =$2)");
    assert!(t.expand_filter("b", SelectionKind::Equals, &vec![Value::Int(3)]));
    assert!(!t.expand_filter("c", SelectionKind::Equals, &vec![Value::Int(3)]));
    assert_eq!(t.slice()[1].values, vec![Value::Int(2), Value::Int(3)]);
}

#[test]
fn rename_and_bind() {
    let mut t = sample();
    t.rename_field("name", "full_name");
    assert!(t.finds_field("full_name"));
    assert!(!t.finds_field("name"));
    let binds = t.bind_values();
    assert_eq!(binds.len(), 3);
    match &binds[1] {
        BindValue::Array(_) => {},
        other => panic!("unexpected {:?}", other),
    }
    match &binds[0] {
        BindValue::Value(Value::Int(1)) => {},
        other => panic!("unexpected {:?}", other),
    }
}
