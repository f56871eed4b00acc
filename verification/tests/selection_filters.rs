use asez2_shared_db::db_item::selection::filters::{
    convert_filters_equal_to_value, convert_jsonpath_filters, convert_to_jsonpath, Filter, FilterTrait,
    FilterTree, SelectionKind,
};
use asez2_shared_db::value::Value;

#[derive(Debug)]
struct TestFilter(SelectionKind, Vec<i32>);

impl FilterTrait for TestFilter {
    type ValueType = i32;

    fn kind(&self) -> SelectionKind {
        self.0
    }

    fn values(&self) -> &[Self::ValueType] {
        &self.1
    }
}

fn ints(v: &[i64]) -> Vec<Value> {
    v.iter().map(|x| Value::Int(*x)).collect()
}

fn strs(v: &[&str]) -> Vec<Value> {
    v.iter().map(|x| Value::String(x.to_string())).collect()
}

#[test]
fn single_value_filters() {
    assert_eq!(
        convert_filters_equal_to_value(&[TestFilter(SelectionKind::Equals, vec![10])]).unwrap(),
        &10
    );
}

#[test]
fn single_value_filters_errors() {
    let many_filters: &[TestFilter] =
        &[TestFilter(SelectionKind::Equals, vec![0]), TestFilter(SelectionKind::Equals, vec![1])];
    let no_values: &[TestFilter] = &[TestFilter(SelectionKind::Equals, vec![])];
    let many_values: &[TestFilter] = &[TestFilter(SelectionKind::Equals, vec![0, 1])];
    let invalid_kind: &[TestFilter] = &[TestFilter(SelectionKind::NotEquals, vec![1])];

    for fs in [many_filters, no_values, many_values, invalid_kind] {
        assert!(convert_filters_equal_to_value(fs).is_err(), "{fs:?}");
    }
}

#[test]
fn test_simplest_filter_tree() {
    let f: FilterTree = FilterTree::filter(Filter {
        field: "id".to_string(),
        kind: SelectionKind::In,
        values: vec![Value::Int(35), Value::Int(93), Value::Int(-3)],
    });

    assert_eq!(f, FilterTree::Filter(Filter::in_any("id", ints(&[35, 93, -3]))));

    let mut sql = String::new();
    let n = f.build_sql(&mut sql, 1).unwrap();

    assert_eq!(n, 2);
    assert_eq!(&sql, " id=ANY($1)")
}

#[test]
fn test_simple_and_filter_tree() {
    let f1 = Filter::in_any("id", ints(&[35, 93, -3]));
    let f2 = Filter::in_any("name", strs(&["bob", "amy"]));
    let f = FilterTree::and_from_list(vec![f1, f2]);

    let mut sql = String::new();
    let n = f.build_sql(&mut sql, 1).unwrap();

    assert_eq!(n, 3);
    assert_eq!(&sql, " ( id=ANY($1) AND name=ANY($2))")
}

#[test]
fn test_simple_or_filter_tree() {
    let f1 = Filter::in_any("id", ints(&[35, 93, -3]));
    let f2 = Filter::in_any("name", strs(&["bob", "amy"]));
    let f3 = Filter::in_any("kind", vec![Value::Null]);
    let f = FilterTree::or_from_list(vec![f1, f2, f3]);

    let mut sql = String::new();
    let n = f.build_sql(&mut sql, 1).unwrap();

    assert_eq!(n, 3);
    assert_eq!(&sql, " ( id=ANY($1) OR name=ANY($2) OR kind IS NULL)")
}

#[test]
fn test_and_and_or() {
    let f1 = Filter::in_any("id", ints(&[35, 93, -3]));
    let f2 = Filter::in_any("name", strs(&["bob", "amy"]));
    let and_tree = FilterTree::and_from_list(vec![f1, f2]);

    let f1 = Filter::in_any("id", ints(&[35, 93, -3]));
    let f2 = Filter::in_any("name", strs(&["bob", "amy"]));
    let f3 = Filter::in_any("kind", vec![Value::Null]);
    let or_tree = FilterTree::or_from_list(vec![f1, f2, f3]);

    let full_tree = and_tree.and(or_tree);

    let mut sql = String::new();
    let n = full_tree.build_sql(&mut sql, 1).unwrap();

    assert_eq!(n, 5, "{}", sql);
    assert_eq!(
        &sql,
        " ( \
( id=ANY($1) AND name=ANY($2)) \
AND \
( id=ANY($3) OR name=ANY($4) OR kind IS NULL))"
    );
}

#[test]
fn test_and_or_or() {
    let f1 = Filter::in_any("id", ints(&[35, 93, -3]));
    let f2 = Filter::in_any("name", strs(&["bob", "amy"]));
    let and_tree = FilterTree::and_from_list(vec![f1, f2]);

    let f1 = Filter::in_any("id", ints(&[35, 93, -3]));
    let f2 = Filter::in_any("name", strs(&["bob", "amy"]));
    let f3 = Filter::in_any("kind", vec![Value::Int(1), Value::Int(2), Value::Null]);
    let or_tree = FilterTree::or_from_list(vec![f1, f2, f3]);

    let full_tree = and_tree.or(or_tree);

    let mut sql = String::new();
    let n = full_tree.build_sql(&mut sql, 1).unwrap();

    assert_eq!(n, 6);
    assert_eq!(
        &sql,
        " ( \
( id=ANY($1) AND name=ANY($2)) \
OR \
( id=ANY($3) OR name=ANY($4) OR (kind=ANY($5) OR kind IS NULL)))"
    );
}

#[test]
fn test_complex() {
    let f1 = Filter::in_any("id", ints(&[35, 93, -3]));
    let f2 = Filter::in_any("name", strs(&["bob", "amy"]));
    let and_tree = FilterTree::and_from_list(vec![f1, f2]);

    let f1 = Filter::in_any("id", ints(&[35, 93, -3]));
    let f2 = Filter::in_any("name", strs(&["bob", "amy"]));
    let f3 = Filter::in_any("kind", vec![Value::Null]);
    let or_tree = FilterTree::or_from_list(vec![f1, f2, f3]);

    let f1 = Filter::eq("colour", Value::String("green".to_string()));
    let f2 = Filter::eq("colour", Value::String("blue".to_string()));
    let f3 = Filter::eq("colour", Value::String("yellow".to_string()));
    let or_tree2 = FilterTree::or_from_list(vec![f1, f2, f3]);

    let f1 = Filter::eq("has_wheels", Value::Bool(true));
    let f2 = Filter::eq("has_wings", Value::Bool(true));
    let or_tree3 = FilterTree::or_from_list(vec![f1, f2]);

    let f1 = Filter::between("price", Value::Int(1), Value::Int(1000));
    let f2 = Filter::not_contains("flavour", Value::String("strawberry".to_string()));
    let and_tree2 = FilterTree::and_from_list(vec![f1, f2]);

    let final_tree = and_tree2.or(or_tree2.or(or_tree3).or(and_tree.and(or_tree)));

    let mut sql = String::new();
    let n = final_tree.build_sql(&mut sql, 1).unwrap();

    assert_eq!(n, 13);
    assert_eq!(
        &sql,
        " ( \
( price BETWEEN $1 AND $2 AND flavour !~$3) \
OR \
( ( ( colour =$4 OR colour =$5 OR colour =$6) \
OR \
( has_wheels =$7 OR has_wings =$8)) \
OR \
( ( id=ANY($9) AND name=ANY($10)) \
AND \
( id=ANY($11) OR name=ANY($12) OR kind IS NULL))))"
    );
}

#[test]
fn to_jsonpath_filter() {
    for (test_filter, exp_value) in [
        (TestFilter(SelectionKind::Equals, vec![0]), "$.outer_field ? (@.inner_field == 0)"),
        (TestFilter(SelectionKind::GreaterEqual, vec![0]), "$.outer_field ? (@.inner_field >= 0)"),
        (
            TestFilter(SelectionKind::Between, vec![0, 10]),
            "$.outer_field ? (0 <= @.inner_field && @.inner_field <= 10)",
        ),
        (
            TestFilter(SelectionKind::In, vec![0, 1, 2]),
            "$.outer_field ? (@.inner_field == 0 || @.inner_field == 1 || @.inner_field == 2)",
        ),
        (
            TestFilter(SelectionKind::NotIn, vec![0, 1, 2]),
            "$.outer_field ? (@.inner_field != 0 && @.inner_field != 1 && @.inner_field != 2)",
        ),
    ] {
        let filter =
            convert_to_jsonpath("db_field", "$.outer_field", "inner_field", &test_filter).expect("no error");

        assert_eq!(&filter.field, "db_field");
        assert_eq!(filter.kind, SelectionKind::Jsonpath);
        assert_eq!(&filter.values, &[Value::from_text(exp_value)]);
    }
}

#[test]
fn to_jsonpath_filters() {
    let actual_filter = convert_jsonpath_filters(
        "db_field",
        "$.outer_field",
        "inner_field",
        &[TestFilter(SelectionKind::Equals, vec![0]), TestFilter(SelectionKind::In, vec![10, 20, 30])],
    )
    .expect("no error");

    let expected_filter = &[
        Filter {
            field: "db_field".to_string(),
            kind: SelectionKind::Jsonpath,
            values: vec![Value::from_text("$.outer_field ? (@.inner_field == 0)")],
        },
        Filter {
            field: "db_field".to_string(),
            kind: SelectionKind::Jsonpath,
            values: vec![Value::from_text(
                "$.outer_field ? (@.inner_field == 10 || @.inner_field == 20 || @.inner_field == 30)",
            )],
        },
    ];

    assert_eq!(&actual_filter, expected_filter);
}

#[test]
fn jsonpath_filters_of_empty_list_are_empty() {
    let filters: Vec<Filter> = Vec::new();
    let converted = convert_jsonpath_filters("data", "$.items[*]", "id", &filters).expect("no error");
    assert!(converted.is_empty());
}
