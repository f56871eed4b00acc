use asez2_shared_db::db_item::selection::filters::{Filter, FilterTree, SelectionKind};
use asez2_shared_db::db_item::selection::{
    actual_fieldname, apply_tolerance_to_fields, apply_tolerance_to_select, map_field, FieldSortKind, FieldSortOrder,
    NullPosition, Select, SelectMaker,
};
use asez2_shared_db::db_item::table::DbTable;
use asez2_shared_db::value::{AsezArray, Value};

fn strings(v: &[&str]) -> Vec<String> {
    v.iter().map(|x| x.to_string()).collect()
}

fn animals() -> DbTable {
    DbTable {
        table: "animals".to_string(),
        fields: strings(&["id", "name", "weight_g", "habitat", "functionality_id_list"]),
        primary_keys: strings(&["id"]),
        primary_key_indices: vec![0],
        insert_fields: strings(&["id", "name", "weight_g", "habitat", "functionality_id_list"]),
        update_fields: strings(&["name", "weight_g", "habitat", "functionality_id_list"]),
        no_update_indices: vec![],
        tolerated: vec![],
    }
}

fn query(select: &Select) -> Result<String, String> {
    let t = animals();
    let maker = SelectMaker::start(select, &t).map_err(|e| e.message().clone())?;
    let maker = maker.stack().map_err(|e| e.message().clone())?;
    Ok(maker.query_string().to_string())
}

fn four_fields() -> Select {
    Select::with_fields(strings(&["id", "name", "weight_g", "habitat"]))
}

fn s(x: &str) -> Value {
    Value::String(x.to_string())
}

#[test]
fn test_check_select_1() {
    let t = animals();
    assert!(SelectMaker::check_select(&four_fields(), &t).is_ok());
}

#[test]
fn test_check_bad_select_1() {
    let t = animals();
    let sel = Select::with_fields(strings(&["id", "select", "*", "where", "uuid=52"]));
    let err = SelectMaker::check_select(&sel, &t).unwrap_err();
    assert_eq!(err.message(), "Field `select` not in table `animals`");
}

#[test]
fn test_check_bad_select_3() {
    let t = animals();
    let mut sel = Select::with_fields(strings(&["id"]));
    sel.filter_list = FilterTree::filter(Filter::in_any("jimmy tables", vec![]));
    let err = SelectMaker::check_select(&sel, &t).unwrap_err();
    assert_eq!(err.message(), "Filter field `jimmy tables` not in table `animals`");
}

#[test]
fn test_check_bad_select_4() {
    let t = animals();
    let mut sel = Select::with_fields(strings(&["id"]));
    sel.order_list = vec![
        FieldSortOrder { field: "update".to_string(), order: FieldSortKind::Asc, null_position: None },
        FieldSortOrder { field: "animals".to_string(), order: FieldSortKind::Desc, null_position: None },
    ];
    let err = SelectMaker::check_select(&sel, &t).unwrap_err();
    assert_eq!(err.message(), "Order key `update` not in table `animals`");
}

#[test]
fn skip_main_check_accepts_unknown_fields() {
    let t = animals();
    let mut sel = Select::with_fields(strings(&["nonsense"]));
    sel.skip_main_check = true;
    assert!(SelectMaker::check_select(&sel, &t).is_ok());
}

#[test]
fn test_array_overlaps_filter() {
    let select = Select::with_fields(strings(&["id", "name", "functionality_id_list"]))
        .array_overlaps("functionality_id_list", Value::Vec16(AsezArray(vec![1, 2])));
    assert_eq!(
        query(&select).unwrap(),
        "SELECT id,name,functionality_id_list FROM animals WHERE functionality_id_list &&$1"
    );
}

#[test]
fn test_array_overlaps_with_other_filters() {
    let select = Select::with_fields(strings(&["id", "name", "functionality_id_list"]))
        .array_overlaps("functionality_id_list", Value::Vec16(AsezArray(vec![1, 2])))
        .eq("name", s("test"))
        .eq("weight_g", Value::Int(100));
    let q = query(&select).unwrap();
    assert!(q.contains("functionality_id_list &&$1"), "SQL: {}", q);
    assert!(q.contains("name =$2"));
    assert!(q.contains("weight_g =$3"));
}

#[test]
fn test_check_select_with_null_ok() {
    let select = four_fields().add_expand_filter("habitat", SelectionKind::Equals, vec![Value::Null, s("1"), s("2")]);
    assert_eq!(
        query(&select).unwrap_err(),
        "`=` не поддерьивает больше одного значение. Найдено 3. (Фильтр на habitat: [Null, String(\"1\"), String(\"2\")])"
    );
}

#[test]
fn null_filters() {
    let cases = [
        (SelectionKind::Equals, vec![Value::Null], "SELECT id,name,weight_g,habitat FROM animals WHERE habitat IS NULL"),
        (
            SelectionKind::NotIn,
            vec![Value::Null, s("1"), s("2")],
            "SELECT id,name,weight_g,habitat FROM animals WHERE NOT ((habitat=ANY($1) OR habitat IS NOT NULL))",
        ),
        (SelectionKind::NotEquals, vec![Value::Null], "SELECT id,name,weight_g,habitat FROM animals WHERE habitat IS NOT NULL"),
        (
            SelectionKind::In,
            vec![Value::Null, s("1"), s("2")],
            "SELECT id,name,weight_g,habitat FROM animals WHERE (habitat=ANY($1) OR habitat IS NULL)",
        ),
        (SelectionKind::In, vec![Value::Null], "SELECT id,name,weight_g,habitat FROM animals WHERE habitat IS NULL"),
        (
            SelectionKind::NotIn,
            vec![Value::Null],
            "SELECT id,name,weight_g,habitat FROM animals WHERE NOT (habitat IS NOT NULL)",
        ),
    ];
    for (kind, values, expected) in cases {
        let select = four_fields().add_expand_filter("habitat", kind, values);
        assert_eq!(query(&select).unwrap(), expected);
    }
}

#[test]
fn null_filters_unsupported_kinds() {
    for kind in [SelectionKind::Contains, SelectionKind::GreaterEqual] {
        let select = four_fields().add_expand_filter("habitat", kind, vec![Value::Null]);
        assert!(SelectMaker::check_select(&select, &animals()).is_ok());
        assert!(query(&select).is_err());
    }
}

#[test]
fn test_questionable_select_1() {
    let mut select = four_fields();
    select.filter_list = FilterTree::filter(Filter::not_eq("weight_g", s("delete from animals")));
    assert_eq!(query(&select).unwrap(), "SELECT id,name,weight_g,habitat FROM animals WHERE weight_g !=$1");
}

#[test]
fn test_order_select_1() {
    let select = four_fields()
        .add_expand_filter("weight_g", SelectionKind::NotEquals, vec![s("delete from animals")])
        .add_replace_order("weight_g", FieldSortKind::Asc);
    assert_eq!(
        query(&select).unwrap(),
        "SELECT id,name,weight_g,habitat FROM animals WHERE weight_g !=$1 ORDER BY weight_g ASC"
    );
}

#[test]
fn order_select_with_null_possition() {
    let select = four_fields()
        .add_expand_filter("weight_g", SelectionKind::NotEquals, vec![s("delete from animals")])
        .add_replace_order("weight_g", FieldSortKind::Asc)
        .add_replace_order("habitat", FieldSortKind::Desc)
        .with_null_position(NullPosition::First);
    assert_eq!(
        query(&select).unwrap(),
        "SELECT id,name,weight_g,habitat FROM animals WHERE weight_g !=$1 ORDER BY weight_g ASC NULLS FIRST, habitat DESC NULLS FIRST"
    );
}

#[test]
fn appropriate_null_position() {
    let select = four_fields()
        .add_replace_order("weight_g", FieldSortKind::Asc)
        .add_replace_order("habitat", FieldSortKind::Desc)
        .with_approprtiate_null_position();
    assert_eq!(
        query(&select).unwrap(),
        "SELECT id,name,weight_g,habitat FROM animals ORDER BY weight_g ASC NULLS FIRST, habitat DESC NULLS LAST"
    );
}

#[test]
fn test_order_select_first() {
    let select = Select::with_fields(vec![])
        .add_replace_order("weight_g", FieldSortKind::Desc)
        .take_first()
        .add_expand_filter("weight_g", SelectionKind::NotEquals, vec![s("delete from animals")]);
    assert_eq!(
        query(&select).unwrap(),
        "SELECT * FROM animals WHERE weight_g !=$1 ORDER BY weight_g DESC FETCH FIRST ROW ONLY"
    );
}

#[test]
fn test_order_distinct_select() {
    let select = Select::with_fields(vec![])
        .add_replace_order("id", FieldSortKind::Desc)
        .add_replace_order("weight_g", FieldSortKind::Desc)
        .take_first()
        .add_expand_filter("weight_g", SelectionKind::NotEquals, vec![s("delete from animals")])
        .distinct_on(&strings(&["id", "weight_g"]));
    assert_eq!(
        query(&select).unwrap(),
        "SELECT DISTINCT ON(id,weight_g) * FROM animals WHERE weight_g !=$1 ORDER BY id DESC, weight_g DESC FETCH FIRST ROW ONLY"
    );
}

#[test]
fn test_multiple_filters_for_one_field() {
    let select = Select::with_fields(vec![])
        .add_replace_order("id", FieldSortKind::Desc)
        .add_replace_order("weight_g", FieldSortKind::Desc)
        .take_first()
        .add_expand_filter("id", SelectionKind::NotEquals, vec![Value::Int(50)])
        .add_expand_filter("id", SelectionKind::Between, vec![Value::Int(5), Value::Int(100)])
        .add_expand_filter("weight_g", SelectionKind::NotEquals, vec![s("delete from animals")])
        .distinct_on(&strings(&["id", "weight_g"]));
    assert_eq!(
        query(&select).unwrap(),
        "SELECT DISTINCT ON(id,weight_g) * FROM animals WHERE ( id !=$1 AND id BETWEEN $2 AND $3 AND weight_g !=$4) ORDER BY id DESC, weight_g DESC FETCH FIRST ROW ONLY"
    );
}

#[test]
fn test_take_n_skip_n() {
    let select = Select::default().take_first().take_n(55).offset(234);
    assert_eq!(query(&select).unwrap(), "SELECT * FROM animals OFFSET 234 FETCH NEXT 55 ROW ONLY");
}

#[test]
fn replace_order_keeps_position() {
    let select = Select::default()
        .add_replace_order_asc("id")
        .add_replace_order_desc("name")
        .add_replace_order_desc("id");
    assert_eq!(query(&select).unwrap(), "SELECT * FROM animals ORDER BY id DESC, name DESC");
}

#[test]
fn start_from_continues_numbering() {
    let t = animals();
    let select = Select::with_fields(strings(&["id"])).eq("name", s("x")).eq("weight_g", Value::Int(3));
    let maker = SelectMaker::build(&select, 5, &t, "animals", false).unwrap();
    assert_eq!(maker.query_string(), "SELECT id FROM animals WHERE ( name =$5 AND weight_g =$6)");
    assert_eq!(maker.bind_count(), 7);
}

#[test]
fn count_total_adds_window() {
    let t = animals();
    let select = Select::with_fields(strings(&["id"])).take_n(10);
    let maker = SelectMaker::start_with_count(&select, &t).unwrap().stack().unwrap();
    assert!(maker.query_string().contains("COUNT(*) OVER()"), "{}", maker.query_string());
}

#[test]
fn field_renames() {
    let mut f = "animal_name".to_string();
    map_field(&mut f, "animal_name", "name");
    assert_eq!(f, "name");
    map_field(&mut f, "animal_name", "other");
    assert_eq!(f, "name");
    let mut t = animals();
    t.tolerated = vec![("animal_name".to_string(), "name".to_string())];
    let mut select = Select::with_fields(strings(&["id", "animal_name"]))
        .eq("animal_name", s("Рыжик"))
        .add_replace_order_asc("animal_name");
    apply_tolerance_to_select(&t, &mut select);
    assert_eq!(select.field_list, strings(&["id", "name"]));
    assert_eq!(select.order_list[0].field, "name");
    assert!(select.filter_list.finds_field("name"));
}

#[test]
fn builder_filters() {
    let select = Select::with_fields(strings(&["id"]))
        .and_field("name")
        .ne("id", Value::Int(1))
        .greater("weight_g", Value::Int(10))
        .eq_maybe("habitat", None)
        .in_any_maybe("name", None);
    assert_eq!(select.field_list, strings(&["id", "name"]));
    assert_eq!(
        query(&select).unwrap(),
        "SELECT id,name FROM animals WHERE ( id !=$1 AND weight_g >$2)"
    );
    let select = Select::default().eq_maybe("name", Some(s("Барсик"))).in_any_maybe("id", Some(vec![Value::Int(1)]));
    assert_eq!(query(&select).unwrap(), "SELECT * FROM animals WHERE ( name =$1 AND id=ANY($2))");
}

#[test]
fn full_select_and_search() {
    let t = animals();
    let select = Select::full_in(&t, "id", vec![Value::Int(1), Value::Int(2)]);
    assert_eq!(
        query(&select).unwrap(),
        "SELECT id,name,weight_g,habitat,functionality_id_list FROM animals WHERE id=ANY($1)"
    );
    let select = Select::with_fields(strings(&["id"])).fields_containing(&strings(&["name", "habitat"]), "кот");
    let q = query(&select).unwrap();
    assert!(q.contains("name ~$1") || q.contains("name ~ $1") || q.contains("name ~"), "{}", q);
    assert!(q.contains(" OR "), "{}", q);
}

#[test]
fn pagination_builders() {
    let mut select = Select::default().offset_maybe(Some(5)).take_n_maybe(Some(7)).count_total(true);
    assert_eq!((select.offset, select.take_n, select.count_total), (Some(5), Some(7), Some(true)));
    select.clear_pagination();
    assert_eq!((select.offset, select.take_n, select.count_total), (None, None, Some(true)));
    let kept = Select::default().offset(3).take_n(4).offset_maybe(None).take_n_maybe(None);
    assert_eq!((kept.offset, kept.take_n), (None, None));
}

#[test]
fn filter_tree_editing() {
    let mut select = Select::default().eq("name", s("a")).eq("id", Value::Int(1));
    let removed = select.remove_filters_by_field("name");
    assert_eq!(removed.len(), 1);
    assert_eq!(query(&select).unwrap(), "SELECT * FROM animals WHERE ( id =$1)");
    let replaced = select.set_filter_tree(FilterTree::Empty);
    assert_eq!(query(&replaced).unwrap(), "SELECT * FROM animals");
}

#[test]
fn tolerated_names() {
    let mut t = animals();
    t.tolerated = vec![("animal_name".to_string(), "name".to_string()), ("animal_name".to_string(), "other".to_string())];
    assert_eq!(actual_fieldname(&t, "animal_name"), "name");
    assert_eq!(actual_fieldname(&t, "id"), "id");
    assert_eq!(apply_tolerance_to_fields(&t, &strings(&["animal_name", "id"])), strings(&["other", "id"]));
}

#[test]
fn split_for_adaptor_fields() {
    let t = animals();
    let dups = strings(&["alias"]);
    let select = Select::with_fields(strings(&["id", "alias", "extra"])).eq("extra", Value::Int(1)).eq("id", Value::Int(2));
    let copy = select.filtered_copy_for(&t, &dups);
    assert_eq!(copy.field_list, strings(&["id", "alias"]));
    assert!(copy.skip_main_check);
    let (own, rest) = select.split_for(&t, &dups);
    assert_eq!(own.field_list, strings(&["id", "alias"]));
    assert_eq!(rest.field_list, strings(&["extra"]));
    assert!(own.filter_list.finds_field("id") && !own.filter_list.finds_field("extra"));
    assert!(rest.filter_list.finds_field("extra"));
}
