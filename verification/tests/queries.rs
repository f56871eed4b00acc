use asez2_shared_db::db_item::field_mask::DbFieldMask;
use asez2_shared_db::db_item::query::{
    conflict_string, delete_query, field_counter, field_counters, gen_upsert_query, insert_chunk_size, insert_query,
    option_item, update_masks, paginated_params, paginated_total, paginated_with_count, WithCount, recursive_query, recursive_table, single_item, update_by_filter_query,
    update_query, update_vec_chunk_size, update_vec_plan, update_vec_query, upsert_chunk_size, upsert_plan,
};
use asez2_shared_db::db_item::selection::filters::{Filter, FilterTree};
use asez2_shared_db::db_item::selection::Select;
use asez2_shared_db::db_item::table::DbTable;
use asez2_shared_db::value::Value;

fn strings(v: &[&str]) -> Vec<String> {
    v.iter().map(|x| x.to_string()).collect()
}

fn animals() -> DbTable {
    DbTable {
        table: "animals".to_string(),
        fields: strings(&["id", "name", "weight_g", "habitat"]),
        primary_keys: strings(&["id"]),
        primary_key_indices: vec![0],
        insert_fields: strings(&["id", "name", "weight_g", "habitat"]),
        update_fields: strings(&["name", "weight_g", "habitat"]),
        no_update_indices: vec![],
        tolerated: vec![("animal_name".to_string(), "name".to_string())],
    }
}

#[test]
fn counters() {
    let f = strings(&["id", "name", "address"]);
    assert_eq!(field_counter(&f, 0), "($1,$2,$3)");
    assert_eq!(field_counter(&f, 1), "($4,$5,$6)");
    assert_eq!(field_counters(&f, 2), "($1,$2,$3),($4,$5,$6)");
    assert_eq!(field_counter(&vec![], 3), ")");
    let t = animals();
    assert_eq!(t.fields_string(), "id,name,weight_g,habitat");
    assert_eq!(t.insert_field_counter(1), "($5,$6,$7,$8)");
}

#[test]
fn insert_queries() {
    let t = animals();
    assert_eq!(
        insert_query(&t, 2, true),
        "INSERT INTO animals (id,name,weight_g,habitat) values($1,$2,$3,$4),($5,$6,$7,$8) returning *;"
    );
    assert_eq!(insert_query(&t, 1, false), "INSERT INTO animals (id,name,weight_g,habitat) values($1,$2,$3,$4);");
    // 65535 / длина "id,name,weight_g,habitat" (24 символа)
    assert_eq!(insert_chunk_size(&t), 65535 / 24);
    assert_eq!(upsert_chunk_size(&t), 65535 / 4);
}

#[test]
fn upsert_queries() {
    let t = animals();
    let (pkeys, conflict) = upsert_plan(&t, Some(&strings(&["animal_name"])));
    assert_eq!(pkeys, "id");
    assert_eq!(conflict, "id=excluded.id,name=excluded.name");
    assert_eq!(conflict_string(&strings(&["a", "b"])), "a=excluded.a,b=excluded.b");
    assert_eq!(
        gen_upsert_query(&t, 1, &pkeys, &conflict),
        "INSERT INTO animals(id,name,weight_g,habitat) values($1,$2,$3,$4) ON CONFLICT (id) DO UPDATE SET id=excluded.id,name=excluded.name RETURNING id,name,weight_g,habitat;"
    );
}

#[test]
fn update_queries() {
    let t = animals();
    let mask = DbFieldMask::with_fields(&t, &strings(&["name", "weight_g"]));
    assert_eq!(update_query(&t, &mask, None), "UPDATE animals set (id,name,weight_g)=(($1,$2,$3)) WHERE id=$4;");
    let ret = DbFieldMask::with_fields(&t, &strings(&["habitat"]));
    assert_eq!(
        update_query(&t, &DbFieldMask::none(&t), Some(&ret)),
        "UPDATE animals set id=($1) WHERE id=$2 RETURNING habitat;"
    );
}

#[test]
fn delete_queries() {
    let t = animals();
    let filters = FilterTree::filter(Filter::eq("id", Value::Int(5)));
    assert_eq!(delete_query(&t, &filters).unwrap(), "DELETE FROM animals WHERE id =$1 returning id,name,weight_g,habitat");
    let err = delete_query(&t, &FilterTree::Empty).unwrap_err();
    assert_eq!(err.message(), "No filters supplied for deletion");
}

#[test]
fn update_by_filters() {
    let t = animals();
    let filters = FilterTree::filter(Filter::eq("weight_g", Value::Int(5)));
    let (q, mask) = update_by_filter_query(&t, &strings(&["animal_name"]), &filters, Some(&strings(&["id"]))).unwrap();
    assert_eq!(q, "UPDATE animals SET name=($1) WHERE weight_g =$2 RETURNING id");
    assert!(mask.equals_slice(&[false, true, false, false]));
    let err = update_by_filter_query(&t, &strings(&["name"]), &FilterTree::Empty, None).unwrap_err();
    assert_eq!(err.message(), "No filters supplied for update by filters");
}

#[test]
fn update_vec_queries() {
    let t = animals();
    let plan = update_vec_plan(&t, Some(&strings(&["weight_g"])), Some(&strings(&["name"])));
    assert_eq!(plan.fields_to_set, strings(&["id", "weight_g"]));
    assert_eq!(plan.fields_to_select, strings(&["id", "weight_g"]));
    assert_eq!(plan.return_clause, " RETURNING t.id,t.name");
    assert_eq!(update_vec_chunk_size(&plan), 65535 / 2);
    let q = update_vec_query(&t, &plan, 2);
    assert!(q.starts_with("UPDATE animals"), "{}", q);
    assert!(q.contains("WHERE t.id=upd.id"), "{}", q);
    assert!(q.ends_with(" RETURNING t.id,t.name;"), "{}", q);
    assert_eq!(
        q,
        "UPDATE animals AS t SET\n                id=upd.id,weight_g=upd.weight_g\n               FROM\n                (values($1,$2),($3,$4)) AS upd(id,weight_g)\n               WHERE t.id=upd.id RETURNING t.id,t.name;"
    );
}

#[test]
fn recursive_queries() {
    let t = animals();
    assert_eq!(recursive_table(&t), "rec_animals");
    let q = recursive_query(&t, "SELECT * FROM animals WHERE id=$1", "SELECT * FROM rec_animals", "id", "parent_id");
    assert_eq!(
        q,
        "\nWITH RECURSIVE rec_animals AS (\n        SELECT * FROM animals WHERE id=$1\n    UNION ALL\n        SELECT animals.id,animals.name,animals.weight_g,animals.habitat\n        FROM rec_animals, animals\n        WHERE animals.parent_id = rec_animals.id\n) CYCLE id SET is_cycle USING path\nSELECT * FROM rec_animals;"
    );
}

#[test]
fn single_and_option_items() {
    assert_eq!(single_item(vec![7]).unwrap(), 7);
    assert_eq!(single_item::<i32>(vec![]).unwrap_err().message(), "select_single: nothing is selected");
    assert_eq!(single_item(vec![1, 2]).unwrap_err().message(), "select_single: too many items");
    assert_eq!(option_item(vec![7]).unwrap(), Some(7));
    assert_eq!(option_item::<i32>(vec![]).unwrap(), None);
    assert_eq!(option_item(vec![1, 2]).unwrap_err().message(), "select_option: too many items");
}

#[test]
fn pagination() {
    let s = Select::default().offset(20).take_n(10).count_total(true);
    assert_eq!(paginated_params(&s).unwrap(), (20, 10, true));
    let err = paginated_params(&Select::default().take_n(10)).unwrap_err();
    assert_eq!(err.message(), "select is not suitable for paged query");
    assert_eq!(paginated_total(0, None), Some(0));
    assert_eq!(paginated_total(10, None), None);
    assert_eq!(paginated_total(10, Some(42)), Some(42));
}

#[test]
fn pages_with_counts() {
    let rows = vec![WithCount::new("a", 12), WithCount::new("b", 12)];
    assert_eq!(rows[1].total_count(), 12);
    let page = paginated_with_count(rows, 10);
    assert_eq!(page.items, vec!["a", "b"]);
    assert_eq!(page.total, Some(12));
    let empty_first = paginated_with_count::<&str>(vec![], 0);
    assert!(empty_first.items.is_empty());
    assert_eq!(empty_first.total, Some(0));
    assert_eq!(paginated_with_count::<&str>(vec![], 30).total, None);
}

#[test]
fn update_and_return_masks() {
    let mut t = animals();
    t.no_update_indices = vec![3];
    let (update, ret) = update_masks(&t, Some(&strings(&["animal_name", "habitat"])), Some(&strings(&["weight_g"])));
    assert!(update.equals_slice(&[true, true, false, false]));
    assert!(ret.unwrap().equals_slice(&[true, false, true, false]));
    let (update, ret) = update_masks(&t, None, None);
    assert!(update.equals_slice(&[true, true, true, true]));
    assert!(ret.is_none());
}
