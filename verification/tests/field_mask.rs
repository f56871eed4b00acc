use asez2_shared_db::db_item::field_mask::{
    adaptor_mask_for, create_default_bind_mask, make_bind_mask, make_single_update_bind_mask, select_fields_helper, update_fields_helper, DbAdaptorFieldMask,
    DbFieldMask,
};
use asez2_shared_db::db_item::table::DbTable;

fn strings(v: &[&str]) -> Vec<String> {
    v.iter().map(|x| x.to_string()).collect()
}

fn hedgehogs() -> DbTable {
    DbTable {
        table: "hedgehogs".to_string(),
        fields: strings(&["uuid", "name", "favourite_food", "age"]),
        primary_keys: strings(&["uuid"]),
        primary_key_indices: vec![0],
        insert_fields: strings(&["uuid", "name", "favourite_food"]),
        update_fields: strings(&["name", "favourite_food"]),
        no_update_indices: vec![3],
        tolerated: vec![],
    }
}

#[test]
fn all_and_none() {
    let t = hedgehogs();
    assert!(DbFieldMask::all(&t).equals_slice(&[true; 4]));
    assert!(DbFieldMask::none(&t).equals_slice(&[false; 4]));
    assert!(DbFieldMask::all(&t).inverted().same_as(&DbFieldMask::none(&t)));
    assert!(DbFieldMask::all(&t).inverted().inverted().same_as(&DbFieldMask::all(&t)));
}

#[test]
fn masks_by_name() {
    let t = hedgehogs();
    let m = DbFieldMask::with_fields(&t, &strings(&["favourite_food", "unknown"]));
    assert!(m.equals_slice(&[false, false, true, false]));
    assert_eq!(m.to_fields(&t), strings(&["favourite_food"]));
    // Первичный ключ всегда попадает в маску привязки.
    let b = make_bind_mask(&t, &strings(&["age"]));
    assert!(b.equals_slice(&[true, false, false, true]));
    // В одиночном UPDATE вычисляемые колонки не обновляются.
    let u = make_single_update_bind_mask(&t, &strings(&["age", "name"]));
    assert!(u.equals_slice(&[true, true, false, false]));
    assert_eq!(update_fields_helper(&t, &b), strings(&["uuid"]));
    assert_eq!(select_fields_helper(&t, &b), strings(&["uuid", "age"]));
}

#[test]
fn union_and_edit() {
    let t = hedgehogs();
    let a = DbFieldMask::with_fields(&t, &strings(&["name"]));
    let b = DbFieldMask::with_fields(&t, &strings(&["age"]));
    let mut u = a.bitor(b);
    assert!(u.equals_slice(&[false, true, false, true]));
    u.set_value(0, true);
    assert!(u.get(0));
    assert_eq!(u.iter(), &[true, true, false, true]);
    let w = DbFieldMask::none(&t).with_pkeys(&t);
    assert!(w.equals_slice(&[true, false, false, false]));
    let x = DbFieldMask::all(&t).without_autogen(&t);
    assert!(x.equals_slice(&[true, true, true, false]));
}

#[test]
fn adaptor_masks() {
    let t = hedgehogs();
    let dups = strings(&["food_alias"]);
    let m = DbAdaptorFieldMask::with_fields(&t, &dups, &strings(&["name", "food_alias"]));
    assert!(m.item_field_mask().equals_slice(&[false, true, false, false]));
    assert_eq!(m.dup_field_mask(), &[true]);
    let k = DbAdaptorFieldMask::with_fields_and_pkeys(&t, &dups, &strings(&["age"]));
    assert!(k.item_field_mask().equals_slice(&[true, false, false, true]));
    assert_eq!(k.dup_field_mask(), &[false]);
    assert!(DbAdaptorFieldMask::all(&t, &dups).item_field_mask().equals_slice(&[true; 4]));
    assert_eq!(DbAdaptorFieldMask::none(&t, &dups).dup_field_mask(), &[false]);
}

#[test]
fn bind_mask_restores_update_mask() {
    let t = hedgehogs();
    // Первичный ключ включён, вычисляемая колонка -- нет.
    let m = DbFieldMask::with_fields(&t, &strings(&["uuid", "favourite_food"]));
    let restored = make_bind_mask(&t, &update_fields_helper(&t, &m));
    assert!(restored.same_as(&m));
}

#[test]
fn default_bind_mask_is_union() {
    let t = hedgehogs();
    let masks = vec![
        DbFieldMask::with_fields(&t, &strings(&["name"])),
        DbFieldMask::with_fields(&t, &strings(&["age"])),
    ];
    assert!(create_default_bind_mask(&t, &masks).equals_slice(&[false, true, false, true]));
    assert!(create_default_bind_mask(&t, &vec![]).equals_slice(&[false; 4]));
}

#[test]
fn adaptor_masks_for_conversion() {
    let t = hedgehogs();
    let dups = strings(&["food_alias"]);
    let all = adaptor_mask_for(&t, &dups, None);
    assert!(all.item_field_mask().equals_slice(&[true; 4]));
    assert_eq!(all.dup_field_mask(), &[true]);
    let some = adaptor_mask_for(&t, &dups, Some(&strings(&["age"])));
    assert!(some.item_field_mask().equals_slice(&[true, false, false, true]));
    assert_eq!(some.dup_field_mask(), &[false]);
}
