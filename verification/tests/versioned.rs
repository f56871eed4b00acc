use asez2_shared_db::db_item::versioned::{max_version_query, next_versions, version_lock_query};

#[test]
fn versions_continue_from_stored_maximum() {
    let ids = vec![10, 20, 10, 30, 10];
    let current = vec![(10, 4), (30, 1)];
    assert_eq!(next_versions(&ids, current), vec![5, 1, 6, 2, 7]);
}

#[test]
fn new_ids_start_with_one() {
    assert_eq!(next_versions(&vec![1, 1, 2], vec![]), vec![1, 2, 1]);
    assert_eq!(next_versions(&vec![], vec![(1, 3)]), Vec::<i16>::new());
}

#[test]
fn version_queries() {
    assert_eq!(version_lock_query("plan_versions"), "LOCK TABLE plan_versions IN ACCESS EXCLUSIVE MODE");
    assert_eq!(
        max_version_query("plan_versions"),
        "SELECT id,max(pricing_version) FROM plan_versions WHERE id=ANY($1) GROUP BY id"
    );
}
