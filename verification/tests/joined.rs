use asez2_shared_db::db_item::joined::{
    check_joinable_select, AggrJoin, JoinedSelect, JoinedSelectData, LeftJoin, NormalJoin,
};
use asez2_shared_db::db_item::selection::{FieldSortKind, Select};
use asez2_shared_db::db_item::table::DbTable;
use asez2_shared_db::value::Value;

fn strings(v: &[&str]) -> Vec<String> {
    v.iter().map(|x| x.to_string()).collect()
}

fn table(name: &str, fields: &[&str]) -> DbTable {
    DbTable {
        table: name.to_string(),
        fields: strings(fields),
        primary_keys: strings(&["id"]),
        primary_key_indices: vec![0],
        insert_fields: strings(fields),
        update_fields: strings(&fields[1..]),
        no_update_indices: vec![],
        tolerated: vec![],
    }
}

fn plan() -> DbTable {
    table("plan", &["id", "content"])
}

fn owners() -> DbTable {
    table("owners", &["id", "plan_id", "name"])
}

#[test]
fn left_join_query() {
    let (p, o) = (plan(), owners());
    let joined = JoinedSelect::initiate(Select::default(), &p, false, vec![])
        .unwrap()
        .join(JoinedSelectData::join_default(&o, &p, "id", "plan_id", LeftJoin))
        .unwrap()
        .construct_query();
    assert_eq!(
        joined.query_string(),
        "SELECT plan,owners FROM(SELECT id,content FROM plan) as plan LEFT JOIN (SELECT id,plan_id,name FROM owners) as owners\n                ON owners.plan_id=plan.id GROUP BY plan.*,owners.*"
    );
    assert_eq!(joined.source().len(), 2);
}

#[test]
fn inner_join_continues_bind_numbering() {
    let (p, o) = (plan(), owners());
    let joined = JoinedSelect::initiate(Select::default().eq("content", Value::String("stuff".into())), &p, true, vec![])
        .unwrap()
        .join(
            JoinedSelectData::join_default(&o, &p, "id", "plan_id", NormalJoin)
                .selecting(Select::default().eq("name", Value::String("Колобок".into()))),
        )
        .unwrap()
        .construct_query();
    assert_eq!(
        joined.query_string(),
        "SELECT DISTINCT ON (plan) plan,owners FROM(SELECT id,content FROM plan WHERE content =$1) as plan INNER JOIN (SELECT id,plan_id,name FROM owners WHERE name =$2) as owners\n                ON owners.plan_id=plan.id GROUP BY plan.*,owners.*"
    );
}

#[test]
fn aggregated_join_query() {
    let (p, o) = (plan(), owners());
    let data = JoinedSelectData::join_default(&o, &p, "id", "plan_id", AggrJoin)
        .order_aggr_by("name", FieldSortKind::Desc)
        .unwrap()
        .distinct_aggr(true);
    let joined = JoinedSelect::initiate(Select::default(), &p, false, vec![])
        .unwrap()
        .join(data)
        .unwrap()
        .construct_query();
    assert_eq!(
        joined.query_string(),
        "SELECT plan,array_agg(distinct owners ORDER BY owners.name DESC) as owners FROM(SELECT id,content FROM plan) as plan LEFT JOIN (SELECT id,plan_id,name FROM owners) as owners\n                ON owners.plan_id=plan.id GROUP BY plan.*"
    );
}

#[test]
fn outer_order_is_grouped() {
    let (p, o) = (plan(), owners());
    let data = JoinedSelectData::join_default(&o, &p, "id", "plan_id", LeftJoin).with_outer_order_asc("name").unwrap();
    let joined = JoinedSelect::initiate(Select::default(), &p, false, vec![])
        .unwrap()
        .join(data)
        .unwrap()
        .construct_query();
    assert!(
        joined.query_string().ends_with(" GROUP BY plan.*,owners.*,owners.name ORDER BY owners.name ASC"),
        "{}",
        joined.query_string()
    );
}

#[test]
fn join_key_errors() {
    let (p, o) = (plan(), owners());
    let all_owners = Select::full(&o);
    assert!(check_joinable_select(&o, &p, &all_owners, "plan_id", "id").is_ok());
    assert_eq!(
        check_joinable_select(&o, &p, &all_owners, "planid", "id").unwrap_err().message(),
        "field 'planid' used for join but not found in table 'owners'"
    );
    assert_eq!(
        check_joinable_select(&o, &p, &Select::with_fields(strings(&["id", "name"])), "plan_id", "id")
            .unwrap_err()
            .message(),
        "field 'plan_id' used for join but not found in selection 'id, name'"
    );
    assert_eq!(
        check_joinable_select(&o, &p, &all_owners, "plan_id", "uuid").unwrap_err().message(),
        "field 'uuid' not found in table 'plan'"
    );
    let err = JoinedSelect::initiate(Select::default(), &p, false, vec![])
        .unwrap()
        .join(JoinedSelectData::join_default(&o, &p, "id", "plan_id", LeftJoin).eq_own("owner"))
        .err()
        .unwrap();
    assert_eq!(err.message(), "field 'owner' used for join but not found in table 'owners'");
}

#[test]
fn join_on_other_key_and_orders() {
    let (p, o) = (plan(), owners());
    let data = JoinedSelectData::join_on(&o, &p, "id", "plan_id", LeftJoin, "content")
        .with_outer_order_desc("name")
        .unwrap();
    let joined = JoinedSelect::initiate(Select::default(), &p, false, vec![]).unwrap().join(data).unwrap().construct_query();
    assert!(joined.query_string().contains("ON owners.plan_id=plan.content"), "{}", joined.query_string());
    assert!(joined.query_string().ends_with(" ORDER BY owners.name DESC"), "{}", joined.query_string());
    let err = JoinedSelectData::join_default(&o, &p, "id", "plan_id", LeftJoin).with_outer_order_desc("nope").err().unwrap();
    assert_eq!(err.message(), "Outer ORDER BY clause `nope` not in table `owners`");
    let aggr = JoinedSelectData::join_default(&o, &p, "id", "plan_id", AggrJoin).add_order_aggr_asc_by("name").unwrap();
    let joined = JoinedSelect::initiate(Select::default(), &p, false, vec![]).unwrap().join(aggr).unwrap().construct_query();
    assert!(joined.query_string().contains("array_agg(owners ORDER BY owners.name ASC) as owners"), "{}", joined.query_string());
}
