//! Свойства проверки запроса по описанию таблицы.
use crate::db_item::selection::filters::{lemma_empty_binds, lemma_tree_bind_count, model_is_empty, tree_binds, tree_consistent, tree_filters};
use crate::db_item::selection::{
    check_from, check_result, checked_items, select_head, select_sql, tolerated_pairs, tolerated_select, SelectModel,
};
use crate::db_item::table::DbTable;
use vstd::prelude::*;

verus! {

/// Успешная проверка с позиции `i` значит, что все колонки с этой позиции известны.
proof fn lemma_check_from_ok(items: Seq<(Seq<char>, Seq<char>)>, i: int, names: Set<Seq<char>>, table: Seq<char>)
    requires
        0 <= i,
        check_from(items, i, names, table) is Ok,
    ensures
        forall|j: int| i <= j < items.len() ==> names.contains(#[trigger] items[j].1),
    decreases items.len() - i,
{
    if i < items.len() {
        lemma_check_from_ok(items, i + 1, names, table);
    }
}

/// Запрос, прошедший проверку (`SelectMaker::check_select`), упоминает только
/// колонки таблицы: в выборке, DISTINCT ON, сортировке и фильтрах. Поэтому
/// имена колонок не могут внести в текст запроса ничего, кроме имени колонки.
pub proof fn lemma_checked_select_uses_table_columns(q: SelectModel, t: &DbTable)
    requires
        !q.skip_main_check,
        check_result(q, t) is Ok,
    ensures
        forall|i: int| 0 <= i < q.field_list.len() ==> t.names().contains(#[trigger] q.field_list[i]),
        forall|i: int| 0 <= i < q.distinct_on.len() ==> t.names().contains(#[trigger] q.distinct_on[i]),
        forall|i: int| 0 <= i < q.order_list.len() ==> t.names().contains(#[trigger] q.order_list[i].field),
        forall|i: int| 0 <= i < tree_filters(q.filter_list).len() ==> t.names().contains(
            #[trigger] tree_filters(q.filter_list)[i].field,
        ),
{
    let items = checked_items(q);
    let names = t.names().to_set();
    lemma_check_from_ok(items, 0, names, t.table@);
    let a = q.field_list.len() as int;
    let b = a + q.distinct_on.len();
    let c = b + q.order_list.len();
    assert forall|i: int| 0 <= i < q.field_list.len() implies t.names().contains(#[trigger] q.field_list[i]) by {
        assert(items[i].1 == q.field_list[i]);
        assert(names.contains(items[i].1));
    }
    assert forall|i: int| 0 <= i < q.distinct_on.len() implies t.names().contains(#[trigger] q.distinct_on[i]) by {
        assert(items[a + i].1 == q.distinct_on[i]);
        assert(names.contains(items[a + i].1));
    }
    assert forall|i: int| 0 <= i < q.order_list.len() implies t.names().contains(#[trigger] q.order_list[i].field) by {
        assert(items[b + i].1 == q.order_list[i].field);
        assert(names.contains(items[b + i].1));
    }
    assert forall|i: int| 0 <= i < tree_filters(q.filter_list).len() implies t.names().contains(
        #[trigger] tree_filters(q.filter_list)[i].field,
    ) by {
        assert(items[c + i].1 == tree_filters(q.filter_list)[i].field);
        assert(names.contains(items[c + i].1));
    }
}


/// Нумерация привязок запроса: собранный с номера `start` текст SELECT
/// использует ровно столько плейсхолдеров `$n`, сколько значений привязывается
/// по его фильтрам (после переименований колонок), так что следующий номер --
/// `start` плюс их число. На этом держится встраивание запросов друг в друга
/// (JOIN) с продолжением нумерации.
pub proof fn lemma_select_bind_numbering(q: SelectModel, t: &DbTable, table: Seq<char>, with_count: bool, start: nat)
    requires
        tree_consistent(tolerated_select(q, tolerated_pairs(t), t.tolerated@.len() as int).filter_list),
    ensures
        select_sql(q, t, table, with_count, start) matches Ok(p) ==> p.1 == start + tree_binds(
            tolerated_select(q, tolerated_pairs(t), t.tolerated@.len() as int).filter_list,
        ).len(),
{
    let q2 = tolerated_select(q, tolerated_pairs(t), t.tolerated@.len() as int);
    if model_is_empty(q2.filter_list) {
        lemma_empty_binds(q2.filter_list);
    } else {
        let head = select_head(q2, table, with_count);
        lemma_tree_bind_count(q2.filter_list, head + " WHERE"@, start);
    }
}

} // verus!
