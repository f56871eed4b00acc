//! Свойства разбиения и чистки дерева фильтров.
use crate::db_item::selection::filters::{
    field_found, list_filters, list_found, model_is_empty, purged_list, purged_tree, removed_list, removed_tree, split_list,
    split_tree,
    tree_filters, FilterModel, TreeModel,
};
use vstd::prelude::*;

verus! {

/// Фильтр ограничивает поле из `names`.
pub open spec fn restricts_any_of(names: Set<Seq<char>>) -> spec_fn(FilterModel) -> bool {
    |f: FilterModel| names.contains(f.field)
}

/// Фильтр не ограничивает ни одного поля из `names`.
pub open spec fn restricts_none_of(names: Set<Seq<char>>) -> spec_fn(FilterModel) -> bool {
    |f: FilterModel| !names.contains(f.field)
}

/// Фильтр ограничивает поле `field`.
pub open spec fn restricts_field(field: Seq<char>) -> spec_fn(FilterModel) -> bool {
    |f: FilterModel| f.field == field
}

/// Фильтры первых `k` поддеревьев не меняются от добавления поддерева в конец.
proof fn lemma_list_filters_push(y: Seq<TreeModel>, z: TreeModel, k: int)
    requires
        0 <= k <= y.len(),
    ensures
        list_filters(y.push(z), k) == list_filters(y, k),
    decreases k,
{
    if k > 0 {
        lemma_list_filters_push(y, z, k - 1);
        assert(y.push(z)[k - 1] == y[k - 1]);
    }
}

/// Фильтры одного узла, отобранные по условию.
proof fn lemma_filter_single(f: FilterModel, p: spec_fn(FilterModel) -> bool)
    ensures
        seq![f].filter(p) == (if p(f) { seq![f] } else { seq![] }),
{
    reveal(Seq::filter);
    assert(seq![f].drop_last() =~= Seq::<FilterModel>::empty());
    assert(Seq::<FilterModel>::empty().filter(p) =~= Seq::<FilterModel>::empty());
}

/// Разбиение дерева по полям `names` (`FilterTree::split_by_fields`) делит его
/// фильтры без потерь: в первой части -- ровно фильтры по полям из `names`, во
/// второй -- остальные, в прежнем порядке обхода.
pub proof fn lemma_split_partitions_filters(t: TreeModel, names: Set<Seq<char>>)
    ensures
        tree_filters(split_tree(t, names).0) == tree_filters(t).filter(restricts_any_of(names)),
        tree_filters(split_tree(t, names).1) == tree_filters(t).filter(restricts_none_of(names)),
    decreases t, 0int,
{
    match t {
        TreeModel::Empty => {
            reveal(Seq::filter);
        },
        TreeModel::Filter(f) => {
            lemma_filter_single(f, restricts_any_of(names));
            lemma_filter_single(f, restricts_none_of(names));
        },
        TreeModel::Or(x) => {
            lemma_split_list_partitions(x, x.len() as int, names);
        },
        TreeModel::And(x) => {
            lemma_split_list_partitions(x, x.len() as int, names);
        },
    }
}

/// То же для первых `i` поддеревьев группы.
proof fn lemma_split_list_partitions(x: Seq<TreeModel>, i: int, names: Set<Seq<char>>)
    requires
        0 <= i <= x.len(),
    ensures
        split_list(x, i, names).0.len() == i,
        split_list(x, i, names).1.len() == i,
        list_filters(split_list(x, i, names).0, i) == list_filters(x, i).filter(restricts_any_of(names)),
        list_filters(split_list(x, i, names).1, i) == list_filters(x, i).filter(restricts_none_of(names)),
    decreases x, i,
{
    if i == 0 {
        reveal(Seq::filter);
    } else {
        let p = split_list(x, i - 1, names);
        let c = split_tree(x[i - 1], names);
        lemma_split_list_partitions(x, i - 1, names);
        lemma_split_partitions_filters(x[i - 1], names);
        lemma_list_filters_push(p.0, c.0, i - 1);
        lemma_list_filters_push(p.1, c.1, i - 1);
        assert(p.0.push(c.0)[i - 1] == c.0);
        assert(p.1.push(c.1)[i - 1] == c.1);
        Seq::filter_distributes_over_add(list_filters(x, i - 1), tree_filters(x[i - 1]), restricts_any_of(names));
        Seq::filter_distributes_over_add(list_filters(x, i - 1), tree_filters(x[i - 1]), restricts_none_of(names));
    }
}

/// Удаление фильтров по полю `field` (`FilterTree::remove_by_field`) возвращает
/// ровно все фильтры дерева по этому полю, в порядке обхода.
pub proof fn lemma_removed_are_field_filters(t: TreeModel, field: Seq<char>)
    ensures
        removed_tree(t, field).1 == tree_filters(t).filter(restricts_field(field)),
    decreases t, 0int,
{
    match t {
        TreeModel::Empty => {
            reveal(Seq::filter);
        },
        TreeModel::Filter(f) => {
            lemma_filter_single(f, restricts_field(field));
        },
        TreeModel::Or(x) => {
            lemma_removed_list_field_filters(x, x.len() as int, field);
        },
        TreeModel::And(x) => {
            lemma_removed_list_field_filters(x, x.len() as int, field);
        },
    }
}

/// То же для первых `i` поддеревьев группы.
proof fn lemma_removed_list_field_filters(x: Seq<TreeModel>, i: int, field: Seq<char>)
    requires
        0 <= i <= x.len(),
    ensures
        removed_list(x, i, field).1 == list_filters(x, i).filter(restricts_field(field)),
    decreases x, i,
{
    if i == 0 {
        reveal(Seq::filter);
    } else {
        lemma_removed_list_field_filters(x, i - 1, field);
        lemma_removed_are_field_filters(x[i - 1], field);
        Seq::filter_distributes_over_add(list_filters(x, i - 1), tree_filters(x[i - 1]), restricts_field(field));
    }
}


/// Поиск по полю в группе находит его ровно в одном из поддеревьев начиная с `i`-го.
proof fn lemma_list_found_some(x: Seq<TreeModel>, i: int, field: Seq<char>)
    requires
        0 <= i,
        list_found(x, i, field),
    ensures
        exists|j: int| i <= j < x.len() && #[trigger] field_found(x[j], field),
    decreases x.len() - i,
{
    if !field_found(x[i], field) {
        lemma_list_found_some(x, i + 1, field);
    }
}

/// После удаления фильтров по полю (`FilterTree::remove_by_field`) в дереве не
/// остаётся ни одного фильтра по этому полю.
pub proof fn lemma_removed_field_gone(t: TreeModel, field: Seq<char>)
    ensures
        !field_found(removed_tree(t, field).0, field),
    decreases t, 0int,
{
    match t {
        TreeModel::Or(x) => {
            let y = removed_list(x, x.len() as int, field).0;
            lemma_removed_list_field_gone(x, x.len() as int, field);
            if list_found(y, 0, field) {
                lemma_list_found_some(y, 0, field);
            }
        },
        TreeModel::And(x) => {
            let y = removed_list(x, x.len() as int, field).0;
            lemma_removed_list_field_gone(x, x.len() as int, field);
            if list_found(y, 0, field) {
                lemma_list_found_some(y, 0, field);
            }
        },
        _ => {},
    }
}

/// То же для первых `i` поддеревьев группы: ни одно оставшееся поддерево не
/// содержит фильтра по полю.
proof fn lemma_removed_list_field_gone(x: Seq<TreeModel>, i: int, field: Seq<char>)
    requires
        0 <= i <= x.len(),
    ensures
        forall|j: int| 0 <= j < removed_list(x, i, field).0.len() ==> !#[trigger] field_found(
            removed_list(x, i, field).0[j],
            field,
        ),
    decreases x, i,
{
    if i > 0 {
        lemma_removed_list_field_gone(x, i - 1, field);
        lemma_removed_field_gone(x[i - 1], field);
        let p = removed_list(x, i - 1, field).0;
        let c = removed_tree(x[i - 1], field).0;
        if !model_is_empty(c) {
            assert forall|j: int| 0 <= j < p.push(c).len() implies !#[trigger] field_found(p.push(c)[j], field) by {
                if j < p.len() {
                    assert(p.push(c)[j] == p[j]);
                }
            }
        }
    }
}


/// После чистки по списку полей (`FilterTree::purge_by_fields`) в дереве
/// остаются только фильтры по полям из `names`.
pub proof fn lemma_purged_only_named(t: TreeModel, names: Set<Seq<char>>)
    ensures
        forall|k: int| 0 <= k < tree_filters(purged_tree(t, names)).len() ==> names.contains(
            #[trigger] tree_filters(purged_tree(t, names))[k].field,
        ),
    decreases t, 0int,
{
    match t {
        TreeModel::Or(x) => lemma_purged_list_only_named(x, x.len() as int, names),
        TreeModel::And(x) => lemma_purged_list_only_named(x, x.len() as int, names),
        _ => {},
    }
}

/// То же для первых `i` поддеревьев группы.
proof fn lemma_purged_list_only_named(x: Seq<TreeModel>, i: int, names: Set<Seq<char>>)
    requires
        0 <= i <= x.len(),
    ensures
        ({
            let y = purged_list(x, i, names);
            forall|k: int| 0 <= k < list_filters(y, y.len() as int).len() ==> names.contains(
                #[trigger] list_filters(y, y.len() as int)[k].field,
            )
        }),
    decreases x, i,
{
    if i > 0 {
        lemma_purged_list_only_named(x, i - 1, names);
        lemma_purged_only_named(x[i - 1], names);
        let p = purged_list(x, i - 1, names);
        let c = purged_tree(x[i - 1], names);
        if !model_is_empty(c) {
            let y = p.push(c);
            lemma_list_filters_push(p, c, p.len() as int);
            assert(y[p.len() as int] == c);
            assert(list_filters(y, y.len() as int) == list_filters(p, p.len() as int) + tree_filters(c));
        }
    }
}

} // verus!
