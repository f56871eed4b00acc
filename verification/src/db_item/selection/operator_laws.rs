//! Что пишет в условие WHERE отдельный фильтр: оператор сравнения и граница BETWEEN.
use crate::db_item::selection::filters::{filter_sql, model_is_empty, non_null_count, tree_sql, FilterModel, SelectionKind, TreeModel};
use crate::aggr_laws::{int_values, lemma_int_array, lemma_uuid_array, uuid_values};
use crate::db_item::selection::filters::{filter_binds, BindModel};
use crate::text::dec_text;
use crate::value::AggrModel;
use crate::value::ValueModel;
use vstd::prelude::*;

verus! {

/// Значений `Null` среди `vs` нет -- все значения считаются.
proof fn lemma_no_nulls_counted(vs: Seq<ValueModel>)
    requires
        forall|i: int| 0 <= i < vs.len() ==> !(#[trigger] vs[i] is Null),
    ensures
        non_null_count(vs) == vs.len(),
    decreases vs.len(),
{
    if vs.len() > 0 {
        assert forall|i: int| 0 <= i < vs.drop_last().len() implies !(#[trigger] vs.drop_last()[i] is Null) by {
            assert(vs.drop_last()[i] == vs[i]);
        }
        lemma_no_nulls_counted(vs.drop_last());
        assert(!(vs[vs.len() - 1] is Null));
    }
}

/// Оператор сравнения: фильтр с одним значением (не `Null`) по полю `field`
/// дописывает ` field <оператор>$b`, где оператор -- SQL-оператор вида условия:
/// `<` для `Less` (строго меньше), `<=` для `LessEqual`, `>` для `Greater`
/// (строго больше), `>=` для `GreaterEqual`, `=` для `Equals`, `!=` для
/// `NotEquals`, `~`/`!~` для `Contains`/`NotContains`, `&&` для `Overlaps`;
/// следующая привязка -- `b + 1`. То же пишет дерево из одного этого фильтра.
pub proof fn lemma_comparison_operator(f: FilterModel, c: Seq<char>, b: nat)
    requires
        f.values.len() == 1,
        !(f.values[0] is Null),
    ensures
        ({
            let head = c + " "@ + f.field + " "@;
            let ph = "$"@ + dec_text(b);
            &&& f.kind == SelectionKind::Less ==> filter_sql(f, c, b) == Ok::<(Seq<char>, nat), Seq<char>>((head + "<"@ + ph, b + 1))
            &&& f.kind == SelectionKind::LessEqual ==> filter_sql(f, c, b) == Ok::<(Seq<char>, nat), Seq<char>>((head + "<="@ + ph, b + 1))
            &&& f.kind == SelectionKind::Greater ==> filter_sql(f, c, b) == Ok::<(Seq<char>, nat), Seq<char>>((head + ">"@ + ph, b + 1))
            &&& f.kind == SelectionKind::GreaterEqual ==> filter_sql(f, c, b) == Ok::<(Seq<char>, nat), Seq<char>>((head + ">="@ + ph, b + 1))
            &&& f.kind == SelectionKind::Equals ==> filter_sql(f, c, b) == Ok::<(Seq<char>, nat), Seq<char>>((head + "="@ + ph, b + 1))
            &&& f.kind == SelectionKind::NotEquals ==> filter_sql(f, c, b) == Ok::<(Seq<char>, nat), Seq<char>>((head + "!="@ + ph, b + 1))
            &&& f.kind == SelectionKind::Contains ==> filter_sql(f, c, b) == Ok::<(Seq<char>, nat), Seq<char>>((head + "~"@ + ph, b + 1))
            &&& f.kind == SelectionKind::NotContains ==> filter_sql(f, c, b) == Ok::<(Seq<char>, nat), Seq<char>>((head + "!~"@ + ph, b + 1))
            &&& f.kind == SelectionKind::Overlaps ==> filter_sql(f, c, b) == Ok::<(Seq<char>, nat), Seq<char>>((head + "&&"@ + ph, b + 1))
            &&& tree_sql(TreeModel::Filter(f), c, b) == filter_sql(f, c, b)
        }),
{
    lemma_no_nulls_counted(f.values);
    let ph = "$"@ + dec_text(b);
    let head = c + " "@ + f.field + " "@;
    assert(c + " "@ + f.field + " "@ == head);
    if f.kind == SelectionKind::Less {
        assert(filter_sql(f, c, b) == Ok::<(Seq<char>, nat), Seq<char>>((head + "<"@ + ph, b + 1)));
    }
}

/// Граница BETWEEN: фильтр BETWEEN с двумя значениями (не `Null`) по полю
/// `field` дописывает ` field BETWEEN $b AND $b+1`, а если верхняя граница --
/// дата (`Date`), то ещё `+ interval '23:59:59'`, чтобы весь последний день
/// входил в отбор; для другой верхней границы ничего не добавляется. Следующая
/// привязка -- `b + 2`.
pub proof fn lemma_between_upper_day(f: FilterModel, c: Seq<char>, b: nat)
    requires
        f.kind == SelectionKind::Between,
        f.values.len() == 2,
        !(f.values[0] is Null),
        !(f.values[1] is Null),
    ensures
        ({
            let text = c + " "@ + f.field + " BETWEEN $"@ + dec_text(b) + " AND $"@ + dec_text(b + 1);
            &&& f.values[1] is Date ==> filter_sql(f, c, b) == Ok::<(Seq<char>, nat), Seq<char>>((text + "+ interval '23:59:59'"@, b + 2))
            &&& !(f.values[1] is Date) ==> filter_sql(f, c, b) == Ok::<(Seq<char>, nat), Seq<char>>((text, b + 2))
        }),
{
    assert forall|i: int| 0 <= i < f.values.len() implies !(#[trigger] f.values[i] is Null) by {
        if i == 0 {
        } else {
        }
    }
    lemma_no_nulls_counted(f.values);
    reveal_strlit(" BETWEEN $");
    reveal_strlit(" AND $");
    reveal_strlit(" ");
    reveal_strlit("BETWEEN");
    reveal_strlit(" AND ");
    reveal_strlit("$");
    let text = c + " "@ + f.field + " BETWEEN $"@ + dec_text(b) + " AND $"@ + dec_text(b + 1);
    let spec_text = c + " "@ + f.field + " "@ + "BETWEEN"@ + " "@ + ("$"@ + dec_text(b)) + " AND "@ + ("$"@ + dec_text(b + 1));
    assert(spec_text =~= text);
}

/// Условие `jsonpath`: фильтр с одним значением (не `Null`) пишет
/// ` field @?$b::jsonpath` -- значение привязывается как выражение jsonpath.
pub proof fn lemma_jsonpath_operator(f: FilterModel, c: Seq<char>, b: nat)
    requires
        f.kind == SelectionKind::Jsonpath,
        f.values.len() == 1,
        !(f.values[0] is Null),
    ensures
        filter_sql(f, c, b) == Ok::<(Seq<char>, nat), Seq<char>>((c + " "@ + f.field + " @?$"@ + dec_text(b) + "::jsonpath"@, b + 1)),
{
    lemma_no_nulls_counted(f.values);
    reveal_strlit(" @?$");
    reveal_strlit(" ");
    reveal_strlit("@?");
    reveal_strlit("$");
    assert(c + " "@ + f.field + " "@ + "@?"@ + ("$"@ + dec_text(b)) + "::jsonpath"@
        =~= c + " "@ + f.field + " @?$"@ + dec_text(b) + "::jsonpath"@);
}

/// Сравнение с `NULL`: `Equals` только с `Null` пишет ` field IS NULL`,
/// `NotEquals` только с `Null` -- ` field IS NOT NULL`; привязок нет.
pub proof fn lemma_null_comparison(f: FilterModel, c: Seq<char>, b: nat)
    requires
        f.values.len() <= 1,
        forall|i: int| 0 <= i < f.values.len() ==> #[trigger] f.values[i] is Null,
    ensures
        f.kind == SelectionKind::Equals ==> filter_sql(f, c, b) == Ok::<(Seq<char>, nat), Seq<char>>((c + " "@ + f.field + " IS NULL"@, b)),
        f.kind == SelectionKind::NotEquals ==> filter_sql(f, c, b) == Ok::<(Seq<char>, nat), Seq<char>>((c + " "@ + f.field + " IS NOT NULL"@, b)),
{
    if f.values.len() == 1 {
        assert(f.values.drop_last().len() == 0);
        assert(f.values[0] is Null);
        assert(f.values.last() is Null);
        assert(non_null_count(f.values.drop_last()) == 0);
        assert(non_null_count(f.values) == 0);
    }
    reveal_strlit(" IS NULL");
    reveal_strlit(" IS NOT NULL");
    reveal_strlit("IS NULL");
    reveal_strlit("IS NOT NULL");
    reveal_strlit(" ");
    assert(c + " "@ + f.field + " "@ + "IS NULL"@ =~= c + " "@ + f.field + " IS NULL"@);
    assert(c + " "@ + f.field + " "@ + "IS NOT NULL"@ =~= c + " "@ + f.field + " IS NOT NULL"@);
}

/// Условие `In`/`NotIn` по массиву без `Null`: ` field=ANY($b)` (совпадение с
/// любым элементом массива) и ` NOT (field=ANY($b))`; привязка одна -- массив.
pub proof fn lemma_in_array(f: FilterModel, c: Seq<char>, b: nat)
    requires
        f.values.len() > 0,
        forall|i: int| 0 <= i < f.values.len() ==> !(#[trigger] f.values[i] is Null),
    ensures
        f.kind == SelectionKind::In ==> filter_sql(f, c, b) == Ok::<(Seq<char>, nat), Seq<char>>((c + " "@ + f.field + "=ANY($"@ + dec_text(b) + ")"@, b + 1)),
        f.kind == SelectionKind::NotIn ==> filter_sql(f, c, b) == Ok::<(Seq<char>, nat), Seq<char>>((c + " NOT ("@ + f.field + "=ANY($"@ + dec_text(b) + "))"@, b + 1)),
{
    lemma_no_nulls_counted(f.values);
    reveal_strlit(" ");
    reveal_strlit("NOT (");
    reveal_strlit(" NOT (");
    reveal_strlit("=ANY(");
    reveal_strlit("=ANY($");
    reveal_strlit("$");
    reveal_strlit(")");
    reveal_strlit("))");
    reveal_strlit("(");
    assert(c + " "@ + Seq::<char>::empty() + Seq::<char>::empty() + f.field + "=ANY("@ + ("$"@ + dec_text(b)) + ")"@
        + Seq::<char>::empty() + Seq::<char>::empty() =~= c + " "@ + f.field + "=ANY($"@ + dec_text(b) + ")"@);
    assert(c + " "@ + "NOT ("@ + Seq::<char>::empty() + f.field + "=ANY("@ + ("$"@ + dec_text(b)) + ")"@
        + Seq::<char>::empty() + ")"@ =~= c + " NOT ("@ + f.field + "=ANY($"@ + dec_text(b) + "))"@);
}

/// Группы: `And`/`Or` из двух непустых поддеревьев пишут ` (` + первое +
/// ` AND`/` OR` + второе + `)`; нумерация привязок второго продолжает первое.
pub proof fn lemma_group_joins(t1: TreeModel, t2: TreeModel, c: Seq<char>, b: nat)
    requires
        !model_is_empty(t1),
        !model_is_empty(t2),
    ensures
        tree_sql(t1, c + " ("@, b) matches Ok(p1) ==> (tree_sql(t2, p1.0 + " AND"@, p1.1) matches Ok(p2) ==>
            tree_sql(TreeModel::And(seq![t1, t2]), c, b) == Ok::<(Seq<char>, nat), Seq<char>>((p2.0 + ")"@, p2.1))),
        tree_sql(t1, c + " ("@, b) matches Ok(p1) ==> (tree_sql(t2, p1.0 + " OR"@, p1.1) matches Ok(p2) ==>
            tree_sql(TreeModel::Or(seq![t1, t2]), c, b) == Ok::<(Seq<char>, nat), Seq<char>>((p2.0 + ")"@, p2.1))),
{
    let x = seq![t1, t2];
    assert(x[0] == t1);
    assert(x[1] == t2);
    assert(x.len() == 2);
    let j_and = " AND"@;
    let j_or = " OR"@;
    if let Ok(p1) = tree_sql(t1, c + " ("@, b) {
        if let Ok(p2) = tree_sql(t2, p1.0 + j_and, p1.1) {
            assert(crate::db_item::selection::filters::list_sql(x, 2, true, j_and, p2.0, p2.1)
                == Ok::<(Seq<char>, nat), Seq<char>>((p2.0 + ")"@, p2.1)));
            assert(crate::db_item::selection::filters::list_sql(x, 1, true, j_and, p1.0, p1.1)
                == crate::db_item::selection::filters::list_sql(x, 2, true, j_and, p2.0, p2.1));
            assert(crate::db_item::selection::filters::list_sql(x, 0, false, j_and, c, b)
                == crate::db_item::selection::filters::list_sql(x, 1, true, j_and, p1.0, p1.1));
        }
        if let Ok(p2) = tree_sql(t2, p1.0 + j_or, p1.1) {
            assert(crate::db_item::selection::filters::list_sql(x, 2, true, j_or, p2.0, p2.1)
                == Ok::<(Seq<char>, nat), Seq<char>>((p2.0 + ")"@, p2.1)));
            assert(crate::db_item::selection::filters::list_sql(x, 1, true, j_or, p1.0, p1.1)
                == crate::db_item::selection::filters::list_sql(x, 2, true, j_or, p2.0, p2.1));
            assert(crate::db_item::selection::filters::list_sql(x, 0, false, j_or, c, b)
                == crate::db_item::selection::filters::list_sql(x, 1, true, j_or, p1.0, p1.1));
        }
    }
}

/// Привязка `In`/`NotIn` по UUID: фильтр по непустому списку UUID (без
/// `Null`) привязывает ровно одно значение -- массив всех этих UUID по порядку.
pub proof fn lemma_in_binds_all_uuids(f: FilterModel)
    requires
        f.kind == SelectionKind::In || f.kind == SelectionKind::NotIn,
        f.values.len() > 0,
        forall|i: int| 0 <= i < f.values.len() ==> #[trigger] f.values[i] is Uuid,
    ensures
        filter_binds(f) == seq![BindModel::Array(AggrModel::Uuid(uuid_values(f.values)))],
        uuid_values(f.values).len() == f.values.len(),
        forall|k: int| 0 <= k < f.values.len() ==> f.values[k] == crate::value::ValueModel::Uuid(#[trigger] uuid_values(f.values)[k]),
{
    lemma_uuid_array(f.values);
    lemma_uuid_values_all(f.values);
    assert forall|i: int| 0 <= i < f.values.len() implies !(#[trigger] f.values[i] is Null) by {}
    lemma_no_nulls_counted(f.values);
}

proof fn lemma_uuid_values_all(vs: Seq<ValueModel>)
    requires
        forall|i: int| 0 <= i < vs.len() ==> #[trigger] vs[i] is Uuid,
    ensures
        uuid_values(vs).len() == vs.len(),
        forall|k: int| 0 <= k < vs.len() ==> vs[k] == ValueModel::Uuid(#[trigger] uuid_values(vs)[k]),
    decreases vs.len(),
{
    if vs.len() > 0 {
        let rest = vs.drop_last();
        assert forall|i: int| 0 <= i < rest.len() implies #[trigger] rest[i] is Uuid by {
            assert(rest[i] == vs[i]);
        }
        lemma_uuid_values_all(rest);
        assert(vs[vs.len() - 1] is Uuid);
        assert(uuid_values(vs) =~= uuid_values(rest).push(vs.last()->Uuid_0));
        assert forall|k: int| 0 <= k < vs.len() implies vs[k] == ValueModel::Uuid(#[trigger] uuid_values(vs)[k]) by {
            if k < rest.len() {
                assert(rest[k] == vs[k]);
            }
        }
    }
}

/// Привязка `In`/`NotIn` по целым: фильтр по непустому списку целых `Int`
/// (без `Null`) привязывает ровно один массив -- все эти числа по порядку.
pub proof fn lemma_in_binds_all_ints(f: FilterModel)
    requires
        f.kind == SelectionKind::In || f.kind == SelectionKind::NotIn,
        f.values.len() > 0,
        forall|i: int| 0 <= i < f.values.len() ==> #[trigger] f.values[i] is Int,
    ensures
        filter_binds(f) == seq![BindModel::Array(AggrModel::Int(int_values(f.values)))],
        int_values(f.values).len() == f.values.len(),
{
    lemma_int_array(f.values);
    assert forall|i: int| 0 <= i < f.values.len() implies !(#[trigger] f.values[i] is Null) by {}
    lemma_no_nulls_counted(f.values);
    lemma_int_values_len(f.values);
}

proof fn lemma_int_values_len(vs: Seq<ValueModel>)
    requires
        forall|i: int| 0 <= i < vs.len() ==> #[trigger] vs[i] is Int,
    ensures
        int_values(vs).len() == vs.len(),
    decreases vs.len(),
{
    if vs.len() > 0 {
        let rest = vs.drop_last();
        assert forall|i: int| 0 <= i < rest.len() implies #[trigger] rest[i] is Int by {
            assert(rest[i] == vs[i]);
        }
        lemma_int_values_len(rest);
        assert(vs[vs.len() - 1] is Int);
        assert(int_values(vs) =~= int_values(rest).push(vs.last()->Int_0));
    }
}

/// Привязка сравнения: фильтр сравнения с одним значением (не `Null`)
/// привязывает ровно это значение.
pub proof fn lemma_comparison_binds_value(f: FilterModel)
    requires
        f.kind == SelectionKind::Less || f.kind == SelectionKind::LessEqual || f.kind == SelectionKind::Greater
            || f.kind == SelectionKind::GreaterEqual || f.kind == SelectionKind::Equals || f.kind == SelectionKind::NotEquals,
        f.values.len() == 1,
        !(f.values[0] is Null),
    ensures
        filter_binds(f) == seq![BindModel::Value(f.values[0])],
{
    lemma_no_nulls_counted(f.values);
    let nn = crate::db_item::selection::filters::non_null_values(f.values);
    assert(f.values.drop_last().len() == 0);
    assert(crate::db_item::selection::filters::non_null_values(f.values.drop_last()) =~= Seq::<ValueModel>::empty());
    assert(f.values.last() == f.values[0]);
    assert(nn =~= seq![f.values[0]]);
    assert(nn.map_values(|v: ValueModel| BindModel::Value(v)) =~= seq![BindModel::Value(f.values[0])]);
}

} // verus!
