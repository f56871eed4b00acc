//! Условие WHERE обновлений: строка совпадает, только если совпадают все колонки первичного ключа.
use crate::db_item::query::{pkey_conditions, update_query_text, update_vec_query_text, upd_where_text};
use crate::db_item::table::DbTable;
use crate::text::{dec_text, seq_join, strings_view};
use vstd::prelude::*;

verus! {

/// `t.k1=upd.k1 AND t.k2=upd.k2 AND ...`: каждая колонка ключа обновляемой
/// строки `t` равна одноимённой колонке строки значений `upd`, и условия
/// соединены `AND`.
pub open spec fn every_key_equals_values(keys: Seq<Seq<char>>) -> Seq<char>
    decreases keys.len(),
{
    if keys.len() == 0 {
        seq![]
    } else if keys.len() == 1 {
        "t."@ + keys[0] + "=upd."@ + keys[0]
    } else {
        every_key_equals_values(keys.drop_last()) + " AND "@ + "t."@ + keys.last() + "=upd."@ + keys.last()
    }
}

/// `k1=$n+1 AND k2=$n+2 AND ...`: каждая колонка ключа равна своей привязке
/// (номера продолжают `shift` привязок SET), условия соединены `AND`.
pub open spec fn every_key_equals_binding(keys: Seq<Seq<char>>, shift: nat) -> Seq<char>
    decreases keys.len(),
{
    if keys.len() == 0 {
        seq![]
    } else if keys.len() == 1 {
        keys[0] + "=$"@ + dec_text(shift + 1)
    } else {
        every_key_equals_binding(keys.drop_last(), shift) + " AND "@ + keys.last() + "=$"@ + dec_text(shift + keys.len())
    }
}

proof fn lemma_where_values(keys: Seq<Seq<char>>)
    ensures
        upd_where_text(keys) == every_key_equals_values(keys),
    decreases keys.len(),
{
    let f = |k: Seq<char>| "t."@ + k + "=upd."@ + k;
    if keys.len() > 1 {
        lemma_where_values(keys.drop_last());
        assert(keys.map_values(f).drop_last() =~= keys.drop_last().map_values(f));
    } else if keys.len() == 1 {
        assert(keys.map_values(f) =~= seq![f(keys[0])]);
    } else {
        assert(keys.map_values(f) =~= Seq::<Seq<char>>::empty());
    }
}

proof fn lemma_where_bindings(keys: Seq<Seq<char>>, shift: nat)
    ensures
        seq_join(pkey_conditions(keys, shift), " AND "@) == every_key_equals_binding(keys, shift),
    decreases keys.len(),
{
    if keys.len() > 1 {
        lemma_where_bindings(keys.drop_last(), shift);
        assert(pkey_conditions(keys, shift).drop_last() =~= pkey_conditions(keys.drop_last(), shift));
    } else if keys.len() == 1 {
        assert(pkey_conditions(keys, shift) =~= seq![keys[0] + "=$"@ + dec_text(shift + 1)]);
    } else {
        assert(pkey_conditions(keys, shift) =~= Seq::<Seq<char>>::empty());
    }
}

/// Массовое обновление (`update_vec_query`) меняет строку таблицы, только если
/// все колонки её первичного ключа равны колонкам строки значений: текст
/// запроса оканчивается на `WHERE t.k1=upd.k1 AND ... AND t.kn=upd.kn`, затем
/// RETURNING (если есть) и `;`.
pub proof fn lemma_bulk_update_matches_whole_key(
    t: &DbTable,
    fields_to_set: Seq<Seq<char>>,
    fields_to_select: Seq<Seq<char>>,
    return_clause: Seq<char>,
    rows: nat,
)
    ensures
        exists|head: Seq<char>| update_vec_query_text(t, fields_to_set, fields_to_select, return_clause, rows)
            == head + "WHERE "@ + every_key_equals_values(strings_view(t.primary_keys@)) + return_clause + ";"@,
{
    lemma_where_values(strings_view(t.primary_keys@));
    let text = update_vec_query_text(t, fields_to_set, fields_to_select, return_clause, rows);
    reveal_strlit(")\n               WHERE ");
    reveal_strlit("WHERE ");
    let lead = ")\n               WHERE "@;
    let head = "UPDATE "@ + t.table@ + " AS t SET\n                "@ + crate::db_item::query::field_mapping_text(fields_to_set)
        + "\n               FROM\n                (values"@ + crate::db_item::query::counters_text(fields_to_select.len(), rows) + ") AS upd("@
        + seq_join(fields_to_select, ","@) + ")\n               "@;
    reveal_strlit(")\n               ");
    assert(")\n               "@ + "WHERE "@ =~= lead);
    assert(text =~= head + "WHERE "@ + every_key_equals_values(strings_view(t.primary_keys@)) + return_clause + ";"@);
}

/// Обновление одной записи (`update_query`) меняет только строку, у которой все
/// колонки первичного ключа равны своим привязкам: текст оканчивается на
/// ` WHERE k1=$m+1 AND ... AND kn=$m+n` (где `m` -- число привязок SET), затем
/// RETURNING (если есть) и `;`.
pub proof fn lemma_single_update_matches_whole_key(t: &DbTable, mask: Seq<bool>, ret: Option<Seq<bool>>)
    ensures
        exists|head: Seq<char>, m: nat| update_query_text(t, mask, ret)
            == head + " WHERE "@ + every_key_equals_binding(strings_view(t.primary_keys@), m)
                + crate::db_item::query::returning_text(t, ret) + ";"@,
{
    let selected = crate::db_item::query::update_columns(t, mask);
    lemma_where_bindings(strings_view(t.primary_keys@), selected.len());
    let head = "UPDATE "@ + t.table@ + " set "@ + crate::db_item::query::set_thread_text(selected);
    assert(update_query_text(t, mask, ret) =~= head + " WHERE "@ + every_key_equals_binding(strings_view(t.primary_keys@), selected.len())
        + crate::db_item::query::returning_text(t, ret) + ";"@);
}

/// `f1=upd.f1,f2=upd.f2,...`: каждая обновляемая колонка получает значение
/// одноимённой колонки строки значений `upd`.
pub open spec fn every_field_from_values(fields: Seq<Seq<char>>) -> Seq<char>
    decreases fields.len(),
{
    if fields.len() == 0 {
        seq![]
    } else if fields.len() == 1 {
        fields[0] + "=upd."@ + fields[0]
    } else {
        every_field_from_values(fields.drop_last()) + ","@ + fields.last() + "=upd."@ + fields.last()
    }
}

proof fn lemma_set_values(fields: Seq<Seq<char>>)
    ensures
        crate::db_item::query::field_mapping_text(fields) == every_field_from_values(fields),
    decreases fields.len(),
{
    let f = |x: Seq<char>| x + "=upd."@ + x;
    if fields.len() > 1 {
        lemma_set_values(fields.drop_last());
        assert(fields.map_values(f).drop_last() =~= fields.drop_last().map_values(f));
    } else if fields.len() == 1 {
        assert(fields.map_values(f) =~= seq![f(fields[0])]);
    } else {
        assert(fields.map_values(f) =~= Seq::<Seq<char>>::empty());
    }
}

/// Массовое обновление присваивает каждой колонке из `fields_to_set` значение
/// одноимённой колонки строки значений: текст начинается с
/// `UPDATE <таблица> AS t SET` и `f1=upd.f1,...,fn=upd.fn`, а строки значений
/// названы колонками `fields_to_select` через запятую.
pub proof fn lemma_bulk_update_sets_from_values(
    t: &DbTable,
    fields_to_set: Seq<Seq<char>>,
    fields_to_select: Seq<Seq<char>>,
    return_clause: Seq<char>,
    rows: nat,
)
    ensures
        exists|mid: Seq<char>, tail: Seq<char>| update_vec_query_text(t, fields_to_set, fields_to_select, return_clause, rows)
            == "UPDATE "@ + t.table@ + " AS t SET\n                "@ + every_field_from_values(fields_to_set) + mid
                + ") AS upd("@ + seq_join(fields_to_select, ","@) + ")"@ + tail,
{
    lemma_set_values(fields_to_set);
    let mid = "\n               FROM\n                (values"@ + crate::db_item::query::counters_text(fields_to_select.len(), rows);
    let tail = "\n               WHERE "@ + upd_where_text(strings_view(t.primary_keys@)) + return_clause + ";"@;
    reveal_strlit(")\n               WHERE ");
    reveal_strlit(")");
    reveal_strlit("\n               WHERE ");
    assert(")"@ + "\n               WHERE "@ =~= ")\n               WHERE "@);
    assert(update_vec_query_text(t, fields_to_set, fields_to_select, return_clause, rows)
        =~= "UPDATE "@ + t.table@ + " AS t SET\n                "@ + every_field_from_values(fields_to_set) + mid
            + ") AS upd("@ + seq_join(fields_to_select, ","@) + ")"@ + tail);
}

} // verus!
