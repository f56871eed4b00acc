//! Сверка новых записей со старыми перед записью истории изменений полей.
use crate::collections::{uuid_index_contents, uuid_index_from, uuid_index_remove, uuid_pairs_map};
use crate::date_time::AsezTimestamp;
use crate::db_item::selection::filters::{SelectionKind, TreeModel};
use crate::db_item::selection::{Select, SelectModel};
use crate::db_item::table::DbTable;
use crate::db_item::traits::Field;
use crate::text::{contains_str, copy_string, copy_strings, join_strings, lemma_strings_view_push, lemma_take_push, seq_join, strings_view};
use crate::value::{uuid_display, uuid_text, Value, ValueModel};
use vstd::prelude::*;

verus! {

/// Контекст обновления: кто и когда меняет записи.
#[derive(Debug, Clone, Copy)]
pub struct UpdateCtx {
    pub user_id: i32,
    pub timestamp: AsezTimestamp,
    /// Обновление на основе внешних данных: контекстные поля не выставляются.
    pub is_external: bool,
}

impl UpdateCtx {
    /// Контекст пользователя `user_id` на текущий момент (с точностью до
    /// микросекунд, как хранит база).
    pub fn new(user_id: i32) -> (r: Self)
        ensures
            r.user_id == user_id,
            !r.is_external,
    {
        UpdateCtx { user_id, timestamp: AsezTimestamp::now_us(), is_external: false }
    }
}

/// Запись, история изменений полей которой ведётся.
pub trait ProcessUpsert: Sized {
    /// Таблица записей.
    fn table_name() -> &'static str;

    /// Поля, которые заполняет контекст обновления (в историю не пишутся).
    fn ctx_update_fields() -> Vec<String>;

    /// UUID записи.
    fn record_uuid(&self) -> u128;

    /// Поля, значения которых у `other` отличаются от значений `self`
    /// (со значениями `other`).
    fn differing_fields(&self, other: &Self) -> Vec<Field>;

    /// Все поля записи со значениями.
    fn fields_with_values(&self) -> Vec<Field>;

    /// Заполнение полей при обновлении записи по контексту.
    fn apply_update_ctx(&mut self, ctx: &UpdateCtx);

    /// Заполнение полей при создании записи по контексту.
    fn apply_insert_ctx(&mut self, ctx: &UpdateCtx);
}

/// Запись `item` после заполнения полей контекстом обновления `ctx`
/// (`ProcessUpsert::apply_update_ctx` её типа).
pub fn with_update_ctx<I: ProcessUpsert>(item: I, ctx: &UpdateCtx) -> (r: I)
    ensures
        exists|m: &mut I| mut_ref_current(m) == item && mut_ref_future(m) == r
            && #[trigger] call_ensures(I::apply_update_ctx, (m, ctx), ()),
{
    let mut x = item;
    x.apply_update_ctx(ctx);
    x
}

/// Запись `item` после заполнения полей контекстом создания `ctx`
/// (`ProcessUpsert::apply_insert_ctx` её типа).
pub fn with_insert_ctx<I: ProcessUpsert>(item: I, ctx: &UpdateCtx) -> (r: I)
    ensures
        exists|m: &mut I| mut_ref_current(m) == item && mut_ref_future(m) == r
            && #[trigger] call_ensures(I::apply_insert_ctx, (m, ctx), ()),
{
    let mut x = item;
    x.apply_insert_ctx(ctx);
    x
}

/// Изменение поля записи для истории.
#[derive(Debug, PartialEq)]
pub struct NewFieldChange {
    pub record_uuid: u128,
    pub table_name: String,
    pub field_name: String,
    pub field_value: Option<Value>,
}

impl NewFieldChange {
    /// Изменение по полю записи `uuid` таблицы `table_name`.
    pub fn from_field(f: Field, uuid: u128, table_name: &str) -> (r: Self)
        ensures
            r.record_uuid == uuid,
            r.table_name@ == table_name@,
            r.field_name@ == f.name(),
            r.field_value == f.stored_value(),
    {
        let field_name = String::from_str(f.field());
        NewFieldChange { record_uuid: uuid, table_name: String::from_str(table_name), field_name, field_value: f.into_value() }
    }
}

/// Итог сверки.
#[derive(Debug)]
pub struct CrossCheckResult<I> {
    /// Записи для записи в базу: изменённые и новые.
    pub items: Vec<I>,
    /// Записи без изменений в отслеживаемых полях.
    pub unchanged_items: Vec<I>,
    /// Прежние версии изменённых записей.
    pub old_items: Vec<I>,
    /// Изменения отслеживаемых полей.
    pub changes: Vec<NewFieldChange>,
    /// UUID новых записей.
    pub new_uuids: Vec<u128>,
}

/// Сколько позиций ещё хранят запись.
pub open spec fn filled_slots<I>(s: Seq<Option<I>>) -> nat
    decreases s.len(),
{
    if s.len() == 0 {
        0
    } else {
        filled_slots(s.drop_last()) + if s.last() is Some { 1nat } else { 0nat }
    }
}

/// Освобождение занятой позиции уменьшает число занятых на одну.
proof fn lemma_filled_slots_take<I>(s: Seq<Option<I>>, i: int)
    requires
        0 <= i < s.len(),
        s[i] is Some,
    ensures
        filled_slots(s.update(i, None)) + 1 == filled_slots(s),
    decreases s.len(),
{
    let t = s.update(i, None);
    if i == s.len() - 1 {
        assert(t.drop_last() =~= s.drop_last());
    } else {
        assert(t.drop_last() =~= s.drop_last().update(i, None));
        lemma_filled_slots_take(s.drop_last(), i);
    }
}

/// Позиции, собранные по UUID записей: каждая позиция указывает на запись с этим
/// UUID, и ключи -- ровно UUID записей.
proof fn lemma_uuid_pairs_positions(ps: Seq<(u128, usize)>, us: Seq<u128>)
    requires
        ps.len() == us.len(),
        forall|j: int| 0 <= j < ps.len() ==> #[trigger] ps[j].0 == us[j] && ps[j].1 == j,
    ensures
        forall|k: u128| #[trigger] uuid_pairs_map(ps).contains_key(k) ==> uuid_pairs_map(ps)[k] < ps.len()
            && us[uuid_pairs_map(ps)[k] as int] == k,
        forall|k: u128| #[trigger] uuid_pairs_map(ps).contains_key(k) <==> us.contains(k),
    decreases ps.len(),
{
    if ps.len() > 0 {
        let qs = ps.drop_last();
        assert forall|j: int| 0 <= j < qs.len() implies #[trigger] qs[j].0 == us.drop_last()[j] && qs[j].1 == j by {
            assert(qs[j] == ps[j]);
        }
        lemma_uuid_pairs_positions(qs, us.drop_last());
        let m = uuid_pairs_map(ps);
        assert forall|k: u128| #[trigger] m.contains_key(k) implies m[k] < ps.len() && us[m[k] as int] == k by {
            if k == ps.last().0 {
                assert(ps[ps.len() - 1].0 == us[ps.len() - 1]);
            } else {
                assert(uuid_pairs_map(qs).contains_key(k));
                assert(us.drop_last()[uuid_pairs_map(qs)[k] as int] == us[uuid_pairs_map(qs)[k] as int]);
            }
        }
        assert forall|k: u128| #[trigger] m.contains_key(k) <==> us.contains(k) by {
            assert(ps[ps.len() - 1].0 == us[ps.len() - 1]);
            if us.contains(k) {
                let j = choose|j: int| 0 <= j < us.len() && us[j] == k;
                if j < us.len() - 1 {
                    assert(us.drop_last()[j] == k);
                }
            }
            if us.drop_last().contains(k) {
                let j = choose|j: int| 0 <= j < us.drop_last().len() && us.drop_last()[j] == k;
                assert(us[j] == k);
            }
        }
    } else {
        assert forall|k: u128| #[trigger] uuid_pairs_map(ps).contains_key(k) <==> us.contains(k) by {}
    }
}

/// Изменение поля для истории: UUID записи, таблица, поле, значение.
pub type ChangeModel = (u128, Seq<char>, Seq<char>, Option<Value>);

/// Изменение в виде значений.
pub open spec fn change_model(c: NewFieldChange) -> ChangeModel {
    (c.record_uuid, c.table_name@, c.field_name@, c.field_value)
}

/// Изменения в виде значений.
pub open spec fn changes_model(cs: Seq<NewFieldChange>) -> Seq<ChangeModel> {
    cs.map_values(|c: NewFieldChange| change_model(c))
}

/// Изменения отслеживаемых полей: поля из `fs` с именами из `fields`, по порядку,
/// как изменения записи `uuid` таблицы `table`.
pub open spec fn tracked_changes(fs: Seq<Field>, fields: Seq<Seq<char>>, uuid: u128, table: Seq<char>) -> Seq<ChangeModel>
    decreases fs.len(),
{
    if fs.len() == 0 {
        seq![]
    } else {
        let rest = tracked_changes(fs.drop_last(), fields, uuid, table);
        if fields.contains(fs.last().name()) {
            rest.push((uuid, table, fs.last().name(), fs.last().stored_value()))
        } else {
            rest
        }
    }
}

/// Изменения без полей контекста обновления `ctx_fields`.
pub open spec fn without_ctx(cs: Seq<ChangeModel>, ctx_fields: Seq<Seq<char>>) -> Seq<ChangeModel>
    decreases cs.len(),
{
    if cs.len() == 0 {
        seq![]
    } else {
        let rest = without_ctx(cs.drop_last(), ctx_fields);
        if ctx_fields.contains(cs.last().2) {
            rest
        } else {
            rest.push(cs.last())
        }
    }
}

/// Элементы `s`, у которых маршрут `route` равен `tag`, по порядку.
pub open spec fn picked<T>(s: Seq<T>, route: Seq<u8>, tag: u8) -> Seq<T>
    decreases s.len(),
{
    if s.len() == 0 {
        seq![]
    } else {
        let rest = picked(s.drop_last(), route.drop_last(), tag);
        if route[s.len() - 1] == tag {
            rest.push(s.last())
        } else {
            rest
        }
    }
}

/// Элементы `s`, идущие в запись (маршрут 1 -- изменённая, 2 -- новая), по порядку.
pub open spec fn picked_written<T>(s: Seq<T>, route: Seq<u8>) -> Seq<T>
    decreases s.len(),
{
    if s.len() == 0 {
        seq![]
    } else {
        let rest = picked_written(s.drop_last(), route.drop_last());
        if route[s.len() - 1] != 0 {
            rest.push(s.last())
        } else {
            rest
        }
    }
}

/// Изменения всех записей подряд.
pub open spec fn flat_changes(cs: Seq<Seq<ChangeModel>>) -> Seq<ChangeModel>
    decreases cs.len(),
{
    if cs.len() == 0 {
        seq![]
    } else {
        flat_changes(cs.drop_last()) + cs.last()
    }
}

/// Запись с UUID `u`, перед которой шли записи с UUID `earlier`, сверяется со
/// старой: UUID есть у старых и не встречался раньше.
pub open spec fn first_old_match(old_uuids: Seq<u128>, earlier: Seq<u128>, u: u128) -> bool {
    old_uuids.contains(u) && !earlier.contains(u)
}

/// Шаг сверки новой записи `item` (UUID `u`, перед ней -- UUID `earlier`).
/// Маршрут: 0 -- без изменений, 1 -- изменённая (в паре со старой `old[pos]`),
/// 2 -- новая. `after` -- записываемая запись: для изменённой -- `item` после
/// контекста обновления `update_ctx` ([`with_update_ctx`]), для новой -- после
/// контекста создания ([`with_insert_ctx`]). `fs` -- ответ `differing_fields`
/// старой записи для изменённой или `fields_with_values` записи `after` для
/// новой; `u2` -- UUID `after` для новой; `cs` -- изменения записи.
pub open spec fn crosscheck_step<I: ProcessUpsert>(
    old: Seq<I>,
    old_uuids: Seq<u128>,
    fields: Seq<Seq<char>>,
    table: Seq<char>,
    ctx_fields: Seq<Seq<char>>,
    update_ctx: &UpdateCtx,
    item: I,
    earlier: Seq<u128>,
    u: u128,
    route: u8,
    pos: int,
    old_item: I,
    fs: Vec<Field>,
    after: I,
    u2: u128,
    cs: Seq<ChangeModel>,
) -> bool {
    &&& call_ensures(I::record_uuid, (&item,), u)
    &&& route <= 2
    &&& (route == 2 <==> !first_old_match(old_uuids, earlier, u))
    &&& route != 2 ==> {
        &&& 0 <= pos < old.len()
        &&& old_uuids[pos] == u
        &&& old_item == old[pos]
        &&& call_ensures(I::differing_fields, (&old_item, &item), fs)
        &&& (route == 1 <==> tracked_changes(fs@, fields, u, table).len() > 0)
    }
    &&& route == 0 ==> after == item && cs == Seq::<ChangeModel>::empty()
    &&& route == 1 ==> cs == without_ctx(tracked_changes(fs@, fields, u, table), ctx_fields)
        && call_ensures(with_update_ctx::<I>, (item, update_ctx), after)
    &&& route == 2 ==> {
        &&& call_ensures(with_insert_ctx::<I>, (item, update_ctx), after)
        &&& call_ensures(I::fields_with_values, (&after,), fs)
        &&& call_ensures(I::record_uuid, (&after,), u2)
        &&& cs == without_ctx(tracked_changes(fs@, fields, u, table), ctx_fields)
    }
}

/// Сверка записей `new` со старыми `old` по полям `fields` в контексте
/// `update_ctx` дала `r`: `table` и `ctx` -- ответы `table_name` и
/// `ctx_update_fields`, `old_uuids` -- UUID
/// старых записей, остальные последовательности -- шаги по новым записям
/// (см. [`crosscheck_step`]).
pub open spec fn crosscheck_outcome<I: ProcessUpsert>(
    old: Seq<I>,
    new: Seq<I>,
    fields: Seq<Seq<char>>,
    r: CrossCheckResult<I>,
    update_ctx: &UpdateCtx,
    table: &'static str,
    ctx: Vec<String>,
    old_uuids: Seq<u128>,
    new_uuids: Seq<u128>,
    routes: Seq<u8>,
    positions: Seq<int>,
    old_items: Seq<I>,
    field_lists: Seq<Vec<Field>>,
    afters: Seq<I>,
    uuids_after: Seq<u128>,
    changes: Seq<Seq<ChangeModel>>,
) -> bool {
    &&& call_ensures(I::table_name, (), table)
    &&& call_ensures(I::ctx_update_fields, (), ctx)
    &&& old_uuids.len() == old.len()
    &&& forall|j: int| 0 <= j < old.len() ==> call_ensures(I::record_uuid, (&#[trigger] old[j],), old_uuids[j])
    &&& new_uuids.len() == new.len() && routes.len() == new.len() && positions.len() == new.len()
    &&& old_items.len() == new.len() && field_lists.len() == new.len() && afters.len() == new.len()
    &&& uuids_after.len() == new.len() && changes.len() == new.len()
    &&& forall|p: int| 0 <= p < new.len() ==> #[trigger] crosscheck_step(old, old_uuids, fields, table@, strings_view(ctx@), update_ctx,
        new[p], new_uuids.take(p), new_uuids[p], routes[p], positions[p], old_items[p], field_lists[p], afters[p],
        uuids_after[p], changes[p])
    &&& r.unchanged_items@ == picked(new, routes, 0)
    &&& r.items@ == picked_written(afters, routes)
    &&& r.old_items@ == picked(old_items, routes, 1)
    &&& r.new_uuids@ == picked(uuids_after, routes, 2)
    &&& changes_model(r.changes@) == flat_changes(changes)
}

/// Сверяет новые записи `new` со старыми `old` по UUID. Запись с UUID из
/// старых сравнивается со старой: если отличаются поля из `fields`, она
/// получает контекст обновления и идёт в запись вместе со старой версией и
/// изменениями этих полей (кроме контекстных), иначе -- в неизменённые.
/// Запись без старой версии получает контекст создания и идёт в запись с
/// изменениями всех своих полей из `fields` (кроме контекстных).
pub fn crosscheck<I: ProcessUpsert>(old: Vec<I>, new: Vec<I>, fields: &Vec<String>, ctx: &UpdateCtx) -> (r: CrossCheckResult<I>)
    ensures
        r.items@.len() + r.unchanged_items@.len() == new@.len(),
        r.old_items@.len() + r.new_uuids@.len() == r.items@.len(),
        r.old_items@.len() <= old@.len(),
        forall|j: int| 0 <= j < r.unchanged_items@.len() ==> new@.contains(#[trigger] r.unchanged_items@[j]),
        forall|j: int| 0 <= j < r.old_items@.len() ==> old@.contains(#[trigger] r.old_items@[j]),
        forall|k: int| 0 <= k < r.changes@.len() ==> strings_view(fields@).contains(#[trigger] r.changes@[k].field_name@),
        exists|table: &'static str, ctx_fields: Vec<String>, old_uuids: Seq<u128>, new_uuids: Seq<u128>, routes: Seq<u8>,
            positions: Seq<int>, old_items: Seq<I>, field_lists: Seq<Vec<Field>>, afters: Seq<I>, uuids_after: Seq<u128>,
            changes: Seq<Seq<ChangeModel>>| #[trigger] crosscheck_outcome(old@, new@, strings_view(fields@), r, ctx, table, ctx_fields,
            old_uuids, new_uuids, routes, positions, old_items, field_lists, afters, uuids_after, changes),
{
    let table = I::table_name();
    let ctx_fields = I::ctx_update_fields();
    let ghost fields_v = strings_view(fields@);
    let ghost ctx_v = strings_view(ctx_fields@);
    let total: usize = old.len();
    let ghost all_old = old@;
    let ghost mut us: Seq<u128> = seq![];
    let mut pairs: Vec<(u128, usize)> = Vec::new();
    let mut slots: Vec<Option<I>> = Vec::new();
    let mut i: usize = 0;
    for o in it: old
        invariant
            all_old == it.seq(),
            all_old.len() == total,
            i == it.index(),
            us.len() == i,
            pairs@.len() == i,
            slots@.len() == i,
            forall|j: int| 0 <= j < i ==> #[trigger] pairs@[j].0 == us[j] && pairs@[j].1 == j,
            forall|j: int| 0 <= j < i ==> #[trigger] slots@[j] == Some(all_old[j]),
            forall|j: int| 0 <= j < i ==> call_ensures(I::record_uuid, (&#[trigger] all_old[j],), us[j]),
            filled_slots(slots@) == i,
    {
        let u = o.record_uuid();
        pairs.push((u, i));
        let ghost before = slots@;
        slots.push(Some(o));
        proof {
            us = us.push(u);
            assert(slots@.drop_last() =~= before);
        }
        i = i + 1;
    }
    proof {
        lemma_uuid_pairs_positions(pairs@, us);
    }
    let mut index = uuid_index_from(pairs);
    let ghost n_old = all_old.len();
    let ghost all_new = new@;
    let ghost mut nus: Seq<u128> = seq![];
    let ghost mut routes: Seq<u8> = seq![];
    let ghost mut positions: Seq<int> = seq![];
    let ghost mut olds: Seq<I> = seq![];
    let ghost mut lists: Seq<Vec<Field>> = seq![];
    let ghost mut afters: Seq<I> = seq![];
    let ghost mut uuids_after: Seq<u128> = seq![];
    let ghost mut cs: Seq<Seq<ChangeModel>> = seq![];
    let mut items: Vec<I> = Vec::new();
    let mut unchanged_items: Vec<I> = Vec::new();
    let mut old_items: Vec<I> = Vec::new();
    let mut new_uuids: Vec<u128> = Vec::new();
    let mut all_changes: Vec<NewFieldChange> = Vec::new();
    for item in it: new
        invariant
            all_new == it.seq(),
            us.len() == n_old,
            slots@.len() == n_old,
            n_old == all_old.len(),
            fields_v == strings_view(fields@),
            ctx_v == strings_view(ctx_fields@),
            call_ensures(I::table_name, (), table),
            call_ensures(I::ctx_update_fields, (), ctx_fields),
            forall|j: int| 0 <= j < n_old ==> call_ensures(I::record_uuid, (&#[trigger] all_old[j],), us[j]),
            forall|k: u128| #[trigger] uuid_index_contents(index).contains_key(k) ==> uuid_index_contents(index)[k] < n_old
                && us[uuid_index_contents(index)[k] as int] == k && slots@[uuid_index_contents(index)[k] as int] is Some,
            forall|k: u128| #[trigger] uuid_index_contents(index).contains_key(k) <==> (us.contains(k) && !nus.contains(k)),
            forall|j: int| 0 <= j < n_old ==> (#[trigger] slots@[j] matches Some(x) ==> x == all_old[j]),
            nus.len() == it.index(),
            routes.len() == it.index(),
            positions.len() == it.index(),
            olds.len() == it.index(),
            lists.len() == it.index(),
            afters.len() == it.index(),
            uuids_after.len() == it.index(),
            cs.len() == it.index(),
            forall|p: int| 0 <= p < it.index() ==> #[trigger] crosscheck_step(all_old, us, fields_v, table@, ctx_v, ctx,
                all_new[p], nus.take(p), nus[p], routes[p], positions[p], olds[p], lists[p], afters[p], uuids_after[p], cs[p]),
            unchanged_items@ == picked(all_new.take(it.index() as int), routes, 0),
            items@ == picked_written(afters, routes),
            old_items@ == picked(olds, routes, 1),
            new_uuids@ == picked(uuids_after, routes, 2),
            changes_model(all_changes@) == flat_changes(cs),
            items@.len() + unchanged_items@.len() == it.index(),
            old_items@.len() + new_uuids@.len() == items@.len(),
            old_items@.len() + filled_slots(slots@) <= n_old,
            forall|j: int| 0 <= j < unchanged_items@.len() ==> all_new.contains(#[trigger] unchanged_items@[j]),
            forall|j: int| 0 <= j < old_items@.len() ==> all_old.contains(#[trigger] old_items@[j]),
            forall|k: int| 0 <= k < all_changes@.len() ==> strings_view(fields@).contains(#[trigger] all_changes@[k].field_name@),
    {
        let ghost pos = it.index() as int;
        assert(all_new[pos] == item);
        let ghost item0 = item;
        let ghost changes_before = changes_model(all_changes@);
        let mut item = item;
        let uuid = item.record_uuid();
        let ghost before = uuid_index_contents(index);
        let ghost r_route: u8;
        let ghost r_pos: int = 0;
        let ghost r_old: I = item0;
        let ghost r_list: Vec<Field>;
        let ghost r_after: I;
        let ghost r_u2: u128 = 0;
        let ghost r_cs: Seq<ChangeModel>;
        match uuid_index_remove(&mut index, uuid) {
            Some(idx) => {
                assert(before.contains_key(uuid));
                let mut taken: Option<I> = None;
                let ghost slots_before = slots@;
                std::mem::swap(&mut taken, &mut slots[idx]);
                proof {
                    assert(slots@ =~= slots_before.update(idx as int, None));
                    lemma_filled_slots_take(slots_before, idx as int);
                }
                assert(taken == Some(all_old[idx as int]));
                let old_item = taken.unwrap();
                assert forall|k: u128| #[trigger] uuid_index_contents(index).contains_key(k) implies uuid_index_contents(index)[k] < n_old
                    && us[uuid_index_contents(index)[k] as int] == k && slots@[uuid_index_contents(index)[k] as int] is Some by {
                    assert(before.contains_key(k) && k != uuid);
                    assert(uuid_index_contents(index)[k] == before[k]);
                    assert(before[k] != idx);
                }
                let diffs = old_item.differing_fields(&item);
                let ghost diffs_v = diffs@;
                let mut changes: Vec<NewFieldChange> = Vec::new();
                for f in jt: diffs
                    invariant
                        jt.seq() == diffs_v,
                        fields_v == strings_view(fields@),
                        forall|k: int| 0 <= k < changes@.len() ==> strings_view(fields@).contains(#[trigger] changes@[k].field_name@),
                        changes_model(changes@) == tracked_changes(diffs_v.take(jt.index() as int), fields_v, uuid, table@),
                {
                    let ghost jn = jt.index() as int;
                    assert(diffs_v[jn] == f);
                    assert(diffs_v.take(jn + 1).drop_last() =~= diffs_v.take(jn));
                    if contains_str(fields, f.field()) {
                        let ghost cm = changes@;
                        changes.push(NewFieldChange::from_field(f, uuid, table));
                        assert(changes_model(changes@) =~= changes_model(cm).push(change_model(changes@.last())));
                    }
                }
                assert(diffs_v.take(diffs_v.len() as int) =~= diffs_v);
                if changes.len() > 0 {
                    item = with_update_ctx(item, ctx);
                    let ghost tracked_list = changes_model(changes@);
                    let ghost base = changes_model(all_changes@);
                    for c in kt: changes
                        invariant
                            kt.seq().len() == tracked_list.len(),
                            forall|k: int| 0 <= k < kt.seq().len() ==> change_model(#[trigger] kt.seq()[k]) == tracked_list[k],
                            forall|k: int| 0 <= k < kt.seq().len() ==> strings_view(fields@).contains(#[trigger] kt.seq()[k].field_name@),
                            forall|k: int| 0 <= k < all_changes@.len() ==> strings_view(fields@).contains(
                                #[trigger] all_changes@[k].field_name@,
                            ),
                            ctx_v == strings_view(ctx_fields@),
                            changes_model(all_changes@) == base + without_ctx(tracked_list.take(kt.index() as int), ctx_v),
                    {
                        let ghost kn = kt.index() as int;
                        assert(kt.seq()[kn] == c);
                        assert(tracked_list.take(kn + 1).drop_last() =~= tracked_list.take(kn));
                        assert(tracked_list.take(kn + 1).last() == tracked_list[kn]);
                        if !contains_str(&ctx_fields, c.field_name.as_str()) {
                            let ghost am = all_changes@;
                            all_changes.push(c);
                            assert(changes_model(all_changes@) =~= changes_model(am).push(change_model(c)));
                        }
                    }
                    assert(tracked_list.take(tracked_list.len() as int) =~= tracked_list);
                    proof {
                        r_route = 1;
                        r_cs = without_ctx(tracked_list, ctx_v);
                        r_after = item;
                    }
                    items.push(item);
                    old_items.push(old_item);
                } else {
                    proof {
                        r_route = 0;
                        r_cs = Seq::<ChangeModel>::empty();
                        r_after = item;
                    }
                    unchanged_items.push(item);
                }
                proof {
                    r_pos = idx as int;
                    r_old = all_old[idx as int];
                    r_list = diffs;
                }
            },
            None => {
                item = with_insert_ctx(item, ctx);
                let with_values = item.fields_with_values();
                let ghost wv = with_values@;
                let ghost base = changes_model(all_changes@);
                for f in jt: with_values
                    invariant
                        jt.seq() == wv,
                        fields_v == strings_view(fields@),
                        ctx_v == strings_view(ctx_fields@),
                        forall|k: int| 0 <= k < all_changes@.len() ==> strings_view(fields@).contains(
                            #[trigger] all_changes@[k].field_name@,
                        ),
                        changes_model(all_changes@) == base + without_ctx(tracked_changes(wv.take(jt.index() as int), fields_v, uuid, table@), ctx_v),
                {
                    let ghost jn = jt.index() as int;
                    assert(wv[jn] == f);
                    assert(wv.take(jn + 1).drop_last() =~= wv.take(jn));
                    let ghost t0 = tracked_changes(wv.take(jn), fields_v, uuid, table@);
                    if !contains_str(&ctx_fields, f.field()) && contains_str(fields, f.field()) {
                        let ghost am = all_changes@;
                        let c = NewFieldChange::from_field(f, uuid, table);
                        all_changes.push(c);
                        assert(t0.push(change_model(c)).drop_last() =~= t0);
                        assert(changes_model(all_changes@) =~= changes_model(am).push(change_model(c)));
                    } else {
                        if contains_str(fields, f.field()) {
                            let ghost cm: ChangeModel = (uuid, table@, f.name(), f.stored_value());
                            assert(t0.push(cm).drop_last() =~= t0);
                        }
                    }
                }
                assert(wv.take(wv.len() as int) =~= wv);
                let u2 = item.record_uuid();
                proof {
                    r_route = 2;
                    r_list = with_values;
                    r_after = item;
                    r_u2 = u2;
                    r_cs = without_ctx(tracked_changes(wv, fields_v, uuid, table@), ctx_v);
                }
                new_uuids.push(u2);
                items.push(item);
            },
        }
        proof {
            let ghost nus0 = nus;
            let ghost routes0 = routes;
            let ghost positions0 = positions;
            let ghost olds0 = olds;
            let ghost lists0 = lists;
            let ghost afters0 = afters;
            let ghost ua0 = uuids_after;
            let ghost cs0 = cs;
            nus = nus.push(uuid);
            routes = routes.push(r_route);
            positions = positions.push(r_pos);
            olds = olds.push(r_old);
            lists = lists.push(r_list);
            afters = afters.push(r_after);
            uuids_after = uuids_after.push(r_u2);
            cs = cs.push(r_cs);
            assert(nus.take(pos) =~= nus0);
            assert(crosscheck_step(all_old, us, fields_v, table@, ctx_v, ctx,
                all_new[pos], nus.take(pos), nus[pos], routes[pos], positions[pos], olds[pos], lists[pos], afters[pos], uuids_after[pos], cs[pos]));
            assert forall|p: int| 0 <= p < pos + 1 implies #[trigger] crosscheck_step(all_old, us, fields_v, table@, ctx_v, ctx,
                all_new[p], nus.take(p), nus[p], routes[p], positions[p], olds[p], lists[p], afters[p], uuids_after[p], cs[p]) by {
                if p < pos {
                    assert(nus.take(p) =~= nus0.take(p));
                    assert(crosscheck_step(all_old, us, fields_v, table@, ctx_v, ctx,
                        all_new[p], nus0.take(p), nus0[p], routes0[p], positions0[p], olds0[p], lists0[p], afters0[p], ua0[p], cs0[p]));
                }
            }
            assert(all_new.take(pos + 1).drop_last() =~= all_new.take(pos));
            assert(routes.drop_last() =~= routes0);
            assert(afters.drop_last() =~= afters0);
            assert(olds.drop_last() =~= olds0);
            assert(uuids_after.drop_last() =~= ua0);
            assert(cs.drop_last() =~= cs0);
            assert forall|k: u128| #[trigger] uuid_index_contents(index).contains_key(k) <==> (us.contains(k) && !nus.contains(k)) by {
                if nus.contains(k) && !nus0.contains(k) {
                    assert(k == uuid);
                }
                if nus0.contains(k) {
                    let q = choose|q: int| 0 <= q < nus0.len() && nus0[q] == k;
                    assert(nus[q] == k);
                }
            }
        }
    }
    assert(all_new.take(all_new.len() as int) =~= all_new);
    let r = CrossCheckResult { items, unchanged_items, old_items, changes: all_changes, new_uuids };
    assert(crosscheck_outcome(all_old, all_new, fields_v, r, ctx, table, ctx_fields, us, nus, routes, positions, olds, lists, afters, uuids_after, cs));
    r
}


/// Имена без повторов: каждое имя в месте первого появления.
pub open spec fn first_occurrences(s: Seq<Seq<char>>) -> Seq<Seq<char>>
    decreases s.len(),
{
    if s.len() == 0 {
        seq![]
    } else {
        let p = first_occurrences(s.drop_last());
        if p.contains(s.last()) {
            p
        } else {
            p.push(s.last())
        }
    }
}

/// Дописывает имя, если его ещё нет в списке.
fn push_first(names: &mut Vec<String>, name: &String)
    ensures
        strings_view(final(names)@) == (if strings_view(old(names)@).contains(name@) {
            strings_view(old(names)@)
        } else {
            strings_view(old(names)@).push(name@)
        }),
{
    if !contains_str(names, name.as_str()) {
        let ghost before = names@;
        names.push(copy_string(name));
        assert(strings_view(names@) =~= strings_view(before).push(name@));
    }
}

/// Выборка прежних версий записей: колонки `fields` и первичные ключи таблицы
/// (без повторов) и фильтр `uuid = ANY(...)` по UUID записей.
pub fn make_select_by_uuids<I: ProcessUpsert>(items: &Vec<I>, fields: &Vec<String>, t: &DbTable) -> (r: Select)
    ensures
        r@.field_list == first_occurrences(strings_view(fields@) + strings_view(t.primary_keys@)),
        r@.filter_list matches TreeModel::Filter(f) && f.field == "uuid"@ && f.kind == SelectionKind::In
            && f.values.len() == items@.len() && forall|k: int| 0 <= k < f.values.len() ==> #[trigger] f.values[k] is Uuid,
        r@.order_list.len() == 0,
        r@.distinct_on.len() == 0,
        r@.offset is None && r@.take_n is None && r@.count_total is None,
        !r@.skip_main_check,
{
    let ghost all = strings_view(fields@) + strings_view(t.primary_keys@);
    let ghost nf = fields@.len() as int;
    let mut names: Vec<String> = Vec::new();
    let mut i: usize = 0;
    while i < fields.len()
        invariant
            nf == fields@.len(),
            all == strings_view(fields@) + strings_view(t.primary_keys@),
            i <= fields@.len(),
            strings_view(names@) == first_occurrences(all.take(i as int)),
        decreases fields.len() - i,
    {
        push_first(&mut names, &fields[i]);
        assert(fields[i as int]@ == all[i as int]);
        assert(all.take(i + 1).drop_last() =~= all.take(i as int));
        i = i + 1;
    }
    let mut j: usize = 0;
    while j < t.primary_keys.len()
        invariant
            nf == fields@.len(),
            all == strings_view(fields@) + strings_view(t.primary_keys@),
            j <= t.primary_keys@.len(),
            strings_view(names@) == first_occurrences(all.take(nf + j)),
        decreases t.primary_keys.len() - j,
    {
        push_first(&mut names, &t.primary_keys[j]);
        assert(t.primary_keys[j as int]@ == all[nf + j]);
        assert(all.take(nf + j + 1).drop_last() =~= all.take(nf + j));
        j = j + 1;
    }
    assert(all.take(nf + t.primary_keys@.len()) =~= all);
    let mut uuids: Vec<Value> = Vec::new();
    let mut k: usize = 0;
    while k < items.len()
        invariant
            k <= items@.len(),
            uuids@.len() == k,
            forall|j: int| 0 <= j < k ==> #[trigger] uuids@[j] is Uuid,
        decreases items.len() - k,
    {
        uuids.push(Value::Uuid(items[k].record_uuid()));
        k = k + 1;
    }
    let r = Select::with_fields(names).add_expand_filter("uuid", SelectionKind::In, uuids);
    proof {
        reveal_strlit("uuid");
    }
    r
}


/// Режим записи истории: вставка, обновление или вставка с обновлением.
#[derive(Debug, Clone, Copy, PartialEq, Eq, Structural)]
pub enum HistorianMode {
    Insert,
    Update,
    Upsert,
}

/// Текст отказа в обновлении несуществующих строк.
pub open spec fn missing_rows_text(uuids: Seq<u128>) -> Seq<char> {
    "Строки с UUID "@ + seq_join(uuids.map_values(|u: u128| uuid_display(u as int)), ", "@) + " не существует."@
}

/// Сообщение об обновлении строк, которых нет в базе.
pub fn missing_rows_message(new_uuids: &Vec<u128>) -> (r: String)
    ensures
        r@ == missing_rows_text(new_uuids@),
{
    let ghost target = new_uuids@.map_values(|u: u128| uuid_display(u as int));
    let mut parts: Vec<String> = Vec::new();
    let mut i: usize = 0;
    while i < new_uuids.len()
        invariant
            i <= new_uuids@.len(),
            target == new_uuids@.map_values(|u: u128| uuid_display(u as int)),
            strings_view(parts@) == target.take(i as int),
        decreases new_uuids.len() - i,
    {
        let t = uuid_text(new_uuids[i]);
        let ghost before = parts@;
        parts.push(t);
        proof {
            lemma_strings_view_push(before, t);
            lemma_take_push(target, i as int);
        }
        i = i + 1;
    }
    assert(target.take(new_uuids@.len() as int) =~= target);
    let joined = join_strings(&parts, ", ");
    let mut r = String::from_str("Строки с UUID ");
    r.append(joined.as_str());
    r.append(" не существует.");
    r
}

/// Колонки, которые пишутся при завершении: при обновлении к отслеживаемым
/// добавляются поля контекста обновления.
pub fn completion_fields(fields_to_update: &Vec<String>, ctx_fields: &Vec<String>, mode: HistorianMode) -> (r: Vec<String>)
    ensures
        strings_view(r@) == (if mode == HistorianMode::Insert {
            strings_view(fields_to_update@)
        } else {
            strings_view(fields_to_update@) + strings_view(ctx_fields@)
        }),
{
    let mut out = copy_strings(fields_to_update);
    if mode != HistorianMode::Insert {
        let mut extra = copy_strings(ctx_fields);
        let ghost a = strings_view(out@);
        let ghost b = strings_view(extra@);
        out.append(&mut extra);
        assert(strings_view(out@) =~= a + b);
    }
    out
}


} // verus!
