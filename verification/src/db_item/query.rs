//! Тексты запросов INSERT, UPDATE, DELETE, UPSERT и WITH RECURSIVE по описанию таблицы.
use crate::db_item::field_mask::{
    bind_mask_of, masked_names, select_fields_helper, set_at_indices, single_update_mask_of, update_fields_helper,
    update_set_fields_helper, DbFieldMask,
};
use crate::db_item::selection::filters::{model_is_empty, tree_sql, tree_weight, FilterTree, TreeModel};
use crate::db_item::selection::{
    apply_tolerance_to_fields, check_result, mapped_name, select_head, tolerated_pairs, tolerated_select, Select, SelectMaker,
};
use crate::result::SharedDbError;
use crate::db_item::table::DbTable;
use crate::text::{dec_text, join_strings, lemma_strings_view_push, lemma_take_push, seq_join, strings_view, usize_text};
use vstd::prelude::*;

verus! {

/// Наибольшее число привязок в одном запросе PostgreSQL (номер `$n` -- 16 бит).
pub const MAX_BINDINGS: usize = 65535;

/// Наибольшее число строк в одном UNNEST-обновлении.
pub const UPDATE_UNNEST_VALUES: usize = 1_000_000;

/// Привязки `$offset`, `$offset+1`, ... (`count` штук).
pub open spec fn placeholder_list(offset: int, count: nat) -> Seq<Seq<char>> {
    Seq::new(count, |k: int| "$"@ + dec_text((offset + k) as nat))
}

/// Скобка привязок строки `nth` при `len` колонках: `($a,$b,...)`, где нумерация
/// продолжается с `len * nth + 1`; для пустого списка колонок -- `)`.
pub open spec fn counter_text(len: nat, nth: nat) -> Seq<char> {
    if len == 0 {
        ")"@
    } else {
        "("@ + seq_join(placeholder_list((len * nth + 1) as int, len), ","@) + ")"@
    }
}

/// Скобки привязок `rows` строк через запятую.
pub open spec fn counters_text(len: nat, rows: nat) -> Seq<char> {
    seq_join(Seq::new(rows, |i: int| counter_text(len, i as nat)), ","@)
}

fn placeholders(offset: usize, count: usize) -> (r: String)
    requires
        offset + count <= usize::MAX,
    ensures
        r@ == seq_join(placeholder_list(offset as int, count as nat), ","@),
{
    let mut parts: Vec<String> = Vec::new();
    let mut k: usize = 0;
    while k < count
        invariant
            k <= count,
            offset + count <= usize::MAX,
            strings_view(parts@) == placeholder_list(offset as int, k as nat),
        decreases count - k,
    {
        let mut p = String::from_str("$");
        let t = usize_text(offset + k);
        p.append(t.as_str());
        let ghost before = parts@;
        parts.push(p);
        proof {
            lemma_strings_view_push(before, p);
        }
        assert(strings_view(parts@) =~= placeholder_list(offset as int, (k + 1) as nat));
        k = k + 1;
    }
    join_strings(&parts, ",")
}

/// Скобка привязок строки `nth` массовой вставки: для колонок `id, name, address`
/// и `nth = 1` это `($4,$5,$6)`.
pub fn field_counter(fields: &Vec<String>, nth: usize) -> (r: String)
    requires
        fields@.len() * (nth + 1) + 1 <= usize::MAX,
    ensures
        r@ == counter_text(fields@.len(), nth as nat),
{
    let len = fields.len();
    if len == 0 {
        return String::from_str(")");
    }
    assert(len * (nth + 1) == len * nth + len) by (nonlinear_arith);
    assert(0 <= len * nth) by (nonlinear_arith)
        requires
            len >= 0,
            nth >= 0,
    ;
    let offset = len * nth + 1;
    let mut out = String::from_str("(");
    let p = placeholders(offset, len);
    out.append(p.as_str());
    out.append(")");
    out
}

/// Скобки привязок `rows` строк через запятую.
pub fn field_counters(fields: &Vec<String>, rows: usize) -> (r: String)
    requires
        fields@.len() * rows + 1 <= usize::MAX,
    ensures
        r@ == counters_text(fields@.len(), rows as nat),
{
    let ghost target = Seq::new(rows as nat, |i: int| counter_text(fields@.len(), i as nat));
    let mut parts: Vec<String> = Vec::new();
    let mut i: usize = 0;
    while i < rows
        invariant
            i <= rows,
            fields@.len() * rows + 1 <= usize::MAX,
            target == Seq::new(rows as nat, |i: int| counter_text(fields@.len(), i as nat)),
            strings_view(parts@) == target.take(i as int),
        decreases rows - i,
    {
        assert(fields@.len() * (i + 1) <= fields@.len() * rows) by (nonlinear_arith)
            requires
                i + 1 <= rows,
        ;
        let c = field_counter(fields, i);
        let ghost before = parts@;
        parts.push(c);
        proof {
            lemma_strings_view_push(before, c);
            lemma_take_push(target, i as int);
        }
        i = i + 1;
    }
    assert(target.take(rows as int) =~= target);
    join_strings(&parts, ",")
}

impl DbTable {
    /// Все колонки через запятую.
    pub fn fields_string(&self) -> (r: String)
        ensures
            r@ == seq_join(self.names(), ","@),
    {
        join_strings(&self.fields, ",")
    }

    /// Колонки для INSERT через запятую.
    pub fn insert_fields_string(&self) -> (r: String)
        ensures
            r@ == seq_join(strings_view(self.insert_fields@), ","@),
    {
        join_strings(&self.insert_fields, ",")
    }

    /// Скобка привязок строки `nth` по всем колонкам.
    pub fn field_counter(&self, nth: usize) -> (r: String)
        requires
            self.fields@.len() * (nth + 1) + 1 <= usize::MAX,
        ensures
            r@ == counter_text(self.fields@.len(), nth as nat),
    {
        field_counter(&self.fields, nth)
    }

    /// Скобка привязок строки `nth` по колонкам для INSERT.
    pub fn insert_field_counter(&self, nth: usize) -> (r: String)
        requires
            self.insert_fields@.len() * (nth + 1) + 1 <= usize::MAX,
        ensures
            r@ == counter_text(self.insert_fields@.len(), nth as nat),
    {
        field_counter(&self.insert_fields, nth)
    }
}

/// `INSERT INTO table (колонки) values(...),(...)[ returning *];` для `rows` строк.
pub open spec fn insert_query_text(t: &DbTable, rows: nat, returning: bool) -> Seq<char> {
    "INSERT INTO "@ + t.table@ + " ("@ + seq_join(strings_view(t.insert_fields@), ","@) + ") values"@
        + counters_text(t.insert_fields@.len(), rows) + (if returning { " returning *"@ } else { seq![] }) + ";"@
}

/// Текст вставки `rows` строк (одиночная вставка -- `rows == 1`).
pub fn insert_query(t: &DbTable, rows: usize, returning: bool) -> (r: String)
    requires
        t.insert_fields@.len() * rows + 1 <= usize::MAX,
    ensures
        r@ == insert_query_text(t, rows as nat, returning),
{
    let mut q = String::from_str("INSERT INTO ");
    q.append(t.table.as_str());
    q.append(" (");
    let f = t.insert_fields_string();
    q.append(f.as_str());
    q.append(") values");
    let c = field_counters(&t.insert_fields, rows);
    q.append(c.as_str());
    if returning {
        q.append(" returning *");
    }
    q.append(";");
    q
}

/// Размер порции массовой вставки: предел привязок, делённый на длину строки
/// колонок для INSERT (в символах).
pub open spec fn insert_chunk_len(t: &DbTable) -> int {
    MAX_BINDINGS as int / seq_join(strings_view(t.insert_fields@), ","@).len() as int
}

/// Размер порции массовой вставки.
pub fn insert_chunk_size(t: &DbTable) -> (r: usize)
    requires
        seq_join(strings_view(t.insert_fields@), ","@).len() > 0,
    ensures
        r == insert_chunk_len(t),
{
    let f = t.insert_fields_string();
    let n = f.as_str().unicode_len();
    MAX_BINDINGS / n
}

/// Текст UPSERT `rows` строк: вставка, при конфликте первичного ключа --
/// обновление колонок, возврат всех колонок.
pub open spec fn upsert_query_text(t: &DbTable, rows: nat, pkeys: Seq<char>, conflict: Seq<char>) -> Seq<char> {
    "INSERT INTO "@ + t.table@ + "("@ + seq_join(strings_view(t.insert_fields@), ","@) + ") values"@
        + counters_text(t.insert_fields@.len(), rows) + " ON CONFLICT ("@ + pkeys + ") DO UPDATE SET "@ + conflict
        + " RETURNING "@ + seq_join(t.names(), ","@) + ";"@
}

/// Текст UPSERT для `rows` строк.
pub fn gen_upsert_query(t: &DbTable, rows: usize, pkeys: &str, conflict_string: &str) -> (r: String)
    requires
        t.insert_fields@.len() * rows + 1 <= usize::MAX,
    ensures
        r@ == upsert_query_text(t, rows as nat, pkeys@, conflict_string@),
{
    let mut q = String::from_str("INSERT INTO ");
    q.append(t.table.as_str());
    q.append("(");
    let f = t.insert_fields_string();
    q.append(f.as_str());
    q.append(") values");
    let c = field_counters(&t.insert_fields, rows);
    q.append(c.as_str());
    q.append(" ON CONFLICT (");
    q.append(pkeys);
    q.append(") DO UPDATE SET ");
    q.append(conflict_string);
    q.append(" RETURNING ");
    let all = t.fields_string();
    q.append(all.as_str());
    q.append(";");
    q
}

/// `f=excluded.f` для каждой колонки через запятую.
pub open spec fn conflict_text(fields: Seq<Seq<char>>) -> Seq<char> {
    seq_join(fields.map_values(|f: Seq<char>| f + "=excluded."@ + f), ","@)
}

/// Часть `DO UPDATE SET` для UPSERT по колонкам.
pub fn conflict_string(fields: &Vec<String>) -> (r: String)
    ensures
        r@ == conflict_text(strings_view(fields@)),
{
    let ghost target = strings_view(fields@).map_values(|f: Seq<char>| f + "=excluded."@ + f);
    let mut parts: Vec<String> = Vec::new();
    let mut i: usize = 0;
    while i < fields.len()
        invariant
            i <= fields@.len(),
            target == strings_view(fields@).map_values(|f: Seq<char>| f + "=excluded."@ + f),
            strings_view(parts@) == target.take(i as int),
        decreases fields.len() - i,
    {
        let mut p = crate::text::copy_string(&fields[i]);
        p.append("=excluded.");
        p.append(fields[i].as_str());
        let ghost before = parts@;
        parts.push(p);
        proof {
            lemma_strings_view_push(before, p);
            lemma_take_push(target, i as int);
        }
        i = i + 1;
    }
    assert(target.take(fields@.len() as int) =~= target);
    join_strings(&parts, ",")
}

// ---------------------------------------------------------------------------
// UPDATE по первичному ключу.
// ---------------------------------------------------------------------------

/// `k=$n` для `i`-го первичного ключа, нумерация после `shift` привязок.
pub open spec fn pkey_conditions(pkeys: Seq<Seq<char>>, shift: nat) -> Seq<Seq<char>> {
    Seq::new(pkeys.len(), |i: int| pkeys[i] + "=$"@ + dec_text((i + 1 + shift) as nat))
}

/// Часть SET: одна колонка -- `f=($1)`, несколько -- `(f1,f2)=(($1,$2))`.
pub open spec fn set_thread_text(fields: Seq<Seq<char>>) -> Seq<char> {
    let joined = seq_join(fields, ","@);
    let count = counter_text(fields.len(), 0);
    if fields.len() == 1 {
        joined + "="@ + count
    } else {
        "("@ + joined + ")=("@ + count + ")"@
    }
}

/// ` RETURNING колонки` по маске возврата (или ничего).
pub open spec fn returning_text(t: &DbTable, mask: Option<Seq<bool>>) -> Seq<char> {
    match mask {
        Some(m) => " RETURNING "@ + seq_join(masked_names(t.names(), m), ","@),
        None => seq![],
    }
}

/// Колонки, которые обновляются по маске: с первичными ключами, без `GENERATED ALWAYS AS`.
pub open spec fn update_columns(t: &DbTable, mask: Seq<bool>) -> Seq<Seq<char>> {
    masked_names(t.names(), set_at_indices(set_at_indices(mask, true, t.primary_key_indices@), false, t.no_update_indices@))
}

/// Текст UPDATE одной записи по маске обновления и (необязательной) маске возврата.
pub open spec fn update_query_text(t: &DbTable, mask: Seq<bool>, ret: Option<Seq<bool>>) -> Seq<char> {
    let selected = update_columns(t, mask);
    "UPDATE "@ + t.table@ + " set "@ + set_thread_text(selected) + " WHERE "@
        + seq_join(pkey_conditions(strings_view(t.primary_keys@), selected.len()), " AND "@) + returning_text(t, ret) + ";"@
}

fn set_thread(fields: &Vec<String>) -> (r: String)
    requires
        fields@.len() + 1 <= usize::MAX,
    ensures
        r@ == set_thread_text(strings_view(fields@)),
{
    let joined = join_strings(fields, ",");
    let count = field_counter(fields, 0);
    if fields.len() == 1 {
        let mut r = joined;
        r.append("=");
        r.append(count.as_str());
        r
    } else {
        let mut r = String::from_str("(");
        r.append(joined.as_str());
        r.append(")=(");
        r.append(count.as_str());
        r.append(")");
        r
    }
}

fn pkey_where(pkeys: &Vec<String>, shift: usize) -> (r: String)
    requires
        pkeys@.len() + shift + 1 <= usize::MAX,
    ensures
        r@ == seq_join(pkey_conditions(strings_view(pkeys@), shift as nat), " AND "@),
{
    let ghost target = pkey_conditions(strings_view(pkeys@), shift as nat);
    let mut parts: Vec<String> = Vec::new();
    let mut i: usize = 0;
    while i < pkeys.len()
        invariant
            i <= pkeys@.len(),
            pkeys@.len() + shift + 1 <= usize::MAX,
            target == pkey_conditions(strings_view(pkeys@), shift as nat),
            strings_view(parts@) == target.take(i as int),
        decreases pkeys.len() - i,
    {
        let mut p = crate::text::copy_string(&pkeys[i]);
        p.append("=$");
        let n = usize_text(i + 1 + shift);
        p.append(n.as_str());
        let ghost before = parts@;
        parts.push(p);
        proof {
            lemma_strings_view_push(before, p);
            lemma_take_push(target, i as int);
        }
        i = i + 1;
    }
    assert(target.take(pkeys@.len() as int) =~= target);
    join_strings(&parts, " AND ")
}

fn returning_clause(t: &DbTable, mask: Option<&DbFieldMask>) -> (r: String)
    ensures
        r@ == returning_text(t, match mask {
            Some(m) => Some(m@),
            None => None,
        }),
{
    match mask {
        Some(m) => {
            let fields = m.to_fields(t);
            let mut r = String::from_str(" RETURNING ");
            let j = join_strings(&fields, ",");
            r.append(j.as_str());
            r
        },
        None => String::new(),
    }
}

/// Текст UPDATE одной записи по маске обновления и маске возврата.
pub fn update_query(t: &DbTable, update_mask: &DbFieldMask, return_mask: Option<&DbFieldMask>) -> (r: String)
    requires
        t.wf(),
        update_mask@.len() == t.fields@.len(),
        t.fields@.len() + t.primary_keys@.len() + 2 <= usize::MAX,
    ensures
        r@ == update_query_text(t, update_mask@, match return_mask {
            Some(m) => Some(m@),
            None => None,
        }),
{
    let selected = update_fields_helper(t, update_mask);
    proof {
        crate::db_item::field_mask::lemma_masked_names_len(t.names(), set_at_indices(set_at_indices(update_mask@, true, t.primary_key_indices@), false, t.no_update_indices@));
    }
    let mut q = String::from_str("UPDATE ");
    q.append(t.table.as_str());
    q.append(" set ");
    let th = set_thread(&selected);
    q.append(th.as_str());
    q.append(" WHERE ");
    let w = pkey_where(&t.primary_keys, selected.len());
    q.append(w.as_str());
    let ret = returning_clause(t, return_mask);
    q.append(ret.as_str());
    q.append(";");
    q
}

/// Имена после переименований таблицы (при повторах побеждает последняя пара).
pub open spec fn tolerated_names(t: &DbTable, v: Seq<Seq<char>>) -> Seq<Seq<char>> {
    v.map_values(|f: Seq<char>| mapped_name(tolerated_pairs(t), f))
}

/// Маски UPDATE одной записи: обновляемые колонки (по умолчанию -- колонки для
/// UPDATE) с первичными ключами и без колонок `GENERATED ALWAYS AS` для
/// перечисленных явно; колонки возврата с первичными ключами.
pub fn update_masks(t: &DbTable, update_fields: Option<&Vec<String>>, return_fields: Option<&Vec<String>>) -> (r: (
    DbFieldMask,
    Option<DbFieldMask>,
))
    requires
        t.wf(),
    ensures
        r.0@ == match update_fields {
            Some(f) => single_update_mask_of(t, tolerated_names(t, strings_view(f@))),
            None => bind_mask_of(t, strings_view(t.update_fields@)),
        },
        match return_fields {
            Some(f) => r.1 is Some && r.1->Some_0@ == bind_mask_of(t, tolerated_names(t, strings_view(f@))),
            None => r.1 is None,
        },
{
    let update = match update_fields {
        Some(f) => {
            let tol = apply_tolerance_to_fields(t, f);
            DbFieldMask::make_single_update_bind_mask(t, &tol)
        },
        None => DbFieldMask::make_bind_mask(t, &t.update_fields),
    };
    let ret = match return_fields {
        Some(f) => {
            let tol = apply_tolerance_to_fields(t, f);
            Some(DbFieldMask::make_bind_mask(t, &tol))
        },
        None => None,
    };
    (update, ret)
}

/// Текст ошибки удаления без фильтров.
pub const NO_DELETE_FILTERS: &'static str = "No filters supplied for deletion";

/// Текст ошибки обновления по фильтрам без фильтров.
pub const NO_UPDATE_FILTERS: &'static str = "No filters supplied for update by filters";

/// Текст `DELETE ... WHERE <фильтры> returning <все колонки>` либо текст ошибки.
pub open spec fn delete_query_text(t: &DbTable, filters: TreeModel) -> Result<Seq<char>, Seq<char>> {
    if model_is_empty(filters) {
        Err("No filters supplied for deletion"@)
    } else {
        match tree_sql(filters, "DELETE FROM "@ + t.table@ + " WHERE"@, 1) {
            Ok(p) => Ok(p.0 + " returning "@ + seq_join(t.names(), ","@)),
            Err(e) => Err(e),
        }
    }
}

/// Текст удаления по фильтрам с возвратом удалённых строк; пустые фильтры -- ошибка.
pub fn delete_query(t: &DbTable, filters: &FilterTree) -> (r: Result<String, SharedDbError>)
    requires
        1 + tree_weight(filters@) <= usize::MAX,
    ensures
        match delete_query_text(t, filters@) {
            Ok(q) => r is Ok && r->Ok_0@ == q,
            Err(e) => r is Err && r->Err_0 is Other && r->Err_0.text() == e,
        },
{
    if filters.is_empty() {
        proof {
            reveal_strlit("No filters supplied for deletion");
        }
        return Err(SharedDbError::Other(String::from_str(NO_DELETE_FILTERS)));
    }
    let mut q = String::from_str("DELETE FROM ");
    q.append(t.table.as_str());
    q.append(" WHERE");
    match filters.build_sql(&mut q, 1) {
        Ok(_) => {},
        Err(e) => {
            return Err(e);
        },
    }
    q.append(" returning ");
    let all = t.fields_string();
    q.append(all.as_str());
    Ok(q)
}

/// Текст обновления по фильтрам и маска привязки значений записи; либо текст ошибки.
pub open spec fn update_by_filter_text(
    t: &DbTable,
    update_fields: Seq<Seq<char>>,
    filters: TreeModel,
    return_fields: Option<Seq<Seq<char>>>,
) -> Result<Seq<char>, Seq<char>> {
    let mask = update_by_filter_mask(t, update_fields);
    let selected = masked_names(t.names(), mask);
    if model_is_empty(filters) {
        Err("No filters supplied for update by filters"@)
    } else {
        match tree_sql(filters, "UPDATE "@ + t.table@ + " SET "@ + set_thread_text(selected) + " WHERE"@, selected.len() + 1) {
            Ok(p) => Ok(p.0 + match return_fields {
                Some(rf) => " RETURNING "@ + seq_join(masked_names(t.names(), bind_mask_of(t, tolerated_names(t, rf))), ","@),
                None => seq![],
            }),
            Err(e) => Err(e),
        }
    }
}

/// Маска колонок обновления по фильтрам: перечисленные (после переименований)
/// без колонок `GENERATED ALWAYS AS`.
pub open spec fn update_by_filter_mask(t: &DbTable, update_fields: Seq<Seq<char>>) -> Seq<bool> {
    set_at_indices(
        Seq::new(t.fields@.len(), |i: int| tolerated_names(t, update_fields).contains(t.names()[i])),
        false,
        t.no_update_indices@,
    )
}

/// Текст обновления по фильтрам и маска привязки значений записи.
pub fn update_by_filter_query(
    t: &DbTable,
    update_fields: &Vec<String>,
    filters: &FilterTree,
    return_fields: Option<&Vec<String>>,
) -> (r: Result<(String, DbFieldMask), SharedDbError>)
    requires
        t.wf(),
        t.fields@.len() + tree_weight(filters@) + 2 <= usize::MAX,
    ensures
        match update_by_filter_text(t, strings_view(update_fields@), filters@, match return_fields {
            Some(f) => Some(strings_view(f@)),
            None => None,
        }) {
            Ok(q) => r is Ok && r->Ok_0.0@ == q && r->Ok_0.1@ == update_by_filter_mask(t, strings_view(update_fields@)),
            Err(e) => r is Err && r->Err_0 is Other && r->Err_0.text() == e,
        },
{
    if filters.is_empty() {
        proof {
            reveal_strlit("No filters supplied for update by filters");
        }
        return Err(SharedDbError::Other(String::from_str(NO_UPDATE_FILTERS)));
    }
    let tolerated = apply_tolerance_to_fields(t, update_fields);
    let bind_mask = DbFieldMask::with_fields(t, &tolerated).without_autogen(t);
    let ghost m = bind_mask@;
    assert(m =~= update_by_filter_mask(t, strings_view(update_fields@)));
    let selected = select_fields_helper(t, &bind_mask);
    proof {
        crate::db_item::field_mask::lemma_masked_names_len(t.names(), m);
    }
    let mut q = String::from_str("UPDATE ");
    q.append(t.table.as_str());
    q.append(" SET ");
    let th = set_thread(&selected);
    q.append(th.as_str());
    q.append(" WHERE");
    match filters.build_sql(&mut q, selected.len() + 1) {
        Ok(_) => {},
        Err(e) => {
            return Err(e);
        },
    }
    match return_fields {
        Some(rf) => {
            let tol = apply_tolerance_to_fields(t, rf);
            let mask = DbFieldMask::make_bind_mask(t, &tol);
            let ret = select_fields_helper(t, &mask);
            q.append(" RETURNING ");
            let j = join_strings(&ret, ",");
            q.append(j.as_str());
        },
        None => {},
    }
    Ok((q, bind_mask))
}

// ---------------------------------------------------------------------------
// Массовое UPDATE через VALUES.
// ---------------------------------------------------------------------------

/// План массового обновления: маска привязки, колонки SET и колонки VALUES,
/// часть RETURNING.
pub struct UpdateVecPlan {
    pub bind_mask: DbFieldMask,
    /// Колонки SET (без `GENERATED ALWAYS AS`).
    pub fields_to_set: Vec<String>,
    /// Колонки подзапроса VALUES (ключи и обновляемые колонки).
    pub fields_to_select: Vec<String>,
    pub return_clause: String,
}

/// Маска привязки массового обновления.
pub open spec fn update_vec_mask(t: &DbTable, update_fields: Option<Seq<Seq<char>>>) -> Seq<bool> {
    match update_fields {
        Some(f) => bind_mask_of(t, tolerated_names(t, f)),
        None => bind_mask_of(t, strings_view(t.update_fields@)),
    }
}

/// Часть RETURNING массового обновления (колонки с префиксом `t.`).
pub open spec fn update_vec_returning(t: &DbTable, return_fields: Option<Seq<Seq<char>>>) -> Seq<char> {
    match return_fields {
        Some(f) => " RETURNING "@ + seq_join(
            masked_names(t.names(), bind_mask_of(t, tolerated_names(t, f))).map_values(|x: Seq<char>| "t."@ + x),
            ","@,
        ),
        None => seq![],
    }
}

fn prefixed(v: &Vec<String>, prefix: &str) -> (r: Vec<String>)
    ensures
        strings_view(r@) == strings_view(v@).map_values(|x: Seq<char>| prefix@ + x),
{
    let ghost target = strings_view(v@).map_values(|x: Seq<char>| prefix@ + x);
    let mut out: Vec<String> = Vec::new();
    let mut i: usize = 0;
    while i < v.len()
        invariant
            i <= v@.len(),
            target == strings_view(v@).map_values(|x: Seq<char>| prefix@ + x),
            strings_view(out@) == target.take(i as int),
        decreases v.len() - i,
    {
        let mut p = String::from_str(prefix);
        p.append(v[i].as_str());
        let ghost before = out@;
        out.push(p);
        proof {
            lemma_strings_view_push(before, p);
            lemma_take_push(target, i as int);
        }
        i = i + 1;
    }
    assert(target.take(v@.len() as int) =~= target);
    out
}

/// План массового обновления записей.
pub fn update_vec_plan(t: &DbTable, update_fields: Option<&Vec<String>>, return_fields: Option<&Vec<String>>) -> (r: UpdateVecPlan)
    requires
        t.wf(),
    ensures
        ({
            let uf = match update_fields {
                Some(f) => Some(strings_view(f@)),
                None => None,
            };
            let rf = match return_fields {
                Some(f) => Some(strings_view(f@)),
                None => None,
            };
            &&& r.bind_mask@ == update_vec_mask(t, uf)
            &&& strings_view(r.fields_to_set@) == masked_names(t.names(), set_at_indices(update_vec_mask(t, uf), false, t.no_update_indices@))
            &&& strings_view(r.fields_to_select@) == masked_names(t.names(), update_vec_mask(t, uf))
            &&& r.return_clause@ == update_vec_returning(t, rf)
        }),
{
    let bind_mask = match update_fields {
        Some(f) => {
            let tol = apply_tolerance_to_fields(t, f);
            DbFieldMask::make_bind_mask(t, &tol)
        },
        None => DbFieldMask::make_bind_mask(t, &t.update_fields),
    };
    let fields_to_set = update_set_fields_helper(t, &bind_mask);
    let fields_to_select = select_fields_helper(t, &bind_mask);
    let return_clause = match return_fields {
        Some(f) => {
            let tol = apply_tolerance_to_fields(t, f);
            let mask = DbFieldMask::make_bind_mask(t, &tol);
            let names = select_fields_helper(t, &mask);
            let pre = prefixed(&names, "t.");
            let mut r = String::from_str(" RETURNING ");
            let j = join_strings(&pre, ",");
            r.append(j.as_str());
            r
        },
        None => String::new(),
    };
    UpdateVecPlan { bind_mask, fields_to_set, fields_to_select, return_clause }
}

/// `f=upd.f` для колонок SET через запятую.
pub open spec fn field_mapping_text(fields: Seq<Seq<char>>) -> Seq<char> {
    seq_join(fields.map_values(|f: Seq<char>| f + "=upd."@ + f), ","@)
}

/// `t.k=upd.k` для первичных ключей через ` AND `.
pub open spec fn upd_where_text(pkeys: Seq<Seq<char>>) -> Seq<char> {
    seq_join(pkeys.map_values(|k: Seq<char>| "t."@ + k + "=upd."@ + k), " AND "@)
}

/// Текст массового обновления `rows` записей по плану.
pub open spec fn update_vec_query_text(
    t: &DbTable,
    fields_to_set: Seq<Seq<char>>,
    fields_to_select: Seq<Seq<char>>,
    return_clause: Seq<char>,
    rows: nat,
) -> Seq<char> {
    "UPDATE "@ + t.table@ + " AS t SET\n                "@ + field_mapping_text(fields_to_set)
        + "\n               FROM\n                (values"@ + counters_text(fields_to_select.len(), rows) + ") AS upd("@
        + seq_join(fields_to_select, ","@) + ")\n               WHERE "@ + upd_where_text(strings_view(t.primary_keys@))
        + return_clause + ";"@
}

fn mapped_pairs(v: &Vec<String>, before_sep: &str, mid: &str, sep: &str) -> (r: String)
    ensures
        r@ == seq_join(strings_view(v@).map_values(|x: Seq<char>| before_sep@ + x + mid@ + x), sep@),
{
    let ghost target = strings_view(v@).map_values(|x: Seq<char>| before_sep@ + x + mid@ + x);
    let mut out: Vec<String> = Vec::new();
    let mut i: usize = 0;
    while i < v.len()
        invariant
            i <= v@.len(),
            target == strings_view(v@).map_values(|x: Seq<char>| before_sep@ + x + mid@ + x),
            strings_view(out@) == target.take(i as int),
        decreases v.len() - i,
    {
        let mut p = String::from_str(before_sep);
        p.append(v[i].as_str());
        p.append(mid);
        p.append(v[i].as_str());
        let ghost before = out@;
        out.push(p);
        proof {
            lemma_strings_view_push(before, p);
            lemma_take_push(target, i as int);
        }
        i = i + 1;
    }
    assert(target.take(v@.len() as int) =~= target);
    join_strings(&out, sep)
}

/// Текст массового обновления `rows` записей по плану.
pub fn update_vec_query(t: &DbTable, plan: &UpdateVecPlan, rows: usize) -> (r: String)
    requires
        plan.fields_to_select@.len() * rows + 1 <= usize::MAX,
    ensures
        r@ == update_vec_query_text(
            t,
            strings_view(plan.fields_to_set@),
            strings_view(plan.fields_to_select@),
            plan.return_clause@,
            rows as nat,
        ),
{
    let mut q = String::from_str("UPDATE ");
    q.append(t.table.as_str());
    q.append(" AS t SET\n                ");
    let m = mapped_pairs(&plan.fields_to_set, "", "=upd.", ",");
    proof {
        reveal_strlit("");
        assert(strings_view(plan.fields_to_set@).map_values(|x: Seq<char>| ""@ + x + "=upd."@ + x)
            =~= strings_view(plan.fields_to_set@).map_values(|f: Seq<char>| f + "=upd."@ + f));
    }
    q.append(m.as_str());
    q.append("\n               FROM\n                (values");
    let c = field_counters(&plan.fields_to_select, rows);
    q.append(c.as_str());
    q.append(") AS upd(");
    let f = join_strings(&plan.fields_to_select, ",");
    q.append(f.as_str());
    q.append(")\n               WHERE ");
    let w = mapped_pairs(&t.primary_keys, "t.", "=upd.", " AND ");
    q.append(w.as_str());
    q.append(plan.return_clause.as_str());
    q.append(";");
    q
}

/// Размер порции массового обновления: предел привязок, делённый на число колонок VALUES.
pub fn update_vec_chunk_size(plan: &UpdateVecPlan) -> (r: usize)
    requires
        plan.fields_to_select@.len() > 0,
    ensures
        r == MAX_BINDINGS as nat / plan.fields_to_select@.len(),
{
    MAX_BINDINGS / plan.fields_to_select.len()
}

// ---------------------------------------------------------------------------
// UPSERT, рекурсивная выборка, проверки результатов.
// ---------------------------------------------------------------------------

/// Первичные ключи и часть `DO UPDATE SET` для UPSERT.
pub fn upsert_plan(t: &DbTable, update_fields: Option<&Vec<String>>) -> (r: (String, String))
    requires
        t.wf(),
    ensures
        r.0@ == seq_join(strings_view(t.primary_keys@), ","@),
        r.1@ == conflict_text(update_columns(t, update_vec_mask(t, match update_fields {
            Some(f) => Some(strings_view(f@)),
            None => None,
        }))),
{
    let pkeys = join_strings(&t.primary_keys, ",");
    let bind_mask = match update_fields {
        Some(f) => {
            let tol = apply_tolerance_to_fields(t, f);
            DbFieldMask::make_bind_mask(t, &tol)
        },
        None => DbFieldMask::make_bind_mask(t, &t.update_fields),
    };
    let fields = update_fields_helper(t, &bind_mask);
    let conflict = conflict_string(&fields);
    (pkeys, conflict)
}

/// Размер порции UPSERT: предел привязок, делённый на число колонок для INSERT.
pub fn upsert_chunk_size(t: &DbTable) -> (r: usize)
    requires
        t.insert_fields@.len() > 0,
    ensures
        r == MAX_BINDINGS as nat / t.insert_fields@.len(),
{
    MAX_BINDINGS / t.insert_fields.len()
}

/// Текст рекурсивной выборки `WITH RECURSIVE`.
pub open spec fn recursive_query_text(
    t: &DbTable,
    initial: Seq<char>,
    final_select: Seq<char>,
    existing_item_field: Seq<char>,
    new_item_field: Seq<char>,
) -> Seq<char> {
    let rec = "rec_"@ + t.table@;
    "\nWITH RECURSIVE "@ + rec + " AS (\n        "@ + initial + "\n    UNION ALL\n        SELECT "@
        + seq_join(t.names().map_values(|f: Seq<char>| t.table@ + "."@ + f), ","@) + "\n        FROM "@ + rec + ", "@
        + t.table@ + "\n        WHERE "@ + t.table@ + "."@ + new_item_field + " = "@ + rec + "."@ + existing_item_field
        + "\n) CYCLE "@ + seq_join(strings_view(t.primary_keys@), ","@) + " SET is_cycle USING path\n"@ + final_select + ";"@
}

/// Имя рекурсивной таблицы `rec_<table>`.
pub fn recursive_table(t: &DbTable) -> (r: String)
    ensures
        r@ == "rec_"@ + t.table@,
{
    let mut r = String::from_str("rec_");
    r.append(t.table.as_str());
    r
}

/// Текст рекурсивной выборки по готовым текстам начального и итогового запросов.
pub fn recursive_query(t: &DbTable, initial: &str, final_select: &str, existing_item_field: &str, new_item_field: &str) -> (r: String)
    ensures
        r@ == recursive_query_text(t, initial@, final_select@, existing_item_field@, new_item_field@),
{
    let rec = recursive_table(t);
    let mut q = String::from_str("\nWITH RECURSIVE ");
    q.append(rec.as_str());
    q.append(" AS (\n        ");
    q.append(initial);
    q.append("\n    UNION ALL\n        SELECT ");
    let mut pre = t.table.clone();
    pre.append(".");
    let cols = prefixed(&t.fields, pre.as_str());
    let j = join_strings(&cols, ",");
    proof {
        assert(strings_view(t.fields@).map_values(|x: Seq<char>| pre@ + x) =~= t.names().map_values(|f: Seq<char>| t.table@ + "."@ + f));
    }
    q.append(j.as_str());
    q.append("\n        FROM ");
    q.append(rec.as_str());
    q.append(", ");
    q.append(t.table.as_str());
    q.append("\n        WHERE ");
    q.append(t.table.as_str());
    q.append(".");
    q.append(new_item_field);
    q.append(" = ");
    q.append(rec.as_str());
    q.append(".");
    q.append(existing_item_field);
    q.append("\n) CYCLE ");
    let pk = join_strings(&t.primary_keys, ",");
    q.append(pk.as_str());
    q.append(" SET is_cycle USING path\n");
    q.append(final_select);
    q.append(";");
    q
}

/// Ровно одна выбранная строка; иначе ошибка.
pub fn single_item<T>(items: Vec<T>) -> (r: Result<T, SharedDbError>)
    ensures
        items@.len() == 1 ==> r is Ok && r->Ok_0 == items@[0],
        items@.len() == 0 ==> r is Err && r->Err_0 is Other && r->Err_0.text() == "select_single: nothing is selected"@,
        items@.len() > 1 ==> r is Err && r->Err_0 is Other && r->Err_0.text() == "select_single: too many items"@,
{
    let mut items = items;
    match items.pop() {
        Some(item) => {
            if items.len() > 0 {
                Err(SharedDbError::Other(String::from_str("select_single: too many items")))
            } else {
                Ok(item)
            }
        },
        None => Err(SharedDbError::Other(String::from_str("select_single: nothing is selected"))),
    }
}

/// Не более одной выбранной строки; иначе ошибка.
pub fn option_item<T>(items: Vec<T>) -> (r: Result<Option<T>, SharedDbError>)
    ensures
        items@.len() == 1 ==> r is Ok && r->Ok_0 == Some(items@[0]),
        items@.len() == 0 ==> r is Ok && r->Ok_0 is None,
        items@.len() > 1 ==> r is Err && r->Err_0 is Other && r->Err_0.text() == "select_option: too many items"@,
{
    let mut items = items;
    let item = items.pop();
    if items.len() > 0 {
        Err(SharedDbError::Other(String::from_str("select_option: too many items")))
    } else {
        Ok(item)
    }
}

/// Ответ с пагинацией.
pub struct Paginated<T> {
    /// Строки текущей страницы.
    pub items: Vec<T>,
    /// Полное число строк без пагинации (если запрошено).
    pub total: Option<i64>,
}

/// Параметры постраничной выборки `(offset, take_n, count_total)`; запрос без них -- ошибка.
pub fn paginated_params(select: &Select) -> (r: Result<(usize, usize, bool), SharedDbError>)
    ensures
        match (select.offset, select.take_n, select.count_total) {
            (Some(o), Some(n), Some(c)) => r == Ok::<(usize, usize, bool), SharedDbError>((o, n, c)),
            _ => r is Err && r->Err_0 is Other && r->Err_0.text() == "select is not suitable for paged query"@,
        },
{
    match (select.offset, select.take_n, select.count_total) {
        (Some(o), Some(n), Some(c)) => Ok((o, n, c)),
        _ => Err(SharedDbError::Other(String::from_str("select is not suitable for paged query"))),
    }
}

/// Полное число строк по первой строке страницы: её счётчик; для пустой первой
/// страницы -- 0; для пустой страницы дальше -- неизвестно.
pub fn paginated_total(offset: usize, first_count: Option<i64>) -> (r: Option<i64>)
    ensures
        r == match first_count {
            Some(c) => Some(c),
            None => if offset == 0 {
                Some(0i64)
            } else {
                None
            },
        },
{
    match first_count {
        None => if offset == 0 {
            Some(0)
        } else {
            None
        },
        Some(c) => Some(c),
    }
}


/// Строка выборки вместе со значением `COUNT(*) OVER()` (полным числом строк).
pub struct WithCount<T> {
    item: T,
    total_count: i64,
}

impl<T> WithCount<T> {
    /// Строка выборки.
    pub closed spec fn item_spec(&self) -> T {
        self.item
    }

    /// Полное число строк.
    pub closed spec fn count_spec(&self) -> i64 {
        self.total_count
    }

    /// Строка со счётчиком.
    pub fn new(item: T, total_count: i64) -> (r: Self)
        ensures
            r.item_spec() == item,
            r.count_spec() == total_count,
    {
        WithCount { item, total_count }
    }

    /// Полное число строк.
    pub fn total_count(&self) -> (r: i64)
        ensures
            r == self.count_spec(),
    {
        self.total_count
    }

    /// Строка выборки.
    pub fn into_item(self) -> (r: T)
        ensures
            r == self.item_spec(),
    {
        self.item
    }
}

/// Страница из строк со счётчиком: строки по порядку и полное число строк по
/// первой из них (для пустой первой страницы -- 0, для пустой дальше -- неизвестно).
pub fn paginated_with_count<T>(rows: Vec<WithCount<T>>, offset: usize) -> (r: Paginated<T>)
    ensures
        r.items@.len() == rows@.len(),
        forall|i: int| 0 <= i < rows@.len() ==> r.items@[i] == #[trigger] rows@[i].item_spec(),
        r.total == (if rows@.len() == 0 {
            if offset == 0 { Some(0i64) } else { None }
        } else {
            Some(rows@[0].count_spec())
        }),
{
    let first = if rows.len() == 0 {
        None
    } else {
        Some(rows[0].total_count())
    };
    let total = paginated_total(offset, first);
    let ghost all = rows@;
    let mut items: Vec<T> = Vec::new();
    for row in it: rows
        invariant
            all == it.seq(),
            items@.len() == it.index(),
            forall|i: int| 0 <= i < it.index() ==> items@[i] == #[trigger] all[i].item_spec(),
    {
        items.push(row.into_item());
    }
    Paginated { items, total }
}

/// Начало постраничной выборки: без `offset`, `take_n` или `count_total` --
/// ошибка; иначе -- начало запроса (с подсчётом полного числа строк, если
/// `count_total`), `offset` и `count_total`.
pub fn paginated_start(select: &Select, t: &DbTable) -> (r: Result<(SelectMaker, usize, bool), SharedDbError>)
    ensures
        match (select.offset, select.take_n, select.count_total) {
            (Some(o), Some(_), Some(c)) => {
                let q2 = tolerated_select(select@, tolerated_pairs(t), t.tolerated@.len() as int);
                match check_result(q2, t) {
                    Ok(_) => r is Ok && r->Ok_0.1 == o && r->Ok_0.2 == c && r->Ok_0.0.defn() == q2
                        && r->Ok_0.0.text() == select_head(q2, t.table@, c) && r->Ok_0.0.next_bind() == 1,
                    Err(e) => r is Err && r->Err_0 is Other && r->Err_0.text() == e,
                }
            },
            _ => r is Err && r->Err_0 is Other && r->Err_0.text() == "select is not suitable for paged query"@,
        },
{
    let (offset, _take_n, count_total) = paginated_params(select)?;
    let maker = if count_total {
        SelectMaker::start_with_count(select, t)?
    } else {
        SelectMaker::start(select, t)?
    };
    Ok((maker, offset, count_total))
}

/// Строки страницы: со счётчиком (запрос с подсчётом) или без него.
pub enum PageRows<T> {
    Counted(Vec<WithCount<T>>),
    Plain(Vec<T>),
}

/// Страница из строк: без подсчёта полное число строк неизвестно; с подсчётом --
/// как [`paginated_with_count`].
pub fn paginated_page<T>(rows: PageRows<T>, offset: usize) -> (r: Paginated<T>)
    ensures
        match rows {
            PageRows::Plain(v) => r.items@ == v@ && r.total is None,
            PageRows::Counted(v) => r.items@.len() == v@.len()
                && (forall|i: int| 0 <= i < v@.len() ==> r.items@[i] == #[trigger] v@[i].item_spec())
                && r.total == (if v@.len() == 0 {
                    if offset == 0 { Some(0i64) } else { None }
                } else {
                    Some(v@[0].count_spec())
                }),
        },
{
    match rows {
        PageRows::Plain(v) => Paginated { items: v, total: None },
        PageRows::Counted(v) => paginated_with_count(v, offset),
    }
}

/// Порции `[start, end)` по `size` элементов из `total` (последняя -- остаток), по порядку.
pub open spec fn chunk_bounds(total: nat, size: nat, k: int) -> (int, int) {
    (k * size, if (k + 1) * size <= total { (k + 1) * size } else { total as int })
}

/// Разбиение `total` элементов на порции по `size` (как `slice::chunks`).
pub fn chunk_ranges(total: usize, size: usize) -> (r: Vec<(usize, usize)>)
    requires
        size > 0,
    ensures
        r@.len() == (total + size - 1) / (size as int),
        forall|k: int| 0 <= k < r@.len() ==> (#[trigger] r@[k]).0 == chunk_bounds(total as nat, size as nat, k).0
            && r@[k].1 == chunk_bounds(total as nat, size as nat, k).1,
{
    let mut out: Vec<(usize, usize)> = Vec::new();
    let mut start: usize = 0;
    proof {
        let n = out@.len() as int;
        assert(n == 0);
        assert(n * size == 0) by (nonlinear_arith)
            requires
                n == 0,
        ;
    }
    while start < total
        invariant
            size > 0,
            start <= total,
            out@.len() * size <= total ==> start == out@.len() * size,
            out@.len() * size > total ==> start == total,
            out@.len() * size < total + size,
            forall|k: int| 0 <= k < out@.len() ==> (#[trigger] out@[k]).0 == chunk_bounds(total as nat, size as nat, k).0
                && out@[k].1 == chunk_bounds(total as nat, size as nat, k).1,
        decreases total - start,
    {
        let end = if total - start > size { start + size } else { total };
        let ghost k = out@.len() as int;
        proof {
            assert((k + 1) * size == k * size + size) by (nonlinear_arith);
            assert(k * size <= total);
            assert(start == k * size);
        }
        out.push((start, end));
        start = end;
    }
    proof {
        let n = out@.len() as int;
        let t = total as int;
        let z = size as int;
        assert(n * z >= t);
        assert(n * z < t + z);
        assert((t + z - 1) / z == n) by (nonlinear_arith)
            requires
                n * z >= t,
                n * z < t + z,
                z > 0,
                t >= 0,
                n >= 0,
        {
            assert(t + z - 1 >= n * z - 1 + 0);
            vstd::arithmetic::div_mod::lemma_fundamental_div_mod(t + z - 1, z);
        }
    }
    out
}

/// Итог обновления: число изменённых строк или возвращённые строки.
pub enum ReturningEither<T> {
    RowsAffected(u64),
    Items(Vec<T>),
}

impl<T> ReturningEither<T> {
    /// Пустой итог: строки, если их просят вернуть, иначе счётчик 0.
    pub fn new(returning: bool) -> (r: Self)
        ensures
            returning ==> (r matches ReturningEither::Items(v) && v@.len() == 0),
            !returning ==> (r matches ReturningEither::RowsAffected(n) && n == 0),
    {
        if returning {
            ReturningEither::Items(Vec::new())
        } else {
            ReturningEither::RowsAffected(0)
        }
    }

    /// Учитывает итог порции: счётчик прибавляется (насыщаясь на `u64::MAX`), строки дописываются.
    pub fn absorb(&mut self, affected: u64, mut rows: Vec<T>)
        ensures
            match (*old(self), *final(self)) {
                (ReturningEither::RowsAffected(a), ReturningEither::RowsAffected(b)) =>
                    b == if a + affected <= u64::MAX { a + affected } else { u64::MAX as int },
                (ReturningEither::Items(a), ReturningEither::Items(b)) => b@ == a@ + rows@,
                _ => false,
            },
    {
        match self {
            ReturningEither::RowsAffected(n) => {
                *n = n.saturating_add(affected);
            },
            ReturningEither::Items(v) => {
                v.append(&mut rows);
            },
        }
    }
}

} // verus!
