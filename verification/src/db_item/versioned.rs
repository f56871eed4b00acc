//! Номера версий для версионных таблиц.
use crate::collections::{pairs_map, version_map_contents, version_map_from, version_map_get, version_map_insert};
use vstd::prelude::*;

verus! {

/// Сколько раз `x` встречается среди первых `n` идентификаторов.
pub open spec fn count_prefix(ids: Seq<i64>, n: int, x: i64) -> nat
    decreases n,
{
    if n <= 0 || n > ids.len() {
        0
    } else {
        count_prefix(ids, n - 1, x) + if ids[n - 1] == x { 1nat } else { 0nat }
    }
}

/// Текущая наибольшая версия идентификатора (0, если версий нет).
pub open spec fn base_version(base: Map<i64, i16>, x: i64) -> int {
    if base.contains_key(x) {
        base[x] as int
    } else {
        0
    }
}

/// Версия `k`-й записи: наибольшая версия её идентификатора плюс номер её
/// появления среди записей с тем же идентификатором.
pub open spec fn assigned_version(base: Map<i64, i16>, ids: Seq<i64>, k: int) -> int {
    base_version(base, ids[k]) + count_prefix(ids, k + 1, ids[k])
}

/// Номера новых версий записей с идентификаторами `ids` при текущих наибольших
/// версиях `current` (пары из базы; новые идентификаторы начинают с 1).
pub fn next_versions(ids: &Vec<i64>, current: Vec<(i64, i16)>) -> (r: Vec<i16>)
    requires
        forall|k: int| 0 <= k < ids@.len() ==> #[trigger] assigned_version(pairs_map(current@), ids@, k) <= i16::MAX,
    ensures
        r@.len() == ids@.len(),
        forall|k: int| 0 <= k < ids@.len() ==> #[trigger] r@[k] as int == assigned_version(pairs_map(current@), ids@, k),
{
    let ghost base = pairs_map(current@);
    let mut ver = version_map_from(current);
    let mut out: Vec<i16> = Vec::new();
    let mut i: usize = 0;
    while i < ids.len()
        invariant
            i <= ids@.len(),
            base == pairs_map(current@),
            forall|k: int| 0 <= k < ids@.len() ==> #[trigger] assigned_version(base, ids@, k) <= i16::MAX,
            out@.len() == i,
            forall|k: int| 0 <= k < i ==> #[trigger] out@[k] as int == assigned_version(base, ids@, k),
            forall|x: i64| #[trigger] version_map_contents(ver).contains_key(x) <==> (base.contains_key(x) || count_prefix(ids@, i as int, x) > 0),
            forall|x: i64| #[trigger] version_map_contents(ver).contains_key(x) ==> version_map_contents(ver)[x] as int == base_version(base, x) + count_prefix(ids@, i as int, x),
        decreases ids.len() - i,
    {
        let id = ids[i];
        let ghost before = version_map_contents(ver);
        proof {
            assert(count_prefix(ids@, i + 1, id) == count_prefix(ids@, i as int, id) + 1);
            assert forall|x: i64| x != id implies count_prefix(ids@, i + 1, x) == count_prefix(ids@, i as int, x) by {}
            assert(assigned_version(base, ids@, i as int) <= i16::MAX);
        }
        let v: i16 = match version_map_get(&ver, id) {
            Some(cur) => {
                assert(cur as int == base_version(base, id) + count_prefix(ids@, i as int, id));
                cur + 1
            },
            None => {
                assert(!base.contains_key(id));
                assert(count_prefix(ids@, i as int, id) == 0);
                1
            },
        };
        version_map_insert(&mut ver, id, v);
        out.push(v);
        i = i + 1;
    }
    out
}


/// Число вхождений в начало списка не убывает с длиной начала.
proof fn lemma_count_prefix_monotone(ids: Seq<i64>, m: int, n: int, x: i64)
    requires
        0 <= m <= n <= ids.len(),
    ensures
        count_prefix(ids, m, x) <= count_prefix(ids, n, x),
    decreases n - m,
{
    if m < n {
        lemma_count_prefix_monotone(ids, m, n - 1, x);
    }
}

/// Новые версии свежие: каждая больше наибольшей сохранённой версии своего
/// идентификатора (новый идентификатор начинает с 1), а записи с одним
/// идентификатором получают строго возрастающие по порядку записей версии.
pub proof fn lemma_assigned_versions_fresh(base: Map<i64, i16>, ids: Seq<i64>, k1: int, k2: int)
    requires
        0 <= k1 < k2 < ids.len(),
    ensures
        assigned_version(base, ids, k1) >= base_version(base, ids[k1]) + 1,
        ids[k1] == ids[k2] ==> assigned_version(base, ids, k1) < assigned_version(base, ids, k2),
{
    lemma_count_prefix_monotone(ids, 0, k1, ids[k1]);
    lemma_count_prefix_monotone(ids, k1 + 1, k2, ids[k1]);
}

/// Запрос, блокирующий таблицу версий `v_table` до конца транзакции.
pub fn version_lock_query(v_table: &str) -> (r: String)
    ensures
        r@ == "LOCK TABLE "@ + v_table@ + " IN ACCESS EXCLUSIVE MODE"@,
{
    let mut r = String::from_str("LOCK TABLE ");
    r.append(v_table);
    r.append(" IN ACCESS EXCLUSIVE MODE");
    r
}

/// Запрос наибольшей версии каждого идентификатора из списка `$1` в таблице `v_table`.
pub fn max_version_query(v_table: &str) -> (r: String)
    ensures
        r@ == "SELECT id,max(pricing_version) FROM "@ + v_table@ + " WHERE id=ANY($1) GROUP BY id"@,
{
    let mut r = String::from_str("SELECT id,max(pricing_version) FROM ");
    r.append(v_table);
    r.append(" WHERE id=ANY($1) GROUP BY id");
    r
}

} // verus!
