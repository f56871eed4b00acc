//! Связь масок колонок и списков имён колонок.
use crate::db_item::field_mask::{bind_mask_of, masked_names, masked_prefix, set_at_indices};
use crate::db_item::table::DbTable;
use vstd::prelude::*;

verus! {

/// Имя есть среди отобранных из первых `i` позиций ровно тогда, когда оно
/// стоит на отмеченной позиции среди них.
proof fn lemma_masked_prefix_contains(names: Seq<Seq<char>>, mask: Seq<bool>, i: int, x: Seq<char>)
    requires
        0 <= i <= names.len(),
        i <= mask.len(),
    ensures
        masked_prefix(names, mask, i).contains(x) <==> exists|j: int| 0 <= j < i && mask[j] && names[j] == x,
    decreases i,
{
    if i > 0 {
        lemma_masked_prefix_contains(names, mask, i - 1, x);
        let p = masked_prefix(names, mask, i - 1);
        if mask[i - 1] {
            assert(p.push(names[i - 1]).contains(x) <==> (p.contains(x) || names[i - 1] == x)) by {
                let q = p.push(names[i - 1]);
                if q.contains(x) {
                    let k = choose|k: int| 0 <= k < q.len() && #[trigger] q[k] == x;
                    if k < p.len() {
                        assert(p[k] == x);
                    }
                }
                if p.contains(x) {
                    let k = choose|k: int| 0 <= k < p.len() && p[k] == x;
                    assert(p.push(names[i - 1])[k] == x);
                }
                if names[i - 1] == x {
                    assert(p.push(names[i - 1])[p.len() as int] == x);
                }
            }
        }
        if exists|j: int| 0 <= j < i && mask[j] && names[j] == x {
            let j = choose|j: int| 0 <= j < i && mask[j] && names[j] == x;
            if j < i - 1 {
                assert(exists|j2: int| 0 <= j2 < i - 1 && mask[j2] && names[j2] == x);
            }
        }
    }
}

/// Маска привязки по именам колонок обновления (`make_bind_mask` от
/// `update_fields_helper`) восстанавливает маску обновления, если в ней уже
/// есть первичные ключи и нет колонок `GENERATED ALWAYS AS`, а имена колонок
/// таблицы различны.
pub proof fn lemma_bind_mask_restores_update_mask(t: &DbTable, m: Seq<bool>)
    requires
        t.wf(),
        m.len() == t.fields@.len(),
        t.names().no_duplicates(),
        forall|i: int| 0 <= i < m.len() && #[trigger] t.is_pkey(i) ==> m[i],
        forall|i: int| 0 <= i < m.len() && #[trigger] t.is_no_update(i) ==> !m[i],
    ensures
        bind_mask_of(
            t,
            masked_names(
                t.names(),
                set_at_indices(set_at_indices(m, true, t.primary_key_indices@), false, t.no_update_indices@),
            ),
        ) == m,
{
    let u = set_at_indices(set_at_indices(m, true, t.primary_key_indices@), false, t.no_update_indices@);
    assert(u =~= m) by {
        assert forall|i: int| 0 <= i < m.len() implies u[i] == m[i] by {
            if t.no_update_indices@.contains(i as usize) {
                assert(t.is_no_update(i));
            } else if t.primary_key_indices@.contains(i as usize) {
                assert(t.is_pkey(i));
            }
        }
    }
    let names = t.names();
    let n = names.len() as int;
    assert(masked_names(names, m) == masked_prefix(names, m, n));
    let b = bind_mask_of(t, masked_names(names, u));
    assert forall|i: int| 0 <= i < m.len() implies b[i] == m[i] by {
        lemma_masked_prefix_contains(names, m, n, names[i]);
        if m[i] {
            assert(masked_prefix(names, m, n).contains(names[i]));
        } else {
            if masked_prefix(names, m, n).contains(names[i]) {
                let j = choose|j: int| 0 <= j < n && m[j] && names[j] == names[i];
                assert(j != i);
            }
            assert(!t.is_pkey(i));
        }
    }
    assert(b =~= m);
}

} // verus!
