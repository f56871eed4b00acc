//! Битовые маски колонок таблицы.
use crate::collections::{field_set_contains, field_set_contents, field_set_from};
use crate::db_item::table::DbTable;
use crate::text::{copy_string, strings_view};
use ahash::AHashSet;
use vstd::prelude::*;

verus! {

/// Маска `len` значений `value`.
pub open spec fn filled(len: nat, value: bool) -> Seq<bool> {
    Seq::new(len, |i: int| value)
}

/// Маска после установки `value` во все позиции из `indices`.
pub open spec fn set_at_indices(mask: Seq<bool>, value: bool, indices: Seq<usize>) -> Seq<bool> {
    Seq::new(mask.len(), |i: int| if indices.contains(i as usize) { value } else { mask[i] })
}

/// Имена колонок, отмеченных в первых `i` позициях маски, в порядке колонок.
pub open spec fn masked_prefix(names: Seq<Seq<char>>, mask: Seq<bool>, i: int) -> Seq<Seq<char>>
    decreases i,
{
    if i <= 0 {
        seq![]
    } else {
        let p = masked_prefix(names, mask, i - 1);
        if mask[i - 1] {
            p.push(names[i - 1])
        } else {
            p
        }
    }
}

/// Имена колонок, отмеченных в маске (колонки и маска идут попарно, лишнее отбрасывается).
pub open spec fn masked_names(names: Seq<Seq<char>>, mask: Seq<bool>) -> Seq<Seq<char>> {
    masked_prefix(names, mask, if names.len() < mask.len() { names.len() as int } else { mask.len() as int })
}

/// Отобранных имён не больше, чем имён.
pub proof fn lemma_masked_names_len(names: Seq<Seq<char>>, mask: Seq<bool>)
    ensures
        masked_names(names, mask).len() <= names.len(),
{
    let n = if names.len() < mask.len() { names.len() as int } else { mask.len() as int };
    lemma_masked_prefix_len(names, mask, n);
}

/// Отобранных из первых `i` позиций имён не больше `i`.
pub proof fn lemma_masked_prefix_len(names: Seq<Seq<char>>, mask: Seq<bool>, i: int)
    requires
        i >= 0,
    ensures
        masked_prefix(names, mask, i).len() <= i,
    decreases i,
{
    if i > 0 {
        lemma_masked_prefix_len(names, mask, i - 1);
    }
}

/// Маска привязки: колонки с именами из `names` и первичные ключи.
pub open spec fn bind_mask_of(t: &DbTable, names: Seq<Seq<char>>) -> Seq<bool> {
    Seq::new(t.fields@.len(), |i: int| names.contains(t.names()[i]) || t.is_pkey(i))
}

/// Маска одиночного UPDATE: маска привязки без колонок `GENERATED ALWAYS AS`.
pub open spec fn single_update_mask_of(t: &DbTable, names: Seq<Seq<char>>) -> Seq<bool> {
    Seq::new(t.fields@.len(), |i: int| (names.contains(t.names()[i]) || t.is_pkey(i)) && !t.is_no_update(i))
}

/// Битовая маска колонок таблицы.
///
/// Элемент `i` отвечает за колонку `i` описания таблицы; `true` -- колонка
/// участвует в операции (SELECT, UPDATE, привязка значений).
#[derive(Debug, Clone)]
pub struct DbFieldMask {
    fields: Vec<bool>,
}

impl View for DbFieldMask {
    type V = Seq<bool>;

    closed spec fn view(&self) -> Seq<bool> {
        self.fields@
    }
}

impl DbFieldMask {
    fn filled(len: usize, value: bool) -> (r: Self)
        ensures
            r@ == filled(len as nat, value),
    {
        let mut fields: Vec<bool> = Vec::new();
        let mut i: usize = 0;
        while i < len
            invariant
                i <= len,
                fields@ == filled(i as nat, value),
            decreases len - i,
        {
            fields.push(value);
            i = i + 1;
            assert(fields@ =~= filled(i as nat, value));
        }
        DbFieldMask { fields }
    }

    /// Копия маски.
    pub fn clone_mask(&self) -> (r: Self)
        ensures
            r@ == self@,
    {
        let mut fields: Vec<bool> = Vec::new();
        let mut i: usize = 0;
        while i < self.fields.len()
            invariant
                i <= self.fields@.len(),
                fields@ == self.fields@.take(i as int),
            decreases self.fields.len() - i,
        {
            fields.push(self.fields[i]);
            i = i + 1;
            assert(fields@ =~= self.fields@.take(i as int));
        }
        assert(self.fields@.take(self.fields@.len() as int) =~= self.fields@);
        DbFieldMask { fields }
    }

    /// Маска со всеми включёнными колонками.
    pub fn all(t: &DbTable) -> (r: Self)
        ensures
            r@ == filled(t.fields@.len(), true),
    {
        Self::filled(t.fields.len(), true)
    }

    /// Маска без единой включённой колонки.
    pub fn none(t: &DbTable) -> (r: Self)
        ensures
            r@ == filled(t.fields@.len(), false),
    {
        Self::filled(t.fields.len(), false)
    }

    /// Маска только с колонками, имена которых перечислены в `fields`.
    pub fn with_fields(t: &DbTable, fields: &Vec<String>) -> (r: Self)
        ensures
            r@.len() == t.fields@.len(),
            forall|i: int| 0 <= i < r@.len() ==> #[trigger] r@[i] == strings_view(fields@).contains(t.names()[i]),
    {
        let set = field_set_from(fields);
        let mask = Self::with_field_set(t, &set);
        proof {
            assert forall|i: int| 0 <= i < mask@.len() implies #[trigger] mask@[i] == strings_view(fields@).contains(t.names()[i]) by {
                assert(strings_view(fields@).to_set().contains(t.names()[i]) == strings_view(fields@).contains(t.names()[i]));
            }
        }
        mask
    }

    /// Маска с колонками, имена которых есть в множестве `names`.
    fn with_field_set(t: &DbTable, names: &AHashSet<String>) -> (r: Self)
        ensures
            r@.len() == t.fields@.len(),
            forall|i: int| 0 <= i < r@.len() ==> #[trigger] r@[i] == field_set_contents(*names).contains(t.names()[i]),
    {
        let mut mask = Self::none(t);
        mask.set_by_name(t, true, names);
        mask
    }

    /// Добавляет к маске все первичные ключи.
    pub fn with_pkeys(self, t: &DbTable) -> (r: Self)
        requires
            t.wf(),
            self@.len() == t.fields@.len(),
        ensures
            r@ == set_at_indices(self@, true, t.primary_key_indices@),
    {
        let mut m = self;
        m.set_pkeys(t);
        m
    }

    /// Убирает из маски все колонки `GENERATED ALWAYS AS`.
    pub fn without_autogen(self, t: &DbTable) -> (r: Self)
        requires
            t.wf(),
            self@.len() == t.fields@.len(),
        ensures
            r@ == set_at_indices(self@, false, t.no_update_indices@),
    {
        let mut m = self;
        m.unset_always_autogen(t);
        m
    }

    /// Маска для привязки значений: перечисленные колонки плюс первичные ключи
    /// (они нужны в WHERE-части UPDATE).
    pub fn make_bind_mask(t: &DbTable, fields: &Vec<String>) -> (r: Self)
        requires
            t.wf(),
        ensures
            r@ == bind_mask_of(t, strings_view(fields@)),
            r@.len() == t.fields@.len(),
            forall|i: int| 0 <= i < r@.len() ==> #[trigger] r@[i] == (strings_view(fields@).contains(t.names()[i])
                || t.is_pkey(i)),
    {
        let r = Self::with_fields(t, fields).with_pkeys(t);
        assert(r@ =~= bind_mask_of(t, strings_view(fields@)));
        r
    }

    /// Маска для одиночного UPDATE: перечисленные колонки плюс первичные ключи,
    /// без колонок `GENERATED ALWAYS AS`.
    pub fn make_single_update_bind_mask(t: &DbTable, fields: &Vec<String>) -> (r: Self)
        requires
            t.wf(),
        ensures
            r@ == single_update_mask_of(t, strings_view(fields@)),
            r@.len() == t.fields@.len(),
            forall|i: int| 0 <= i < r@.len() ==> #[trigger] r@[i] == ((strings_view(fields@).contains(t.names()[i])
                || t.is_pkey(i)) && !t.is_no_update(i)),
    {
        let r = Self::with_fields(t, fields).with_pkeys(t).without_autogen(t);
        assert(r@ =~= single_update_mask_of(t, strings_view(fields@)));
        r
    }

    /// Имена включённых колонок в порядке колонок таблицы.
    pub fn to_fields(&self, t: &DbTable) -> (r: Vec<String>)
        ensures
            strings_view(r@) == masked_names(t.names(), self@),
    {
        let n: usize = if t.fields.len() < self.fields.len() { t.fields.len() } else { self.fields.len() };
        let mut out: Vec<String> = Vec::new();
        let mut i: usize = 0;
        while i < n
            invariant
                i <= n,
                n <= t.fields@.len(),
                n <= self.fields@.len(),
                n == (if t.names().len() < self@.len() { t.names().len() as int } else { self@.len() as int }),
                strings_view(out@) == masked_prefix(t.names(), self@, i as int),
            decreases n - i,
        {
            if self.fields[i] {
                out.push(copy_string(&t.fields[i]));
            }
            i = i + 1;
            assert(strings_view(out@) =~= masked_prefix(t.names(), self@, i as int));
        }
        out
    }

    /// Инвертированная маска.
    pub fn inverted(&self) -> (r: Self)
        ensures
            r@.len() == self@.len(),
            forall|i: int| 0 <= i < r@.len() ==> #[trigger] r@[i] == !self@[i],
    {
        let mut fields: Vec<bool> = Vec::new();
        let mut i: usize = 0;
        while i < self.fields.len()
            invariant
                i <= self.fields@.len(),
                fields@.len() == i,
                forall|k: int| 0 <= k < i ==> #[trigger] fields@[k] == !self.fields@[k],
            decreases self.fields.len() - i,
        {
            fields.push(!self.fields[i]);
            i = i + 1;
        }
        DbFieldMask { fields }
    }

    /// Значения маски по порядку колонок.
    pub fn iter(&self) -> (r: &[bool])
        ensures
            r@ == self@,
    {
        self.fields.as_slice()
    }

    /// Значение маски для колонки `index`.
    pub fn get(&self, index: usize) -> (r: bool)
        requires
            index < self@.len(),
        ensures
            r == self@[index as int],
    {
        self.fields[index]
    }

    /// Устанавливает значение маски для колонки `index`.
    pub fn set_value(&mut self, index: usize, value: bool)
        requires
            index < old(self)@.len(),
        ensures
            final(self)@ == old(self)@.update(index as int, value),
    {
        self.fields.set(index, value);
    }

    /// Объединение масок: колонка включена, если включена хотя бы в одной
    /// (позиции сверх длины `rhs` остаются как в `self`).
    pub fn bitor(self, rhs: Self) -> (r: Self)
        ensures
            r@.len() == self@.len(),
            forall|i: int| 0 <= i < r@.len() ==> #[trigger] r@[i] == (self@[i] || (i < rhs@.len() && rhs@[i])),
    {
        let mut m = self;
        let n: usize = if m.fields.len() < rhs.fields.len() { m.fields.len() } else { rhs.fields.len() };
        let mut i: usize = 0;
        while i < n
            invariant
                i <= n,
                n <= self@.len(),
                n <= rhs@.len(),
                n == (if self@.len() < rhs@.len() { self@.len() } else { rhs@.len() }),
                m.fields@.len() == self@.len(),
                forall|k: int| 0 <= k < i ==> #[trigger] m.fields@[k] == (self@[k] || rhs@[k]),
                forall|k: int| i <= k < self@.len() ==> #[trigger] m.fields@[k] == self@[k],
            decreases n - i,
        {
            let v = m.fields[i] || rhs.fields[i];
            m.fields.set(i, v);
            i = i + 1;
        }
        m
    }

    /// Маски совпадают поэлементно.
    pub fn same_as(&self, other: &Self) -> (r: bool)
        ensures
            r == (self@ == other@),
    {
        self.equals_slice(other.fields.as_slice())
    }

    /// Маска совпадает со срезом `other`.
    pub fn equals_slice(&self, other: &[bool]) -> (r: bool)
        ensures
            r == (self@ == other@),
    {
        if self.fields.len() != other.len() {
            return false;
        }
        let mut i: usize = 0;
        while i < other.len()
            invariant
                i <= other@.len(),
                self.fields@.len() == other@.len(),
                forall|k: int| 0 <= k < i ==> #[trigger] self.fields@[k] == other@[k],
            decreases other.len() - i,
        {
            if self.fields[i] != other[i] {
                return false;
            }
            i = i + 1;
        }
        assert(self.fields@ =~= other@);
        true
    }

    /// Ставит `value` для колонок, имена которых есть в множестве `names`.
    fn set_by_name(&mut self, t: &DbTable, value: bool, names: &AHashSet<String>)
        requires
            old(self)@.len() == t.fields@.len(),
        ensures
            final(self)@.len() == old(self)@.len(),
            forall|i: int| 0 <= i < final(self)@.len() ==> #[trigger] final(self)@[i] == if field_set_contents(*names).contains(t.names()[i]) {
                value
            } else {
                old(self)@[i]
            },
    {
        let ghost before = self.fields@;
        let mut idx: usize = 0;
        while idx < t.fields.len()
            invariant
                idx <= t.fields@.len(),
                self.fields@.len() == t.fields@.len(),
                before.len() == t.fields@.len(),
                forall|k: int| 0 <= k < idx ==> #[trigger] self.fields@[k] == if field_set_contents(*names).contains(t.names()[k]) {
                    value
                } else {
                    before[k]
                },
                forall|k: int| idx <= k < t.fields@.len() ==> #[trigger] self.fields@[k] == before[k],
            decreases t.fields.len() - idx,
        {
            if field_set_contains(names, t.fields[idx].as_str()) {
                self.fields.set(idx, value);
            }
            idx = idx + 1;
        }
    }

    /// Ставит `value` для колонок с индексами из `indices`.
    fn set(&mut self, value: bool, indices: &Vec<usize>)
        requires
            forall|j: int| 0 <= j < indices@.len() ==> #[trigger] indices@[j] < old(self)@.len(),
        ensures
            final(self)@ == set_at_indices(old(self)@, value, indices@),
    {
        let ghost before = self.fields@;
        let len = self.fields.len();
        assert(before.len() == len);
        let mut j: usize = 0;
        while j < indices.len()
            invariant
                j <= indices@.len(),
                self.fields@.len() == before.len(),
                before.len() <= usize::MAX,
                forall|k: int| 0 <= k < indices@.len() ==> #[trigger] indices@[k] < before.len(),
                self.fields@ == set_at_indices(before, value, indices@.take(j as int)),
            decreases indices.len() - j,
        {
            let i = indices[j];
            self.fields.set(i, value);
            proof {
                let next = indices@.take(j + 1);
                assert(next =~= indices@.take(j as int).push(i));
                assert forall|k: int| 0 <= k < before.len() implies #[trigger] self.fields@[k] == set_at_indices(before, value, next)[k] by {
                    let prev = indices@.take(j as int);
                    if k == i as int {
                        assert(next[j as int] == i);
                        assert(next.contains(i));
                    } else {
                        if prev.contains(k as usize) {
                            let m = choose|m: int| 0 <= m < prev.len() && prev[m] == k as usize;
                            assert(next[m] == prev[m]);
                        }
                        assert(next[j as int] == i);
                        assert((k as usize) != i);
                        if next.contains(k as usize) {
                            let m = choose|m: int| 0 <= m < next.len() && next[m] == k as usize;
                            assert(m < j);
                            assert(prev[m] == next[m]);
                        }
                    }
                }
                assert(self.fields@ =~= set_at_indices(before, value, next));
            }
            j = j + 1;
        }
        assert(indices@.take(indices@.len() as int) =~= indices@);
    }

    /// Включает все первичные ключи.
    fn set_pkeys(&mut self, t: &DbTable)
        requires
            t.wf(),
            old(self)@.len() == t.fields@.len(),
        ensures
            final(self)@ == set_at_indices(old(self)@, true, t.primary_key_indices@),
    {
        self.set(true, &t.primary_key_indices);
    }

    /// Выключает все колонки `GENERATED ALWAYS AS`.
    fn unset_always_autogen(&mut self, t: &DbTable)
        requires
            t.wf(),
            old(self)@.len() == t.fields@.len(),
        ensures
            final(self)@ == set_at_indices(old(self)@, false, t.no_update_indices@),
    {
        self.set(false, &t.no_update_indices);
    }
}

/// Колонки для UPDATE по маске: с первичными ключами, без колонок `GENERATED ALWAYS AS`.
pub fn update_fields_helper(t: &DbTable, mask: &DbFieldMask) -> (r: Vec<String>)
    requires
        t.wf(),
        mask@.len() == t.fields@.len(),
    ensures
        strings_view(r@) == masked_names(
            t.names(),
            set_at_indices(set_at_indices(mask@, true, t.primary_key_indices@), false, t.no_update_indices@),
        ),
{
    mask.clone_mask().with_pkeys(t).without_autogen(t).to_fields(t)
}

/// Колонки SET-части UPDATE: включённые в маску, без колонок `GENERATED ALWAYS AS`.
pub fn update_set_fields_helper(t: &DbTable, mask: &DbFieldMask) -> (r: Vec<String>)
    requires
        t.wf(),
        mask@.len() == t.fields@.len(),
    ensures
        strings_view(r@) == masked_names(t.names(), set_at_indices(mask@, false, t.no_update_indices@)),
{
    mask.clone_mask().without_autogen(t).to_fields(t)
}

/// Колонки для SELECT: все включённые в маску.
pub fn select_fields_helper(t: &DbTable, mask: &DbFieldMask) -> (r: Vec<String>)
    ensures
        strings_view(r@) == masked_names(t.names(), mask@),
{
    mask.to_fields(t)
}

/// Маска привязки по именам колонок, с первичными ключами.
pub fn make_bind_mask(t: &DbTable, selected_fields: &Vec<String>) -> (r: DbFieldMask)
    requires
        t.wf(),
    ensures
        r@.len() == t.fields@.len(),
        forall|i: int| 0 <= i < r@.len() ==> #[trigger] r@[i] == (strings_view(selected_fields@).contains(t.names()[i])
            || t.is_pkey(i)),
{
    DbFieldMask::make_bind_mask(t, selected_fields)
}

/// Маска привязки для одиночного UPDATE: без колонок `GENERATED ALWAYS AS`.
pub fn make_single_update_bind_mask(t: &DbTable, selected_fields: &Vec<String>) -> (r: DbFieldMask)
    requires
        t.wf(),
    ensures
        r@.len() == t.fields@.len(),
        forall|i: int| 0 <= i < r@.len() ==> #[trigger] r@[i] == ((strings_view(selected_fields@).contains(t.names()[i])
            || t.is_pkey(i)) && !t.is_no_update(i)),
{
    DbFieldMask::make_single_update_bind_mask(t, selected_fields)
}

/// Маска полей адаптора: маска колонок таблицы и маска полей-дубликатов,
/// которых нет среди колонок (другое имя того же значения для фронтенда).
pub struct DbAdaptorFieldMask {
    item_field_mask: DbFieldMask,
    dup_field_mask: Vec<bool>,
}

/// Для каждого поля-дубликата: есть ли его имя в множестве `names`.
pub open spec fn dup_membership(dup_fields: Seq<Seq<char>>, names: Set<Seq<char>>) -> Seq<bool> {
    Seq::new(dup_fields.len(), |i: int| names.contains(dup_fields[i]))
}

impl DbAdaptorFieldMask {
    /// Маска колонок таблицы.
    pub closed spec fn item_mask(&self) -> Seq<bool> {
        self.item_field_mask@
    }

    /// Маска полей-дубликатов.
    pub closed spec fn dup_mask(&self) -> Seq<bool> {
        self.dup_field_mask@
    }

    /// Все поля включены.
    pub fn all(t: &DbTable, dup_fields: &Vec<String>) -> (r: Self)
        ensures
            r.item_mask() == filled(t.fields@.len(), true),
            r.dup_mask() == filled(dup_fields@.len(), true),
    {
        let d = DbFieldMask::filled(dup_fields.len(), true);
        DbAdaptorFieldMask { item_field_mask: DbFieldMask::all(t), dup_field_mask: d.fields }
    }

    /// Ни одного поля не включено.
    pub fn none(t: &DbTable, dup_fields: &Vec<String>) -> (r: Self)
        ensures
            r.item_mask() == filled(t.fields@.len(), false),
            r.dup_mask() == filled(dup_fields@.len(), false),
    {
        let d = DbFieldMask::filled(dup_fields.len(), false);
        DbAdaptorFieldMask { item_field_mask: DbFieldMask::none(t), dup_field_mask: d.fields }
    }

    fn dup_mask_of(dup_fields: &Vec<String>, names: &AHashSet<String>) -> (r: Vec<bool>)
        ensures
            r@ == dup_membership(strings_view(dup_fields@), field_set_contents(*names)),
    {
        let mut out: Vec<bool> = Vec::new();
        let mut i: usize = 0;
        while i < dup_fields.len()
            invariant
                i <= dup_fields@.len(),
                out@.len() == i,
                forall|k: int| 0 <= k < i ==> #[trigger] out@[k] == field_set_contents(*names).contains(dup_fields@[k]@),
            decreases dup_fields.len() - i,
        {
            out.push(field_set_contains(names, dup_fields[i].as_str()));
            i = i + 1;
        }
        assert(out@ =~= dup_membership(strings_view(dup_fields@), field_set_contents(*names)));
        out
    }

    /// Включает только перечисленные поля.
    pub fn with_fields(t: &DbTable, dup_fields: &Vec<String>, fields: &Vec<String>) -> (r: Self)
        ensures
            r.item_mask().len() == t.fields@.len(),
            forall|i: int| 0 <= i < r.item_mask().len() ==> #[trigger] r.item_mask()[i] == strings_view(fields@).contains(t.names()[i]),
            r.dup_mask() == dup_membership(strings_view(dup_fields@), strings_view(fields@).to_set()),
    {
        let names = field_set_from(fields);
        let dup_field_mask = Self::dup_mask_of(dup_fields, &names);
        let item_field_mask = DbFieldMask::with_field_set(t, &names);
        proof {
            assert forall|i: int| 0 <= i < item_field_mask@.len() implies #[trigger] item_field_mask@[i] == strings_view(fields@).contains(t.names()[i]) by {
                assert(strings_view(fields@).to_set().contains(t.names()[i]) == strings_view(fields@).contains(t.names()[i]));
            }
        }
        DbAdaptorFieldMask { item_field_mask, dup_field_mask }
    }

    /// Включает перечисленные поля и все первичные ключи.
    pub fn with_fields_and_pkeys(t: &DbTable, dup_fields: &Vec<String>, fields: &Vec<String>) -> (r: Self)
        requires
            t.wf(),
        ensures
            r.item_mask().len() == t.fields@.len(),
            forall|i: int| 0 <= i < r.item_mask().len() ==> #[trigger] r.item_mask()[i] == (strings_view(fields@).contains(t.names()[i])
                || t.is_pkey(i)),
            r.dup_mask() == dup_membership(strings_view(dup_fields@), strings_view(fields@).to_set()),
    {
        let names = field_set_from(fields);
        let dup_field_mask = Self::dup_mask_of(dup_fields, &names);
        let item_field_mask = DbFieldMask::with_field_set(t, &names).with_pkeys(t);
        proof {
            assert forall|i: int| 0 <= i < item_field_mask@.len() implies #[trigger] item_field_mask@[i] == (strings_view(fields@).contains(t.names()[i])
                || t.is_pkey(i)) by {
                assert(strings_view(fields@).to_set().contains(t.names()[i]) == strings_view(fields@).contains(t.names()[i]));
            }
        }
        DbAdaptorFieldMask { item_field_mask, dup_field_mask }
    }

    /// Маска колонок таблицы.
    pub fn item_field_mask(&self) -> (r: &DbFieldMask)
        ensures
            r@ == self.item_mask(),
    {
        &self.item_field_mask
    }

    /// Маска полей-дубликатов.
    pub fn dup_field_mask(&self) -> (r: &[bool])
        ensures
            r@ == self.dup_mask(),
    {
        self.dup_field_mask.as_slice()
    }
}


/// Маска по умолчанию для массового обновления адапторами: объединение масок
/// всех адапторов (колонка включена, если включена хотя бы в одной маске).
pub fn create_default_bind_mask(t: &DbTable, masks: &Vec<DbFieldMask>) -> (r: DbFieldMask)
    ensures
        r@.len() == t.fields@.len(),
        forall|i: int| 0 <= i < r@.len() ==> #[trigger] r@[i] == exists|k: int|
            0 <= k < masks@.len() && i < masks@[k]@.len() && #[trigger] masks@[k]@[i],
{
    let mut acc = DbFieldMask::none(t);
    let mut k: usize = 0;
    while k < masks.len()
        invariant
            k <= masks@.len(),
            acc@.len() == t.fields@.len(),
            forall|i: int| 0 <= i < acc@.len() ==> #[trigger] acc@[i] == exists|j: int|
                0 <= j < k && i < masks@[j]@.len() && #[trigger] masks@[j]@[i],
        decreases masks.len() - k,
    {
        let ghost before = acc@;
        acc = acc.bitor(masks[k].clone_mask());
        proof {
            assert forall|i: int| 0 <= i < acc@.len() implies #[trigger] acc@[i] == exists|j: int|
                0 <= j < k + 1 && i < masks@[j]@.len() && #[trigger] masks@[j]@[i] by {
                if i < masks@[k as int]@.len() && masks@[k as int]@[i] {
                    assert(0 <= k < k + 1 && i < masks@[k as int]@.len() && masks@[k as int]@[i]);
                }
                if exists|j: int| 0 <= j < k + 1 && i < masks@[j]@.len() && #[trigger] masks@[j]@[i] {
                    let j = choose|j: int| 0 <= j < k + 1 && i < masks@[j]@.len() && #[trigger] masks@[j]@[i];
                    if j < k {
                        assert(before[i]);
                    }
                }
            }
        }
        k = k + 1;
    }
    acc
}


/// Маска для перевода записи в адаптор (`DbAdaptor::from_item`): без списка
/// полей -- все поля, со списком -- перечисленные поля и первичные ключи.
pub fn adaptor_mask_for(t: &DbTable, dup_fields: &Vec<String>, fields: Option<&Vec<String>>) -> (r: DbAdaptorFieldMask)
    requires
        t.wf(),
    ensures
        match fields {
            None => r.item_mask() == filled(t.fields@.len(), true) && r.dup_mask() == filled(dup_fields@.len(), true),
            Some(f) => {
                &&& r.item_mask().len() == t.fields@.len()
                &&& forall|i: int| 0 <= i < r.item_mask().len() ==> #[trigger] r.item_mask()[i] == (strings_view(
                    f@,
                ).contains(t.names()[i]) || t.is_pkey(i))
                &&& r.dup_mask() == dup_membership(strings_view(dup_fields@), strings_view(f@).to_set())
            },
        },
{
    match fields {
        None => DbAdaptorFieldMask::all(t, dup_fields),
        Some(f) => DbAdaptorFieldMask::with_fields_and_pkeys(t, dup_fields, f),
    }
}

} // verus!
