//! Множество имён полей на основе `ahash::AHashSet`.
use crate::text::strings_view;
use ahash::AHashSet;
use vstd::prelude::*;

verus! {

#[verifier::external_type_specification]
#[verifier::external_body]
#[verifier::reject_recursive_types(T)]
#[verifier::reject_recursive_types(S)]
pub struct ExAHashSet<T, S>(AHashSet<T, S>);

#[verifier::external_type_specification]
#[verifier::external_body]
pub struct ExRandomState(ahash::RandomState);

/// Имена, которые содержит множество полей.
pub uninterp spec fn field_set_contents(s: AHashSet<String>) -> Set<Seq<char>>;

/// Собирает `AHashSet` из имён полей (`FromIterator` крейта `ahash`).
///
/// Контракт: множество содержит ровно имена из `fields` (повторы схлопываются).
#[verifier::external_body]
pub(crate) fn field_set_from(fields: &Vec<String>) -> (s: AHashSet<String>)
    ensures
        field_set_contents(s) == strings_view(fields@).to_set(),
{
    fields.iter().cloned().collect()
}

/// Проверка членства: `AHashSet::contains` (через `Deref` на `HashSet`).
///
/// Контракт: истина ровно тогда, когда имя `k` есть среди содержимого множества.
#[verifier::external_body]
pub(crate) fn field_set_contains(s: &AHashSet<String>, k: &str) -> (r: bool)
    ensures
        r == field_set_contents(*s).contains(k@),
{
    s.contains(k)
}


#[verifier::external_type_specification]
#[verifier::external_body]
#[verifier::reject_recursive_types(K)]
#[verifier::reject_recursive_types(V)]
#[verifier::reject_recursive_types(S)]
pub struct ExAHashMap<K, V, S>(ahash::AHashMap<K, V, S>);

/// Пары «идентификатор, номер версии», которые содержит таблица версий.
pub uninterp spec fn version_map_contents(m: ahash::AHashMap<i64, i16>) -> Map<i64, i16>;

/// Отображение из пар: более поздняя пара с тем же ключом побеждает.
pub open spec fn pairs_map(ps: Seq<(i64, i16)>) -> Map<i64, i16>
    decreases ps.len(),
{
    if ps.len() == 0 {
        Map::empty()
    } else {
        pairs_map(ps.drop_last()).insert(ps.last().0, ps.last().1)
    }
}

/// Собирает `AHashMap` из пар (`FromIterator` крейта `ahash`, то есть `HashMap::extend`).
///
/// Контракт: содержимое -- пары по порядку, поздняя пара с тем же ключом заменяет раннюю.
#[verifier::external_body]
pub(crate) fn version_map_from(pairs: Vec<(i64, i16)>) -> (m: ahash::AHashMap<i64, i16>)
    ensures
        version_map_contents(m) == pairs_map(pairs@),
{
    pairs.into_iter().collect()
}

/// Значение по ключу: `AHashMap::get`.
///
/// Контракт: значение из содержимого, если ключ есть, иначе `None`.
#[verifier::external_body]
pub(crate) fn version_map_get(m: &ahash::AHashMap<i64, i16>, k: i64) -> (r: Option<i16>)
    ensures
        r == (if version_map_contents(*m).contains_key(k) {
            Some(version_map_contents(*m)[k])
        } else {
            None
        }),
{
    m.get(&k).copied()
}

/// Запись значения по ключу: `AHashMap::insert`.
///
/// Контракт: содержимое -- прежнее с новой парой вместо старой для ключа.
#[verifier::external_body]
pub(crate) fn version_map_insert(m: &mut ahash::AHashMap<i64, i16>, k: i64, v: i16)
    ensures
        version_map_contents(*final(m)) == version_map_contents(*old(m)).insert(k, v),
{
    m.insert(k, v);
}


/// Позиции записей по их UUID, которые содержит таблица позиций.
pub uninterp spec fn uuid_index_contents(m: ahash::AHashMap<u128, usize>) -> Map<u128, usize>;

/// Отображение из пар «UUID, позиция»: более поздняя пара с тем же UUID побеждает.
pub open spec fn uuid_pairs_map(ps: Seq<(u128, usize)>) -> Map<u128, usize>
    decreases ps.len(),
{
    if ps.len() == 0 {
        Map::empty()
    } else {
        uuid_pairs_map(ps.drop_last()).insert(ps.last().0, ps.last().1)
    }
}

/// Собирает таблицу позиций из пар (`FromIterator` крейта `ahash`).
///
/// Контракт: содержимое -- пары по порядку, поздняя пара с тем же UUID заменяет раннюю.
#[verifier::external_body]
pub(crate) fn uuid_index_from(pairs: Vec<(u128, usize)>) -> (m: ahash::AHashMap<u128, usize>)
    ensures
        uuid_index_contents(m) == uuid_pairs_map(pairs@),
{
    pairs.into_iter().collect()
}

/// Извлечение позиции по UUID: `AHashMap::remove`.
///
/// Контракт: возвращается позиция из содержимого (если UUID есть), и UUID
/// уходит из содержимого; остальное не меняется.
#[verifier::external_body]
pub(crate) fn uuid_index_remove(m: &mut ahash::AHashMap<u128, usize>, k: u128) -> (r: Option<usize>)
    ensures
        uuid_index_contents(*final(m)) == uuid_index_contents(*old(m)).remove(k),
        r == (if uuid_index_contents(*old(m)).contains_key(k) {
            Some(uuid_index_contents(*old(m))[k])
        } else {
            None
        }),
{
    m.remove(&k)
}

} // verus!
