//! Описание таблицы PostgreSQL: имена колонок, первичные ключи и служебные индексы.
use crate::text::strings_view;
use vstd::prelude::*;

verus! {

/// Описание таблицы, к которой привязана структура-строка.
///
/// Поля совпадают с константами, которые порождает `#[derive(DbItem)]`:
/// имя таблицы, все колонки, первичные ключи и их индексы, колонки для
/// INSERT и UPDATE и индексы колонок `GENERATED ALWAYS AS`.
pub struct DbTable {
    /// Имя таблицы.
    pub table: String,
    /// Имена всех колонок таблицы.
    pub fields: Vec<String>,
    /// Имена колонок первичного ключа.
    pub primary_keys: Vec<String>,
    /// Индексы первичных ключей в `fields`.
    pub primary_key_indices: Vec<usize>,
    /// Колонки, которые вставляются при INSERT (без autogen-колонок).
    pub insert_fields: Vec<String>,
    /// Колонки, доступные для UPDATE.
    pub update_fields: Vec<String>,
    /// Индексы колонок в `fields`, которые нельзя обновлять.
    pub no_update_indices: Vec<usize>,
    /// Пары переименований `(имя_фронтенда, имя_бэкенда)`.
    pub tolerated: Vec<(String, String)>,
}

impl DbTable {
    /// Индексы первичных ключей и неизменяемых колонок указывают на колонки таблицы.
    pub open spec fn wf(&self) -> bool {
        &&& forall|j: int| 0 <= j < self.primary_key_indices@.len()
            ==> #[trigger] self.primary_key_indices@[j] < self.fields@.len()
        &&& forall|j: int| 0 <= j < self.no_update_indices@.len()
            ==> #[trigger] self.no_update_indices@[j] < self.fields@.len()
    }

    /// Имена колонок.
    pub open spec fn names(&self) -> Seq<Seq<char>> {
        strings_view(self.fields@)
    }

    /// Колонка `i` входит в первичный ключ.
    pub open spec fn is_pkey(&self, i: int) -> bool {
        self.primary_key_indices@.contains(i as usize)
    }

    /// Колонка `i` вычисляется базой (`GENERATED ALWAYS AS`).
    pub open spec fn is_no_update(&self, i: int) -> bool {
        self.no_update_indices@.contains(i as usize)
    }
}

} // verus!
