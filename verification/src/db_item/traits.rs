//! Маркерные типажи и вспомогательные типы сущностей.
use crate::value::{Value, ValueModel};
use vstd::prelude::*;

verus! {

/// Все варианты перечисления вместе с их числовыми значениями в базе.
pub trait EnumDiscriminant: Sized {
    /// Варианты и их значения.
    fn discriminants() -> Vec<(Self, i16)>;
}

/// Структура может быть прочитана из неполного набора колонок.
pub trait DbItemPartialSelect {}

/// Сущность, к которой применяются правила статусной модели.
pub trait RulesLawyer: Sized {}

/// Поле сущности: имя и значение (если есть).
#[derive(Clone, Debug, PartialEq)]
pub struct Field {
    field: String,
    pub value: Option<Value>,
}

impl Field {
    /// Имя поля.
    pub closed spec fn name(&self) -> Seq<char> {
        self.field@
    }

    /// Значение поля.
    pub closed spec fn stored_value(&self) -> Option<Value> {
        self.value
    }

    /// Имя поля.
    pub fn field(&self) -> (r: &str)
        ensures
            r@ == self.name(),
    {
        self.field.as_str()
    }

    /// Значение поля.
    pub fn into_value(self) -> (r: Option<Value>)
        ensures
            r == self.stored_value(),
    {
        self.value
    }

    /// Поле по имени и значению.
    pub fn new(field: &str, value: Option<Value>) -> (r: Field)
        ensures
            r.name() == field@,
            r.stored_value() == value,
    {
        Field { field: String::from_str(field), value }
    }
}

/// Поиск значения ячейки таблицы выгрузки по полю для одной строки данных.
pub trait FieldLookup: Sized {
    /// Исходные данные строки.
    type Source;
    /// Поле (колонка) таблицы.
    type Field;
    /// Значение ячейки.
    type Cell;

    /// Структура поиска для строки.
    fn build(input: Self::Source) -> Self;

    /// Значение поля в строке `pos` (или пустое значение).
    fn get_or_null(&self, pos: usize, field: &Self::Field) -> Self::Cell;
}

/// Строка `row` таблицы выгрузки для элемента данных `x` с номером `i`: `lookup`
/// -- ответ `L::build` на `x`, ячейка `j` -- ответ `lookup.get_or_null` на
/// номер строки и поле `fields[j]`.
pub open spec fn export_row<L: FieldLookup>(x: L::Source, lookup: L, i: int, fields: Seq<L::Field>, row: Seq<L::Cell>) -> bool {
    &&& call_ensures(L::build, (x,), lookup)
    &&& row.len() == fields.len()
    &&& forall|j: int| 0 <= j < fields.len() ==> call_ensures(L::get_or_null, (&lookup, i as usize, &fields[j]), #[trigger] row[j])
}

/// Таблица `rows` выгрузки данных `data`: строка `i` -- [`export_row`] элемента
/// `data[i]` со структурой поиска `lookups[i]`.
pub open spec fn export_table<L: FieldLookup>(data: Seq<L::Source>, lookups: Seq<L>, fields: Seq<L::Field>, rows: Seq<Vec<L::Cell>>) -> bool {
    &&& lookups.len() == data.len()
    &&& rows.len() == data.len()
    &&& forall|i: int| 0 <= i < data.len() ==> #[trigger] export_row(data[i], lookups[i], i, fields, rows[i]@)
}

/// Таблица выгрузки: по строке на каждый элемент данных, в строке -- по ячейке
/// на каждое поле, в порядке полей.
pub fn build_export_table<L: FieldLookup>(data: Vec<L::Source>, fields: &Vec<L::Field>) -> (r: Vec<Vec<L::Cell>>)
    ensures
        r@.len() == data@.len(),
        forall|i: int| 0 <= i < r@.len() ==> #[trigger] r@[i]@.len() == fields@.len(),
        exists|lookups: Seq<L>| #[trigger] export_table(data@, lookups, fields@, r@),
{
    let total: usize = data.len();
    let ghost n = data@.len();
    let ghost all = data@;
    let ghost mut lookups: Seq<L> = seq![];
    let mut out: Vec<Vec<L::Cell>> = Vec::new();
    let mut i: usize = 0;
    for x in it: data
        invariant
            n == it.seq().len(),
            all == it.seq(),
            n == total,
            out@.len() == it.index(),
            lookups.len() == it.index(),
            i == it.index(),
            forall|k: int| 0 <= k < out@.len() ==> #[trigger] out@[k]@.len() == fields@.len(),
            forall|k: int| 0 <= k < out@.len() ==> #[trigger] export_row(all[k], lookups[k], k, fields@, out@[k]@),
    {
        assert(all[i as int] == x);
        let ghost x0 = x;
        let lookup = L::build(x);
        let mut row: Vec<L::Cell> = Vec::new();
        let mut j: usize = 0;
        while j < fields.len()
            invariant
                j <= fields@.len(),
                row@.len() == j,
                forall|k: int| 0 <= k < j ==> call_ensures(L::get_or_null, (&lookup, i, &fields@[k]), #[trigger] row@[k]),
            decreases fields.len() - j,
        {
            let c = lookup.get_or_null(i, &fields[j]);
            row.push(c);
            j = j + 1;
        }
        proof {
            lookups = lookups.push(lookup);
        }
        let ghost out0 = out@;
        out.push(row);
        assert forall|k: int| 0 <= k < out@.len() implies #[trigger] export_row(all[k], lookups[k], k, fields@, out@[k]@) by {
            if k < i {
                assert(out@[k] == out0[k]);
            } else {
                assert(out@[k] == row);
                assert(k as usize == i);
            }
        }
        i = i + 1;
    }
    assert(export_table(all, lookups, fields@, out@));
    out
}

} // verus!
