//! JOIN-запросы к нескольким таблицам.
//!
//! Три вида соединения: [`NormalJoin`] (INNER JOIN), [`LeftJoin`] (LEFT JOIN,
//! присоединяемой строки может не быть) и [`AggrJoin`] (LEFT JOIN с агрегацией
//! строк присоединяемой таблицы через `array_agg()`).
use crate::db_item::selection::{
    copy_orders, order_text, orders_view, select_sql, tolerated_pairs, tolerated_select, FieldSortKind,
    FieldSortOrder, NullPosition, OrderModel, Select, SelectMaker, SelectModel,
};
use crate::db_item::selection::filters::tree_weight;
use crate::db_item::table::DbTable;
use crate::result::SharedDbError;
use crate::text::{contains_str, copy_string, copy_strings, join_strings, lemma_strings_view_push, lemma_take_push, seq_join, strings_view};
use vstd::prelude::*;

verus! {

/// Маркер агрегирующего соединения.
#[derive(Debug, Default, Clone, Copy)]
pub struct AggrJoin;

/// Маркер LEFT JOIN.
#[derive(Debug, Default, Clone, Copy)]
pub struct LeftJoin;

/// Маркер INNER JOIN.
#[derive(Debug, Default, Clone, Copy)]
pub struct NormalJoin;

/// Вид соединения: LEFT JOIN и агрегация присоединяемых строк.
pub trait JoinKind {
    /// Соединение LEFT JOIN.
    spec fn is_left() -> bool;

    /// Строки присоединяемой таблицы агрегируются.
    spec fn is_agg() -> bool;

    /// Соединение LEFT JOIN.
    fn left() -> (r: bool)
        ensures
            r == Self::is_left(),
    ;

    /// Строки присоединяемой таблицы агрегируются.
    fn agg() -> (r: bool)
        ensures
            r == Self::is_agg(),
    ;
}

impl JoinKind for NormalJoin {
    open spec fn is_left() -> bool {
        false
    }

    open spec fn is_agg() -> bool {
        false
    }

    fn left() -> (r: bool) {
        false
    }

    fn agg() -> (r: bool) {
        false
    }
}

impl JoinKind for LeftJoin {
    open spec fn is_left() -> bool {
        true
    }

    open spec fn is_agg() -> bool {
        false
    }

    fn left() -> (r: bool) {
        true
    }

    fn agg() -> (r: bool) {
        false
    }
}

impl JoinKind for AggrJoin {
    open spec fn is_left() -> bool {
        false
    }

    open spec fn is_agg() -> bool {
        true
    }

    fn left() -> (r: bool) {
        false
    }

    fn agg() -> (r: bool) {
        true
    }
}

/// Параметры присоединения таблицы `table` к таблице `foreign`.
pub struct JoinedSelectData<'a, K: JoinKind> {
    select: Select,
    own_key: String,
    foreign_table_key: String,
    distinct: bool,
    ordered_aggr: Vec<FieldSortOrder>,
    distinct_aggr: bool,
    outer_order: Vec<FieldSortOrder>,
    table: &'a DbTable,
    foreign: &'a DbTable,
    kind: K,
}

/// Модель параметров присоединения.
pub struct JoinDataModel {
    pub select: SelectModel,
    pub own_key: Seq<char>,
    pub foreign_table_key: Seq<char>,
    pub distinct: bool,
    pub ordered_aggr: Seq<OrderModel>,
    pub distinct_aggr: bool,
    pub outer_order: Seq<OrderModel>,
}

/// Текст ошибки соединения.
pub open spec fn join_key_errors(t: &DbTable, foreign: &DbTable, select: SelectModel, own_key: Seq<char>, foreign_key: Seq<char>) -> Result<(), Seq<char>> {
    if !t.names().contains(own_key) {
        Err("field '"@ + own_key + "' used for join but not found in table '"@ + t.table@ + "'"@)
    } else if !select.field_list.contains(own_key) {
        Err("field '"@ + own_key + "' used for join but not found in selection '"@ + seq_join(select.field_list, ", "@) + "'"@)
    } else if !foreign.names().contains(foreign_key) {
        Err("field '"@ + foreign_key + "' not found in table '"@ + foreign.table@ + "'"@)
    } else {
        Ok(())
    }
}

/// Проверяет, что ключ соединения есть в таблице и в выборке, а ключ другой
/// таблицы -- в другой таблице.
pub fn check_joinable_select(t: &DbTable, foreign: &DbTable, select: &Select, own_key: &str, foreign_table_key: &str) -> (r: Result<(), SharedDbError>)
    ensures
        match join_key_errors(t, foreign, select@, own_key@, foreign_table_key@) {
            Ok(_) => r is Ok,
            Err(e) => r is Err && r->Err_0 is Join && r->Err_0.text() == e,
        },
{
    if !contains_str(&t.fields, own_key) {
        let mut m = String::from_str("field '");
        m.append(own_key);
        m.append("' used for join but not found in table '");
        m.append(t.table.as_str());
        m.append("'");
        return Err(SharedDbError::Join(m));
    }
    if !contains_str(&select.field_list, own_key) {
        let mut m = String::from_str("field '");
        m.append(own_key);
        m.append("' used for join but not found in selection '");
        let j = join_strings(&select.field_list, ", ");
        m.append(j.as_str());
        m.append("'");
        return Err(SharedDbError::Join(m));
    }
    if !contains_str(&foreign.fields, foreign_table_key) {
        let mut m = String::from_str("field '");
        m.append(foreign_table_key);
        m.append("' not found in table '");
        m.append(foreign.table.as_str());
        m.append("'");
        return Err(SharedDbError::Join(m));
    }
    Ok(())
}

impl<'a, K: JoinKind> JoinedSelectData<'a, K> {
    /// Модель параметров.
    pub closed spec fn model(&self) -> JoinDataModel {
        JoinDataModel {
            select: self.select@,
            own_key: self.own_key@,
            foreign_table_key: self.foreign_table_key@,
            distinct: self.distinct,
            ordered_aggr: orders_view(self.ordered_aggr@),
            distinct_aggr: self.distinct_aggr,
            outer_order: orders_view(self.outer_order@),
        }
    }

    /// Присоединяемая таблица.
    pub closed spec fn own_table(&self) -> &'a DbTable {
        self.table
    }

    /// Таблица, к которой присоединяют.
    pub closed spec fn foreign_table(&self) -> &'a DbTable {
        self.foreign
    }

    /// Присоединение с ключами по умолчанию: колонка `default_fkey` таблицы
    /// `table` равна колонке `default_pkey` таблицы `foreign`; выбираются все колонки.
    pub fn join_default(table: &'a DbTable, foreign: &'a DbTable, default_pkey: &str, default_fkey: &str, kind: K) -> (r: Self)
        ensures
            r.own_table() == table,
            r.foreign_table() == foreign,
            r.model() == (JoinDataModel {
                select: SelectModel { field_list: table.names(), ..Select::empty_model() },
                own_key: default_fkey@,
                foreign_table_key: default_pkey@,
                distinct: false,
                ordered_aggr: seq![],
                distinct_aggr: false,
                outer_order: seq![],
            }),
    {
        let r = JoinedSelectData {
            select: Select::full(table),
            own_key: String::from_str(default_fkey),
            foreign_table_key: String::from_str(default_pkey),
            distinct: false,
            ordered_aggr: Vec::new(),
            distinct_aggr: false,
            outer_order: Vec::new(),
            table,
            foreign,
            kind,
        };
        assert(orders_view(r.ordered_aggr@) =~= seq![]);
        assert(orders_view(r.outer_order@) =~= seq![]);
        r
    }

    /// Присоединение по колонке `f` таблицы `foreign` (ключ `table` -- по умолчанию).
    pub fn join_on(table: &'a DbTable, foreign: &'a DbTable, default_pkey: &str, default_fkey: &str, kind: K, f: &str) -> (r: Self)
        ensures
            r.own_table() == table,
            r.foreign_table() == foreign,
            r.model() == (JoinDataModel {
                select: SelectModel { field_list: table.names(), ..Select::empty_model() },
                own_key: default_fkey@,
                foreign_table_key: f@,
                distinct: false,
                ordered_aggr: seq![],
                distinct_aggr: false,
                outer_order: seq![],
            }),
    {
        let mut j = Self::join_default(table, foreign, default_pkey, default_fkey, kind);
        j.foreign_table_key = String::from_str(f);
        j
    }

    /// Другая колонка этой таблицы для соединения.
    pub fn eq_own(self, own_field: &str) -> (r: Self)
        ensures
            r.own_table() == self.own_table(),
            r.foreign_table() == self.foreign_table(),
            r.model() == (JoinDataModel { own_key: own_field@, ..self.model() }),
    {
        let mut s = self;
        s.own_key = String::from_str(own_field);
        s
    }

    /// Фильтры, сортировка и DISTINCT ON из `select` (колонки остаются все).
    pub fn selecting(self, select: Select) -> (r: Self)
        ensures
            r.own_table() == self.own_table(),
            r.foreign_table() == self.foreign_table(),
            r.model() == (JoinDataModel {
                select: SelectModel {
                    filter_list: select@.filter_list,
                    order_list: select@.order_list,
                    distinct_on: select@.distinct_on,
                    ..self.model().select
                },
                ..self.model()
            }),
    {
        let mut s = self;
        s.select.filter_list = select.filter_list;
        s.select.order_list = select.order_list;
        s.select.distinct_on = select.distinct_on;
        s
    }

    /// DISTINCT по строкам этой таблицы.
    pub fn distinct(self) -> (r: Self)
        ensures
            r.own_table() == self.own_table(),
            r.foreign_table() == self.foreign_table(),
            r.model() == (JoinDataModel { distinct: true, ..self.model() }),
    {
        let mut s = self;
        s.distinct = true;
        s
    }

    /// Добавляет сортировку во внешний ORDER BY; у агрегирующего соединения
    /// ничего не делает; колонка не из таблицы -- ошибка.
    pub fn add_outer_order(&mut self, field: &str, order: FieldSortKind) -> (r: Result<(), SharedDbError>)
        ensures
            final(self).own_table() == old(self).own_table(),
            final(self).foreign_table() == old(self).foreign_table(),
            K::is_agg() ==> r is Ok && final(self).model() == old(self).model(),
            !K::is_agg() && old(self).own_table().names().contains(field@) ==> r is Ok && final(self).model() == (JoinDataModel {
                outer_order: old(self).model().outer_order.push(OrderModel { field: field@, order, null_position: None }),
                ..old(self).model()
            }),
            !K::is_agg() && !old(self).own_table().names().contains(field@) ==> r is Err && r->Err_0 is Other
                && r->Err_0.text() == "Outer ORDER BY clause `"@ + field@ + "` not in table `"@ + old(self).own_table().table@ + "`"@
                && final(self).model() == old(self).model(),
    {
        if K::agg() {
            return Ok(());
        }
        if !contains_str(&self.table.fields, field) {
            let mut m = String::from_str("Outer ORDER BY clause `");
            m.append(field);
            m.append("` not in table `");
            m.append(self.table.table.as_str());
            m.append("`");
            return Err(SharedDbError::Other(m));
        }
        let ghost before = self.outer_order@;
        self.outer_order.push(FieldSortOrder { field: String::from_str(field), order, null_position: None });
        assert(orders_view(self.outer_order@) =~= orders_view(before).push(OrderModel { field: field@, order, null_position: None }));
        Ok(())
    }

    /// Внешняя сортировка по возрастанию.
    pub fn with_outer_order_asc(self, field: &str) -> (r: Result<Self, SharedDbError>)
        ensures
            r is Ok ==> r->Ok_0.own_table() == self.own_table() && r->Ok_0.foreign_table() == self.foreign_table(),
            K::is_agg() ==> r is Ok && r->Ok_0.model() == self.model(),
            !K::is_agg() && self.own_table().names().contains(field@) ==> r is Ok && r->Ok_0.model() == (JoinDataModel {
                outer_order: self.model().outer_order.push(OrderModel { field: field@, order: FieldSortKind::Asc, null_position: None }),
                ..self.model()
            }),
            !K::is_agg() && !self.own_table().names().contains(field@) ==> r is Err && r->Err_0 is Other
                && r->Err_0.text() == "Outer ORDER BY clause `"@ + field@ + "` not in table `"@ + self.own_table().table@ + "`"@,
    {
        let mut s = self;
        match s.add_outer_order(field, FieldSortKind::Asc) {
            Ok(_) => Ok(s),
            Err(e) => Err(e),
        }
    }

    /// Внешняя сортировка по убыванию.
    pub fn with_outer_order_desc(self, field: &str) -> (r: Result<Self, SharedDbError>)
        ensures
            r is Ok ==> r->Ok_0.own_table() == self.own_table() && r->Ok_0.foreign_table() == self.foreign_table(),
            K::is_agg() ==> r is Ok && r->Ok_0.model() == self.model(),
            !K::is_agg() && self.own_table().names().contains(field@) ==> r is Ok && r->Ok_0.model() == (JoinDataModel {
                outer_order: self.model().outer_order.push(OrderModel { field: field@, order: FieldSortKind::Desc, null_position: None }),
                ..self.model()
            }),
            !K::is_agg() && !self.own_table().names().contains(field@) ==> r is Err && r->Err_0 is Other
                && r->Err_0.text() == "Outer ORDER BY clause `"@ + field@ + "` not in table `"@ + self.own_table().table@ + "`"@,
    {
        let mut s = self;
        match s.add_outer_order(field, FieldSortKind::Desc) {
            Ok(_) => Ok(s),
            Err(e) => Err(e),
        }
    }

    /// Позиция NULL для всех полей внешней сортировки.
    pub fn with_null_position(self, pos: NullPosition) -> (r: Self)
        ensures
            r.own_table() == self.own_table(),
            r.foreign_table() == self.foreign_table(),
            r.model() == (JoinDataModel {
                outer_order: self.model().outer_order.map_values(|o: OrderModel| OrderModel { null_position: Some(pos), ..o }),
                ..self.model()
            }),
    {
        let mut s = self;
        let ghost os = orders_view(s.outer_order@);
        let mut i: usize = 0;
        while i < s.outer_order.len()
            invariant
                i <= s.outer_order@.len(),
                os.len() == s.outer_order@.len(),
                os == self.model().outer_order,
                s.own_table() == self.own_table(),
                s.foreign_table() == self.foreign_table(),
                s.model() == (JoinDataModel { outer_order: orders_view(s.outer_order@), ..self.model() }),
                forall|k: int| 0 <= k < i ==> #[trigger] s.outer_order@[k]@ == (OrderModel { null_position: Some(pos), ..os[k] }),
                forall|k: int| i <= k < os.len() ==> #[trigger] s.outer_order@[k]@ == os[k],
            decreases s.outer_order.len() - i,
        {
            let mut item = s.outer_order[i].copy();
            item.null_position = Some(pos);
            s.outer_order.set(i, item);
            i = i + 1;
        }
        assert(orders_view(s.outer_order@) =~= os.map_values(|o: OrderModel| OrderModel { null_position: Some(pos), ..o }));
        s
    }

    /// NULL первыми во внешней сортировке.
    pub fn with_nulls_first(self) -> (r: Self)
        ensures
            r.own_table() == self.own_table(),
            r.foreign_table() == self.foreign_table(),
            r.model() == (JoinDataModel {
                outer_order: self.model().outer_order.map_values(|o: OrderModel| OrderModel { null_position: Some(NullPosition::First), ..o }),
                ..self.model()
            }),
    {
        self.with_null_position(NullPosition::First)
    }

    /// NULL последними во внешней сортировке.
    pub fn with_nulls_last(self) -> (r: Self)
        ensures
            r.own_table() == self.own_table(),
            r.foreign_table() == self.foreign_table(),
            r.model() == (JoinDataModel {
                outer_order: self.model().outer_order.map_values(|o: OrderModel| OrderModel { null_position: Some(NullPosition::Last), ..o }),
                ..self.model()
            }),
    {
        self.with_null_position(NullPosition::Last)
    }
}

impl<'a> JoinedSelectData<'a, AggrJoin> {
    /// Сортировка внутри `array_agg(table ORDER BY ...)`; колонка не из таблицы -- ошибка.
    pub fn order_aggr_by(self, field: &str, order: FieldSortKind) -> (r: Result<Self, SharedDbError>)
        ensures
            self.own_table().names().contains(field@) ==> r is Ok && r->Ok_0.own_table() == self.own_table()
                && r->Ok_0.foreign_table() == self.foreign_table() && r->Ok_0.model() == (JoinDataModel {
                ordered_aggr: self.model().ordered_aggr.push(OrderModel { field: field@, order, null_position: None }),
                ..self.model()
            }),
            !self.own_table().names().contains(field@) ==> r is Err && r->Err_0 is Other
                && r->Err_0.text() == "aggregate ORDER BY clause `"@ + field@ + "` not in table `"@ + self.own_table().table@ + "`"@,
    {
        if !contains_str(&self.table.fields, field) {
            let mut m = String::from_str("aggregate ORDER BY clause `");
            m.append(field);
            m.append("` not in table `");
            m.append(self.table.table.as_str());
            m.append("`");
            return Err(SharedDbError::Other(m));
        }
        let mut s = self;
        let ghost before = s.ordered_aggr@;
        s.ordered_aggr.push(FieldSortOrder { field: String::from_str(field), order, null_position: None });
        assert(orders_view(s.ordered_aggr@) =~= orders_view(before).push(OrderModel { field: field@, order, null_position: None }));
        Ok(s)
    }

    /// Сортировка внутри `array_agg` по возрастанию.
    pub fn add_order_aggr_asc_by(self, field: &str) -> (r: Result<Self, SharedDbError>)
        ensures
            self.own_table().names().contains(field@) ==> r is Ok && r->Ok_0.own_table() == self.own_table()
                && r->Ok_0.foreign_table() == self.foreign_table() && r->Ok_0.model() == (JoinDataModel {
                ordered_aggr: self.model().ordered_aggr.push(OrderModel { field: field@, order: FieldSortKind::Asc, null_position: None }),
                ..self.model()
            }),
            !self.own_table().names().contains(field@) ==> r is Err && r->Err_0 is Other
                && r->Err_0.text() == "aggregate ORDER BY clause `"@ + field@ + "` not in table `"@ + self.own_table().table@ + "`"@,
    {
        self.order_aggr_by(field, FieldSortKind::Asc)
    }

    /// Сортировка внутри `array_agg` по убыванию.
    pub fn add_order_aggr_desc_by(self, field: &str) -> (r: Result<Self, SharedDbError>)
        ensures
            self.own_table().names().contains(field@) ==> r is Ok && r->Ok_0.own_table() == self.own_table()
                && r->Ok_0.foreign_table() == self.foreign_table() && r->Ok_0.model() == (JoinDataModel {
                ordered_aggr: self.model().ordered_aggr.push(OrderModel { field: field@, order: FieldSortKind::Desc, null_position: None }),
                ..self.model()
            }),
            !self.own_table().names().contains(field@) ==> r is Err && r->Err_0 is Other
                && r->Err_0.text() == "aggregate ORDER BY clause `"@ + field@ + "` not in table `"@ + self.own_table().table@ + "`"@,
    {
        self.order_aggr_by(field, FieldSortKind::Desc)
    }

    /// DISTINCT внутри `array_agg`.
    pub fn distinct_aggr(self, value: bool) -> (r: Self)
        ensures
            r.own_table() == self.own_table(),
            r.foreign_table() == self.foreign_table(),
            r.model() == (JoinDataModel { distinct_aggr: value, ..self.model() }),
    {
        let mut s = self;
        s.distinct_aggr = value;
        s
    }
}

// ---------------------------------------------------------------------------
// Составной запрос.
// ---------------------------------------------------------------------------

/// Построенный подзапрос одной таблицы составного запроса.
struct HistoryFragment {
    select: Select,
    table: String,
    is_aggregate: bool,
    query_string: String,
    distinct_table: bool,
    ordered_aggr: Vec<FieldSortOrder>,
    distinct_aggr: bool,
    outer_order: Vec<FieldSortOrder>,
}

/// Модель фрагмента составного запроса.
pub struct FragmentModel {
    pub select: SelectModel,
    pub table: Seq<char>,
    pub is_aggregate: bool,
    pub query: Seq<char>,
    pub distinct_table: bool,
    pub ordered_aggr: Seq<OrderModel>,
    pub distinct_aggr: bool,
    pub outer_order: Seq<OrderModel>,
}

impl HistoryFragment {
    spec fn model(&self) -> FragmentModel {
        FragmentModel {
            select: self.select@,
            table: self.table@,
            is_aggregate: self.is_aggregate,
            query: self.query_string@,
            distinct_table: self.distinct_table,
            ordered_aggr: orders_view(self.ordered_aggr@),
            distinct_aggr: self.distinct_aggr,
            outer_order: orders_view(self.outer_order@),
        }
    }
}

/// Модели фрагментов.
spec fn fragments_view(v: Seq<HistoryFragment>) -> Seq<FragmentModel> {
    v.map_values(|f: HistoryFragment| f.model())
}

/// Сортировка внутри `array_agg`: ` ORDER BY t.f ASC,...` или ничего.
pub open spec fn aggr_order_text(f: FragmentModel) -> Seq<char> {
    let o = seq_join(f.ordered_aggr.map_values(|x: OrderModel| f.table + "."@ + order_text(x)), ","@);
    if o.len() == 0 {
        seq![]
    } else {
        " ORDER BY "@ + o
    }
}

/// Колонка выборки составного запроса для таблицы: сама таблица или `array_agg(...) as table`.
pub open spec fn field_item(f: FragmentModel) -> Seq<char> {
    if !f.is_aggregate {
        f.table
    } else {
        "array_agg("@ + (if f.distinct_aggr { "distinct "@ } else { seq![] }) + f.table + aggr_order_text(f) + ") as "@ + f.table
    }
}

/// Колонки GROUP BY первых `i` таблиц: `table.*` и поля внешней сортировки
/// для каждой неагрегируемой таблицы.
pub open spec fn group_items(fs: Seq<FragmentModel>, i: int) -> Seq<Seq<char>>
    decreases i,
{
    if i <= 0 || i > fs.len() {
        seq![]
    } else {
        let f = fs[i - 1];
        group_items(fs, i - 1) + if f.is_aggregate {
            seq![]
        } else {
            seq![f.table + ".*"@] + f.outer_order.map_values(|o: OrderModel| f.table + "."@ + o.field)
        }
    }
}

/// Таблицы с DISTINCT среди первых `i`.
pub open spec fn distinct_tables(fs: Seq<FragmentModel>, i: int) -> Seq<Seq<char>>
    decreases i,
{
    if i <= 0 || i > fs.len() {
        seq![]
    } else {
        distinct_tables(fs, i - 1) + if fs[i - 1].distinct_table {
            seq![fs[i - 1].table]
        } else {
            seq![]
        }
    }
}

/// Поля внешней сортировки первых `i` таблиц: `table.field ASC`.
pub open spec fn outer_items(fs: Seq<FragmentModel>, i: int) -> Seq<Seq<char>>
    decreases i,
{
    if i <= 0 || i > fs.len() {
        seq![]
    } else {
        let f = fs[i - 1];
        outer_items(fs, i - 1) + f.outer_order.map_values(|o: OrderModel| f.table + "."@ + order_text(o))
    }
}

/// Подзапросы первых `i` таблиц подряд.
pub open spec fn queries_text(fs: Seq<FragmentModel>, i: int) -> Seq<char>
    decreases i,
{
    if i <= 0 || i > fs.len() {
        seq![]
    } else {
        queries_text(fs, i - 1) + fs[i - 1].query
    }
}

/// Итоговый текст составного запроса.
pub open spec fn joined_query_text(fs: Seq<FragmentModel>) -> Seq<char> {
    let d = seq_join(distinct_tables(fs, fs.len() as int), ","@);
    let distincts = if d.len() == 0 { seq![] } else { "DISTINCT ON ("@ + d + ") "@ };
    let g = group_items(fs, fs.len() as int);
    let group_by = if g.len() != 0 { " GROUP BY "@ + seq_join(g, ","@) } else { seq![] };
    let o = seq_join(outer_items(fs, fs.len() as int), ","@);
    let outer = if o.len() == 0 { seq![] } else { " ORDER BY "@ + o };
    "SELECT "@ + distincts + seq_join(fs.map_values(|f: FragmentModel| field_item(f)), ","@) + " FROM"@
        + queries_text(fs, fs.len() as int) + group_by + outer
}

/// Построитель составного JOIN-запроса: подзапросы таблиц по порядку и номер
/// следующей привязки.
pub struct JoinedSelect {
    tables: Vec<HistoryFragment>,
    binds: usize,
}

/// Готовый составной запрос: текст и запросы, чьи значения привязываются по порядку.
#[derive(Debug)]
pub struct FinalJoinedSelect {
    query_string: String,
    source: Vec<Select>,
}

/// Модели запросов.
pub open spec fn selects_view(v: Seq<Select>) -> Seq<SelectModel> {
    v.map_values(|s: Select| s@)
}

impl FinalJoinedSelect {
    /// Текст запроса.
    pub closed spec fn text(&self) -> Seq<char> {
        self.query_string@
    }

    /// Запросы-источники привязок.
    pub closed spec fn sources(&self) -> Seq<SelectModel> {
        selects_view(self.source@)
    }

    /// Текст запроса.
    pub fn query_string(&self) -> (r: &str)
        ensures
            r@ == self.text(),
    {
        self.query_string.as_str()
    }

    /// Запросы-источники привязок.
    pub fn source(&self) -> (r: &Vec<Select>)
        ensures
            selects_view(r@) == self.sources(),
    {
        &self.source
    }
}

fn field_item_text(f: &HistoryFragment) -> (r: String)
    ensures
        r@ == field_item(f.model()),
{
    if !f.is_aggregate {
        return copy_string(&f.table);
    }
    let ghost fm = f.model();
    let ghost target = fm.ordered_aggr.map_values(|x: OrderModel| fm.table + "."@ + order_text(x));
    let mut parts: Vec<String> = Vec::new();
    let mut i: usize = 0;
    while i < f.ordered_aggr.len()
        invariant
            i <= f.ordered_aggr@.len(),
            fm == f.model(),
            target == fm.ordered_aggr.map_values(|x: OrderModel| fm.table + "."@ + order_text(x)),
            strings_view(parts@) == target.take(i as int),
        decreases f.ordered_aggr.len() - i,
    {
        let mut p = copy_string(&f.table);
        p.append(".");
        let o = f.ordered_aggr[i].display_text();
        p.append(o.as_str());
        let ghost before = parts@;
        parts.push(p);
        proof {
            lemma_strings_view_push(before, p);
            lemma_take_push(target, i as int);
        }
        i = i + 1;
    }
    assert(target.take(f.ordered_aggr@.len() as int) =~= target);
    let joined = join_strings(&parts, ",");
    let mut r = String::from_str("array_agg(");
    if f.distinct_aggr {
        r.append("distinct ");
    }
    r.append(f.table.as_str());
    if joined.as_str().unicode_len() != 0 {
        r.append(" ORDER BY ");
        r.append(joined.as_str());
    }
    r.append(") as ");
    r.append(f.table.as_str());
    r
}

impl JoinedSelect {
    /// Модели подзапросов.
    pub closed spec fn fragments(&self) -> Seq<FragmentModel> {
        fragments_view(self.tables@)
    }

    /// Номер следующей привязки.
    pub closed spec fn next_bind(&self) -> nat {
        self.binds as nat
    }

    /// Начинает составной запрос с главной таблицы: её подзапрос со всеми колонками.
    pub fn initiate(select: Select, t: &DbTable, distinct: bool, outer_order: Vec<FieldSortOrder>) -> (r: Result<JoinedSelect, SharedDbError>)
        requires
            1 + tree_weight(select@.filter_list) <= usize::MAX,
        ensures
            ({
                let q = SelectModel { field_list: t.names(), ..select@ };
                match select_sql(q, t, t.table@, false, 1) {
                    Ok(p) => r is Ok && r->Ok_0.next_bind() == p.1 && r->Ok_0.fragments() == seq![FragmentModel {
                        select: q,
                        table: t.table@,
                        is_aggregate: false,
                        query: "("@ + p.0 + ") as "@ + t.table@,
                        distinct_table: distinct,
                        ordered_aggr: seq![],
                        distinct_aggr: false,
                        outer_order: orders_view(outer_order@),
                    }],
                    Err(e) => r is Err && r->Err_0 is Other && r->Err_0.text() == e,
                }
            }),
    {
        let mut select = select;
        select.field_list = copy_strings(&t.fields);
        let maker = match SelectMaker::build(&select, 1, t, t.table.as_str(), false) {
            Ok(m) => m,
            Err(e) => {
                return Err(e);
            },
        };
        let mut query_string = String::from_str("(");
        query_string.append(maker.query_string());
        query_string.append(") as ");
        query_string.append(t.table.as_str());
        let frag = HistoryFragment {
            select,
            table: copy_string(&t.table),
            is_aggregate: false,
            query_string,
            distinct_table: distinct,
            ordered_aggr: Vec::new(),
            distinct_aggr: false,
            outer_order,
        };
        assert(orders_view(frag.ordered_aggr@) =~= seq![]);
        let mut tables: Vec<HistoryFragment> = Vec::new();
        tables.push(frag);
        let r = JoinedSelect { tables, binds: maker.bind_count() };
        assert(r.fragments() =~= seq![frag.model()]);
        Ok(r)
    }

    /// Присоединяет следующую таблицу; нумерация привязок продолжается.
    pub fn join<K: JoinKind>(self, data: JoinedSelectData<'_, K>) -> (r: Result<JoinedSelect, SharedDbError>)
        requires
            self.next_bind() + tree_weight(data.model().select.filter_list) <= usize::MAX,
        ensures
            ({
                let t = data.own_table();
                let o = data.foreign_table();
                let m = data.model();
                match join_key_errors(t, o, m.select, m.own_key, m.foreign_table_key) {
                    Err(e) => r is Err && r->Err_0 is Join && r->Err_0.text() == e,
                    Ok(_) => match select_sql(m.select, t, t.table@, false, self.next_bind()) {
                        Ok(p) => r is Ok && r->Ok_0.next_bind() == p.1 && r->Ok_0.fragments() == self.fragments().push(FragmentModel {
                            select: m.select,
                            table: t.table@,
                            is_aggregate: K::is_agg(),
                            query: " "@ + (if K::is_left() || K::is_agg() { "LEFT"@ } else { "INNER"@ }) + " JOIN ("@ + p.0
                                + ") as "@ + t.table@ + "\n                ON "@ + t.table@ + "."@ + m.own_key + "="@ + o.table@
                                + "."@ + m.foreign_table_key,
                            distinct_table: m.distinct,
                            ordered_aggr: m.ordered_aggr,
                            distinct_aggr: m.distinct_aggr,
                            outer_order: m.outer_order,
                        }),
                        Err(e) => r is Err && r->Err_0 is Other && r->Err_0.text() == e,
                    },
                }
            }),
    {
        match check_joinable_select(data.table, data.foreign, &data.select, data.own_key.as_str(), data.foreign_table_key.as_str()) {
            Ok(_) => {},
            Err(e) => {
                return Err(e);
            },
        }
        let maker = match SelectMaker::build(&data.select, self.binds, data.table, data.table.table.as_str(), false) {
            Ok(m) => m,
            Err(e) => {
                return Err(e);
            },
        };
        let mut q = String::from_str(" ");
        if K::left() || K::agg() {
            q.append("LEFT");
        } else {
            q.append("INNER");
        }
        q.append(" JOIN (");
        q.append(maker.query_string());
        q.append(") as ");
        q.append(data.table.table.as_str());
        q.append("\n                ON ");
        q.append(data.table.table.as_str());
        q.append(".");
        q.append(data.own_key.as_str());
        q.append("=");
        q.append(data.foreign.table.as_str());
        q.append(".");
        q.append(data.foreign_table_key.as_str());
        let frag = HistoryFragment {
            select: data.select,
            table: copy_string(&data.table.table),
            is_aggregate: K::agg(),
            query_string: q,
            distinct_table: data.distinct,
            ordered_aggr: data.ordered_aggr,
            distinct_aggr: data.distinct_aggr,
            outer_order: data.outer_order,
        };
        let mut s = self;
        let ghost before = s.tables@;
        s.tables.push(frag);
        assert(fragments_view(s.tables@) =~= fragments_view(before).push(frag.model()));
        s.binds = maker.bind_count();
        Ok(s)
    }

    /// Итоговый запрос: текст и запросы-источники привязок по порядку таблиц.
    pub fn construct_query(self) -> (r: FinalJoinedSelect)
        ensures
            r.text() == joined_query_text(self.fragments()),
            r.sources() == self.fragments().map_values(|f: FragmentModel| f.select),
    {
        let ghost fs = self.fragments();
        // Колонки выборки.
        let ghost items = fs.map_values(|f: FragmentModel| field_item(f));
        let mut fields: Vec<String> = Vec::new();
        let mut i: usize = 0;
        while i < self.tables.len()
            invariant
                i <= self.tables@.len(),
                fs == fragments_view(self.tables@),
                items == fs.map_values(|f: FragmentModel| field_item(f)),
                strings_view(fields@) == items.take(i as int),
            decreases self.tables.len() - i,
        {
            let p = field_item_text(&self.tables[i]);
            let ghost before = fields@;
            fields.push(p);
            proof {
                lemma_strings_view_push(before, p);
                lemma_take_push(items, i as int);
            }
            i = i + 1;
        }
        assert(items.take(fs.len() as int) =~= items);
        let fields_text = join_strings(&fields, ",");
        // DISTINCT ON.
        let mut dts: Vec<String> = Vec::new();
        i = 0;
        while i < self.tables.len()
            invariant
                i <= self.tables@.len(),
                fs == fragments_view(self.tables@),
                strings_view(dts@) == distinct_tables(fs, i as int),
            decreases self.tables.len() - i,
        {
            if self.tables[i].distinct_table {
                let ghost before = dts@;
                dts.push(copy_string(&self.tables[i].table));
                assert(strings_view(dts@) =~= strings_view(before) + seq![fs[i as int].table]);
            } else {
                assert(strings_view(dts@) =~= strings_view(dts@) + seq![]);
            }
            i = i + 1;
        }
        let d = join_strings(&dts, ",");
        let mut query_string = String::from_str("SELECT ");
        if d.as_str().unicode_len() != 0 {
            query_string.append("DISTINCT ON (");
            query_string.append(d.as_str());
            query_string.append(") ");
        }
        query_string.append(fields_text.as_str());
        query_string.append(" FROM");
        // Подзапросы.
        let ghost head = query_string@;
        i = 0;
        while i < self.tables.len()
            invariant
                i <= self.tables@.len(),
                fs == fragments_view(self.tables@),
                query_string@ == head + queries_text(fs, i as int),
            decreases self.tables.len() - i,
        {
            query_string.append(self.tables[i].query_string.as_str());
            i = i + 1;
        }
        // GROUP BY и внешняя сортировка.
        let mut groups: Vec<String> = Vec::new();
        let mut outers: Vec<String> = Vec::new();
        i = 0;
        while i < self.tables.len()
            invariant
                i <= self.tables@.len(),
                fs == fragments_view(self.tables@),
                strings_view(groups@) == group_items(fs, i as int),
                strings_view(outers@) == outer_items(fs, i as int),
            decreases self.tables.len() - i,
        {
            let f = &self.tables[i];
            let ghost fm = fs[i as int];
            let ghost g0 = strings_view(groups@);
            let ghost o0 = strings_view(outers@);
            if !f.is_aggregate {
                let mut all = copy_string(&f.table);
                all.append(".*");
                groups.push(all);
            }
            let ghost g1 = strings_view(groups@);
            let mut j: usize = 0;
            while j < f.outer_order.len()
                invariant
                    j <= f.outer_order@.len(),
                    fm == f.model(),
                    strings_view(groups@) == g1 + if f.is_aggregate {
                        seq![]
                    } else {
                        fm.outer_order.take(j as int).map_values(|o: OrderModel| fm.table + "."@ + o.field)
                    },
                    strings_view(outers@) == o0 + fm.outer_order.take(j as int).map_values(|o: OrderModel| fm.table + "."@ + order_text(o)),
                decreases f.outer_order.len() - j,
            {
                let ghost gb = groups@;
                let ghost ob = outers@;
                if !f.is_aggregate {
                    let mut g = copy_string(&f.table);
                    g.append(".");
                    g.append(f.outer_order[j].field.as_str());
                    groups.push(g);
                    proof {
                        lemma_strings_view_push(gb, g);
                    }
                }
                let mut o = copy_string(&f.table);
                o.append(".");
                let ot = f.outer_order[j].display_text();
                o.append(ot.as_str());
                outers.push(o);
                proof {
                    lemma_strings_view_push(ob, o);
                    lemma_take_push(fm.outer_order, j as int);
                    assert(fm.outer_order.take(j + 1).map_values(|o: OrderModel| fm.table + "."@ + o.field)
                        =~= fm.outer_order.take(j as int).map_values(|o: OrderModel| fm.table + "."@ + o.field).push(fm.table + "."@ + fm.outer_order[j as int].field));
                    assert(fm.outer_order.take(j + 1).map_values(|o: OrderModel| fm.table + "."@ + order_text(o))
                        =~= fm.outer_order.take(j as int).map_values(|o: OrderModel| fm.table + "."@ + order_text(o)).push(fm.table + "."@ + order_text(fm.outer_order[j as int])));
                }
                j = j + 1;
            }
            proof {
                assert(fm.outer_order.take(fm.outer_order.len() as int) =~= fm.outer_order);
                if f.is_aggregate {
                    assert(strings_view(groups@) =~= g0 + seq![]);
                } else {
                    assert(g1 =~= g0 + seq![fm.table + ".*"@]);
                    assert(strings_view(groups@) =~= g0 + (seq![fm.table + ".*"@] + fm.outer_order.map_values(|o: OrderModel| fm.table + "."@ + o.field)));
                }
            }
            i = i + 1;
        }
        if groups.len() != 0 {
            query_string.append(" GROUP BY ");
            let g = join_strings(&groups, ",");
            query_string.append(g.as_str());
        }
        let o = join_strings(&outers, ",");
        if o.as_str().unicode_len() != 0 {
            query_string.append(" ORDER BY ");
            query_string.append(o.as_str());
        }
        // Запросы-источники.
        let ghost sel = fs.map_values(|f: FragmentModel| f.select);
        let mut source: Vec<Select> = Vec::new();
        for f in it: self.tables
            invariant
                fs == fragments_view(it.seq()),
                sel == fs.map_values(|f: FragmentModel| f.select),
                selects_view(source@) == sel.take(it.index() as int),
        {
            let ghost before = source@;
            let ghost k = it.index() as int;
            let ghost sm = f.select@;
            source.push(f.select);
            proof {
                lemma_take_push(sel, k);
                assert(selects_view(source@) =~= selects_view(before).push(sm));
            }
        }
        assert(sel.take(fs.len() as int) =~= sel);
        FinalJoinedSelect { query_string, source }
    }
}

} // verus!
