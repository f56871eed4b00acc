//! Построитель SELECT-запросов.
//!
//! [`Select`] описывает запрос к одной таблице (колонки, фильтры, сортировка,
//! пагинация, DISTINCT ON); [`SelectMaker`] собирает из него текст SQL, проверяя,
//! что все упомянутые колонки есть в описании таблицы.
pub mod filters;
pub mod operator_laws;
pub mod placeholder_laws;
pub mod select_laws;
pub mod tree_laws;

use crate::collections::{field_set_contains, field_set_contents, field_set_from};
use crate::db_item::selection::filters::{
    expanded_tree, filter_nodes, filters_view, purged_tree, pushed_tree, removed_tree, renamed, renamed_tree,
    split_tree, Filter, FilterModel, FilterTree, SelectionKind, TreeModel,
};
use ahash::AHashSet;
use crate::db_item::table::DbTable;
use crate::result::SharedDbError;
use crate::db_item::selection::filters::{model_is_empty, tree_filters, tree_sql, tree_weight};
use crate::text::{copy_string, copy_strings, dec_text, join_strings, seq_join, strings_view, usize_text};
use crate::value::{values_view, Value, ValueModel};
use vstd::prelude::*;

verus! {

/// Позиция NULL значений при сортировке.
#[derive(Clone, Copy, Debug, PartialEq, Eq, Structural)]
pub enum NullPosition {
    /// NULLS FIRST
    First,
    /// NULLS LAST
    Last,
}

/// Направление сортировки.
#[derive(Clone, Copy, Debug, PartialEq, Eq, Structural)]
pub enum FieldSortKind {
    Asc,
    Desc,
}

/// SQL-запись позиции NULL.
pub open spec fn null_sql(p: NullPosition) -> Seq<char> {
    match p {
        NullPosition::First => "NULLS FIRST"@,
        NullPosition::Last => "NULLS LAST"@,
    }
}

impl NullPosition {
    /// SQL-запись позиции NULL.
    pub fn as_sql(&self) -> (r: &'static str)
        ensures
            r@ == null_sql(*self),
    {
        match self {
            NullPosition::First => "NULLS FIRST",
            NullPosition::Last => "NULLS LAST",
        }
    }
}

/// Порядок сортировки по одной колонке. Если `null_position` не задана,
/// действует умолчание PostgreSQL для направления.
#[derive(Clone, Debug, PartialEq)]
pub struct FieldSortOrder {
    pub field: String,
    pub order: FieldSortKind,
    pub null_position: Option<NullPosition>,
}

/// Модель порядка сортировки.
pub struct OrderModel {
    pub field: Seq<char>,
    pub order: FieldSortKind,
    pub null_position: Option<NullPosition>,
}

impl View for FieldSortOrder {
    type V = OrderModel;

    open spec fn view(&self) -> OrderModel {
        OrderModel { field: self.field@, order: self.order, null_position: self.null_position }
    }
}

/// Модели порядков сортировки.
pub open spec fn orders_view(v: Seq<FieldSortOrder>) -> Seq<OrderModel> {
    v.map_values(|o: FieldSortOrder| o@)
}

/// Запись порядка сортировки: `field ASC` или `field DESC NULLS FIRST`.
pub open spec fn order_text(o: OrderModel) -> Seq<char> {
    let ad = match o.order {
        FieldSortKind::Asc => "ASC"@,
        FieldSortKind::Desc => "DESC"@,
    };
    match o.null_position {
        Some(p) => o.field + " "@ + ad + " "@ + null_sql(p),
        None => o.field + " "@ + ad,
    }
}

/// ORDER BY-часть запроса; `None` для пустого списка.
pub open spec fn order_by_text(os: Seq<OrderModel>) -> Option<Seq<char>> {
    if os.len() == 0 {
        None
    } else {
        Some(" ORDER BY "@ + seq_join(os.map_values(|o: OrderModel| order_text(o)), ", "@))
    }
}

impl FieldSortOrder {
    /// Запись порядка сортировки (то, что печатает `Display`).
    pub fn display_text(&self) -> (r: String)
        ensures
            r@ == order_text(self@),
    {
        let mut r = copy_string(&self.field);
        r.append(" ");
        match self.order {
            FieldSortKind::Asc => r.append("ASC"),
            FieldSortKind::Desc => r.append("DESC"),
        }
        match self.null_position {
            Some(p) => {
                r.append(" ");
                r.append(p.as_sql());
            },
            None => {},
        }
        r
    }

    /// Копия порядка сортировки.
    pub fn copy(&self) -> (r: FieldSortOrder)
        ensures
            r@ == self@,
    {
        FieldSortOrder { field: copy_string(&self.field), order: self.order, null_position: self.null_position }
    }

    /// Строит ` ORDER BY field1 ASC, field2 DESC`; `None` для пустого списка.
    pub fn as_order_by(v: &Vec<FieldSortOrder>) -> (r: Option<String>)
        ensures
            match order_by_text(orders_view(v@)) {
                Some(t) => r is Some && r->Some_0@ == t,
                None => r is None,
            },
    {
        if v.len() == 0 {
            return None;
        }
        let ghost texts = orders_view(v@).map_values(|o: OrderModel| order_text(o));
        let mut body = v[0].display_text();
        let mut i: usize = 1;
        while i < v.len()
            invariant
                1 <= i <= v@.len(),
                texts == orders_view(v@).map_values(|o: OrderModel| order_text(o)),
                body@ == seq_join(texts.take(i as int), ", "@),
            decreases v.len() - i,
        {
            body.append(", ");
            let t = v[i].display_text();
            body.append(t.as_str());
            proof {
                let tk = texts.take(i + 1);
                assert(tk.drop_last() =~= texts.take(i as int));
            }
            i = i + 1;
        }
        proof {
            assert(texts.take(1) =~= seq![texts[0]]);
            assert(texts.take(v@.len() as int) =~= texts);
        }
        let mut out = String::from_str(" ORDER BY ");
        out.append(body.as_str());
        Some(out)
    }
}

/// Копия списка порядков сортировки.
pub fn copy_orders(v: &Vec<FieldSortOrder>) -> (r: Vec<FieldSortOrder>)
    ensures
        orders_view(r@) == orders_view(v@),
{
    let mut out: Vec<FieldSortOrder> = Vec::new();
    let mut i: usize = 0;
    while i < v.len()
        invariant
            i <= v@.len(),
            orders_view(out@) == orders_view(v@.take(i as int)),
        decreases v.len() - i,
    {
        let ghost before = out@;
        out.push(v[i].copy());
        assert(v@.take(i + 1) =~= v@.take(i as int).push(v@[i as int]));
        assert(orders_view(out@) =~= orders_view(before).push(v@[i as int]@));
        assert(orders_view(out@) =~= orders_view(v@.take(i + 1)));
        i = i + 1;
    }
    assert(v@.take(v@.len() as int) =~= v@);
    out
}

/// Описание одного SELECT-запроса к таблице.
#[derive(Debug)]
pub struct Select {
    /// Колонки выборки; пустой список -- `*`.
    pub field_list: Vec<String>,
    pub filter_list: FilterTree,
    pub order_list: Vec<FieldSortOrder>,
    pub offset: Option<usize>,
    pub take_n: Option<usize>,
    pub count_total: Option<bool>,
    /// Колонки DISTINCT ON; вместе с ORDER BY они обязаны идти в нём первыми.
    pub distinct_on: Vec<String>,
    /// Пропустить проверку колонок (у производных запросов, уже проверенных).
    pub skip_main_check: bool,
}

/// Модель запроса.
pub struct SelectModel {
    pub field_list: Seq<Seq<char>>,
    pub filter_list: TreeModel,
    pub order_list: Seq<OrderModel>,
    pub offset: Option<usize>,
    pub take_n: Option<usize>,
    pub count_total: Option<bool>,
    pub distinct_on: Seq<Seq<char>>,
    pub skip_main_check: bool,
}

impl View for Select {
    type V = SelectModel;

    open spec fn view(&self) -> SelectModel {
        SelectModel {
            field_list: strings_view(self.field_list@),
            filter_list: self.filter_list@,
            order_list: orders_view(self.order_list@),
            offset: self.offset,
            take_n: self.take_n,
            count_total: self.count_total,
            distinct_on: strings_view(self.distinct_on@),
            skip_main_check: self.skip_main_check,
        }
    }
}

impl Default for Select {
    fn default() -> (r: Select)
        ensures
            r@ == Select::empty_model(),
    {
        let r = Select {
            field_list: Vec::new(),
            filter_list: FilterTree::Empty,
            order_list: Vec::new(),
            offset: None,
            take_n: None,
            count_total: None,
            distinct_on: Vec::new(),
            skip_main_check: false,
        };
        assert(strings_view(r.field_list@) =~= seq![]);
        assert(strings_view(r.distinct_on@) =~= seq![]);
        assert(orders_view(r.order_list@) =~= seq![]);
        r
    }
}

/// Модель фильтра по значениям.
pub open spec fn filter_model(field: Seq<char>, kind: SelectionKind, values: Seq<ValueModel>) -> FilterModel {
    FilterModel { field, kind, values }
}

/// Дерево фильтров после добавления условия: расширение первого фильтра по полю
/// или добавление нового фильтра.
pub open spec fn added_filter(t: TreeModel, field: Seq<char>, kind: SelectionKind, values: Seq<ValueModel>) -> TreeModel {
    match expanded_tree(t, field, kind, values) {
        Some(u) => u,
        None => pushed_tree(t, filter_model(field, kind, values)),
    }
}

/// Список сортировки после добавления или замены направления для поля.
pub open spec fn replaced_order(os: Seq<OrderModel>, field: Seq<char>, kind: FieldSortKind) -> Seq<OrderModel> {
    if exists|i: int| 0 <= i < os.len() && #[trigger] os[i].field == field {
        let i = choose|i: int| 0 <= i < os.len() && #[trigger] os[i].field == field && forall|j: int| 0 <= j < i ==> #[trigger] os[j].field != field;
        os.update(i, OrderModel { field: os[i].field, order: kind, null_position: os[i].null_position })
    } else {
        os.push(OrderModel { field, order: kind, null_position: None })
    }
}

impl Select {
    /// Модель пустого запроса.
    pub open spec fn empty_model() -> SelectModel {
        SelectModel {
            field_list: seq![],
            filter_list: TreeModel::Empty,
            order_list: seq![],
            offset: None,
            take_n: None,
            count_total: None,
            distinct_on: seq![],
            skip_main_check: false,
        }
    }

    /// Копия запроса.
    pub fn copy(&self) -> (r: Select)
        ensures
            r@ == self@,
    {
        let fl = copy_strings(&self.field_list);
        let dl = copy_strings(&self.distinct_on);
        Select {
            field_list: fl,
            filter_list: self.filter_list.copy(),
            order_list: copy_orders(&self.order_list),
            offset: self.offset,
            take_n: self.take_n,
            count_total: self.count_total,
            distinct_on: dl,
            skip_main_check: self.skip_main_check,
        }
    }

    /// Запрос с заданным списком колонок.
    pub fn with_fields(fields: Vec<String>) -> (r: Select)
        ensures
            r@ == (SelectModel { field_list: strings_view(fields@), ..Select::empty_model() }),
    {
        let mut s = Select::default();
        s.field_list = fields;
        s
    }

    /// Запрос всех колонок таблицы.
    pub fn full(t: &DbTable) -> (r: Select)
        ensures
            r@ == (SelectModel { field_list: t.names(), ..Select::empty_model() }),
    {
        Select::with_fields(copy_strings(&t.fields))
    }

    /// Добавляет колонку к выборке.
    pub fn and_field(self, field: &str) -> (r: Select)
        ensures
            r@ == (SelectModel { field_list: self@.field_list.push(field@), ..self@ }),
    {
        let mut s = self;
        let ghost before = s.field_list@;
        s.field_list.push(String::from_str(field));
        assert(strings_view(s.field_list@) =~= strings_view(before).push(field@));
        s
    }

    /// Добавляет или расширяет фильтр по полю: если фильтр по полю уже есть,
    /// при том же виде условия к нему дописываются значения, иначе к нему через AND
    /// добавляется новый; если фильтра нет -- он добавляется в дерево.
    pub fn add_expand_filter(self, field: &str, kind: SelectionKind, values: Vec<Value>) -> (r: Select)
        ensures
            r@ == (SelectModel { filter_list: added_filter(self@.filter_list, field@, kind, values_view(values@)), ..self@ }),
    {
        let mut s = self;
        let found = s.filter_list.expand_filter(field, kind, &values);
        if !found {
            s.filter_list.push_filter(Filter::with_values(field, kind, values));
        }
        s
    }

    /// Заменяет дерево фильтров.
    pub fn set_filter_tree(self, tree: FilterTree) -> (r: Select)
        ensures
            r@ == (SelectModel { filter_list: tree@, ..self@ }),
    {
        let mut s = self;
        s.filter_list = tree;
        s
    }

    /// Фильтр `field = ANY(values)`.
    pub fn in_any(self, field: &str, values: Vec<Value>) -> (r: Select)
        ensures
            r@ == (SelectModel { filter_list: added_filter(self@.filter_list, field@, SelectionKind::In, values_view(values@)), ..self@ }),
    {
        self.add_expand_filter(field, SelectionKind::In, values)
    }

    /// Как [`Select::in_any`], но при `None` запрос не меняется.
    pub fn in_any_maybe(self, field: &str, values: Option<Vec<Value>>) -> (r: Select)
        ensures
            match values {
                Some(v) => r@ == (SelectModel { filter_list: added_filter(self@.filter_list, field@, SelectionKind::In, values_view(v@)), ..self@ }),
                None => r@ == self@,
            },
    {
        match values {
            Some(v) => self.add_expand_filter(field, SelectionKind::In, v),
            None => self,
        }
    }

    /// Фильтр `NOT (field = ANY(values))`.
    pub fn not_in_any(self, field: &str, values: Vec<Value>) -> (r: Select)
        ensures
            r@ == (SelectModel { filter_list: added_filter(self@.filter_list, field@, SelectionKind::NotIn, values_view(values@)), ..self@ }),
    {
        self.add_expand_filter(field, SelectionKind::NotIn, values)
    }

    fn add_single(self, field: &str, kind: SelectionKind, value: Value) -> (r: Select)
        ensures
            r@ == (SelectModel { filter_list: added_filter(self@.filter_list, field@, kind, seq![value@]), ..self@ }),
    {
        let mut values: Vec<Value> = Vec::new();
        values.push(value);
        assert(values_view(values@) =~= seq![value@]);
        self.add_expand_filter(field, kind, values)
    }

    /// Фильтр `field = value`.
    pub fn eq(self, field: &str, value: Value) -> (r: Select)
        ensures
            r@ == (SelectModel { filter_list: added_filter(self@.filter_list, field@, SelectionKind::Equals, seq![value@]), ..self@ }),
    {
        self.add_single(field, SelectionKind::Equals, value)
    }

    /// Как [`Select::eq`], но при `None` запрос не меняется.
    pub fn eq_maybe(self, field: &str, value: Option<Value>) -> (r: Select)
        ensures
            match value {
                Some(v) => r@ == (SelectModel { filter_list: added_filter(self@.filter_list, field@, SelectionKind::Equals, seq![v@]), ..self@ }),
                None => r@ == self@,
            },
    {
        match value {
            Some(v) => self.add_single(field, SelectionKind::Equals, v),
            None => self,
        }
    }

    /// Фильтр `field != value`.
    pub fn ne(self, field: &str, value: Value) -> (r: Select)
        ensures
            r@ == (SelectModel { filter_list: added_filter(self@.filter_list, field@, SelectionKind::NotEquals, seq![value@]), ..self@ }),
    {
        self.add_single(field, SelectionKind::NotEquals, value)
    }

    /// Фильтр `field <= value`.
    pub fn less_eq(self, field: &str, value: Value) -> (r: Select)
        ensures
            r@ == (SelectModel { filter_list: added_filter(self@.filter_list, field@, SelectionKind::LessEqual, seq![value@]), ..self@ }),
    {
        self.add_single(field, SelectionKind::LessEqual, value)
    }

    /// Фильтр `field > value`.
    pub fn greater(self, field: &str, value: Value) -> (r: Select)
        ensures
            r@ == (SelectModel { filter_list: added_filter(self@.filter_list, field@, SelectionKind::Greater, seq![value@]), ..self@ }),
    {
        self.add_single(field, SelectionKind::Greater, value)
    }

    /// Все колонки таблицы и фильтр `field = ANY(values)`.
    pub fn full_in(t: &DbTable, field: &str, values: Vec<Value>) -> (r: Select)
        ensures
            r@ == (SelectModel {
                field_list: t.names(),
                filter_list: added_filter(TreeModel::Empty, field@, SelectionKind::In, values_view(values@)),
                ..Select::empty_model()
            }),
    {
        Select::full(t).in_any(field, values)
    }

    /// Поиск подстроки `like` хотя бы в одном из полей: к фильтрам добавляется
    /// через AND группа OR из условий `field ~ like`.
    pub fn fields_containing(self, fields: &Vec<String>, like: &str) -> (r: Select)
        ensures
            r@ == (SelectModel {
                filter_list: TreeModel::And(seq![self@.filter_list, TreeModel::Or(filter_nodes(
                    strings_view(fields@).map_values(|f: Seq<char>| filter_model(f, SelectionKind::Contains, seq![ValueModel::String(like@)])),
                ))]),
                ..self@
            }),
    {
        let mut filters: Vec<Filter> = Vec::new();
        let ghost target = strings_view(fields@).map_values(|f: Seq<char>| filter_model(f, SelectionKind::Contains, seq![ValueModel::String(like@)]));
        let mut i: usize = 0;
        while i < fields.len()
            invariant
                i <= fields@.len(),
                target == strings_view(fields@).map_values(|f: Seq<char>| filter_model(f, SelectionKind::Contains, seq![ValueModel::String(like@)])),
                filters@.map_values(|f: Filter| f@) == target.take(i as int),
            decreases fields.len() - i,
        {
            let f = Filter::with_value(fields[i].as_str(), SelectionKind::Contains, Value::String(String::from_str(like)));
            let ghost before = filters@;
            filters.push(f);
            assert(target.take(i + 1) =~= target.take(i as int).push(target[i as int]));
            assert(filters@.map_values(|f: Filter| f@) =~= before.map_values(|f: Filter| f@).push(target[i as int]));
            i = i + 1;
        }
        assert(target.take(fields@.len() as int) =~= target);
        let mut s = self;
        let mut old_tree = FilterTree::Empty;
        std::mem::swap(&mut old_tree, &mut s.filter_list);
        s.filter_list = old_tree.and(FilterTree::or_from_list(filters));
        s
    }

    /// Фильтр `field && value` (пересечение массивов) добавляется в дерево.
    pub fn array_overlaps(self, field: &str, value: Value) -> (r: Select)
        ensures
            r@ == (SelectModel {
                filter_list: pushed_tree(self@.filter_list, filter_model(field@, SelectionKind::Overlaps, seq![value@])),
                ..self@
            }),
    {
        let mut s = self;
        s.filter_list.push_filter(Filter::with_value(field, SelectionKind::Overlaps, value));
        s
    }

    /// Добавляет сортировку по полю или заменяет направление уже заданной.
    pub fn add_replace_order(self, field: &str, new_order: FieldSortKind) -> (r: Select)
        ensures
            r@ == (SelectModel { order_list: replaced_order(self@.order_list, field@, new_order), ..self@ }),
    {
        let mut s = self;
        let ghost os = orders_view(s.order_list@);
        let mut i: usize = 0;
        while i < s.order_list.len()
            invariant
                i <= s.order_list@.len(),
                os == orders_view(s.order_list@),
                s@ == self@,
                forall|j: int| 0 <= j < i ==> #[trigger] os[j].field != field@,
            decreases s.order_list.len() - i,
        {
            if crate::text::str_eq(s.order_list[i].field.as_str(), field) {
                let mut item = s.order_list[i].copy();
                item.order = new_order;
                s.order_list.set(i, item);
                proof {
                    assert(os[i as int].field == field@);
                    let k = choose|k: int| 0 <= k < os.len() && #[trigger] os[k].field == field@ && forall|j: int| 0 <= j < k ==> #[trigger] os[j].field != field@;
                    assert(k == i) by {
                        if k < i {
                            assert(os[k].field != field@);
                        }
                        if k > i {
                            assert(os[i as int].field != field@);
                        }
                    }
                    assert(orders_view(s.order_list@) =~= replaced_order(os, field@, new_order));
                }
                return s;
            }
            i = i + 1;
        }
        let ghost before = s.order_list@;
        s.order_list.push(FieldSortOrder { field: String::from_str(field), order: new_order, null_position: None });
        assert(orders_view(s.order_list@) =~= orders_view(before).push(OrderModel { field: field@, order: new_order, null_position: None }));
        s
    }

    /// Сортировка по возрастанию.
    pub fn add_replace_order_asc(self, field: &str) -> (r: Select)
        ensures
            r@ == (SelectModel { order_list: replaced_order(self@.order_list, field@, FieldSortKind::Asc), ..self@ }),
    {
        self.add_replace_order(field, FieldSortKind::Asc)
    }

    /// Сортировка по убыванию.
    pub fn add_replace_order_desc(self, field: &str) -> (r: Select)
        ensures
            r@ == (SelectModel { order_list: replaced_order(self@.order_list, field@, FieldSortKind::Desc), ..self@ }),
    {
        self.add_replace_order(field, FieldSortKind::Desc)
    }
}

/// Поля, которые есть в множестве `names`.
pub open spec fn names_in(v: Seq<Seq<char>>, names: Set<Seq<char>>) -> Seq<Seq<char>> {
    v.filter(|x: Seq<char>| names.contains(x))
}

/// Поля, которых нет в множестве `names`.
pub open spec fn names_out(v: Seq<Seq<char>>, names: Set<Seq<char>>) -> Seq<Seq<char>> {
    v.filter(|x: Seq<char>| !names.contains(x))
}

/// Порядки сортировки по полям из множества `names`.
pub open spec fn orders_in(v: Seq<OrderModel>, names: Set<Seq<char>>) -> Seq<OrderModel> {
    v.filter(|o: OrderModel| names.contains(o.field))
}

/// Порядки сортировки по полям не из множества `names`.
pub open spec fn orders_out(v: Seq<OrderModel>, names: Set<Seq<char>>) -> Seq<OrderModel> {
    v.filter(|o: OrderModel| !names.contains(o.field))
}

/// Разделяет имена на те, что есть в множестве, и остальные (порядок сохраняется).
fn partition_names(v: Vec<String>, names: &AHashSet<String>) -> (r: (Vec<String>, Vec<String>))
    ensures
        strings_view(r.0@) == names_in(strings_view(v@), field_set_contents(*names)),
        strings_view(r.1@) == names_out(strings_view(v@), field_set_contents(*names)),
{
    let ghost sv = strings_view(v@);
    let ghost set = field_set_contents(*names);
    let mut one: Vec<String> = Vec::new();
    let mut two: Vec<String> = Vec::new();
    for x in it: v
        invariant
            sv == strings_view(it.seq()),
            set == field_set_contents(*names),
            strings_view(one@) == names_in(sv.take(it.index() as int), set),
            strings_view(two@) == names_out(sv.take(it.index() as int), set),
    {
        let ghost k = it.index() as int;
        let ghost b1 = one@;
        let ghost b2 = two@;
        proof {
            reveal(Seq::filter);
            assert(sv.take(k + 1).drop_last() =~= sv.take(k));
            assert(sv.take(k + 1).last() == x@);
        }
        if field_set_contains(names, x.as_str()) {
            one.push(x);
            assert(strings_view(one@) =~= strings_view(b1).push(sv[k]));
            assert(strings_view(two@) =~= strings_view(b2));
        } else {
            two.push(x);
            assert(strings_view(two@) =~= strings_view(b2).push(sv[k]));
            assert(strings_view(one@) =~= strings_view(b1));
        }
    }
    proof {
        reveal(Seq::filter);
    }
    assert(sv.take(sv.len() as int) =~= sv);
    (one, two)
}

/// Разделяет порядки сортировки по полям из множества и остальные.
fn partition_orders(v: Vec<FieldSortOrder>, names: &AHashSet<String>) -> (r: (Vec<FieldSortOrder>, Vec<FieldSortOrder>))
    ensures
        orders_view(r.0@) == orders_in(orders_view(v@), field_set_contents(*names)),
        orders_view(r.1@) == orders_out(orders_view(v@), field_set_contents(*names)),
{
    let ghost sv = orders_view(v@);
    let ghost set = field_set_contents(*names);
    let mut one: Vec<FieldSortOrder> = Vec::new();
    let mut two: Vec<FieldSortOrder> = Vec::new();
    for x in it: v
        invariant
            sv == orders_view(it.seq()),
            set == field_set_contents(*names),
            orders_view(one@) == orders_in(sv.take(it.index() as int), set),
            orders_view(two@) == orders_out(sv.take(it.index() as int), set),
    {
        let ghost k = it.index() as int;
        let ghost b1 = one@;
        let ghost b2 = two@;
        proof {
            reveal(Seq::filter);
            assert(sv.take(k + 1).drop_last() =~= sv.take(k));
            assert(sv.take(k + 1).last() == x@);
        }
        if field_set_contains(names, x.field.as_str()) {
            one.push(x);
            assert(orders_view(one@) =~= orders_view(b1).push(sv[k]));
            assert(orders_view(two@) =~= orders_view(b2));
        } else {
            two.push(x);
            assert(orders_view(two@) =~= orders_view(b2).push(sv[k]));
            assert(orders_view(one@) =~= orders_view(b1));
        }
    }
    proof {
        reveal(Seq::filter);
    }
    assert(sv.take(sv.len() as int) =~= sv);
    (one, two)
}

/// Имена колонок таблицы и полей-дубликатов адаптора.
pub open spec fn adaptor_names(t: &DbTable, dup_fields: Seq<String>) -> Seq<Seq<char>> {
    t.names() + strings_view(dup_fields)
}

fn all_names(t: &DbTable, dup_fields: &Vec<String>) -> (r: Vec<String>)
    ensures
        strings_view(r@) == adaptor_names(t, dup_fields@),
{
    let mut r = copy_strings(&t.fields);
    let mut d = copy_strings(dup_fields);
    let ghost a = r@;
    let ghost b = d@;
    r.append(&mut d);
    assert(strings_view(r@) =~= strings_view(a) + strings_view(b));
    r
}

impl Select {
    /// Ставит позицию NULL для всех полей сортировки.
    pub fn with_null_position(self, pos: NullPosition) -> (r: Select)
        ensures
            r@ == (SelectModel {
                order_list: self@.order_list.map_values(|o: OrderModel| OrderModel { null_position: Some(pos), ..o }),
                ..self@
            }),
    {
        let mut s = self;
        let ghost os = orders_view(s.order_list@);
        let mut i: usize = 0;
        while i < s.order_list.len()
            invariant
                i <= s.order_list@.len(),
                os.len() == s.order_list@.len(),
                s@ == (SelectModel { order_list: orders_view(s.order_list@), ..self@ }),
                os == self@.order_list,
                forall|k: int| 0 <= k < i ==> #[trigger] s.order_list@[k]@ == (OrderModel { null_position: Some(pos), ..os[k] }),
                forall|k: int| i <= k < os.len() ==> #[trigger] s.order_list@[k]@ == os[k],
            decreases s.order_list.len() - i,
        {
            let mut item = s.order_list[i].copy();
            item.null_position = Some(pos);
            s.order_list.set(i, item);
            i = i + 1;
        }
        assert(orders_view(s.order_list@) =~= os.map_values(|o: OrderModel| OrderModel { null_position: Some(pos), ..o }));
        s
    }

    /// Позиция NULL по направлению: при возрастании -- первыми, при убывании -- последними.
    pub fn with_approprtiate_null_position(self) -> (r: Select)
        ensures
            r@ == (SelectModel {
                order_list: self@.order_list.map_values(|o: OrderModel| OrderModel {
                    null_position: Some(if o.order == FieldSortKind::Asc { NullPosition::First } else { NullPosition::Last }),
                    ..o
                }),
                ..self@
            }),
    {
        let mut s = self;
        let ghost os = orders_view(s.order_list@);
        let mut i: usize = 0;
        while i < s.order_list.len()
            invariant
                i <= s.order_list@.len(),
                os.len() == s.order_list@.len(),
                s@ == (SelectModel { order_list: orders_view(s.order_list@), ..self@ }),
                os == self@.order_list,
                forall|k: int| 0 <= k < i ==> #[trigger] s.order_list@[k]@ == (OrderModel {
                    null_position: Some(if os[k].order == FieldSortKind::Asc { NullPosition::First } else { NullPosition::Last }),
                    ..os[k]
                }),
                forall|k: int| i <= k < os.len() ==> #[trigger] s.order_list@[k]@ == os[k],
            decreases s.order_list.len() - i,
        {
            let mut item = s.order_list[i].copy();
            item.null_position = match item.order {
                FieldSortKind::Asc => Some(NullPosition::First),
                FieldSortKind::Desc => Some(NullPosition::Last),
            };
            s.order_list.set(i, item);
            i = i + 1;
        }
        assert(orders_view(s.order_list@) =~= os.map_values(|o: OrderModel| OrderModel {
            null_position: Some(if o.order == FieldSortKind::Asc { NullPosition::First } else { NullPosition::Last }),
            ..o
        }));
        s
    }

    /// NULL первыми при сортировке по каждому полю.
    pub fn with_nulls_first(self) -> (r: Select)
        ensures
            r@ == (SelectModel {
                order_list: self@.order_list.map_values(|o: OrderModel| OrderModel { null_position: Some(NullPosition::First), ..o }),
                ..self@
            }),
    {
        self.with_null_position(NullPosition::First)
    }

    /// NULL последними при сортировке по каждому полю.
    pub fn with_nulls_last(self) -> (r: Select)
        ensures
            r@ == (SelectModel {
                order_list: self@.order_list.map_values(|o: OrderModel| OrderModel { null_position: Some(NullPosition::Last), ..o }),
                ..self@
            }),
    {
        self.with_null_position(NullPosition::Last)
    }

    /// Удаляет все фильтры по полю и возвращает их.
    pub fn remove_filters_by_field(&mut self, field: &str) -> (r: Vec<Filter>)
        ensures
            final(self)@ == (SelectModel { filter_list: removed_tree(old(self)@.filter_list, field@).0, ..old(self)@ }),
            filters_view(r@) == removed_tree(old(self)@.filter_list, field@).1,
    {
        self.filter_list.remove_by_field(field)
    }

    /// Только первая запись.
    pub fn take_first(self) -> (r: Select)
        ensures
            r@ == (SelectModel { take_n: Some(1usize), ..self@ }),
    {
        let mut s = self;
        s.take_n = Some(1);
        s
    }

    /// Пропустить первые `n` записей.
    pub fn offset(self, n: usize) -> (r: Select)
        ensures
            r@ == (SelectModel { offset: Some(n), ..self@ }),
    {
        let mut s = self;
        s.offset = Some(n);
        s
    }

    /// Не более `n` записей.
    pub fn take_n(self, n: usize) -> (r: Select)
        ensures
            r@ == (SelectModel { take_n: Some(n), ..self@ }),
    {
        let mut s = self;
        s.take_n = Some(n);
        s
    }

    /// Смещение из `Option`.
    pub fn offset_maybe(self, n: Option<usize>) -> (r: Select)
        ensures
            r@ == (SelectModel { offset: n, ..self@ }),
    {
        let mut s = self;
        s.offset = n;
        s
    }

    /// Подсчёт общего числа строк при пагинации.
    pub fn count_total(self, v: bool) -> (r: Select)
        ensures
            r@ == (SelectModel { count_total: Some(v), ..self@ }),
    {
        let mut s = self;
        s.count_total = Some(v);
        s
    }

    /// Число записей из `Option`.
    pub fn take_n_maybe(self, n: Option<usize>) -> (r: Select)
        ensures
            r@ == (SelectModel { take_n: n, ..self@ }),
    {
        let mut s = self;
        s.take_n = n;
        s
    }

    /// Сбрасывает пагинацию.
    pub fn clear_pagination(&mut self)
        ensures
            final(self)@ == (SelectModel { take_n: None, offset: None, ..old(self)@ }),
    {
        self.take_n = None;
        self.offset = None;
    }

    /// Список колонок выборки.
    pub fn fields(&self) -> (r: Vec<&str>)
        ensures
            r@.map_values(|x: &str| x@) == self@.field_list,
    {
        let mut out: Vec<&str> = Vec::new();
        let mut i: usize = 0;
        while i < self.field_list.len()
            invariant
                i <= self.field_list@.len(),
                out@.len() == i,
                forall|k: int| 0 <= k < i ==> #[trigger] out@[k]@ == self.field_list@[k]@,
            decreases self.field_list.len() - i,
        {
            out.push(self.field_list[i].as_str());
            i = i + 1;
        }
        assert(out@.map_values(|x: &str| x@) =~= self@.field_list);
        out
    }

    /// DISTINCT ON по указанным колонкам.
    pub fn distinct_on(self, fields: &Vec<String>) -> (r: Select)
        ensures
            r@ == (SelectModel { distinct_on: strings_view(fields@), ..self@ }),
    {
        let mut s = self;
        s.distinct_on = copy_strings(fields);
        s
    }

    /// Копия запроса, в которой оставлены только колонки из `names` (в списке
    /// колонок, DISTINCT ON, сортировке и фильтрах); проверка колонок отключается.
    pub fn filtered_copy(&self, names: &AHashSet<String>) -> (r: Select)
        ensures
            r@ == (SelectModel {
                field_list: names_in(self@.field_list, field_set_contents(*names)),
                distinct_on: names_in(self@.distinct_on, field_set_contents(*names)),
                order_list: orders_in(self@.order_list, field_set_contents(*names)),
                filter_list: purged_tree(self@.filter_list, field_set_contents(*names)),
                skip_main_check: true,
                ..self@
            }),
    {
        let q = self.copy();
        let (fl, _) = partition_names(q.field_list, names);
        let (dl, _) = partition_names(q.distinct_on, names);
        let (ol, _) = partition_orders(q.order_list, names);
        let mut tree = q.filter_list;
        tree.purge_by_fields(names);
        Select {
            field_list: fl,
            filter_list: tree,
            order_list: ol,
            offset: q.offset,
            take_n: q.take_n,
            count_total: q.count_total,
            distinct_on: dl,
            skip_main_check: true,
        }
    }

    /// Разбивает запрос на два: колонки из `names` и остальные (пагинация и
    /// прочие настройки не переносятся).
    pub fn filtered_split(self, names: &AHashSet<String>) -> (r: (Select, Select))
        ensures
            r.0@ == (SelectModel {
                field_list: names_in(self@.field_list, field_set_contents(*names)),
                distinct_on: names_in(self@.distinct_on, field_set_contents(*names)),
                order_list: orders_in(self@.order_list, field_set_contents(*names)),
                filter_list: split_tree(self@.filter_list, field_set_contents(*names)).0,
                ..Select::empty_model()
            }),
            r.1@ == (SelectModel {
                field_list: names_out(self@.field_list, field_set_contents(*names)),
                distinct_on: names_out(self@.distinct_on, field_set_contents(*names)),
                order_list: orders_out(self@.order_list, field_set_contents(*names)),
                filter_list: split_tree(self@.filter_list, field_set_contents(*names)).1,
                ..Select::empty_model()
            }),
    {
        let (f1, f2) = partition_names(self.field_list, names);
        let (d1, d2) = partition_names(self.distinct_on, names);
        let (o1, o2) = partition_orders(self.order_list, names);
        let (t1, t2) = self.filter_list.split_by_fields(names);
        let mut one = Select::default();
        let mut two = Select::default();
        one.field_list = f1;
        one.distinct_on = d1;
        one.order_list = o1;
        one.filter_list = t1;
        two.field_list = f2;
        two.distinct_on = d2;
        two.order_list = o2;
        two.filter_list = t2;
        (one, two)
    }

    /// Копия запроса только с колонками таблицы и полями-дубликатами адаптора.
    pub fn filtered_copy_for(&self, t: &DbTable, dup_fields: &Vec<String>) -> (r: Select)
        ensures
            r@ == (SelectModel {
                field_list: names_in(self@.field_list, adaptor_names(t, dup_fields@).to_set()),
                distinct_on: names_in(self@.distinct_on, adaptor_names(t, dup_fields@).to_set()),
                order_list: orders_in(self@.order_list, adaptor_names(t, dup_fields@).to_set()),
                filter_list: purged_tree(self@.filter_list, adaptor_names(t, dup_fields@).to_set()),
                skip_main_check: true,
                ..self@
            }),
    {
        let all = all_names(t, dup_fields);
        let set = field_set_from(&all);
        self.filtered_copy(&set)
    }

    /// Разбивает запрос на колонки сущности (таблица и дубликаты адаптора) и остальные.
    pub fn split_for(self, t: &DbTable, dup_fields: &Vec<String>) -> (r: (Select, Select))
        ensures
            r.0@ == (SelectModel {
                field_list: names_in(self@.field_list, adaptor_names(t, dup_fields@).to_set()),
                distinct_on: names_in(self@.distinct_on, adaptor_names(t, dup_fields@).to_set()),
                order_list: orders_in(self@.order_list, adaptor_names(t, dup_fields@).to_set()),
                filter_list: split_tree(self@.filter_list, adaptor_names(t, dup_fields@).to_set()).0,
                ..Select::empty_model()
            }),
            r.1@ == (SelectModel {
                field_list: names_out(self@.field_list, adaptor_names(t, dup_fields@).to_set()),
                distinct_on: names_out(self@.distinct_on, adaptor_names(t, dup_fields@).to_set()),
                order_list: orders_out(self@.order_list, adaptor_names(t, dup_fields@).to_set()),
                filter_list: split_tree(self@.filter_list, adaptor_names(t, dup_fields@).to_set()).1,
                ..Select::empty_model()
            }),
    {
        let all = all_names(t, dup_fields);
        let set = field_set_from(&all);
        self.filtered_split(&set)
    }
}

// ---------------------------------------------------------------------------
// Переименования колонок фронтенда.
// ---------------------------------------------------------------------------

/// Имена после переименования `front` в `back`.
pub open spec fn renamed_names(v: Seq<Seq<char>>, front: Seq<char>, back: Seq<char>) -> Seq<Seq<char>> {
    v.map_values(|f: Seq<char>| renamed(f, front, back))
}

/// Порядки сортировки после переименования `front` в `back`.
pub open spec fn renamed_orders(v: Seq<OrderModel>, front: Seq<char>, back: Seq<char>) -> Seq<OrderModel> {
    v.map_values(|o: OrderModel| OrderModel { field: renamed(o.field, front, back), ..o })
}

/// Запрос после переименования поля `front` в `back` (колонки, сортировка, фильтры, DISTINCT ON).
pub open spec fn renamed_select(q: SelectModel, front: Seq<char>, back: Seq<char>) -> SelectModel {
    SelectModel {
        field_list: renamed_names(q.field_list, front, back),
        order_list: renamed_orders(q.order_list, front, back),
        filter_list: renamed_tree(q.filter_list, front, back),
        distinct_on: renamed_names(q.distinct_on, front, back),
        ..q
    }
}

/// Пары переименований таблицы.
pub open spec fn tolerated_pairs(t: &DbTable) -> Seq<(Seq<char>, Seq<char>)> {
    t.tolerated@.map_values(|p: (String, String)| (p.0@, p.1@))
}

/// Запрос после применения первых `i` переименований по порядку.
pub open spec fn tolerated_select(q: SelectModel, pairs: Seq<(Seq<char>, Seq<char>)>, i: int) -> SelectModel
    decreases i,
{
    if i <= 0 || i > pairs.len() {
        q
    } else {
        renamed_select(tolerated_select(q, pairs, i - 1), pairs[i - 1].0, pairs[i - 1].1)
    }
}

fn rename_names(v: &mut Vec<String>, front: &str, back: &str)
    ensures
        strings_view(final(v)@) == renamed_names(strings_view(old(v)@), front@, back@),
{
    let ghost ov = strings_view(v@);
    let mut i: usize = 0;
    while i < v.len()
        invariant
            i <= v@.len(),
            v@.len() == ov.len(),
            ov == strings_view(old(v)@),
            forall|k: int| 0 <= k < i ==> #[trigger] v@[k]@ == renamed(ov[k], front@, back@),
            forall|k: int| i <= k < v@.len() ==> #[trigger] v@[k]@ == ov[k],
        decreases v.len() - i,
    {
        map_field(&mut v[i], front, back);
        i = i + 1;
    }
    assert(strings_view(v@) =~= renamed_names(ov, front@, back@));
}

fn rename_orders(v: &mut Vec<FieldSortOrder>, front: &str, back: &str)
    ensures
        orders_view(final(v)@) == renamed_orders(orders_view(old(v)@), front@, back@),
{
    let ghost ov = orders_view(v@);
    let mut i: usize = 0;
    while i < v.len()
        invariant
            i <= v@.len(),
            v@.len() == ov.len(),
            ov == orders_view(old(v)@),
            forall|k: int| 0 <= k < i ==> #[trigger] v@[k]@ == (OrderModel { field: renamed(ov[k].field, front@, back@), ..ov[k] }),
            forall|k: int| i <= k < v@.len() ==> #[trigger] v@[k]@ == ov[k],
        decreases v.len() - i,
    {
        let mut o = v[i].copy();
        map_field(&mut o.field, front, back);
        v.set(i, o);
        i = i + 1;
    }
    assert(orders_view(v@) =~= renamed_orders(ov, front@, back@));
}

/// Переименовывает колонки фронтенда в колонки таблицы во всём запросе
/// (список колонок, сортировка, фильтры, DISTINCT ON), пара за парой.
pub fn apply_tolerance_to_select(t: &DbTable, s: &mut Select)
    ensures
        final(s)@ == tolerated_select(old(s)@, tolerated_pairs(t), t.tolerated@.len() as int),
{
    let ghost pairs = tolerated_pairs(t);
    let mut i: usize = 0;
    while i < t.tolerated.len()
        invariant
            i <= t.tolerated@.len(),
            pairs == tolerated_pairs(t),
            s@ == tolerated_select(old(s)@, pairs, i as int),
        decreases t.tolerated.len() - i,
    {
        let front = t.tolerated[i].0.as_str();
        let back = t.tolerated[i].1.as_str();
        rename_names(&mut s.field_list, front, back);
        rename_orders(&mut s.order_list, front, back);
        s.filter_list.rename_field(front, back);
        rename_names(&mut s.distinct_on, front, back);
        i = i + 1;
    }
}

/// Актуальное имя поля: переименование из первой подходящей пары, иначе само имя.
pub open spec fn actual_name_from(pairs: Seq<(Seq<char>, Seq<char>)>, i: int, name: Seq<char>) -> Seq<char>
    decreases pairs.len() - i,
{
    if i < 0 || i >= pairs.len() {
        name
    } else if pairs[i].0 == name {
        pairs[i].1
    } else {
        actual_name_from(pairs, i + 1, name)
    }
}

/// Имя поля после переименования по таблице (последняя пара с этим именем побеждает).
pub open spec fn mapped_name(pairs: Seq<(Seq<char>, Seq<char>)>, name: Seq<char>) -> Seq<char>
    decreases pairs.len(),
{
    if pairs.len() == 0 {
        name
    } else if pairs.last().0 == name {
        pairs.last().1
    } else {
        mapped_name(pairs.drop_last(), name)
    }
}

/// Заменяет имя поля `f` на `back`, если оно равно `front`.
pub fn map_field(f: &mut String, front: &str, back: &str)
    ensures
        final(f)@ == (if old(f)@ == front@ { back@ } else { old(f)@ }),
{
    if crate::text::str_eq(f.as_str(), front) {
        *f = String::from_str(back);
    }
}

/// Актуальное имя поля сущности: имя из первой пары переименований с таким
/// именем фронтенда, иначе само имя.
pub fn actual_fieldname(t: &DbTable, fieldname: &str) -> (r: String)
    ensures
        r@ == actual_name_from(tolerated_pairs(t), 0, fieldname@),
{
    let ghost pairs = tolerated_pairs(t);
    let mut i: usize = 0;
    while i < t.tolerated.len()
        invariant
            i <= t.tolerated@.len(),
            pairs == tolerated_pairs(t),
            actual_name_from(pairs, 0, fieldname@) == actual_name_from(pairs, i as int, fieldname@),
        decreases t.tolerated.len() - i,
    {
        if crate::text::str_eq(t.tolerated[i].0.as_str(), fieldname) {
            return copy_string(&t.tolerated[i].1);
        }
        i = i + 1;
    }
    String::from_str(fieldname)
}

fn mapped_field(t: &DbTable, field: &str) -> (r: String)
    ensures
        r@ == mapped_name(tolerated_pairs(t), field@),
{
    let ghost pairs = tolerated_pairs(t);
    let mut j: usize = t.tolerated.len();
    assert(pairs.take(j as int) =~= pairs);
    while j > 0
        invariant
            j <= t.tolerated@.len(),
            pairs == tolerated_pairs(t),
            mapped_name(pairs, field@) == mapped_name(pairs.take(j as int), field@),
        decreases j,
    {
        proof {
            assert(pairs.take(j as int).drop_last() =~= pairs.take(j - 1));
        }
        if crate::text::str_eq(t.tolerated[j - 1].0.as_str(), field) {
            return copy_string(&t.tolerated[j - 1].1);
        }
        j = j - 1;
    }
    String::from_str(field)
}

/// Переименовывает поля фронтенда по таблице переименований (при повторах
/// побеждает последняя пара).
pub fn apply_tolerance_to_fields(t: &DbTable, fields: &Vec<String>) -> (r: Vec<String>)
    ensures
        strings_view(r@) == strings_view(fields@).map_values(|f: Seq<char>| mapped_name(tolerated_pairs(t), f)),
{
    let ghost pairs = tolerated_pairs(t);
    let mut out: Vec<String> = Vec::new();
    let mut i: usize = 0;
    while i < fields.len()
        invariant
            i <= fields@.len(),
            pairs == tolerated_pairs(t),
            out@.len() == i,
            forall|k: int| 0 <= k < i ==> #[trigger] out@[k]@ == mapped_name(pairs, fields@[k]@),
        decreases fields.len() - i,
    {
        out.push(mapped_field(t, fields[i].as_str()));
        i = i + 1;
    }
    assert(strings_view(out@) =~= strings_view(fields@).map_values(|f: Seq<char>| mapped_name(pairs, f)));
    out
}

// ---------------------------------------------------------------------------
// Сборка текста SELECT.
// ---------------------------------------------------------------------------

/// Пары «что проверяется, имя колонки» в порядке проверки: колонки выборки,
/// DISTINCT ON, ключи сортировки, поля фильтров.
pub open spec fn checked_items(q: SelectModel) -> Seq<(Seq<char>, Seq<char>)> {
    q.field_list.map_values(|x: Seq<char>| ("Field"@, x))
        + q.distinct_on.map_values(|x: Seq<char>| ("Distinct field"@, x))
        + q.order_list.map_values(|o: OrderModel| ("Order key"@, o.field))
        + tree_filters(q.filter_list).map_values(|f: FilterModel| ("Filter field"@, f.field))
}

/// Текст ошибки о колонке, которой нет в таблице.
pub open spec fn missing_text(item: (Seq<char>, Seq<char>), table: Seq<char>) -> Seq<char> {
    item.0 + " `"@ + item.1 + "` not in table `"@ + table + "`"@
}

/// Первая (начиная с `i`-й) проверяемая колонка, которой нет среди `names`.
pub open spec fn check_from(items: Seq<(Seq<char>, Seq<char>)>, i: int, names: Set<Seq<char>>, table: Seq<char>) -> Result<(), Seq<char>>
    decreases items.len() - i,
{
    if i < 0 || i >= items.len() {
        Ok(())
    } else if !names.contains(items[i].1) {
        Err(missing_text(items[i], table))
    } else {
        check_from(items, i + 1, names, table)
    }
}

/// Итог проверки запроса по описанию таблицы.
pub open spec fn check_result(q: SelectModel, t: &DbTable) -> Result<(), Seq<char>> {
    if q.skip_main_check {
        Ok(())
    } else {
        check_from(checked_items(q), 0, t.names().to_set(), t.table@)
    }
}

/// Список колонок SELECT: `*` для пустого списка и, при подсчёте, оконная функция.
pub open spec fn selection_text(fields: Seq<Seq<char>>, with_count: bool) -> Seq<char> {
    (if fields.len() == 0 { "*"@ } else { seq_join(fields, ","@) }) + if with_count {
        ", COUNT(*) OVER() AS _total_count"@
    } else {
        seq![]
    }
}

/// Начало запроса: `SELECT[ DISTINCT ON(..)] колонки FROM таблица`.
pub open spec fn select_head(q: SelectModel, table: Seq<char>, with_count: bool) -> Seq<char> {
    let distinct = if q.distinct_on.len() == 0 {
        seq![]
    } else {
        " DISTINCT ON("@ + seq_join(q.distinct_on, ","@) + ")"@
    };
    "SELECT"@ + distinct + " "@ + selection_text(q.field_list, with_count) + " FROM "@ + table
}

/// WHERE-часть и номер следующей привязки; пустое дерево ничего не добавляет.
pub open spec fn where_sql(t: TreeModel, c: Seq<char>, binds: nat) -> Result<(Seq<char>, nat), Seq<char>> {
    if model_is_empty(t) {
        Ok((c, binds))
    } else {
        tree_sql(t, c + " WHERE"@, binds)
    }
}

/// OFFSET и FETCH части запроса.
pub open spec fn limits_text(offset: Option<usize>, take_n: Option<usize>) -> Seq<char> {
    (match offset {
        Some(n) => " OFFSET "@ + dec_text(n as nat),
        None => seq![],
    }) + match take_n {
        Some(n) => if n == 1 {
            " FETCH FIRST ROW ONLY"@
        } else {
            " FETCH NEXT "@ + dec_text(n as nat) + " ROW ONLY"@
        },
        None => seq![],
    }
}

/// Имя псевдоколонки полного числа строк при пагинации.
pub const TOTAL_COUNT: &'static str = "_total_count";

/// Построитель текста SELECT-запроса по [`Select`] и описанию таблицы.
///
/// Хранит запрос (после переименований), текущий текст и номер следующей
/// привязки `$n`, чтобы нумерация продолжалась во вложенных запросах.
pub struct SelectMaker {
    query_defn: Select,
    query_string: String,
    binds: usize,
}

impl SelectMaker {
    /// Запрос, по которому строится текст.
    pub closed spec fn defn(&self) -> SelectModel {
        self.query_defn@
    }

    /// Текущий текст запроса.
    pub closed spec fn text(&self) -> Seq<char> {
        self.query_string@
    }

    /// Номер следующей привязки.
    pub closed spec fn next_bind(&self) -> nat {
        self.binds as nat
    }

    /// Проверяет, что все колонки запроса (выборка, DISTINCT ON, сортировка,
    /// фильтры) есть в таблице; проверка пропускается у производных запросов.
    pub fn check_select(q: &Select, t: &DbTable) -> (r: Result<(), SharedDbError>)
        ensures
            match check_result(q@, t) {
                Ok(_) => r is Ok,
                Err(e) => r is Err && r->Err_0 is Other && r->Err_0.text() == e,
            },
    {
        if q.skip_main_check {
            return Ok(());
        }
        let set = field_set_from(&t.fields);
        let ghost names = t.names().to_set();
        let ghost items = checked_items(q@);
        let filters = q.filter_list.slice();
        let ghost fv = filters@.map_values(|f: &Filter| f@);
        let mut list: Vec<(&str, &str)> = Vec::new();
        let mut i: usize = 0;
        while i < q.field_list.len()
            invariant
                i <= q.field_list@.len(),
                list@.map_values(|p: (&str, &str)| (p.0@, p.1@)) == q@.field_list.map_values(|x: Seq<char>| ("Field"@, x)).take(i as int),
            decreases q.field_list.len() - i,
        {
            let ghost before = list@.map_values(|p: (&str, &str)| (p.0@, p.1@));
            list.push(("Field", q.field_list[i].as_str()));
            proof {
                let xs = q@.field_list.map_values(|x: Seq<char>| ("Field"@, x));
                assert(xs.take(i + 1) =~= xs.take(i as int).push(xs[i as int]));
                assert(xs[i as int] == ("Field"@, q.field_list@[i as int]@));
                assert(list@.map_values(|p: (&str, &str)| (p.0@, p.1@)) =~= before.push(("Field"@, q.field_list@[i as int]@)));
                assert(list@.map_values(|p: (&str, &str)| (p.0@, p.1@)) =~= xs.take(i + 1));
            }
            i = i + 1;
        }
        let ghost p1 = list@.map_values(|p: (&str, &str)| (p.0@, p.1@));
        assert(p1 =~= q@.field_list.map_values(|x: Seq<char>| ("Field"@, x)));
        i = 0;
        while i < q.distinct_on.len()
            invariant
                i <= q.distinct_on@.len(),
                list@.map_values(|p: (&str, &str)| (p.0@, p.1@)) == p1 + q@.distinct_on.map_values(|x: Seq<char>| ("Distinct field"@, x)).take(i as int),
            decreases q.distinct_on.len() - i,
        {
            let ghost before = list@.map_values(|p: (&str, &str)| (p.0@, p.1@));
            list.push(("Distinct field", q.distinct_on[i].as_str()));
            proof {
                let xs = q@.distinct_on.map_values(|x: Seq<char>| ("Distinct field"@, x));
                assert(xs.take(i + 1) =~= xs.take(i as int).push(xs[i as int]));
                assert(xs[i as int] == ("Distinct field"@, q.distinct_on@[i as int]@));
                assert(list@.map_values(|p: (&str, &str)| (p.0@, p.1@)) =~= before.push(("Distinct field"@, q.distinct_on@[i as int]@)));
                assert(list@.map_values(|p: (&str, &str)| (p.0@, p.1@)) =~= p1 + xs.take(i + 1));
            }
            i = i + 1;
        }
        let ghost p2 = list@.map_values(|p: (&str, &str)| (p.0@, p.1@));
        assert(p2 =~= p1 + q@.distinct_on.map_values(|x: Seq<char>| ("Distinct field"@, x)));
        i = 0;
        while i < q.order_list.len()
            invariant
                i <= q.order_list@.len(),
                list@.map_values(|p: (&str, &str)| (p.0@, p.1@)) == p2 + q@.order_list.map_values(|o: OrderModel| ("Order key"@, o.field)).take(i as int),
            decreases q.order_list.len() - i,
        {
            let ghost before = list@.map_values(|p: (&str, &str)| (p.0@, p.1@));
            list.push(("Order key", q.order_list[i].field.as_str()));
            proof {
                let xs = q@.order_list.map_values(|o: OrderModel| ("Order key"@, o.field));
                assert(xs.take(i + 1) =~= xs.take(i as int).push(xs[i as int]));
                assert(xs[i as int] == ("Order key"@, q.order_list@[i as int].field@));
                assert(list@.map_values(|p: (&str, &str)| (p.0@, p.1@)) =~= before.push(("Order key"@, q.order_list@[i as int].field@)));
                assert(list@.map_values(|p: (&str, &str)| (p.0@, p.1@)) =~= p2 + xs.take(i + 1));
            }
            i = i + 1;
        }
        let ghost p3 = list@.map_values(|p: (&str, &str)| (p.0@, p.1@));
        assert(p3 =~= p2 + q@.order_list.map_values(|o: OrderModel| ("Order key"@, o.field)));
        i = 0;
        while i < filters.len()
            invariant
                i <= filters@.len(),
                fv == filters@.map_values(|f: &Filter| f@),
                list@.map_values(|p: (&str, &str)| (p.0@, p.1@)) == p3 + fv.map_values(|f: FilterModel| ("Filter field"@, f.field)).take(i as int),
            decreases filters.len() - i,
        {
            let ghost before = list@.map_values(|p: (&str, &str)| (p.0@, p.1@));
            list.push(("Filter field", filters[i].field.as_str()));
            proof {
                let xs = fv.map_values(|f: FilterModel| ("Filter field"@, f.field));
                assert(xs.take(i + 1) =~= xs.take(i as int).push(xs[i as int]));
                assert(xs[i as int] == ("Filter field"@, filters@[i as int].field@));
                assert(list@.map_values(|p: (&str, &str)| (p.0@, p.1@)) =~= before.push(("Filter field"@, filters@[i as int].field@)));
                assert(list@.map_values(|p: (&str, &str)| (p.0@, p.1@)) =~= p3 + xs.take(i + 1));
            }
            i = i + 1;
        }
        assert(list@.map_values(|p: (&str, &str)| (p.0@, p.1@)) =~= items);
        i = 0;
        while i < list.len()
            invariant
                i <= list@.len(),
                items == list@.map_values(|p: (&str, &str)| (p.0@, p.1@)),
                items == checked_items(q@),
                !q.skip_main_check,
                names == t.names().to_set(),
                field_set_contents(set) == names,
                check_from(items, 0, names, t.table@) == check_from(items, i as int, names, t.table@),
            decreases list.len() - i,
        {
            let (thing, x) = list[i];
            assert(items[i as int] == (thing@, x@));
            if !field_set_contains(&set, x) {
                let mut m = String::from_str(thing);
                m.append(" `");
                m.append(x);
                m.append("` not in table `");
                m.append(t.table.as_str());
                m.append("`");
                return Err(SharedDbError::Other(m));
            }
            i = i + 1;
        }
        Ok(())
    }

    /// Начинает запрос к таблице `table` с нумерацией привязок с `start_bind`:
    /// переименовывает колонки фронтенда, проверяет запрос и пишет
    /// `SELECT[ DISTINCT ON(..)] колонки FROM table`.
    pub fn start_from(q: &Select, start_bind: usize, t: &DbTable, table: &str, with_count: bool) -> (r: Result<SelectMaker, SharedDbError>)
        ensures
            ({
                let q2 = tolerated_select(q@, tolerated_pairs(t), t.tolerated@.len() as int);
                match check_result(q2, t) {
                    Ok(_) => r is Ok && r->Ok_0.defn() == q2 && r->Ok_0.text() == select_head(q2, table@, with_count)
                        && r->Ok_0.next_bind() == start_bind,
                    Err(e) => r is Err && r->Err_0 is Other && r->Err_0.text() == e,
                }
            }),
    {
        let mut q = q.copy();
        apply_tolerance_to_select(t, &mut q);
        match Self::check_select(&q, t) {
            Ok(_) => {},
            Err(e) => {
                return Err(e);
            },
        }
        let mut selection = if q.field_list.len() == 0 {
            String::from_str("*")
        } else {
            join_strings(&q.field_list, ",")
        };
        if with_count {
            selection.append(", COUNT(*) OVER() AS ");
            selection.append(TOTAL_COUNT);
            proof {
                reveal_strlit("_total_count");
                reveal_strlit(", COUNT(*) OVER() AS ");
                reveal_strlit(", COUNT(*) OVER() AS _total_count");
            }
        }
        let mut query_string = String::from_str("SELECT");
        if q.distinct_on.len() > 0 {
            query_string.append(" DISTINCT ON(");
            let d = join_strings(&q.distinct_on, ",");
            query_string.append(d.as_str());
            query_string.append(")");
        }
        query_string.append(" ");
        query_string.append(selection.as_str());
        query_string.append(" FROM ");
        query_string.append(table);
        Ok(SelectMaker { query_defn: q, query_string, binds: start_bind })
    }

    /// Начинает запрос к таблице описания с нумерацией привязок с 1.
    pub fn start(q: &Select, t: &DbTable) -> (r: Result<SelectMaker, SharedDbError>)
        ensures
            ({
                let q2 = tolerated_select(q@, tolerated_pairs(t), t.tolerated@.len() as int);
                match check_result(q2, t) {
                    Ok(_) => r is Ok && r->Ok_0.defn() == q2 && r->Ok_0.text() == select_head(q2, t.table@, false)
                        && r->Ok_0.next_bind() == 1,
                    Err(e) => r is Err && r->Err_0 is Other && r->Err_0.text() == e,
                }
            }),
    {
        Self::start_from(q, 1, t, t.table.as_str(), false)
    }

    /// Как [`SelectMaker::start`], но с подсчётом полного числа строк.
    pub fn start_with_count(q: &Select, t: &DbTable) -> (r: Result<SelectMaker, SharedDbError>)
        ensures
            ({
                let q2 = tolerated_select(q@, tolerated_pairs(t), t.tolerated@.len() as int);
                match check_result(q2, t) {
                    Ok(_) => r is Ok && r->Ok_0.defn() == q2 && r->Ok_0.text() == select_head(q2, t.table@, true)
                        && r->Ok_0.next_bind() == 1,
                    Err(e) => r is Err && r->Err_0 is Other && r->Err_0.text() == e,
                }
            }),
    {
        Self::start_from(q, 1, t, t.table.as_str(), true)
    }

    /// ORDER BY-часть запроса (пустая строка без сортировки).
    pub fn get_order(&self) -> (r: String)
        ensures
            r@ == match order_by_text(self.defn().order_list) {
                Some(x) => x,
                None => seq![],
            },
    {
        match FieldSortOrder::as_order_by(&self.query_defn.order_list) {
            Some(x) => x,
            None => String::new(),
        }
    }

    /// Дописывает ORDER BY.
    fn add_order(self) -> (r: SelectMaker)
        ensures
            r.defn() == self.defn(),
            r.next_bind() == self.next_bind(),
            r.text() == self.text() + match order_by_text(self.defn().order_list) {
                Some(x) => x,
                None => seq![],
            },
    {
        let mut m = self;
        let o = m.get_order();
        m.query_string.append(o.as_str());
        m
    }

    /// Дописывает WHERE-часть по дереву фильтров.
    fn add_filters(self) -> (r: Result<SelectMaker, SharedDbError>)
        requires
            self.next_bind() + tree_weight(self.defn().filter_list) <= usize::MAX,
        ensures
            match where_sql(self.defn().filter_list, self.text(), self.next_bind()) {
                Ok(p) => r is Ok && r->Ok_0.defn() == self.defn() && r->Ok_0.text() == p.0 && r->Ok_0.next_bind() == p.1,
                Err(e) => r is Err && r->Err_0 is Other && r->Err_0.text() == e,
            },
    {
        let mut m = self;
        if m.query_defn.filter_list.is_empty() {
            return Ok(m);
        }
        m.query_string.append(" WHERE");
        match m.query_defn.filter_list.build_sql(&mut m.query_string, m.binds) {
            Ok(n) => {
                m.binds = n;
                Ok(m)
            },
            Err(e) => Err(e),
        }
    }

    /// Дописывает OFFSET и FETCH.
    fn add_limits(self) -> (r: SelectMaker)
        ensures
            r.defn() == self.defn(),
            r.next_bind() == self.next_bind(),
            r.text() == self.text() + limits_text(self.defn().offset, self.defn().take_n),
    {
        let mut m = self;
        let ghost t0 = m.query_string@;
        match m.query_defn.offset {
            Some(n) => {
                m.query_string.append(" OFFSET ");
                let t = usize_text(n);
                m.query_string.append(t.as_str());
            },
            None => {},
        }
        let ghost t1 = m.query_string@;
        match m.query_defn.take_n {
            Some(n) => {
                if n == 1 {
                    m.query_string.append(" FETCH FIRST ROW ONLY");
                } else {
                    m.query_string.append(" FETCH NEXT ");
                    let t = usize_text(n);
                    m.query_string.append(t.as_str());
                    m.query_string.append(" ROW ONLY");
                }
            },
            None => {},
        }
        m
    }

    /// Дописывает WHERE, ORDER BY и OFFSET/FETCH (в этом порядке).
    pub fn stack(self) -> (r: Result<SelectMaker, SharedDbError>)
        requires
            self.next_bind() + tree_weight(self.defn().filter_list) <= usize::MAX,
        ensures
            match where_sql(self.defn().filter_list, self.text(), self.next_bind()) {
                Ok(p) => r is Ok && r->Ok_0.defn() == self.defn() && r->Ok_0.next_bind() == p.1
                    && r->Ok_0.text() == p.0 + (match order_by_text(self.defn().order_list) {
                        Some(x) => x,
                        None => seq![],
                    }) + limits_text(self.defn().offset, self.defn().take_n),
                Err(e) => r is Err && r->Err_0 is Other && r->Err_0.text() == e,
            },
    {
        match self.add_filters() {
            Ok(m) => Ok(m.add_order().add_limits()),
            Err(e) => Err(e),
        }
    }

    /// Текст запроса.
    pub fn query_string(&self) -> (r: &str)
        ensures
            r@ == self.text(),
    {
        self.query_string.as_str()
    }

    /// Номер следующей привязки.
    pub fn bind_count(&self) -> (r: usize)
        ensures
            r == self.next_bind(),
    {
        self.binds
    }

    /// Запрос, по которому строится текст.
    pub fn query_defn(&self) -> (r: &Select)
        ensures
            r@ == self.defn(),
    {
        &self.query_defn
    }
}

/// Переименования не меняют оценку числа привязок фильтров запроса.
pub proof fn lemma_tolerated_weight(q: SelectModel, pairs: Seq<(Seq<char>, Seq<char>)>, i: int)
    ensures
        tree_weight(tolerated_select(q, pairs, i).filter_list) == tree_weight(q.filter_list),
    decreases i,
{
    if i > 0 && i <= pairs.len() {
        lemma_tolerated_weight(q, pairs, i - 1);
        crate::db_item::selection::filters::lemma_renamed_weight(tolerated_select(q, pairs, i - 1).filter_list, pairs[i - 1].0, pairs[i - 1].1);
    }
}

/// Текст SELECT к таблице `table` по запросу и описанию таблицы с нумерацией
/// привязок с `start`, и номер следующей привязки; либо текст ошибки.
pub open spec fn select_sql(q: SelectModel, t: &DbTable, table: Seq<char>, with_count: bool, start: nat) -> Result<(Seq<char>, nat), Seq<char>> {
    let q2 = tolerated_select(q, tolerated_pairs(t), t.tolerated@.len() as int);
    match check_result(q2, t) {
        Err(e) => Err(e),
        Ok(_) => match where_sql(q2.filter_list, select_head(q2, table, with_count), start) {
            Ok(p) => Ok((p.0 + (match order_by_text(q2.order_list) {
                Some(x) => x,
                None => seq![],
            }) + limits_text(q2.offset, q2.take_n), p.1)),
            Err(e) => Err(e),
        },
    }
}

impl SelectMaker {
    /// Полный текст SELECT: начало, WHERE, ORDER BY и OFFSET/FETCH.
    pub fn build(q: &Select, start_bind: usize, t: &DbTable, table: &str, with_count: bool) -> (r: Result<SelectMaker, SharedDbError>)
        requires
            start_bind + tree_weight(q@.filter_list) <= usize::MAX,
        ensures
            match select_sql(q@, t, table@, with_count, start_bind as nat) {
                Ok(p) => r is Ok && r->Ok_0.text() == p.0 && r->Ok_0.next_bind() == p.1
                    && r->Ok_0.defn() == tolerated_select(q@, tolerated_pairs(t), t.tolerated@.len() as int),
                Err(e) => r is Err && r->Err_0 is Other && r->Err_0.text() == e,
            },
    {
        proof {
            lemma_tolerated_weight(q@, tolerated_pairs(t), t.tolerated@.len() as int);
        }
        match Self::start_from(q, start_bind, t, table, with_count) {
            Ok(m) => m.stack(),
            Err(e) => Err(e),
        }
    }
}

} // verus!
