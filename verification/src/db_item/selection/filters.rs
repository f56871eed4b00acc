//! Фильтры и дерево фильтров для WHERE-части запросов.
use crate::collections::{field_set_contains, field_set_contents};
use crate::result::SharedDbError;
use ahash::AHashSet;
use crate::date_time::{AsezDate, AsezTimestamp};
use crate::text::{
    dec_text, has_substring, i64_text, int_text, join_strings, seq_join, str_contains, str_eq, strings_view, usize_text,
};
use crate::value::{
    aggr_of, single_value, text_value, two_values, values_debug, values_debug_text, values_view, AggrModel,
    AggrValue, DisplayText, Value, ValueModel,
};
use vstd::prelude::*;

verus! {

/// Вид условия фильтра.
#[derive(Clone, Copy, Debug, PartialEq, Eq, Hash, Structural)]
pub enum SelectionKind {
    Equals,
    NotEquals,
    Less,
    LessEqual,
    Greater,
    GreaterEqual,
    Mask,
    NotMask,
    Contains,
    NotContains,
    /// BETWEEN включает границы, как и в PostgreSQL.
    Between,
    In,
    NotIn,
    Jsonpath,
    Overlaps,
}

/// SQL-оператор вида условия.
pub open spec fn kind_str(k: SelectionKind) -> Seq<char> {
    match k {
        SelectionKind::Equals => "="@,
        SelectionKind::In => "=ANY"@,
        SelectionKind::NotEquals => "!="@,
        SelectionKind::NotIn => "=ANY"@,
        SelectionKind::Less => "<"@,
        SelectionKind::LessEqual => "<="@,
        SelectionKind::Greater => ">"@,
        SelectionKind::GreaterEqual => ">="@,
        SelectionKind::Contains => "~"@,
        SelectionKind::NotContains => "!~"@,
        SelectionKind::Between => "BETWEEN"@,
        SelectionKind::Mask => ""@,
        SelectionKind::NotMask => ""@,
        SelectionKind::Jsonpath => "@?"@,
        SelectionKind::Overlaps => "&&"@,
    }
}

/// Имя варианта (как его печатает `Debug`).
pub open spec fn kind_name(k: SelectionKind) -> Seq<char> {
    match k {
        SelectionKind::Equals => "Equals"@,
        SelectionKind::NotEquals => "NotEquals"@,
        SelectionKind::Less => "Less"@,
        SelectionKind::LessEqual => "LessEqual"@,
        SelectionKind::Greater => "Greater"@,
        SelectionKind::GreaterEqual => "GreaterEqual"@,
        SelectionKind::Mask => "Mask"@,
        SelectionKind::NotMask => "NotMask"@,
        SelectionKind::Contains => "Contains"@,
        SelectionKind::NotContains => "NotContains"@,
        SelectionKind::Between => "Between"@,
        SelectionKind::In => "In"@,
        SelectionKind::NotIn => "NotIn"@,
        SelectionKind::Jsonpath => "Jsonpath"@,
        SelectionKind::Overlaps => "Overlaps"@,
    }
}

/// Простые условия вида `field <op> $n`.
pub open spec fn kind_is_simple(k: SelectionKind) -> bool {
    match k {
        SelectionKind::Less | SelectionKind::LessEqual | SelectionKind::Greater
        | SelectionKind::GreaterEqual | SelectionKind::Contains | SelectionKind::NotContains
        | SelectionKind::Equals | SelectionKind::NotEquals | SelectionKind::Overlaps => true,
        _ => false,
    }
}

/// Условие `In` или `NotIn` (массив значений).
pub open spec fn kind_is_in_brackets(k: SelectionKind) -> bool {
    k == SelectionKind::In || k == SelectionKind::NotIn
}

impl SelectionKind {
    /// SQL-оператор.
    pub fn str(&self) -> (r: &'static str)
        ensures
            r@ == kind_str(*self),
    {
        match self {
            SelectionKind::Equals => "=",
            SelectionKind::In => "=ANY",
            SelectionKind::NotEquals => "!=",
            SelectionKind::NotIn => "=ANY",
            SelectionKind::Less => "<",
            SelectionKind::LessEqual => "<=",
            SelectionKind::Greater => ">",
            SelectionKind::GreaterEqual => ">=",
            SelectionKind::Contains => "~",
            SelectionKind::NotContains => "!~",
            SelectionKind::Between => "BETWEEN",
            SelectionKind::Mask => "",
            SelectionKind::NotMask => "",
            SelectionKind::Jsonpath => "@?",
            SelectionKind::Overlaps => "&&",
        }
    }

    /// Имя варианта.
    pub fn name(&self) -> (r: &'static str)
        ensures
            r@ == kind_name(*self),
    {
        match self {
            SelectionKind::Equals => "Equals",
            SelectionKind::NotEquals => "NotEquals",
            SelectionKind::Less => "Less",
            SelectionKind::LessEqual => "LessEqual",
            SelectionKind::Greater => "Greater",
            SelectionKind::GreaterEqual => "GreaterEqual",
            SelectionKind::Mask => "Mask",
            SelectionKind::NotMask => "NotMask",
            SelectionKind::Contains => "Contains",
            SelectionKind::NotContains => "NotContains",
            SelectionKind::Between => "Between",
            SelectionKind::In => "In",
            SelectionKind::NotIn => "NotIn",
            SelectionKind::Jsonpath => "Jsonpath",
            SelectionKind::Overlaps => "Overlaps",
        }
    }

    /// Простое условие `field <op> $n`.
    pub fn is_simple(&self) -> (r: bool)
        ensures
            r == kind_is_simple(*self),
    {
        match self {
            SelectionKind::Less | SelectionKind::LessEqual | SelectionKind::Greater
            | SelectionKind::GreaterEqual | SelectionKind::Contains | SelectionKind::NotContains
            | SelectionKind::Equals | SelectionKind::NotEquals | SelectionKind::Overlaps => true,
            _ => false,
        }
    }

    /// Условие `Jsonpath`.
    pub fn is_jsonpath(&self) -> (r: bool)
        ensures
            r == (*self == SelectionKind::Jsonpath),
    {
        match self {
            SelectionKind::Jsonpath => true,
            _ => false,
        }
    }

    /// Условие `In`/`NotIn`.
    pub fn is_in_brackets(&self) -> (r: bool)
        ensures
            r == kind_is_in_brackets(*self),
    {
        match self {
            SelectionKind::In | SelectionKind::NotIn => true,
            _ => false,
        }
    }
}

/// Фильтр по одному полю.
#[derive(Clone, Debug, PartialEq)]
pub struct Filter {
    pub field: String,
    pub kind: SelectionKind,
    pub values: Vec<Value>,
}

/// Модель фильтра.
pub struct FilterModel {
    pub field: Seq<char>,
    pub kind: SelectionKind,
    pub values: Seq<ValueModel>,
}

impl View for Filter {
    type V = FilterModel;

    open spec fn view(&self) -> FilterModel {
        FilterModel { field: self.field@, kind: self.kind, values: values_view(self.values@) }
    }
}

/// Дерево фильтров: группы `Or`/`And`, отдельный фильтр или пустота.
#[derive(Debug, Default, PartialEq)]
pub enum FilterTree {
    /// Группа, фильтры которой связаны OR.
    Or(Vec<FilterTree>),
    /// Группа, фильтры которой связаны AND.
    And(Vec<FilterTree>),
    /// Сам фильтр.
    Filter(Filter),
    #[default]
    Empty,
}

/// Модель дерева фильтров.
pub enum TreeModel {
    Or(Seq<TreeModel>),
    And(Seq<TreeModel>),
    Filter(FilterModel),
    Empty,
}

/// Модель поддерева.
pub open spec fn tree_view(t: FilterTree) -> TreeModel
    decreases t, 0int,
{
    match t {
        FilterTree::Or(v) => TreeModel::Or(trees_view(v@, 0)),
        FilterTree::And(v) => TreeModel::And(trees_view(v@, 0)),
        FilterTree::Filter(f) => TreeModel::Filter(f@),
        FilterTree::Empty => TreeModel::Empty,
    }
}

/// Модели поддеревьев, начиная с `i`-го.
pub open spec fn trees_view(v: Seq<FilterTree>, i: int) -> Seq<TreeModel>
    decreases v, v.len() - i,
{
    if i < 0 || i >= v.len() {
        seq![]
    } else {
        seq![tree_view(v[i])] + trees_view(v, i + 1)
    }
}

impl View for FilterTree {
    type V = TreeModel;

    open spec fn view(&self) -> TreeModel {
        tree_view(*self)
    }
}


// ---------------------------------------------------------------------------
// Построение WHERE-части: спецификация.
// ---------------------------------------------------------------------------

/// Поддерево пусто: нет фильтров со значениями.
pub open spec fn model_is_empty(t: TreeModel) -> bool
    decreases t, 0int,
{
    match t {
        TreeModel::Empty => true,
        TreeModel::Filter(f) => f.values.len() == 0,
        TreeModel::Or(x) => all_empty_from(x, 0),
        TreeModel::And(x) => all_empty_from(x, 0),
    }
}

/// Все поддеревья, начиная с `i`-го, пусты.
pub open spec fn all_empty_from(x: Seq<TreeModel>, i: int) -> bool
    decreases x, x.len() - i,
{
    if i < 0 || i >= x.len() {
        true
    } else {
        model_is_empty(x[i]) && all_empty_from(x, i + 1)
    }
}

/// Верхняя оценка числа привязок поддерева: по два на фильтр плюс число значений.
pub open spec fn tree_weight(t: TreeModel) -> nat
    decreases t, 0int,
{
    match t {
        TreeModel::Empty => 0,
        TreeModel::Filter(f) => f.values.len() + 2,
        TreeModel::Or(x) => list_weight(x, 0),
        TreeModel::And(x) => list_weight(x, 0),
    }
}

/// Сумма оценок поддеревьев, начиная с `i`-го.
pub open spec fn list_weight(x: Seq<TreeModel>, i: int) -> nat
    decreases x, x.len() - i,
{
    if i < 0 || i >= x.len() {
        0
    } else {
        tree_weight(x[i]) + list_weight(x, i + 1)
    }
}

/// Количество значений, отличных от `Null`.
pub open spec fn non_null_count(vs: Seq<ValueModel>) -> nat
    decreases vs.len(),
{
    if vs.len() == 0 {
        0
    } else {
        non_null_count(vs.drop_last()) + if vs.last() is Null { 0nat } else { 1nat }
    }
}

/// Плейсхолдер привязки `$n`.
pub open spec fn placeholder(n: nat) -> Seq<char> {
    "$"@ + dec_text(n)
}

/// Условие на NULL для поля.
pub open spec fn null_filter(k: SelectionKind, field: Seq<char>) -> Seq<char> {
    match k {
        SelectionKind::Equals | SelectionKind::In => field + " IS NULL"@,
        SelectionKind::NotEquals | SelectionKind::NotIn => field + " IS NOT NULL"@,
        _ => seq![],
    }
}

/// Отладочная запись фильтра.
pub open spec fn filter_debug(f: FilterModel) -> Seq<char> {
    "Filter { field: \""@ + crate::value::quoted_text(f.field) + "\", kind: "@ + kind_name(f.kind)
        + ", values: "@ + values_debug(f.values) + " }"@
}

/// Текст ошибки: условие не принимает несколько значений.
pub open spec fn too_many_values_text(f: FilterModel) -> Seq<char> {
    "`"@ + kind_str(f.kind) + "` не поддерьивает больше одного значение. Найдено "@ + dec_text(
        f.values.len(),
    ) + ". (Фильтр на "@ + f.field + ": "@ + values_debug(f.values) + ")"@
}

/// Текст ошибки: условие не поддерживает NULL.
pub open spec fn null_unsupported_text(k: SelectionKind) -> Seq<char> {
    "`"@ + kind_str(k) + "` не поддерживается для фильтра на нуль"@
}

/// Текст ошибки: BETWEEN без двух значений.
pub open spec fn between_arity_text(f: FilterModel) -> Seq<char> {
    "BETWEEN filter must have EXACTLY 2 values but has:\n "@ + values_debug(f.values)
}

/// Текст ошибки: неподдерживаемый фильтр.
pub open spec fn unsupported_text(f: FilterModel, c: Seq<char>) -> Seq<char> {
    "Unsupported Filter: "@ + filter_debug(f) + " after:\n"@ + c
}

/// Текст строки после добавления фильтра `f` к строке `c` с очередной привязкой `b`
/// и номер следующей привязки; либо текст ошибки.
pub open spec fn filter_sql(f: FilterModel, c: Seq<char>, b: nat) -> Result<(Seq<char>, nat), Seq<char>> {
    let k = f.kind;
    let n = f.values.len();
    let nn = non_null_count(f.values);
    if (kind_is_simple(k) || k == SelectionKind::Jsonpath) && n > 1 {
        Err(too_many_values_text(f))
    } else if !(k == SelectionKind::Equals || k == SelectionKind::NotEquals) && !kind_is_in_brackets(k)
        && nn != n {
        Err(null_unsupported_text(k))
    } else {
        let c0 = c + " "@;
        if kind_is_simple(k) {
            let c1 = c0 + f.field + " "@;
            if nn == 0 && k == SelectionKind::Equals {
                Ok((c1 + "IS NULL"@, b))
            } else if nn == 0 && k == SelectionKind::NotEquals {
                Ok((c1 + "IS NOT NULL"@, b))
            } else {
                Ok((c1 + kind_str(k) + placeholder(b), b + 1))
            }
        } else if k == SelectionKind::Jsonpath {
            Ok((c0 + f.field + " "@ + kind_str(k) + placeholder(b) + "::jsonpath"@, b + 1))
        } else if kind_is_in_brackets(k) {
            let open = if k == SelectionKind::NotIn { "NOT ("@ } else { seq![] };
            let close = if k == SelectionKind::NotIn { ")"@ } else { seq![] };
            if nn == 0 {
                Ok((c0 + open + null_filter(k, f.field) + close, b))
            } else {
                let partial = nn < n;
                Ok((c0 + open + (if partial { "("@ } else { seq![] }) + f.field + "=ANY("@ + placeholder(b)
                    + ")"@ + (if partial { " OR "@ + null_filter(k, f.field) + ")"@ } else { seq![] })
                    + close, b + 1))
            }
        } else if k == SelectionKind::Between {
            if n != 2 {
                Err(between_arity_text(f))
            } else {
                Ok((c0 + f.field + " "@ + kind_str(k) + " "@ + placeholder(b) + " AND "@ + placeholder(b + 1)
                    + (if f.values[1] is Date { "+ interval '23:59:59'"@ } else { seq![] }), b + 2))
            }
        } else {
            Err(unsupported_text(f, c0))
        }
    }
}

/// Строка `c` после добавления фильтра `f`, закончившегося ошибкой: проверки
/// числа значений и нулей ничего не пишут; BETWEEN с неверным числом значений
/// успевает дописать пробел, поле и оператор; неподдерживаемый вид -- пробел.
pub open spec fn filter_sql_error_container(f: FilterModel, c: Seq<char>) -> Seq<char> {
    let k = f.kind;
    let n = f.values.len();
    let nn = non_null_count(f.values);
    if (kind_is_simple(k) || k == SelectionKind::Jsonpath) && n > 1 {
        c
    } else if !(k == SelectionKind::Equals || k == SelectionKind::NotEquals) && !kind_is_in_brackets(k) && nn != n {
        c
    } else if k == SelectionKind::Between {
        c + " "@ + f.field + " "@ + kind_str(k)
    } else {
        c + " "@
    }
}

/// Текст строки после добавления поддерева `t` к строке `c` с очередной привязкой `idx`.
pub open spec fn tree_sql(t: TreeModel, c: Seq<char>, idx: nat) -> Result<(Seq<char>, nat), Seq<char>>
    decreases t, 0int,
{
    match t {
        TreeModel::Empty => Ok((c, idx)),
        TreeModel::Filter(f) => filter_sql(f, c, idx),
        TreeModel::Or(x) => list_sql(x, 0, false, " OR"@, c, idx),
        TreeModel::And(x) => list_sql(x, 0, false, " AND"@, c, idx),
    }
}

/// Продолжение группы с `i`-го поддерева: пустые поддеревья пропускаются,
/// первое непустое открывается ` (`, следующие -- соединителем; открытая группа
/// закрывается `)` (группа из одних пустых поддеревьев не пишет ничего, так что
/// скобки всегда парные).
pub open spec fn list_sql(
    x: Seq<TreeModel>,
    i: int,
    started: bool,
    joiner: Seq<char>,
    c: Seq<char>,
    idx: nat,
) -> Result<(Seq<char>, nat), Seq<char>>
    decreases x, x.len() - i,
{
    if i < 0 || i >= x.len() {
        Ok((if started { c + ")"@ } else { c }, idx))
    } else if model_is_empty(x[i]) {
        list_sql(x, i + 1, started, joiner, c, idx)
    } else {
        let c1 = c + if started { joiner } else { " ("@ };
        match tree_sql(x[i], c1, idx) {
            Err(e) => Err(e),
            Ok(p) => list_sql(x, i + 1, true, joiner, p.0, p.1),
        }
    }
}


// ---------------------------------------------------------------------------
// Леммы о моделях деревьев.
// ---------------------------------------------------------------------------

/// Модели поддеревьев совпадают с моделями элементов вектора.
pub proof fn lemma_trees_view(v: Seq<FilterTree>, i: int)
    requires
        0 <= i <= v.len(),
    ensures
        trees_view(v, i).len() == v.len() - i,
        forall|k: int| 0 <= k < v.len() - i ==> #[trigger] trees_view(v, i)[k] == tree_view(v[i + k]),
    decreases v.len() - i,
{
    if i < v.len() {
        lemma_trees_view(v, i + 1);
        assert forall|k: int| 0 <= k < v.len() - i implies #[trigger] trees_view(v, i)[k] == tree_view(v[i + k]) by {
            if k > 0 {
                assert(trees_view(v, i)[k] == trees_view(v, i + 1)[k - 1]);
            }
        }
    }
}

/// Все поддеревья начиная с `i`-го пусты тогда и только тогда, когда пуст каждый.
pub proof fn lemma_all_empty_from(x: Seq<TreeModel>, i: int)
    requires
        0 <= i <= x.len(),
    ensures
        all_empty_from(x, i) <==> forall|k: int| i <= k < x.len() ==> #[trigger] model_is_empty(x[k]),
    decreases x.len() - i,
{
    if i < x.len() {
        lemma_all_empty_from(x, i + 1);
        if all_empty_from(x, i) {
            assert forall|k: int| i <= k < x.len() implies #[trigger] model_is_empty(x[k]) by {
                if k > i {
                    assert(model_is_empty(x[k]));
                }
            }
        } else if !model_is_empty(x[i]) {
            assert(!model_is_empty(x[i]));
        } else {
            assert(!all_empty_from(x, i + 1));
        }
    }
}

/// Номер следующей привязки не меньше исходного и не больше исходного плюс оценка поддерева.
pub proof fn lemma_tree_sql_bound(t: TreeModel, c: Seq<char>, idx: nat)
    ensures
        tree_sql(t, c, idx) matches Ok(p) ==> idx <= p.1 <= idx + tree_weight(t),
    decreases t, 0int,
{
    match t {
        TreeModel::Or(x) => lemma_list_sql_bound(x, 0, false, " OR"@, c, idx),
        TreeModel::And(x) => lemma_list_sql_bound(x, 0, false, " AND"@, c, idx),
        _ => {},
    }
}

/// То же для продолжения группы с `i`-го поддерева.
pub proof fn lemma_list_sql_bound(
    x: Seq<TreeModel>,
    i: int,
    started: bool,
    joiner: Seq<char>,
    c: Seq<char>,
    idx: nat,
)
    ensures
        list_sql(x, i, started, joiner, c, idx) matches Ok(p) ==> idx <= p.1 <= idx + list_weight(x, i),
    decreases x, x.len() - i,
{
    if 0 <= i < x.len() {
        if model_is_empty(x[i]) {
            lemma_list_sql_bound(x, i + 1, started, joiner, c, idx);
        } else {
            let c1 = c + if started { joiner } else { " ("@ };
            lemma_tree_sql_bound(x[i], c1, idx);
            match tree_sql(x[i], c1, idx) {
                Ok(p) => lemma_list_sql_bound(x, i + 1, true, joiner, p.0, p.1),
                Err(_) => {},
            }
        }
    }
}

// ---------------------------------------------------------------------------
// Построение WHERE-части: исполнение.
// ---------------------------------------------------------------------------

fn push_placeholder(c: &mut String, n: usize)
    ensures
        final(c)@ == old(c)@ + placeholder(n as nat),
{
    c.append("$");
    let t = usize_text(n);
    c.append(t.as_str());
}

/// Количество значений, отличных от `Null`.
pub fn count_non_null(values: &Vec<Value>) -> (r: usize)
    ensures
        r == non_null_count(values_view(values@)),
        r <= values@.len(),
{
    let mut n: usize = 0;
    let mut i: usize = 0;
    while i < values.len()
        invariant
            i <= values.len(),
            n == non_null_count(values_view(values@.subrange(0, i as int))),
            n <= i,
        decreases values.len() - i,
    {
        if !values[i].is_null() {
            n = n + 1;
        }
        assert(values_view(values@.subrange(0, i + 1)).drop_last() =~= values_view(values@.subrange(0, i as int)));
        i = i + 1;
    }
    assert(values@.subrange(0, values.len() as int) =~= values@);
    n
}

fn push_null_filter(c: &mut String, kind: SelectionKind, field: &str)
    ensures
        final(c)@ == old(c)@ + null_filter(kind, field@),
{
    match kind {
        SelectionKind::Equals | SelectionKind::In => {
            c.append(field);
            c.append(" IS NULL");
        },
        SelectionKind::NotEquals | SelectionKind::NotIn => {
            c.append(field);
            c.append(" IS NOT NULL");
        },
        _ => {
            assert(null_filter(kind, field@) =~= seq![]);
        },
    }
}

impl Filter {
    /// Копия фильтра.
    pub fn copy(&self) -> (r: Filter)
        ensures
            r@ == self@,
    {
        Filter {
            field: crate::text::copy_string(&self.field),
            kind: self.kind,
            values: crate::value::copy_values(&self.values),
        }
    }

    /// Отладочная запись фильтра.
    pub fn debug_text(&self) -> (r: String)
        ensures
            r@ == filter_debug(self@),
    {
        let mut r = String::from_str("Filter { field: \"");
        let q = crate::value::quoted(self.field.as_str());
        r.append(q.as_str());
        r.append("\", kind: ");
        r.append(self.kind.name());
        r.append(", values: ");
        let v = values_debug_text(&self.values);
        r.append(v.as_str());
        r.append(" }");
        r
    }

    /// Добавляет условие фильтра к строке запроса, начиная нумерацию привязок с `binding`.
    /// Возвращает номер следующей привязки.
    pub fn add_to_string(&self, container: &mut String, binding: usize) -> (r: Result<usize, SharedDbError>)
        requires
            binding + 2 <= usize::MAX,
        ensures
            match filter_sql(self@, old(container)@, binding as nat) {
                Ok(p) => r is Ok && r->Ok_0 == p.1 && final(container)@ == p.0,
                Err(e) => r is Err && r->Err_0 is Other && r->Err_0.text() == e
                    && final(container)@ == filter_sql_error_container(self@, old(container)@),
            },
    {
        let ghost f = self@;
        let kind = self.kind;
        let n = self.values.len();
        let nn = count_non_null(&self.values);
        if (kind.is_simple() || kind.is_jsonpath()) && n > 1 {
            let mut msg = String::from_str("`");
            msg.append(kind.str());
            msg.append("` не поддерьивает больше одного значение. Найдено ");
            let nt = usize_text(n);
            msg.append(nt.as_str());
            msg.append(". (Фильтр на ");
            msg.append(self.field.as_str());
            msg.append(": ");
            let vt = values_debug_text(&self.values);
            msg.append(vt.as_str());
            msg.append(")");
            return Err(SharedDbError::Other(msg));
        } else if !(kind == SelectionKind::Equals || kind == SelectionKind::NotEquals) && !kind.is_in_brackets()
            && nn != n {
            let mut msg = String::from_str("`");
            msg.append(kind.str());
            msg.append("` не поддерживается для фильтра на нуль");
            return Err(SharedDbError::Other(msg));
        }
        container.append(" ");
        if kind.is_simple() {
            container.append(self.field.as_str());
            container.append(" ");
            if nn == 0 && kind == SelectionKind::Equals {
                container.append("IS NULL");
                Ok(binding)
            } else if nn == 0 && kind == SelectionKind::NotEquals {
                container.append("IS NOT NULL");
                Ok(binding)
            } else {
                container.append(kind.str());
                push_placeholder(container, binding);
                Ok(binding + 1)
            }
        } else if kind.is_jsonpath() {
            container.append(self.field.as_str());
            container.append(" ");
            container.append(kind.str());
            push_placeholder(container, binding);
            container.append("::jsonpath");
            Ok(binding + 1)
        } else if kind.is_in_brackets() {
            let ghost c0 = container@;
            if kind == SelectionKind::NotIn {
                container.append("NOT (");
            }
            let ghost c1 = container@;
            if nn == 0 {
                push_null_filter(container, kind, self.field.as_str());
            } else {
                if nn < n {
                    container.append("(");
                }
                container.append(self.field.as_str());
                container.append("=ANY(");
                push_placeholder(container, binding);
                container.append(")");
                if nn < n {
                    container.append(" OR ");
                    push_null_filter(container, kind, self.field.as_str());
                    container.append(")");
                }
            }
            if kind == SelectionKind::NotIn {
                container.append(")");
            }
            proof {
                let open: Seq<char> = if kind == SelectionKind::NotIn { "NOT ("@ } else { seq![] };
                assert(c1 =~= c0 + open);
            }
            if nn == 0 {
                Ok(binding)
            } else {
                Ok(binding + 1)
            }
        } else if kind == SelectionKind::Between {
            container.append(self.field.as_str());
            container.append(" ");
            container.append(kind.str());
            if n != 2 {
                let mut msg = String::from_str("BETWEEN filter must have EXACTLY 2 values but has:\n ");
                let vt = values_debug_text(&self.values);
                msg.append(vt.as_str());
                return Err(SharedDbError::Other(msg));
            }
            container.append(" ");
            push_placeholder(container, binding);
            container.append(" AND ");
            push_placeholder(container, binding + 1);
            if let Value::Date(_) = self.values[1] {
                container.append("+ interval '23:59:59'");
            }
            Ok(binding + 2)
        } else {
            let mut msg = String::from_str("Unsupported Filter: ");
            let d = self.debug_text();
            msg.append(d.as_str());
            msg.append(" after:\n");
            msg.append(container.as_str());
            Err(SharedDbError::Other(msg))
        }
    }
}

impl FilterTree {
    /// Дерево не содержит ни одного фильтра со значениями.
    pub fn is_empty(&self) -> (r: bool)
        ensures
            r == model_is_empty(self@),
        decreases self,
    {
        match self {
            FilterTree::Empty => true,
            FilterTree::Filter(f) => f.values.len() == 0,
            FilterTree::Or(x) => Self::all_empty(x),
            FilterTree::And(x) => Self::all_empty(x),
        }
    }

    fn all_empty(x: &Vec<FilterTree>) -> (r: bool)
        ensures
            r == all_empty_from(trees_view(x@, 0), 0),
        decreases x,
    {
        let ghost xs = trees_view(x@, 0);
        proof {
            lemma_trees_view(x@, 0);
            lemma_all_empty_from(xs, 0);
        }
        let mut i: usize = 0;
        while i < x.len()
            invariant
                i <= x.len(),
                xs == trees_view(x@, 0),
                xs.len() == x@.len(),
                forall|k: int| 0 <= k < x@.len() ==> #[trigger] xs[k] == tree_view(x@[k]),
                forall|k: int| 0 <= k < i ==> #[trigger] model_is_empty(xs[k]),
            decreases x.len() - i,
        {
            if !x[i].is_empty() {
                proof {
                    lemma_all_empty_from(xs, 0);
                }
                assert(!model_is_empty(xs[i as int]));
                return false;
            }
            i = i + 1;
        }
        true
    }

    /// Добавляет WHERE-условие дерева к строке запроса, начиная нумерацию привязок с `idx`.
    /// Возвращает номер следующей привязки.
    pub fn build_sql(&self, container: &mut String, idx: usize) -> (r: Result<usize, SharedDbError>)
        requires
            idx + tree_weight(self@) <= usize::MAX,
        ensures
            match tree_sql(self@, old(container)@, idx as nat) {
                Ok(p) => r is Ok && r->Ok_0 == p.1 && final(container)@ == p.0,
                Err(e) => r is Err && r->Err_0 is Other && r->Err_0.text() == e,
            },
        decreases self,
    {
        match self {
            FilterTree::Empty => Ok(idx),
            FilterTree::Filter(f) => f.add_to_string(container, idx),
            FilterTree::Or(x) => Self::build_list(x, container, " OR", idx),
            FilterTree::And(x) => Self::build_list(x, container, " AND", idx),
        }
    }

    fn build_list(x: &Vec<FilterTree>, container: &mut String, joiner: &str, idx: usize) -> (r: Result<usize, SharedDbError>)
        requires
            idx + list_weight(trees_view(x@, 0), 0) <= usize::MAX,
        ensures
            match list_sql(trees_view(x@, 0), 0, false, joiner@, old(container)@, idx as nat) {
                Ok(p) => r is Ok && r->Ok_0 == p.1 && final(container)@ == p.0,
                Err(e) => r is Err && r->Err_0 is Other && r->Err_0.text() == e,
            },
        decreases x,
    {
        let ghost xs = trees_view(x@, 0);
        let ghost goal = list_sql(xs, 0, false, joiner@, container@, idx as nat);
        proof {
            lemma_trees_view(x@, 0);
        }
        let mut i: usize = 0;
        let mut cur: usize = idx;
        let mut started = false;
        while i < x.len()
            invariant
                i <= x.len(),
                xs == trees_view(x@, 0),
                xs.len() == x@.len(),
                forall|k: int| 0 <= k < x@.len() ==> #[trigger] xs[k] == tree_view(x@[k]),
                goal == list_sql(xs, i as int, started, joiner@, container@, cur as nat),
                goal == list_sql(xs, 0, false, joiner@, old(container)@, idx as nat),
                cur + list_weight(xs, i as int) <= usize::MAX,
            decreases x.len() - i,
        {
            assert(x@[i as int]@ == xs[i as int]);
            if x[i].is_empty() {
                i = i + 1;
            } else {
                let ghost cb = container@;
                if started {
                    container.append(joiner);
                } else {
                    container.append(" (");
                }
                let ghost c1 = container@;
                assert(c1 == cb + if started { joiner@ } else { " ("@ });
                proof {
                    lemma_tree_sql_bound(xs[i as int], c1, cur as nat);
                }
                match x[i].build_sql(container, cur) {
                    Ok(n) => {
                        cur = n;
                    },
                    Err(e) => {
                        assert(tree_sql(xs[i as int], c1, cur as nat) is Err);
                        assert(goal == tree_sql(xs[i as int], c1, cur as nat));
                        return Err(e);
                    },
                }
                started = true;
                i = i + 1;
            }
        }
        if started {
            container.append(")");
        }
        Ok(cur)
    }
}


// ---------------------------------------------------------------------------
// Конструкторы фильтров и деревьев.
// ---------------------------------------------------------------------------

/// Узлы-фильтры для списка фильтров.
pub open spec fn filter_nodes(fs: Seq<FilterModel>) -> Seq<TreeModel> {
    Seq::new(fs.len(), |i: int| TreeModel::Filter(fs[i]))
}

impl Filter {
    /// Фильтр с одним значением.
    pub fn with_value(field: &str, kind: SelectionKind, value: Value) -> (r: Filter)
        ensures
            r@ == (FilterModel { field: field@, kind, values: seq![value@] }),
    {
        let mut values: Vec<Value> = Vec::new();
        values.push(value);
        let r = Filter { field: String::from_str(field), kind, values };
        assert(r@.values =~= seq![value@]);
        r
    }

    /// Фильтр со списком значений.
    pub fn with_values(field: &str, kind: SelectionKind, values: Vec<Value>) -> (r: Filter)
        ensures
            r@ == (FilterModel { field: field@, kind, values: values_view(values@) }),
    {
        Filter { field: String::from_str(field), kind, values }
    }

    /// `field = value`.
    pub fn eq(field: &str, value: Value) -> (r: Filter)
        ensures
            r@ == (FilterModel { field: field@, kind: SelectionKind::Equals, values: seq![value@] }),
    {
        Filter::with_value(field, SelectionKind::Equals, value)
    }

    /// `field != value`.
    pub fn not_eq(field: &str, value: Value) -> (r: Filter)
        ensures
            r@ == (FilterModel { field: field@, kind: SelectionKind::NotEquals, values: seq![value@] }),
    {
        Filter::with_value(field, SelectionKind::NotEquals, value)
    }

    /// `field = ANY(values)`.
    pub fn in_any(field: &str, values: Vec<Value>) -> (r: Filter)
        ensures
            r@ == (FilterModel { field: field@, kind: SelectionKind::In, values: values_view(values@) }),
    {
        Filter::with_values(field, SelectionKind::In, values)
    }

    /// `NOT (field = ANY(values))`.
    pub fn not_in_any(field: &str, values: Vec<Value>) -> (r: Filter)
        ensures
            r@ == (FilterModel { field: field@, kind: SelectionKind::NotIn, values: values_view(values@) }),
    {
        Filter::with_values(field, SelectionKind::NotIn, values)
    }

    /// `field BETWEEN from AND to` (границы включаются).
    pub fn between(field: &str, from: Value, to: Value) -> (r: Filter)
        ensures
            r@ == (FilterModel { field: field@, kind: SelectionKind::Between, values: seq![from@, to@] }),
    {
        let mut values: Vec<Value> = Vec::new();
        values.push(from);
        values.push(to);
        let r = Filter::with_values(field, SelectionKind::Between, values);
        assert(r@.values =~= seq![from@, to@]);
        r
    }

    /// `field !~ value` (для строк).
    pub fn not_contains(field: &str, value: Value) -> (r: Filter)
        ensures
            r@ == (FilterModel { field: field@, kind: SelectionKind::NotContains, values: seq![value@] }),
    {
        Filter::with_value(field, SelectionKind::NotContains, value)
    }

    /// `field <= value`.
    pub fn less_eq(field: &str, value: Value) -> (r: Filter)
        ensures
            r@ == (FilterModel { field: field@, kind: SelectionKind::LessEqual, values: seq![value@] }),
    {
        Filter::with_value(field, SelectionKind::LessEqual, value)
    }

    /// Дерево `self AND rhs`.
    pub fn bitand(self, rhs: Filter) -> (r: FilterTree)
        ensures
            r@ == TreeModel::And(seq![TreeModel::Filter(self@), TreeModel::Filter(rhs@)]),
    {
        let ghost a = self@;
        let ghost b = rhs@;
        let v = vec![self, rhs];
        let ghost fs = v@.map_values(|f: Filter| f@);
        assert(fs =~= seq![a, b]);
        assert(filter_nodes(fs) =~= seq![TreeModel::Filter(a), TreeModel::Filter(b)]);
        FilterTree::and_from_list(v)
    }

    /// Дерево `self OR rhs`.
    pub fn bitor(self, rhs: Filter) -> (r: FilterTree)
        ensures
            r@ == TreeModel::Or(seq![TreeModel::Filter(self@), TreeModel::Filter(rhs@)]),
    {
        let ghost a = self@;
        let ghost b = rhs@;
        let v = vec![self, rhs];
        let ghost fs = v@.map_values(|f: Filter| f@);
        assert(fs =~= seq![a, b]);
        assert(filter_nodes(fs) =~= seq![TreeModel::Filter(a), TreeModel::Filter(b)]);
        FilterTree::or_from_list(v)
    }
}

/// Модели поддеревьев совпадают с моделями элементов вектора тогда, когда совпадают поэлементно.
pub proof fn lemma_trees_view_ext(v: Seq<FilterTree>, m: Seq<TreeModel>)
    requires
        v.len() == m.len(),
        forall|k: int| 0 <= k < v.len() ==> #[trigger] tree_view(v[k]) == m[k],
    ensures
        trees_view(v, 0) == m,
{
    lemma_trees_view(v, 0);
    assert(trees_view(v, 0) =~= m);
}

impl FilterTree {
    /// Группа AND из двух деревьев.
    pub fn and(self, x: FilterTree) -> (r: FilterTree)
        ensures
            r@ == TreeModel::And(seq![self@, x@]),
    {
        let ghost a = self@;
        let ghost b = x@;
        let v = vec![self, x];
        proof {
            lemma_trees_view_ext(v@, seq![a, b]);
        }
        FilterTree::And(v)
    }

    /// Группа OR из двух деревьев.
    pub fn or(self, x: FilterTree) -> (r: FilterTree)
        ensures
            r@ == TreeModel::Or(seq![self@, x@]),
    {
        let ghost a = self@;
        let ghost b = x@;
        let v = vec![self, x];
        proof {
            lemma_trees_view_ext(v@, seq![a, b]);
        }
        FilterTree::Or(v)
    }

    /// Дерево из одного фильтра.
    pub fn filter(x: Filter) -> (r: FilterTree)
        ensures
            r@ == TreeModel::Filter(x@),
    {
        FilterTree::Filter(x)
    }

    fn nodes(x: Vec<Filter>) -> (r: Vec<FilterTree>)
        ensures
            trees_view(r@, 0) == filter_nodes(x@.map_values(|f: Filter| f@)),
    {
        let ghost fs = x@.map_values(|f: Filter| f@);
        let mut out: Vec<FilterTree> = Vec::new();
        let mut i: usize = 0;
        for f in it: x
            invariant
                fs == it.seq().map_values(|f: Filter| f@),
                out@.len() == it.index(),
                forall|k: int| 0 <= k < out@.len() ==> #[trigger] tree_view(out@[k]) == TreeModel::Filter(fs[k]),
        {
            out.push(FilterTree::Filter(f));
        }
        proof {
            lemma_trees_view_ext(out@, filter_nodes(fs));
        }
        out
    }

    /// Группа AND из фильтров.
    pub fn and_from_list(x: Vec<Filter>) -> (r: FilterTree)
        ensures
            r@ == TreeModel::And(filter_nodes(x@.map_values(|f: Filter| f@))),
    {
        FilterTree::And(Self::nodes(x))
    }

    /// Группа OR из фильтров.
    pub fn or_from_list(x: Vec<Filter>) -> (r: FilterTree)
        ensures
            r@ == TreeModel::Or(filter_nodes(x@.map_values(|f: Filter| f@))),
    {
        FilterTree::Or(Self::nodes(x))
    }
}


// ---------------------------------------------------------------------------
// Обход и правка деревьев.
// ---------------------------------------------------------------------------

/// Фильтры дерева в порядке обхода слева направо.
pub open spec fn tree_filters(t: TreeModel) -> Seq<FilterModel>
    decreases t, 0int,
{
    match t {
        TreeModel::Or(x) => list_filters(x, x.len() as int),
        TreeModel::And(x) => list_filters(x, x.len() as int),
        TreeModel::Filter(f) => seq![f],
        TreeModel::Empty => seq![],
    }
}

/// Фильтры первых `i` поддеревьев.
pub open spec fn list_filters(x: Seq<TreeModel>, i: int) -> Seq<FilterModel>
    decreases x, i,
{
    if i <= 0 || i > x.len() {
        seq![]
    } else {
        list_filters(x, i - 1) + tree_filters(x[i - 1])
    }
}

/// Дерево после добавления фильтра `f`: пустое становится фильтром, одиночный фильтр --
/// группой AND из двух, в группу фильтр дописывается последним.
pub open spec fn pushed_tree(t: TreeModel, f: FilterModel) -> TreeModel {
    match t {
        TreeModel::Empty => TreeModel::Filter(f),
        TreeModel::Filter(g) => TreeModel::And(seq![TreeModel::Filter(g), TreeModel::Filter(f)]),
        TreeModel::And(x) => TreeModel::And(x.push(TreeModel::Filter(f))),
        TreeModel::Or(x) => TreeModel::Or(x.push(TreeModel::Filter(f))),
    }
}

/// Дерево без фильтров по полю `field` и удалённые фильтры; опустевшие
/// поддеревья групп выбрасываются.
pub open spec fn removed_tree(t: TreeModel, field: Seq<char>) -> (TreeModel, Seq<FilterModel>)
    decreases t, 0int,
{
    match t {
        TreeModel::Filter(f) => if f.field == field {
            (TreeModel::Empty, seq![f])
        } else {
            (TreeModel::Filter(f), seq![])
        },
        TreeModel::Or(x) => {
            let p = removed_list(x, x.len() as int, field);
            (TreeModel::Or(p.0), p.1)
        },
        TreeModel::And(x) => {
            let p = removed_list(x, x.len() as int, field);
            (TreeModel::And(p.0), p.1)
        },
        TreeModel::Empty => (TreeModel::Empty, seq![]),
    }
}

/// То же для первых `i` поддеревьев группы.
pub open spec fn removed_list(x: Seq<TreeModel>, i: int, field: Seq<char>) -> (Seq<TreeModel>, Seq<FilterModel>)
    decreases x, i,
{
    if i <= 0 || i > x.len() {
        (seq![], seq![])
    } else {
        let p = removed_list(x, i - 1, field);
        let c = removed_tree(x[i - 1], field);
        (if model_is_empty(c.0) { p.0 } else { p.0.push(c.0) }, p.1 + c.1)
    }
}

/// Модели фильтров вектора.
pub open spec fn filters_view(v: Seq<Filter>) -> Seq<FilterModel> {
    v.map_values(|f: Filter| f@)
}

/// Модели фильтров вектора ссылок.
pub open spec fn filter_refs_view(v: Seq<&Filter>) -> Seq<FilterModel> {
    v.map_values(|f: &Filter| f@)
}

/// Модели поддеревьев после добавления в конец.
pub proof fn lemma_trees_view_push(v: Seq<FilterTree>, t: FilterTree)
    ensures
        trees_view(v.push(t), 0) == trees_view(v, 0).push(tree_view(t)),
{
    lemma_trees_view(v, 0);
    lemma_trees_view(v.push(t), 0);
    assert(trees_view(v.push(t), 0) =~= trees_view(v, 0).push(tree_view(t)));
}

impl FilterTree {
    /// Ссылки на фильтры дерева в порядке обхода.
    pub fn slice(&self) -> (r: Vec<&Filter>)
        ensures
            filter_refs_view(r@) == tree_filters(self@),
        decreases self,
    {
        match self {
            FilterTree::Or(x) => {
                proof {
                    lemma_trees_view(x@, 0);
                }
                Self::slice_list(x)
            },
            FilterTree::And(x) => {
                proof {
                    lemma_trees_view(x@, 0);
                }
                Self::slice_list(x)
            },
            FilterTree::Filter(f) => {
                let mut out: Vec<&Filter> = Vec::new();
                out.push(f);
                assert(filter_refs_view(out@) =~= seq![f@]);
                out
            },
            FilterTree::Empty => {
                let out: Vec<&Filter> = Vec::new();
                assert(filter_refs_view(out@) =~= seq![]);
                out
            },
        }
    }

    fn slice_list(x: &Vec<FilterTree>) -> (r: Vec<&Filter>)
        ensures
            filter_refs_view(r@) == list_filters(trees_view(x@, 0), x@.len() as int),
        decreases x,
    {
        let ghost xs = trees_view(x@, 0);
        proof {
            lemma_trees_view(x@, 0);
        }
        let mut out: Vec<&Filter> = Vec::new();
        let mut i: usize = 0;
        while i < x.len()
            invariant
                i <= x@.len(),
                xs == trees_view(x@, 0),
                xs.len() == x@.len(),
                forall|k: int| 0 <= k < x@.len() ==> #[trigger] xs[k] == tree_view(x@[k]),
                filter_refs_view(out@) == list_filters(xs, i as int),
            decreases x.len() - i,
        {
            let mut sub = x[i].slice();
            let ghost before = out@;
            out.append(&mut sub);
            assert(filter_refs_view(out@) =~= filter_refs_view(before) + tree_filters(xs[i as int]));
            i = i + 1;
        }
        out
    }

    /// Фильтры дерева в порядке обхода (дерево поглощается).
    pub fn into_filters(self) -> (r: Vec<Filter>)
        ensures
            filters_view(r@) == tree_filters(self@),
        decreases self,
    {
        match self {
            FilterTree::Or(x) => {
                proof {
                    lemma_trees_view(x@, 0);
                }
                Self::list_into_filters(x)
            },
            FilterTree::And(x) => {
                proof {
                    lemma_trees_view(x@, 0);
                }
                Self::list_into_filters(x)
            },
            FilterTree::Filter(f) => {
                let mut out: Vec<Filter> = Vec::new();
                let ghost m = f@;
                out.push(f);
                assert(filters_view(out@) =~= seq![m]);
                out
            },
            FilterTree::Empty => {
                let out: Vec<Filter> = Vec::new();
                assert(filters_view(out@) =~= seq![]);
                out
            },
        }
    }

    fn list_into_filters(x: Vec<FilterTree>) -> (r: Vec<Filter>)
        ensures
            filters_view(r@) == list_filters(trees_view(x@, 0), x@.len() as int),
        decreases x,
    {
        let ghost xs = trees_view(x@, 0);
        let ghost xv = x@;
        proof {
            lemma_trees_view(x@, 0);
        }
        let mut out: Vec<Filter> = Vec::new();
        for c in it: x
            invariant
                it.seq() == xv,
                xs.len() == xv.len(),
                forall|k: int| 0 <= k < xv.len() ==> #[trigger] xs[k] == tree_view(xv[k]),
                filters_view(out@) == list_filters(xs, it.index() as int),
        {
            let ghost before = out@;
            let ghost cm = c@;
            let mut sub = c.into_filters();
            out.append(&mut sub);
            assert(filters_view(out@) =~= filters_view(before) + tree_filters(cm));
        }
        out
    }

    /// Добавляет фильтр в дерево: пустое дерево становится фильтром, одиночный
    /// фильтр -- группой AND, в группу фильтр дописывается последним.
    pub fn push_filter(&mut self, filter: Filter)
        ensures
            final(self)@ == pushed_tree(old(self)@, filter@),
    {
        match self {
            FilterTree::Empty => {
                *self = FilterTree::Filter(filter);
            },
            FilterTree::Filter(f) => {
                let g = f.copy();
                *self = FilterTree::Filter(g).and(FilterTree::Filter(filter));
            },
            FilterTree::And(x) => {
                let t = FilterTree::Filter(filter);
                proof {
                    lemma_trees_view_push(x@, t);
                }
                x.push(t);
            },
            FilterTree::Or(x) => {
                let t = FilterTree::Filter(filter);
                proof {
                    lemma_trees_view_push(x@, t);
                }
                x.push(t);
            },
        }
    }
}


/// Дерево, из которого выброшены фильтры по полям не из `names`; опустевшие
/// поддеревья групп выбрасываются.
pub open spec fn purged_tree(t: TreeModel, names: Set<Seq<char>>) -> TreeModel
    decreases t, 0int,
{
    match t {
        TreeModel::Filter(f) => if names.contains(f.field) {
            TreeModel::Filter(f)
        } else {
            TreeModel::Empty
        },
        TreeModel::Or(x) => TreeModel::Or(purged_list(x, x.len() as int, names)),
        TreeModel::And(x) => TreeModel::And(purged_list(x, x.len() as int, names)),
        TreeModel::Empty => TreeModel::Empty,
    }
}

/// То же для первых `i` поддеревьев группы.
pub open spec fn purged_list(x: Seq<TreeModel>, i: int, names: Set<Seq<char>>) -> Seq<TreeModel>
    decreases x, i,
{
    if i <= 0 || i > x.len() {
        seq![]
    } else {
        let p = purged_list(x, i - 1, names);
        let c = purged_tree(x[i - 1], names);
        if model_is_empty(c) {
            p
        } else {
            p.push(c)
        }
    }
}

/// Разбиение дерева: фильтры по полям из `names` и остальные; форма групп сохраняется.
pub open spec fn split_tree(t: TreeModel, names: Set<Seq<char>>) -> (TreeModel, TreeModel)
    decreases t, 0int,
{
    match t {
        TreeModel::Empty => (TreeModel::Empty, TreeModel::Empty),
        TreeModel::Filter(f) => if names.contains(f.field) {
            (TreeModel::Filter(f), TreeModel::Empty)
        } else {
            (TreeModel::Empty, TreeModel::Filter(f))
        },
        TreeModel::Or(x) => {
            let p = split_list(x, x.len() as int, names);
            (TreeModel::Or(p.0), TreeModel::Or(p.1))
        },
        TreeModel::And(x) => {
            let p = split_list(x, x.len() as int, names);
            (TreeModel::And(p.0), TreeModel::And(p.1))
        },
    }
}

/// То же для первых `i` поддеревьев группы.
pub open spec fn split_list(x: Seq<TreeModel>, i: int, names: Set<Seq<char>>) -> (Seq<TreeModel>, Seq<TreeModel>)
    decreases x, i,
{
    if i <= 0 || i > x.len() {
        (seq![], seq![])
    } else {
        let p = split_list(x, i - 1, names);
        let c = split_tree(x[i - 1], names);
        (p.0.push(c.0), p.1.push(c.1))
    }
}

impl FilterTree {
    /// Удаляет все фильтры по полю `field` и возвращает их; опустевшие
    /// поддеревья групп выбрасываются.
    pub fn remove_by_field(&mut self, field: &str) -> (r: Vec<Filter>)
        ensures
            final(self)@ == removed_tree(old(self)@, field@).0,
            filters_view(r@) == removed_tree(old(self)@, field@).1,
        decreases *old(self),
    {
        match self {
            FilterTree::Filter(x) => {
                if crate::text::str_eq(x.field.as_str(), field) {
                    let c = x.copy();
                    *self = FilterTree::Empty;
                    let mut out: Vec<Filter> = Vec::new();
                    out.push(c);
                    assert(filters_view(out@) =~= seq![c@]);
                    out
                } else {
                    let out: Vec<Filter> = Vec::new();
                    assert(filters_view(out@) =~= seq![]);
                    out
                }
            },
            FilterTree::Or(x) => {
                proof {
                    lemma_trees_view(x@, 0);
                }
                Self::remove_in_list(x, field)
            },
            FilterTree::And(x) => {
                proof {
                    lemma_trees_view(x@, 0);
                }
                Self::remove_in_list(x, field)
            },
            FilterTree::Empty => {
                let out: Vec<Filter> = Vec::new();
                assert(filters_view(out@) =~= seq![]);
                out
            },
        }
    }

    fn remove_in_list(x: &mut Vec<FilterTree>, field: &str) -> (r: Vec<Filter>)
        ensures
            trees_view(final(x)@, 0) == removed_list(trees_view(old(x)@, 0), old(x)@.len() as int, field@).0,
            filters_view(r@) == removed_list(trees_view(old(x)@, 0), old(x)@.len() as int, field@).1,
        decreases *old(x),
    {
        let ghost ox = x@;
        let ghost xs = trees_view(ox, 0);
        proof {
            lemma_trees_view(ox, 0);
        }
        let mut kept: Vec<FilterTree> = Vec::new();
        let mut out: Vec<Filter> = Vec::new();
        let n = x.len();
        let mut i: usize = 0;
        while i < n
            invariant
                n == ox.len(),
                x@.len() == n,
                i <= n,
                ox == old(x)@,
                forall|k: int| i <= k < n ==> #[trigger] x@[k] == ox[k],
                xs == trees_view(ox, 0),
                xs.len() == n,
                forall|k: int| 0 <= k < n ==> #[trigger] xs[k] == tree_view(ox[k]),
                trees_view(kept@, 0) == removed_list(xs, i as int, field@).0,
                filters_view(out@) == removed_list(xs, i as int, field@).1,
            decreases n - i,
        {
            let mut child = FilterTree::Empty;
            std::mem::swap(&mut child, &mut x[i]);
            assert(child == ox[i as int]);
            let mut sub = child.remove_by_field(field);
            let ghost before = out@;
            out.append(&mut sub);
            assert(filters_view(out@) =~= removed_list(xs, i + 1, field@).1);
            if !child.is_empty() {
                proof {
                    lemma_trees_view_push(kept@, child);
                }
                kept.push(child);
            }
            i = i + 1;
        }
        *x = kept;
        out
    }

    /// Выбрасывает фильтры по полям, которых нет в `names`; опустевшие
    /// поддеревья групп выбрасываются.
    pub fn purge_by_fields(&mut self, names: &AHashSet<String>)
        ensures
            final(self)@ == purged_tree(old(self)@, field_set_contents(*names)),
        decreases *old(self),
    {
        match self {
            FilterTree::Filter(x) => {
                if !field_set_contains(names, x.field.as_str()) {
                    *self = FilterTree::Empty;
                }
            },
            FilterTree::Or(x) => {
                proof {
                    lemma_trees_view(x@, 0);
                }
                Self::purge_list(x, names);
            },
            FilterTree::And(x) => {
                proof {
                    lemma_trees_view(x@, 0);
                }
                Self::purge_list(x, names);
            },
            FilterTree::Empty => {},
        }
    }

    fn purge_list(x: &mut Vec<FilterTree>, names: &AHashSet<String>)
        ensures
            trees_view(final(x)@, 0) == purged_list(trees_view(old(x)@, 0), old(x)@.len() as int, field_set_contents(*names)),
        decreases *old(x),
    {
        let ghost ox = x@;
        let ghost xs = trees_view(ox, 0);
        let ghost set = field_set_contents(*names);
        proof {
            lemma_trees_view(ox, 0);
        }
        let mut kept: Vec<FilterTree> = Vec::new();
        let n = x.len();
        let mut i: usize = 0;
        while i < n
            invariant
                n == ox.len(),
                x@.len() == n,
                i <= n,
                ox == old(x)@,
                set == field_set_contents(*names),
                forall|k: int| i <= k < n ==> #[trigger] x@[k] == ox[k],
                xs == trees_view(ox, 0),
                xs.len() == n,
                forall|k: int| 0 <= k < n ==> #[trigger] xs[k] == tree_view(ox[k]),
                trees_view(kept@, 0) == purged_list(xs, i as int, set),
            decreases n - i,
        {
            let mut child = FilterTree::Empty;
            std::mem::swap(&mut child, &mut x[i]);
            assert(child == ox[i as int]);
            child.purge_by_fields(names);
            if !child.is_empty() {
                proof {
                    lemma_trees_view_push(kept@, child);
                }
                kept.push(child);
            }
            i = i + 1;
        }
        *x = kept;
    }

    /// Разбивает дерево на два: с фильтрами по полям из `names` и с остальными.
    pub fn split_by_fields(self, names: &AHashSet<String>) -> (r: (FilterTree, FilterTree))
        ensures
            (r.0@, r.1@) == split_tree(self@, field_set_contents(*names)),
        decreases self,
    {
        match self {
            FilterTree::Empty => (FilterTree::Empty, FilterTree::Empty),
            FilterTree::Filter(x) => {
                if field_set_contains(names, x.field.as_str()) {
                    (FilterTree::Filter(x), FilterTree::Empty)
                } else {
                    (FilterTree::Empty, FilterTree::Filter(x))
                }
            },
            FilterTree::Or(x) => {
                proof {
                    lemma_trees_view(x@, 0);
                }
                let (one, two) = Self::split_list(x, names);
                (FilterTree::Or(one), FilterTree::Or(two))
            },
            FilterTree::And(x) => {
                proof {
                    lemma_trees_view(x@, 0);
                }
                let (one, two) = Self::split_list(x, names);
                (FilterTree::And(one), FilterTree::And(two))
            },
        }
    }

    fn split_list(x: Vec<FilterTree>, names: &AHashSet<String>) -> (r: (Vec<FilterTree>, Vec<FilterTree>))
        ensures
            (trees_view(r.0@, 0), trees_view(r.1@, 0)) == split_list(trees_view(x@, 0), x@.len() as int, field_set_contents(*names)),
        decreases x,
    {
        let ghost xs = trees_view(x@, 0);
        let ghost xv = x@;
        let ghost set = field_set_contents(*names);
        proof {
            lemma_trees_view(x@, 0);
        }
        let mut one: Vec<FilterTree> = Vec::new();
        let mut two: Vec<FilterTree> = Vec::new();
        for c in it: x
            invariant
                it.seq() == xv,
                xs.len() == xv.len(),
                set == field_set_contents(*names),
                forall|k: int| 0 <= k < xv.len() ==> #[trigger] xs[k] == tree_view(xv[k]),
                trees_view(one@, 0) == split_list(xs, it.index() as int, set).0,
                trees_view(two@, 0) == split_list(xs, it.index() as int, set).1,
        {
            let (a, b) = c.split_by_fields(names);
            proof {
                lemma_trees_view_push(one@, a);
                lemma_trees_view_push(two@, b);
            }
            one.push(a);
            two.push(b);
        }
        (one, two)
    }
}


/// Фильтр после расширения: при том же виде условия значения дописываются,
/// иначе к нему через AND добавляется новый фильтр по тому же полю.
pub open spec fn expanded_filter(f: FilterModel, kind: SelectionKind, values: Seq<ValueModel>) -> TreeModel {
    if f.kind == kind {
        TreeModel::Filter(FilterModel { field: f.field, kind: f.kind, values: f.values + values })
    } else {
        TreeModel::And(
            seq![TreeModel::Filter(f), TreeModel::Filter(FilterModel { field: f.field, kind, values })],
        )
    }
}

/// Дерево, в котором расширен первый (при обходе слева направо) фильтр по полю
/// `field`; `None`, если такого фильтра нет.
pub open spec fn expanded_tree(t: TreeModel, field: Seq<char>, kind: SelectionKind, values: Seq<ValueModel>) -> Option<TreeModel>
    decreases t, 0int,
{
    match t {
        TreeModel::Filter(f) => if f.field == field {
            Some(expanded_filter(f, kind, values))
        } else {
            None
        },
        TreeModel::Or(x) => match expanded_list(x, 0, field, kind, values) {
            Some(y) => Some(TreeModel::Or(y)),
            None => None,
        },
        TreeModel::And(x) => match expanded_list(x, 0, field, kind, values) {
            Some(y) => Some(TreeModel::And(y)),
            None => None,
        },
        TreeModel::Empty => None,
    }
}

/// Группа, в которой расширен первый подходящий фильтр среди поддеревьев начиная с `i`-го.
pub open spec fn expanded_list(
    x: Seq<TreeModel>,
    i: int,
    field: Seq<char>,
    kind: SelectionKind,
    values: Seq<ValueModel>,
) -> Option<Seq<TreeModel>>
    decreases x, x.len() - i,
{
    if i < 0 || i >= x.len() {
        None
    } else {
        match expanded_tree(x[i], field, kind, values) {
            Some(c) => Some(x.update(i, c)),
            None => expanded_list(x, i + 1, field, kind, values),
        }
    }
}

/// В дереве есть фильтр по полю `field`.
pub open spec fn field_found(t: TreeModel, field: Seq<char>) -> bool
    decreases t, 0int,
{
    match t {
        TreeModel::Filter(f) => f.field == field,
        TreeModel::Or(x) => list_found(x, 0, field),
        TreeModel::And(x) => list_found(x, 0, field),
        TreeModel::Empty => false,
    }
}

/// Среди поддеревьев начиная с `i`-го есть фильтр по полю `field`.
pub open spec fn list_found(x: Seq<TreeModel>, i: int, field: Seq<char>) -> bool
    decreases x, x.len() - i,
{
    if i < 0 || i >= x.len() {
        false
    } else {
        field_found(x[i], field) || list_found(x, i + 1, field)
    }
}

/// Расширение удаётся ровно тогда, когда в дереве есть фильтр по полю.
pub proof fn lemma_expanded_found(t: TreeModel, field: Seq<char>, kind: SelectionKind, values: Seq<ValueModel>)
    ensures
        (expanded_tree(t, field, kind, values) is Some) == field_found(t, field),
    decreases t, 0int,
{
    match t {
        TreeModel::Or(x) => lemma_expanded_list_found(x, 0, field, kind, values),
        TreeModel::And(x) => lemma_expanded_list_found(x, 0, field, kind, values),
        _ => {},
    }
}

/// То же для поддеревьев группы начиная с `i`-го.
pub proof fn lemma_expanded_list_found(
    x: Seq<TreeModel>,
    i: int,
    field: Seq<char>,
    kind: SelectionKind,
    values: Seq<ValueModel>,
)
    ensures
        (expanded_list(x, i, field, kind, values) is Some) == list_found(x, i, field),
    decreases x, x.len() - i,
{
    if 0 <= i < x.len() {
        lemma_expanded_found(x[i], field, kind, values);
        lemma_expanded_list_found(x, i + 1, field, kind, values);
    }
}

/// Модели поддеревьев после замены одного из них.
pub proof fn lemma_trees_view_update(v: Seq<FilterTree>, i: int, t: FilterTree)
    requires
        0 <= i < v.len(),
    ensures
        trees_view(v.update(i, t), 0) == trees_view(v, 0).update(i, tree_view(t)),
{
    lemma_trees_view(v, 0);
    lemma_trees_view(v.update(i, t), 0);
    assert(trees_view(v.update(i, t), 0) =~= trees_view(v, 0).update(i, tree_view(t)));
}

impl FilterTree {
    /// Расширяет первый (при обходе слева направо) фильтр по полю `field`:
    /// при том же виде условия дописывает значения, иначе добавляет через AND
    /// новый фильтр. Возвращает, нашёлся ли такой фильтр.
    pub fn expand_filter(&mut self, field: &str, kind: SelectionKind, values: &Vec<Value>) -> (found: bool)
        ensures
            match expanded_tree(old(self)@, field@, kind, values_view(values@)) {
                Some(t) => found && final(self)@ == t,
                None => !found && *final(self) == *old(self),
            },
        decreases *old(self),
    {
        match self {
            FilterTree::Filter(f) => {
                if crate::text::str_eq(f.field.as_str(), field) {
                    if f.kind == kind {
                        let mut more = crate::value::copy_values(values);
                        let ghost before = f.values@;
                        f.values.append(&mut more);
                        assert(values_view(f.values@) =~= values_view(before) + values_view(values@));
                    } else {
                        let g = f.copy();
                        let extra = Filter::with_values(field, kind, crate::value::copy_values(values));
                        *self = FilterTree::Filter(g).and(FilterTree::Filter(extra));
                    }
                    true
                } else {
                    false
                }
            },
            FilterTree::Or(x) => {
                proof {
                    lemma_trees_view(x@, 0);
                }
                Self::expand_in_list(x, field, kind, values)
            },
            FilterTree::And(x) => {
                proof {
                    lemma_trees_view(x@, 0);
                }
                Self::expand_in_list(x, field, kind, values)
            },
            FilterTree::Empty => false,
        }
    }

    /// В дереве есть фильтр по полю `field`.
    pub fn finds_field(&self, field: &str) -> (r: bool)
        ensures
            r == field_found(self@, field@),
        decreases self,
    {
        match self {
            FilterTree::Filter(f) => crate::text::str_eq(f.field.as_str(), field),
            FilterTree::Or(x) => Self::list_finds(x, field),
            FilterTree::And(x) => Self::list_finds(x, field),
            FilterTree::Empty => false,
        }
    }

    fn list_finds(x: &Vec<FilterTree>, field: &str) -> (r: bool)
        ensures
            r == list_found(trees_view(x@, 0), 0, field@),
        decreases x,
    {
        let ghost xs = trees_view(x@, 0);
        proof {
            lemma_trees_view(x@, 0);
        }
        let mut i: usize = 0;
        while i < x.len()
            invariant
                i <= x@.len(),
                xs == trees_view(x@, 0),
                xs.len() == x@.len(),
                forall|k: int| 0 <= k < x@.len() ==> #[trigger] xs[k] == tree_view(x@[k]),
                list_found(xs, 0, field@) == list_found(xs, i as int, field@),
            decreases x.len() - i,
        {
            if x[i].finds_field(field) {
                return true;
            }
            i = i + 1;
        }
        false
    }

    fn expand_in_list(x: &mut Vec<FilterTree>, field: &str, kind: SelectionKind, values: &Vec<Value>) -> (found: bool)
        ensures
            match expanded_list(trees_view(old(x)@, 0), 0, field@, kind, values_view(values@)) {
                Some(y) => found && trees_view(final(x)@, 0) == y,
                None => !found && *final(x) == *old(x),
            },
        decreases *old(x),
    {
        let ghost ox = x@;
        let ghost xs = trees_view(ox, 0);
        let ghost vs = values_view(values@);
        proof {
            lemma_trees_view(ox, 0);
        }
        let n = x.len();
        let mut i: usize = 0;
        while i < n
            invariant
                n == ox.len(),
                i <= n,
                ox == old(x)@,
                *x == *old(x),
                vs == values_view(values@),
                xs == trees_view(ox, 0),
                xs.len() == n,
                forall|k: int| 0 <= k < n ==> #[trigger] xs[k] == tree_view(ox[k]),
                expanded_list(xs, 0, field@, kind, vs) == expanded_list(xs, i as int, field@, kind, vs),
            decreases n - i,
        {
            proof {
                lemma_expanded_found(xs[i as int], field@, kind, vs);
            }
            if x[i].finds_field(field) {
                let mut child = FilterTree::Empty;
                std::mem::swap(&mut child, &mut x[i]);
                assert(child == ox[i as int]);
                let found = child.expand_filter(field, kind, values);
                let ghost cm = child;
                std::mem::swap(&mut child, &mut x[i]);
                proof {
                    lemma_trees_view_update(ox, i as int, cm);
                    assert(x@ =~= ox.update(i as int, cm));
                }
                return found;
            }
            i = i + 1;
        }
        false
    }
}


// ---------------------------------------------------------------------------
// Абстрактные фильтры и их перевод в jsonpath.
// ---------------------------------------------------------------------------

/// Фильтр: вид условия и значения. Реализуется пользователями библиотеки
/// для своих представлений фильтров.
pub trait FilterTrait {
    /// Тип значений фильтра.
    type ValueType;

    /// Вид условия.
    fn kind(&self) -> SelectionKind;

    /// Значения фильтра.
    fn values(&self) -> &[Self::ValueType];
}

impl FilterTrait for Filter {
    type ValueType = Value;

    fn kind(&self) -> (r: SelectionKind)
        ensures
            r == self.kind,
    {
        self.kind
    }

    fn values(&self) -> (r: &[Value])
        ensures
            r@ == self.values@,
    {
        self.values.as_slice()
    }
}

/// Оператор сравнения jsonpath для вида условия.
pub open spec fn jsonpath_op_str(k: SelectionKind) -> Seq<char> {
    match k {
        SelectionKind::Equals => "=="@,
        SelectionKind::NotEquals => "!="@,
        SelectionKind::Less => "<"@,
        SelectionKind::LessEqual => "<="@,
        SelectionKind::Greater => ">"@,
        SelectionKind::GreaterEqual => ">="@,
        _ => ""@,
    }
}

/// Оператор сравнения jsonpath для вида условия.
pub fn jsonpath_op(selection_kind: SelectionKind) -> (r: &'static str)
    ensures
        r@ == jsonpath_op_str(selection_kind),
{
    match selection_kind {
        SelectionKind::Equals => "==",
        SelectionKind::NotEquals => "!=",
        SelectionKind::Less => "<",
        SelectionKind::LessEqual => "<=",
        SelectionKind::Greater => ">",
        SelectionKind::GreaterEqual => ">=",
        _ => "",
    }
}

/// Сравнение `@.json_field op value` для каждого значения.
pub open spec fn jsonpath_terms<V: DisplayText>(json_field: Seq<char>, op: Seq<char>, vs: Seq<V>) -> Seq<Seq<char>> {
    vs.map_values(|v: V| "@."@ + json_field + " "@ + op + " "@ + v.display_spec())
}

/// Условие jsonpath для поля `json_field` по виду условия и значениям; либо текст ошибки.
pub open spec fn jsonpath_expr<V: DisplayText>(json_field: Seq<char>, k: SelectionKind, vs: Seq<V>) -> Result<Seq<char>, Seq<char>> {
    match k {
        SelectionKind::Equals | SelectionKind::NotEquals | SelectionKind::Less | SelectionKind::LessEqual
        | SelectionKind::Greater | SelectionKind::GreaterEqual => if vs.len() == 1 {
            Ok("@."@ + json_field + " "@ + jsonpath_op_str(k) + " "@ + vs[0].display_spec())
        } else {
            Err("ожидается ровно одно значение"@)
        },
        SelectionKind::Between => if vs.len() == 2 {
            Ok(vs[0].display_spec() + " <= @."@ + json_field + " && @."@ + json_field + " <= "@ + vs[1].display_spec())
        } else {
            Err("ожидается ровно два значения"@)
        },
        SelectionKind::In => Ok(seq_join(jsonpath_terms(json_field, "=="@, vs), " || "@)),
        SelectionKind::NotIn => Ok(seq_join(jsonpath_terms(json_field, "!="@, vs), " && "@)),
        _ => Err("неверный тип фильтра для поля `"@ + json_field + "`"@),
    }
}

/// Перевод фильтра по полю `json_field` в фильтр jsonpath по колонке `db_field`
/// (результат или текст ошибки): значение фильтра -- `jsonpath ? (условие)`.
pub open spec fn jsonpath_filter_ok<V: DisplayText>(
    r: FilterModel,
    db_field: Seq<char>,
    jsonpath: Seq<char>,
    json_field: Seq<char>,
    k: SelectionKind,
    vs: Seq<V>,
) -> bool {
    match jsonpath_expr(json_field, k, vs) {
        Ok(e) => r.field == db_field && r.kind == SelectionKind::Jsonpath && r.values.len() == 1
            && text_value(jsonpath + " ? ("@ + e + ")"@, r.values[0]),
        Err(_) => false,
    }
}

/// Исход перевода фильтра `k`, `vs` в фильтр jsonpath: либо фильтр, отвечающий
/// [`jsonpath_filter_ok`], либо ошибка `Other` с текстом ошибки [`jsonpath_expr`].
pub open spec fn jsonpath_filter_outcome<V: DisplayText>(
    r: Result<Filter, SharedDbError>,
    db_field: Seq<char>,
    jsonpath: Seq<char>,
    json_field: Seq<char>,
    k: SelectionKind,
    vs: Seq<V>,
) -> bool {
    match jsonpath_expr(json_field, k, vs) {
        Ok(_) => r is Ok && jsonpath_filter_ok(r->Ok_0@, db_field, jsonpath, json_field, k, vs),
        Err(e) => r is Err && r->Err_0 is Other && r->Err_0.text() == e,
    }
}

/// Вид условия `kind` и значения `values` -- ответы методов `kind` и `values`
/// фильтра `f` (реализация типажа [`FilterTrait`] у пользователя библиотеки).
pub open spec fn filter_answers<F: FilterTrait>(f: &F, kind: SelectionKind, values: &[F::ValueType]) -> bool {
    call_ensures(F::kind, (f,), kind) && call_ensures(F::values, (f,), values)
}

/// Исход `r` -- перевод в фильтр jsonpath вида условия и значений, которые
/// вернули методы фильтра `f`.
pub open spec fn jsonpath_conversion_of<F: FilterTrait>(
    r: Result<Filter, SharedDbError>,
    db_field: Seq<char>,
    jsonpath: Seq<char>,
    json_field: Seq<char>,
    f: &F,
) -> bool where F::ValueType: DisplayText {
    exists|kind: SelectionKind, values: &[F::ValueType]| #[trigger] filter_answers(f, kind, values)
        && jsonpath_filter_outcome(r, db_field, jsonpath, json_field, kind, values@)
}

fn join_terms<V: DisplayText>(json_field: &str, op: &str, values: &[V], sep: &str) -> (r: String)
    ensures
        r@ == seq_join(jsonpath_terms(json_field@, op@, values@), sep@),
{
    let mut parts: Vec<String> = Vec::new();
    let mut i: usize = 0;
    while i < values.len()
        invariant
            i <= values@.len(),
            strings_view(parts@) == jsonpath_terms(json_field@, op@, values@.take(i as int)),
        decreases values.len() - i,
    {
        let mut t = String::from_str("@.");
        t.append(json_field);
        t.append(" ");
        t.append(op);
        t.append(" ");
        let d = values[i].display_string();
        t.append(d.as_str());
        let ghost before = parts@;
        parts.push(t);
        proof {
            let tk = values@.take(i + 1);
            assert(tk =~= values@.take(i as int).push(values@[i as int]));
            assert(jsonpath_terms(json_field@, op@, tk) =~= jsonpath_terms(json_field@, op@, values@.take(i as int)).push(
                "@."@ + json_field@ + " "@ + op@ + " "@ + values@[i as int].display_spec(),
            ));
            assert(strings_view(parts@) =~= strings_view(before).push(t@));
        }
        i = i + 1;
    }
    assert(values@.take(values@.len() as int) =~= values@);
    join_strings(&parts, sep)
}

/// Переводит фильтр по полю `json_field` JSON-структуры, лежащей в колонке
/// `db_field` по пути `jsonpath`, в фильтр jsonpath по этой колонке.
///
/// Например, фильтр `Equals [10]` для поля `department_id` по пути
/// `$.assign_departments` даёт фильтр `Jsonpath` со значением
/// `$.assign_departments ? (@.department_id == 10)`.
pub fn jsonpath_filter_of<V: DisplayText>(db_field: &str, jsonpath: &str, json_field: &str, kind: SelectionKind, values: &[V]) -> (r: Result<Filter, SharedDbError>)
    ensures
        jsonpath_filter_outcome(r, db_field@, jsonpath@, json_field@, kind, values@),
{
    let expr = match kind {
        SelectionKind::Equals | SelectionKind::NotEquals | SelectionKind::Less | SelectionKind::LessEqual
        | SelectionKind::Greater | SelectionKind::GreaterEqual => {
            match single_value(values) {
                Ok(v) => {
                    let mut e = String::from_str("@.");
                    e.append(json_field);
                    e.append(" ");
                    e.append(jsonpath_op(kind));
                    e.append(" ");
                    let d = v.display_string();
                    e.append(d.as_str());
                    e
                },
                Err(m) => {
                    return Err(SharedDbError::Other(String::from_str(m)));
                },
            }
        },
        SelectionKind::Between => {
            match two_values(values) {
                Ok((low, high)) => {
                    let mut e = low.display_string();
                    e.append(" <= @.");
                    e.append(json_field);
                    e.append(" && @.");
                    e.append(json_field);
                    e.append(" <= ");
                    let h = high.display_string();
                    e.append(h.as_str());
                    e
                },
                Err(m) => {
                    return Err(SharedDbError::Other(String::from_str(m)));
                },
            }
        },
        SelectionKind::In => join_terms(json_field, "==", values, " || "),
        SelectionKind::NotIn => join_terms(json_field, "!=", values, " && "),
        _ => {
            let mut m = String::from_str("неверный тип фильтра для поля `");
            m.append(json_field);
            m.append("`");
            return Err(SharedDbError::Other(m));
        },
    };
    let mut path = String::from_str(jsonpath);
    path.append(" ? (");
    path.append(expr.as_str());
    path.append(")");
    let v = Value::from_text(path.as_str());
    let mut vals: Vec<Value> = Vec::new();
    vals.push(v);
    Ok(Filter { field: String::from_str(db_field), kind: SelectionKind::Jsonpath, values: vals })
}

/// Переводит фильтр по полю `json_field` JSON-структуры, лежащей в колонке
/// `db_field` по пути `jsonpath`, в фильтр jsonpath по этой колонке; вид условия
/// и значения берутся у фильтра и переводятся [`jsonpath_filter_of`].
pub fn convert_to_jsonpath<F: FilterTrait>(db_field: &str, jsonpath: &str, json_field: &str, filter: &F) -> (r: Result<Filter, SharedDbError>)
    where
        F::ValueType: DisplayText,
    ensures
        r is Ok ==> r->Ok_0@.field == db_field@ && r->Ok_0@.kind == SelectionKind::Jsonpath && r->Ok_0@.values.len() == 1,
        jsonpath_conversion_of(r, db_field@, jsonpath@, json_field@, filter),
{
    let kind = filter.kind();
    let values = filter.values();
    let r = jsonpath_filter_of(db_field, jsonpath, json_field, kind, values);
    assert(filter_answers(filter, kind, values));
    r
}

/// Переводит все фильтры в фильтры jsonpath (см. [`convert_to_jsonpath`]);
/// первая ошибка прерывает перевод.
pub fn convert_jsonpath_filters<F: FilterTrait>(db_field: &str, jsonpath: &str, json_field: &str, filters: &[F]) -> (r: Result<Vec<Filter>, SharedDbError>)
    where
        F::ValueType: DisplayText,
    ensures
        filters@.len() == 0 ==> r is Ok && r->Ok_0@.len() == 0,
        r is Ok ==> r->Ok_0@.len() == filters@.len() && forall|i: int| 0 <= i < filters@.len()
            ==> (#[trigger] r->Ok_0@[i]@).field == db_field@ && r->Ok_0@[i]@.kind == SelectionKind::Jsonpath
            && r->Ok_0@[i]@.values.len() == 1,
        r is Ok ==> forall|i: int| 0 <= i < filters@.len() ==> jsonpath_conversion_of(
            Ok::<Filter, SharedDbError>(#[trigger] r->Ok_0@[i]), db_field@, jsonpath@, json_field@, &filters@[i]),
        r is Err ==> exists|i: int| 0 <= i < filters@.len() && jsonpath_conversion_of(
            Err::<Filter, SharedDbError>(r->Err_0), db_field@, jsonpath@, json_field@, &#[trigger] filters@[i]),
{
    let mut out: Vec<Filter> = Vec::new();
    let mut i: usize = 0;
    while i < filters.len()
        invariant
            i <= filters@.len(),
            out@.len() == i,
            forall|k: int| 0 <= k < i ==> (#[trigger] out@[k]@).field == db_field@ && out@[k]@.kind == SelectionKind::Jsonpath
                && out@[k]@.values.len() == 1,
            forall|k: int| 0 <= k < i ==> jsonpath_conversion_of(
                Ok::<Filter, SharedDbError>(#[trigger] out@[k]), db_field@, jsonpath@, json_field@, &filters@[k]),
        decreases filters.len() - i,
    {
        let res = convert_to_jsonpath(db_field, jsonpath, json_field, &filters[i]);
        match res {
            Ok(f) => {
                let ghost before = out@;
                out.push(f);
                proof {
                    assert(out@[i as int] == f);
                    assert forall|k: int| 0 <= k < i + 1 implies jsonpath_conversion_of(
                        Ok::<Filter, SharedDbError>(#[trigger] out@[k]), db_field@, jsonpath@, json_field@, &filters@[k]) by {
                        if k < i {
                            assert(out@[k] == before[k]);
                        }
                    }
                }
            },
            Err(e) => {
                proof {
                    assert(res == Err::<Filter, SharedDbError>(e));
                    assert(jsonpath_conversion_of(Err::<Filter, SharedDbError>(e), db_field@, jsonpath@, json_field@, &filters@[i as int]));
                }
                return Err(e);
            },
        }
        i = i + 1;
    }
    Ok(out)
}

/// Значение из фильтров по виду условия и значениям первого фильтра и числу
/// фильтров: ровно один фильтр `Equals` ровно с одним значением; иначе ошибка.
pub fn equal_value_of<V>(n_filters: usize, kind: SelectionKind, values: &[V]) -> (r: Result<&V, SharedDbError>)
    ensures
        n_filters == 1 && kind == SelectionKind::Equals && values@.len() == 1 ==> r is Ok && *r->Ok_0 == values@[0],
        n_filters == 1 && kind == SelectionKind::Equals && values@.len() != 1
            ==> r is Err && r->Err_0 is Other && r->Err_0.text() == "ожидается ровно одно значение"@,
        !(n_filters == 1 && kind == SelectionKind::Equals)
            ==> r is Err && r->Err_0 is Other && r->Err_0.text() == "невозможно извлечь значениe из фильтра"@,
{
    if n_filters == 1 && kind == SelectionKind::Equals {
        match single_value(values) {
            Ok(v) => Ok(v),
            Err(m) => Err(SharedDbError::Other(String::from_str(m))),
        }
    } else {
        Err(SharedDbError::Other(String::from_str("невозможно извлечь значениe из фильтра")))
    }
}

/// Исход выбора значения единственного фильтра с видом условия `kind` и
/// значениями `values` (см. [`equal_value_of`]).
pub open spec fn single_equal_outcome<V>(r: Result<&V, SharedDbError>, kind: SelectionKind, values: Seq<V>) -> bool {
    if kind == SelectionKind::Equals && values.len() == 1 {
        r is Ok && *r->Ok_0 == values[0]
    } else if kind == SelectionKind::Equals {
        r is Err && r->Err_0 is Other && r->Err_0.text() == "ожидается ровно одно значение"@
    } else {
        r is Err && r->Err_0 is Other && r->Err_0.text() == "невозможно извлечь значениe из фильтра"@
    }
}

/// Значение единственного фильтра `Equals` с единственным значением; иначе ошибка
/// (решает [`equal_value_of`] по виду условия и значениям, которые вернул фильтр).
pub fn convert_filters_equal_to_value<F: FilterTrait>(filters: &[F]) -> (r: Result<&F::ValueType, SharedDbError>)
    ensures
        filters@.len() != 1 ==> r is Err && r->Err_0 is Other && r->Err_0.text() == "невозможно извлечь значениe из фильтра"@,
        filters@.len() == 1 ==> exists|kind: SelectionKind, values: &[F::ValueType]|
            #[trigger] filter_answers(&filters@[0], kind, values) && single_equal_outcome(r, kind, values@),
{
    if filters.len() != 1 {
        return Err(SharedDbError::Other(String::from_str("невозможно извлечь значениe из фильтра")));
    }
    let f = &filters[0];
    let kind = f.kind();
    let values = f.values();
    let r = equal_value_of(filters.len(), kind, values);
    assert(filter_answers(&filters@[0], kind, values));
    r
}


impl FilterTree {
    /// Копия дерева.
    pub fn copy(&self) -> (r: FilterTree)
        ensures
            r@ == self@,
        decreases self,
    {
        match self {
            FilterTree::Or(x) => FilterTree::Or(Self::copy_list(x)),
            FilterTree::And(x) => FilterTree::And(Self::copy_list(x)),
            FilterTree::Filter(f) => FilterTree::Filter(f.copy()),
            FilterTree::Empty => FilterTree::Empty,
        }
    }

    fn copy_list(x: &Vec<FilterTree>) -> (r: Vec<FilterTree>)
        ensures
            trees_view(r@, 0) == trees_view(x@, 0),
        decreases x,
    {
        let mut out: Vec<FilterTree> = Vec::new();
        let mut i: usize = 0;
        while i < x.len()
            invariant
                i <= x@.len(),
                out@.len() == i,
                forall|k: int| 0 <= k < i ==> #[trigger] tree_view(out@[k]) == tree_view(x@[k]),
            decreases x.len() - i,
        {
            let c = x[i].copy();
            out.push(c);
            i = i + 1;
        }
        proof {
            lemma_trees_view(x@, 0);
            lemma_trees_view_ext(out@, trees_view(x@, 0));
        }
        out
    }
}

/// Имя поля после переименования `front` в `back`.
pub open spec fn renamed(f: Seq<char>, front: Seq<char>, back: Seq<char>) -> Seq<char> {
    if f == front {
        back
    } else {
        f
    }
}

/// Дерево, в фильтрах которого поле `front` переименовано в `back`.
pub open spec fn renamed_tree(t: TreeModel, front: Seq<char>, back: Seq<char>) -> TreeModel
    decreases t, 0int,
{
    match t {
        TreeModel::Filter(f) => TreeModel::Filter(FilterModel { field: renamed(f.field, front, back), ..f }),
        TreeModel::Or(x) => TreeModel::Or(renamed_list(x, x.len() as int, front, back)),
        TreeModel::And(x) => TreeModel::And(renamed_list(x, x.len() as int, front, back)),
        TreeModel::Empty => TreeModel::Empty,
    }
}

/// То же для первых `i` поддеревьев группы.
pub open spec fn renamed_list(x: Seq<TreeModel>, i: int, front: Seq<char>, back: Seq<char>) -> Seq<TreeModel>
    decreases x, i,
{
    if i <= 0 || i > x.len() {
        seq![]
    } else {
        renamed_list(x, i - 1, front, back).push(renamed_tree(x[i - 1], front, back))
    }
}

impl FilterTree {
    /// Переименовывает поле `front` в `back` во всех фильтрах дерева.
    pub fn rename_field(&mut self, front: &str, back: &str)
        ensures
            final(self)@ == renamed_tree(old(self)@, front@, back@),
        decreases *old(self),
    {
        match self {
            FilterTree::Filter(x) => {
                if crate::text::str_eq(x.field.as_str(), front) {
                    x.field = String::from_str(back);
                }
            },
            FilterTree::Or(x) => {
                proof {
                    lemma_trees_view(x@, 0);
                }
                Self::rename_list(x, front, back);
            },
            FilterTree::And(x) => {
                proof {
                    lemma_trees_view(x@, 0);
                }
                Self::rename_list(x, front, back);
            },
            FilterTree::Empty => {},
        }
    }

    fn rename_list(x: &mut Vec<FilterTree>, front: &str, back: &str)
        ensures
            trees_view(final(x)@, 0) == renamed_list(trees_view(old(x)@, 0), old(x)@.len() as int, front@, back@),
        decreases *old(x),
    {
        let ghost ox = x@;
        let ghost xs = trees_view(ox, 0);
        proof {
            lemma_trees_view(ox, 0);
        }
        let mut out: Vec<FilterTree> = Vec::new();
        let n = x.len();
        let mut i: usize = 0;
        while i < n
            invariant
                n == ox.len(),
                x@.len() == n,
                i <= n,
                ox == old(x)@,
                forall|k: int| i <= k < n ==> #[trigger] x@[k] == ox[k],
                xs == trees_view(ox, 0),
                xs.len() == n,
                forall|k: int| 0 <= k < n ==> #[trigger] xs[k] == tree_view(ox[k]),
                trees_view(out@, 0) == renamed_list(xs, i as int, front@, back@),
            decreases n - i,
        {
            let mut child = FilterTree::Empty;
            std::mem::swap(&mut child, &mut x[i]);
            assert(child == ox[i as int]);
            child.rename_field(front, back);
            proof {
                lemma_trees_view_push(out@, child);
            }
            out.push(child);
            i = i + 1;
        }
        *x = out;
    }
}


/// Переименование поля не меняет оценку числа привязок дерева.
pub proof fn lemma_renamed_weight(t: TreeModel, front: Seq<char>, back: Seq<char>)
    ensures
        tree_weight(renamed_tree(t, front, back)) == tree_weight(t),
    decreases t, 0int,
{
    match t {
        TreeModel::Or(x) => {
            lemma_renamed_list_weight(x, x.len() as int, front, back);
            assert(x.take(x.len() as int) =~= x);
        },
        TreeModel::And(x) => {
            lemma_renamed_list_weight(x, x.len() as int, front, back);
            assert(x.take(x.len() as int) =~= x);
        },
        _ => {},
    }
}

/// Сумма оценок поддеревьев, начиная с `i`-го, через сумму первых `i`.
pub proof fn lemma_list_weight_split(x: Seq<TreeModel>, i: int)
    requires
        0 <= i <= x.len(),
    ensures
        list_weight(x, 0) == list_weight(x.take(i), 0) + list_weight(x, i),
    decreases i,
{
    if i > 0 {
        lemma_list_weight_split(x, i - 1);
        lemma_list_weight_last(x.take(i));
        assert(x.take(i).drop_last() =~= x.take(i - 1));
        assert(list_weight(x, i - 1) == tree_weight(x[i - 1]) + list_weight(x, i));
    }
}

/// Сумма оценок: последнее поддерево отдельно.
pub proof fn lemma_list_weight_last(x: Seq<TreeModel>)
    requires
        x.len() > 0,
    ensures
        list_weight(x, 0) == list_weight(x.drop_last(), 0) + tree_weight(x.last()),
    decreases x.len(),
{
    lemma_list_weight_suffix(x, 0);
}

/// Сумма оценок с `i`-го как сумма по подпоследовательности.
proof fn lemma_list_weight_suffix(x: Seq<TreeModel>, i: int)
    requires
        0 <= i < x.len(),
    ensures
        list_weight(x, i) == list_weight(x.drop_last(), i) + tree_weight(x.last()),
    decreases x.len() - i,
{
    assert(x.drop_last().len() == x.len() - 1);
    if i + 1 < x.len() {
        lemma_list_weight_suffix(x, i + 1);
        assert(x.drop_last()[i] == x[i]);
        assert(list_weight(x.drop_last(), i) == tree_weight(x[i]) + list_weight(x.drop_last(), i + 1));
    } else {
        assert(list_weight(x, i + 1) == 0);
        assert(list_weight(x.drop_last(), i) == 0);
    }
}

/// Оценка переименованного списка равна оценке исходного (первые `i` поддеревьев).
pub proof fn lemma_renamed_list_weight(x: Seq<TreeModel>, i: int, front: Seq<char>, back: Seq<char>)
    requires
        0 <= i <= x.len(),
    ensures
        list_weight(renamed_list(x, i, front, back), 0) == list_weight(x.take(i), 0),
    decreases x, i,
{
    if i > 0 {
        lemma_renamed_list_weight(x, i - 1, front, back);
        lemma_renamed_weight(x[i - 1], front, back);
        let r = renamed_list(x, i, front, back);
        assert(r.drop_last() == renamed_list(x, i - 1, front, back));
        lemma_list_weight_last(r);
        lemma_list_weight_last(x.take(i));
        assert(x.take(i).drop_last() =~= x.take(i - 1));
    } else {
        assert(x.take(0) =~= seq![]);
    }
}


// ---------------------------------------------------------------------------
// Значения для привязки к плейсхолдерам WHERE-части.
// ---------------------------------------------------------------------------

/// Значение для привязки: одно значение или однотипный массив (`= ANY($n)`).
#[derive(Debug)]
pub enum BindValue {
    Value(Value),
    Array(AggrValue),
}

/// Модель значения для привязки.
pub enum BindModel {
    Value(ValueModel),
    Array(AggrModel),
}

impl View for BindValue {
    type V = BindModel;

    open spec fn view(&self) -> BindModel {
        match self {
            BindValue::Value(v) => BindModel::Value(v@),
            BindValue::Array(a) => BindModel::Array(a@),
        }
    }
}

/// Модели значений для привязки.
pub open spec fn binds_view(v: Seq<BindValue>) -> Seq<BindModel> {
    v.map_values(|b: BindValue| b@)
}

/// Значения, отличные от `Null`, по порядку.
pub open spec fn non_null_values(vs: Seq<ValueModel>) -> Seq<ValueModel>
    decreases vs.len(),
{
    if vs.len() == 0 {
        seq![]
    } else {
        non_null_values(vs.drop_last()) + if vs.last() is Null { seq![] } else { seq![vs.last()] }
    }
}

/// Привязки фильтра: для `In`/`NotIn` -- один массив ненулевых значений (если он
/// собрался), для остальных -- каждое ненулевое значение.
pub open spec fn filter_binds(f: FilterModel) -> Seq<BindModel> {
    if non_null_count(f.values) == 0 {
        seq![]
    } else if kind_is_in_brackets(f.kind) {
        match aggr_of(f.values) {
            AggrModel::Null => seq![],
            a => seq![BindModel::Array(a)],
        }
    } else {
        non_null_values(f.values).map_values(|v: ValueModel| BindModel::Value(v))
    }
}

/// Привязки дерева в порядке обхода.
pub open spec fn tree_binds(t: TreeModel) -> Seq<BindModel>
    decreases t, 0int,
{
    match t {
        TreeModel::Filter(f) => filter_binds(f),
        TreeModel::Or(x) => list_binds(x, 0),
        TreeModel::And(x) => list_binds(x, 0),
        TreeModel::Empty => seq![],
    }
}

/// Привязки поддеревьев начиная с `i`-го.
pub open spec fn list_binds(x: Seq<TreeModel>, i: int) -> Seq<BindModel>
    decreases x, x.len() - i,
{
    if i < 0 || i >= x.len() {
        seq![]
    } else {
        tree_binds(x[i]) + list_binds(x, i + 1)
    }
}

/// Фильтр, у которого число плейсхолдеров совпадает с числом привязок: не
/// сравнение (кроме `=`/`!=`) и не jsonpath без значений, и не `In`/`NotIn`,
/// из ненулевых значений которого массив не собирается.
pub open spec fn filter_consistent(f: FilterModel) -> bool {
    &&& !(kind_is_simple(f.kind) && f.kind != SelectionKind::Equals && f.kind != SelectionKind::NotEquals && f.values.len() == 0)
    &&& !(f.kind == SelectionKind::Jsonpath && f.values.len() == 0)
    &&& !(kind_is_in_brackets(f.kind) && non_null_count(f.values) > 0 && aggr_of(f.values) is Null)
}

/// Все фильтры дерева согласованы.
pub open spec fn tree_consistent(t: TreeModel) -> bool
    decreases t, 0int,
{
    match t {
        TreeModel::Filter(f) => filter_consistent(f),
        TreeModel::Or(x) => list_consistent(x, 0),
        TreeModel::And(x) => list_consistent(x, 0),
        TreeModel::Empty => true,
    }
}

/// Все поддеревья начиная с `i`-го согласованы.
pub open spec fn list_consistent(x: Seq<TreeModel>, i: int) -> bool
    decreases x, x.len() - i,
{
    if i < 0 || i >= x.len() {
        true
    } else {
        tree_consistent(x[i]) && list_consistent(x, i + 1)
    }
}

/// Ненулевых значений столько, сколько их насчитано.
pub proof fn lemma_non_null_values_len(vs: Seq<ValueModel>)
    ensures
        non_null_values(vs).len() == non_null_count(vs),
        non_null_count(vs) <= vs.len(),
    decreases vs.len(),
{
    if vs.len() > 0 {
        lemma_non_null_values_len(vs.drop_last());
    }
}

/// Без ненулевых значений массив не собирается.
pub proof fn lemma_aggr_all_null(vs: Seq<ValueModel>)
    requires
        non_null_count(vs) == 0,
    ensures
        aggr_of(vs) is Null,
    decreases vs.len(),
{
    if vs.len() > 0 {
        lemma_aggr_all_null(vs.drop_last());
    }
}

/// У пустого поддерева нет привязок.
pub proof fn lemma_empty_binds(t: TreeModel)
    requires
        model_is_empty(t),
    ensures
        tree_binds(t).len() == 0,
    decreases t, 0int,
{
    match t {
        TreeModel::Or(x) => lemma_empty_list_binds(x, 0),
        TreeModel::And(x) => lemma_empty_list_binds(x, 0),
        _ => {},
    }
}

/// То же для пустых поддеревьев группы.
pub proof fn lemma_empty_list_binds(x: Seq<TreeModel>, i: int)
    requires
        all_empty_from(x, i),
    ensures
        list_binds(x, i).len() == 0,
    decreases x, x.len() - i,
{
    if 0 <= i < x.len() {
        lemma_empty_binds(x[i]);
        lemma_empty_list_binds(x, i + 1);
    }
}

/// У согласованного фильтра номер следующей привязки сдвигается на число его привязок.
pub proof fn lemma_filter_bind_count(f: FilterModel, c: Seq<char>, b: nat)
    requires
        filter_consistent(f),
    ensures
        filter_sql(f, c, b) matches Ok(p) ==> p.1 == b + filter_binds(f).len(),
{
    lemma_non_null_values_len(f.values);
    if non_null_count(f.values) == 0 {
        lemma_aggr_all_null(f.values);
    }
}

/// Закон нумерации: у согласованного дерева текст WHERE использует ровно столько
/// плейсхолдеров, сколько значений привязывается, и в том же порядке обхода.
pub proof fn lemma_tree_bind_count(t: TreeModel, c: Seq<char>, idx: nat)
    requires
        tree_consistent(t),
    ensures
        tree_sql(t, c, idx) matches Ok(p) ==> p.1 == idx + tree_binds(t).len(),
    decreases t, 0int,
{
    match t {
        TreeModel::Filter(f) => lemma_filter_bind_count(f, c, idx),
        TreeModel::Or(x) => lemma_list_bind_count(x, 0, false, " OR"@, c, idx),
        TreeModel::And(x) => lemma_list_bind_count(x, 0, false, " AND"@, c, idx),
        TreeModel::Empty => {},
    }
}

/// То же для продолжения группы с `i`-го поддерева.
pub proof fn lemma_list_bind_count(x: Seq<TreeModel>, i: int, started: bool, joiner: Seq<char>, c: Seq<char>, idx: nat)
    requires
        list_consistent(x, i),
    ensures
        list_sql(x, i, started, joiner, c, idx) matches Ok(p) ==> p.1 == idx + list_binds(x, i).len(),
    decreases x, x.len() - i,
{
    if 0 <= i < x.len() {
        if model_is_empty(x[i]) {
            lemma_empty_binds(x[i]);
            lemma_list_bind_count(x, i + 1, started, joiner, c, idx);
        } else {
            let c1 = c + if started { joiner } else { " ("@ };
            lemma_tree_bind_count(x[i], c1, idx);
            match tree_sql(x[i], c1, idx) {
                Ok(p) => lemma_list_bind_count(x, i + 1, true, joiner, p.0, p.1),
                Err(_) => {},
            }
        }
    }
}

impl Filter {
    /// Значения фильтра для привязки, по порядку.
    pub fn bind_values(&self) -> (r: Vec<BindValue>)
        ensures
            binds_view(r@) == filter_binds(self@),
    {
        let mut out: Vec<BindValue> = Vec::new();
        let nn = count_non_null(&self.values);
        if nn == 0 {
            assert(binds_view(out@) =~= seq![]);
            return out;
        }
        if self.kind.is_in_brackets() {
            let a = AggrValue::build(self.values.as_slice());
            match a {
                AggrValue::Null => {},
                _ => {
                    out.push(BindValue::Array(a));
                },
            }
            assert(binds_view(out@) =~= filter_binds(self@));
            return out;
        }
        let ghost vs = values_view(self.values@);
        let mut i: usize = 0;
        while i < self.values.len()
            invariant
                i <= self.values@.len(),
                vs == values_view(self.values@),
                binds_view(out@) == non_null_values(vs.take(i as int)).map_values(|v: ValueModel| BindModel::Value(v)),
            decreases self.values.len() - i,
        {
            let ghost before = out@;
            proof {
                assert(vs.take(i + 1).drop_last() =~= vs.take(i as int));
            }
            if !self.values[i].is_null() {
                out.push(BindValue::Value(self.values[i].copy()));
                assert(binds_view(out@) =~= binds_view(before).push(BindModel::Value(vs[i as int])));
            }
            assert(binds_view(out@) =~= non_null_values(vs.take(i + 1)).map_values(|v: ValueModel| BindModel::Value(v)));
            i = i + 1;
        }
        assert(vs.take(self.values@.len() as int) =~= vs);
        out
    }
}

impl FilterTree {
    /// Значения дерева для привязки, в порядке обхода (тот же порядок, что у
    /// плейсхолдеров WHERE-части).
    pub fn bind_values(&self) -> (r: Vec<BindValue>)
        ensures
            binds_view(r@) == tree_binds(self@),
        decreases self,
    {
        match self {
            FilterTree::Filter(f) => f.bind_values(),
            FilterTree::Or(x) => Self::list_bind_values(x),
            FilterTree::And(x) => Self::list_bind_values(x),
            FilterTree::Empty => {
                let out: Vec<BindValue> = Vec::new();
                assert(binds_view(out@) =~= seq![]);
                out
            },
        }
    }

    fn list_bind_values(x: &Vec<FilterTree>) -> (r: Vec<BindValue>)
        ensures
            binds_view(r@) == list_binds(trees_view(x@, 0), 0),
        decreases x,
    {
        let ghost xs = trees_view(x@, 0);
        proof {
            lemma_trees_view(x@, 0);
        }
        let mut out: Vec<BindValue> = Vec::new();
        let mut i: usize = 0;
        while i < x.len()
            invariant
                i <= x@.len(),
                xs == trees_view(x@, 0),
                xs.len() == x@.len(),
                forall|k: int| 0 <= k < x@.len() ==> #[trigger] xs[k] == tree_view(x@[k]),
                list_binds(xs, 0) == binds_view(out@) + list_binds(xs, i as int),
            decreases x.len() - i,
        {
            let mut sub = x[i].bind_values();
            let ghost before = out@;
            let ghost sb = sub@;
            out.append(&mut sub);
            assert(binds_view(out@) =~= binds_view(before) + binds_view(sb));
            assert(list_binds(xs, i as int) == tree_binds(xs[i as int]) + list_binds(xs, i + 1));
            i = i + 1;
        }
        assert(binds_view(out@) =~= binds_view(out@) + list_binds(xs, x@.len() as int));
        out
    }
}


/// Значение фильтра `v` вида `kind` подходит числу `value`: для `Equals` -- то
/// же число или его десятичная запись, для `Contains` -- запись числа содержит
/// запись значения.
pub open spec fn number_matches_value(kind: SelectionKind, v: ValueModel, value: int) -> bool {
    match kind {
        SelectionKind::Equals => match v {
            ValueModel::Int(x) => x == value,
            ValueModel::String(s) => s == int_text(value),
            _ => false,
        },
        SelectionKind::Contains => match v {
            ValueModel::Int(x) => has_substring(int_text(value), int_text(x as int)),
            ValueModel::String(s) => has_substring(int_text(value), s),
            _ => false,
        },
        _ => false,
    }
}

/// День (юлианский), который несёт значение-дата или метка времени.
pub open spec fn value_day(v: ValueModel) -> Option<int> {
    match v {
        ValueModel::Timestamp(ts) => Some(ts.day()),
        ValueModel::Date(d) => Some(d@),
        _ => None,
    }
}

/// Фильтр подходит дню `day`: для `Equals` -- одно из значений того же дня,
/// для `Between` -- ровно два значения-даты, и день лежит между ними включительно.
pub open spec fn date_matches(f: FilterModel, day: int) -> bool {
    match f.kind {
        SelectionKind::Equals => exists|i: int| 0 <= i < f.values.len() && #[trigger] value_day(f.values[i]) == Some(day),
        SelectionKind::Between => f.values.len() == 2 && value_day(f.values[0]) is Some && value_day(f.values[1]) is Some
            && value_day(f.values[0])->0 <= day <= value_day(f.values[1])->0,
        _ => false,
    }
}

/// День значения, если это дата или метка времени.
fn day_of_value(v: &Value) -> (r: Option<AsezDate>)
    ensures
        match r {
            Some(d) => value_day(v@) == Some(d@),
            None => value_day(v@) is None,
        },
{
    match v {
        Value::Timestamp(ts) => Some(ts.date()),
        Value::Date(d) => Some(d.to_timestamp().date()),
        _ => None,
    }
}

impl Filter {
    /// Фильтр подходит числу `value` (только `Equals` и `Contains`).
    pub fn matches_number(&self, value: i64) -> (r: bool)
        ensures
            r == exists|i: int| 0 <= i < self.values@.len()
                && #[trigger] number_matches_value(self.kind, self.values@[i]@, value as int),
    {
        if !(self.kind == SelectionKind::Equals || self.kind == SelectionKind::Contains) {
            assert(forall|i: int| 0 <= i < self.values@.len()
                ==> !#[trigger] number_matches_value(self.kind, self.values@[i]@, value as int));
            return false;
        }
        let text = i64_text(value);
        let mut i: usize = 0;
        while i < self.values.len()
            invariant
                i <= self.values@.len(),
                text@ == int_text(value as int),
                self.kind == SelectionKind::Equals || self.kind == SelectionKind::Contains,
                forall|k: int| 0 <= k < i ==> !#[trigger] number_matches_value(self.kind, self.values@[k]@, value as int),
            decreases self.values.len() - i,
        {
            let hit = match &self.values[i] {
                Value::Int(x) => {
                    if self.kind == SelectionKind::Equals {
                        *x == value
                    } else {
                        let xt = i64_text(*x);
                        str_contains(text.as_str(), xt.as_str())
                    }
                },
                Value::String(s) => {
                    if self.kind == SelectionKind::Equals {
                        str_eq(s.as_str(), text.as_str())
                    } else {
                        str_contains(text.as_str(), s.as_str())
                    }
                },
                _ => false,
            };
            if hit {
                assert(number_matches_value(self.kind, self.values@[i as int]@, value as int));
                return true;
            }
            i = i + 1;
        }
        false
    }

    /// Фильтр подходит дню метки времени `date` (только `Equals` и `Between`).
    pub fn matches_date(&self, date: &AsezTimestamp) -> (r: bool)
        ensures
            r == date_matches(self@, date.day()),
    {
        let day = date.date();
        match self.kind {
            SelectionKind::Equals => {
                let mut i: usize = 0;
                while i < self.values.len()
                    invariant
                        i <= self.values@.len(),
                        day@ == date.day(),
                        self.kind == SelectionKind::Equals,
                        forall|k: int| 0 <= k < i ==> #[trigger] value_day(self.values@[k]@) != Some(date.day()),
                    decreases self.values.len() - i,
                {
                    match day_of_value(&self.values[i]) {
                        Some(d) => {
                            if d.julian_day() == day.julian_day() {
                                assert(self@.values.len() == self.values@.len());
                                assert(value_day(self@.values[i as int]) == Some(date.day()));
                                return true;
                            }
                        },
                        None => {},
                    }
                    i = i + 1;
                }
                assert(forall|k: int| 0 <= k < self@.values.len() ==> #[trigger] value_day(self@.values[k]) != Some(date.day()));
                false
            },
            SelectionKind::Between => {
                if self.values.len() != 2 {
                    return false;
                }
                let start = match day_of_value(&self.values[0]) {
                    Some(d) => d,
                    None => { return false; },
                };
                let end = match day_of_value(&self.values[1]) {
                    Some(d) => d,
                    None => { return false; },
                };
                start.julian_day() <= day.julian_day() && day.julian_day() <= end.julian_day()
            },
            _ => false,
        }
    }
}

} // verus!
