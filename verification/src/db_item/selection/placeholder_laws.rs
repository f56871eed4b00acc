//! Порядок привязок в тексте условий: `$b, $b+1, ...` по одному разу, по порядку.
use crate::db_item::selection::filters::{
    filter_sql, kind_is_in_brackets, kind_is_simple, kind_str, list_sql, model_is_empty, non_null_count, null_filter,
    placeholder, tree_sql, FilterModel, SelectionKind, TreeModel,
};
use vstd::prelude::*;

verus! {

/// В тексте нет знака `$`.
pub open spec fn no_dollar(s: Seq<char>) -> bool {
    forall|i: int| 0 <= i < s.len() ==> s[i] != '$'
}

/// Текст из кусков `pieces`, между которыми стоят привязки `$b`, `$b+1`, ...
pub open spec fn template_text(pieces: Seq<Seq<char>>, b: nat) -> Seq<char>
    decreases pieces.len(),
{
    if pieces.len() == 0 {
        seq![]
    } else if pieces.len() == 1 {
        pieces[0]
    } else {
        template_text(pieces.drop_last(), b) + placeholder((b + pieces.len() - 2) as nat) + pieces.last()
    }
}

/// Куски шаблона с `n` привязками: их `n + 1`, и в них нет `$`.
pub open spec fn template_pieces(pieces: Seq<Seq<char>>, n: nat) -> bool {
    &&& pieces.len() == n + 1
    &&& forall|i: int| 0 <= i < pieces.len() ==> no_dollar(#[trigger] pieces[i])
}

/// Текст `s` содержит ровно привязки `$b, $b+1, ..., $(b+n-1)`, каждую по
/// одному разу и по порядку, а всё остальное в нём -- без `$`.
pub open spec fn placeholders_in_order(s: Seq<char>, b: nat, n: nat) -> bool {
    exists|pieces: Seq<Seq<char>>| template_pieces(pieces, n) && #[trigger] template_text(pieces, b) == s
}

/// В именах полей фильтров дерева нет `$`.
pub open spec fn tree_fields_plain(t: TreeModel) -> bool
    decreases t, 0int,
{
    match t {
        TreeModel::Filter(f) => no_dollar(f.field),
        TreeModel::Or(x) => list_fields_plain(x, 0),
        TreeModel::And(x) => list_fields_plain(x, 0),
        TreeModel::Empty => true,
    }
}

/// В именах полей фильтров поддеревьев с `i`-го нет `$`.
pub open spec fn list_fields_plain(x: Seq<TreeModel>, i: int) -> bool
    decreases x, x.len() - i,
{
    if i < 0 || i >= x.len() {
        true
    } else {
        tree_fields_plain(x[i]) && list_fields_plain(x, i + 1)
    }
}

proof fn lemma_no_dollar_concat(a: Seq<char>, b: Seq<char>)
    requires
        no_dollar(a),
        no_dollar(b),
    ensures
        no_dollar(a + b),
{
    assert forall|i: int| 0 <= i < (a + b).len() implies (a + b)[i] != '$' by {
        if i < a.len() {
            assert((a + b)[i] == a[i]);
        } else {
            assert((a + b)[i] == b[i - a.len()]);
        }
    }
}

proof fn lemma_lits()
    ensures
        no_dollar(seq![]),
        no_dollar(" "@),
        no_dollar(" ("@),
        no_dollar(")"@),
        no_dollar("("@),
        no_dollar("=ANY("@),
        no_dollar(" OR "@),
        no_dollar(" OR"@),
        no_dollar(" AND"@),
        no_dollar(" AND "@),
        no_dollar(" IS NULL"@),
        no_dollar(" IS NOT NULL"@),
        no_dollar("IS NULL"@),
        no_dollar("IS NOT NULL"@),
        no_dollar("NOT ("@),
        no_dollar("::jsonpath"@),
        no_dollar("+ interval '23:59:59'"@),
        forall|k: SelectionKind| no_dollar(#[trigger] kind_str(k)),
{
    reveal_strlit(" ");
    reveal_strlit(" (");
    reveal_strlit(")");
    reveal_strlit("(");
    reveal_strlit("=ANY(");
    reveal_strlit(" OR ");
    reveal_strlit(" OR");
    reveal_strlit(" AND");
    reveal_strlit(" AND ");
    reveal_strlit(" IS NULL");
    reveal_strlit(" IS NOT NULL");
    reveal_strlit("IS NULL");
    reveal_strlit("IS NOT NULL");
    reveal_strlit("NOT (");
    reveal_strlit("::jsonpath");
    reveal_strlit("+ interval '23:59:59'");
    assert forall|k: SelectionKind| no_dollar(#[trigger] kind_str(k)) by {
        reveal_strlit("=");
        reveal_strlit("=ANY");
        reveal_strlit("!=");
        reveal_strlit("<");
        reveal_strlit("<=");
        reveal_strlit(">");
        reveal_strlit(">=");
        reveal_strlit("~");
        reveal_strlit("!~");
        reveal_strlit("BETWEEN");
        reveal_strlit("");
        reveal_strlit("@?");
        reveal_strlit("&&");
    }
}

proof fn lemma_null_filter_plain(k: SelectionKind, field: Seq<char>)
    requires
        no_dollar(field),
    ensures
        no_dollar(null_filter(k, field)),
{
    lemma_lits();
    lemma_no_dollar_concat(field, " IS NULL"@);
    lemma_no_dollar_concat(field, " IS NOT NULL"@);
}

/// Шаблон без привязок: один кусок.
proof fn lemma_plain_template(s: Seq<char>, b: nat)
    requires
        no_dollar(s),
    ensures
        placeholders_in_order(s, b, 0),
{
    let p = seq![s];
    assert(template_text(p, b) == s);
    assert(template_pieces(p, 0));
}

/// Шаблон из двух кусков с одной привязкой между ними.
proof fn lemma_one_placeholder(a: Seq<char>, z: Seq<char>, b: nat)
    requires
        no_dollar(a),
        no_dollar(z),
    ensures
        placeholders_in_order(a + placeholder(b) + z, b, 1),
{
    let p = seq![a, z];
    assert(p.drop_last() =~= seq![a]);
    assert(template_text(seq![a], b) == a);
    assert(p.last() == z);
    assert((b + p.len() - 2) as nat == b);
    assert(template_text(p, b) == a + placeholder(b) + z);
    assert(template_pieces(p, 1));
}

/// Шаблон из трёх кусков с двумя привязками.
proof fn lemma_two_placeholders(a: Seq<char>, m: Seq<char>, z: Seq<char>, b: nat)
    requires
        no_dollar(a),
        no_dollar(m),
        no_dollar(z),
    ensures
        placeholders_in_order(a + placeholder(b) + m + placeholder(b + 1) + z, b, 2),
{
    let p = seq![a, m, z];
    let pm = seq![a, m];
    assert(p.drop_last() =~= pm);
    assert(pm.drop_last() =~= seq![a]);
    assert(template_text(seq![a], b) == a);
    assert(pm.last() == m);
    assert((b + pm.len() - 2) as nat == b);
    assert(template_text(pm, b) == a + placeholder(b) + m);
    assert(p.last() == z);
    assert((b + p.len() - 2) as nat == b + 1);
    assert(template_text(p, b) == a + placeholder(b) + m + placeholder(b + 1) + z);
    assert(template_pieces(p, 2));
}

/// Склейка шаблонов: привязки второго продолжают нумерацию первого.
proof fn lemma_concat_pieces(p1: Seq<Seq<char>>, p2: Seq<Seq<char>>, b: nat, n1: nat) -> (q: Seq<Seq<char>>)
    requires
        template_pieces(p1, n1),
        p2.len() >= 1,
        forall|i: int| 0 <= i < p2.len() ==> no_dollar(#[trigger] p2[i]),
    ensures
        template_pieces(q, (n1 + p2.len() - 1) as nat),
        template_text(q, b) == template_text(p1, b) + template_text(p2, b + n1),
    decreases p2.len(),
{
    if p2.len() == 1 {
        let q = p1.drop_last().push(p1.last() + p2[0]);
        lemma_no_dollar_concat(p1.last(), p2[0]);
        assert(q.drop_last() =~= p1.drop_last());
        if p1.len() == 1 {
            assert(template_text(q, b) == p1[0] + p2[0]);
        } else {
            assert(template_text(q, b) =~= template_text(p1.drop_last(), b) + placeholder((b + p1.len() - 2) as nat)
                + (p1.last() + p2[0]));
        }
        assert forall|i: int| 0 <= i < q.len() implies no_dollar(#[trigger] q[i]) by {
            if i < q.len() - 1 {
                assert(q[i] == p1[i]);
            }
        }
        q
    } else {
        let q0 = lemma_concat_pieces(p1, p2.drop_last(), b, n1);
        let q = q0.push(p2.last());
        assert(q.drop_last() =~= q0);
        assert forall|i: int| 0 <= i < q.len() implies no_dollar(#[trigger] q[i]) by {
            if i < q.len() - 1 {
                assert(q[i] == q0[i]);
            } else {
                assert(q[i] == p2[p2.len() - 1]);
            }
        }
        assert forall|i: int| 0 <= i < p2.drop_last().len() implies no_dollar(#[trigger] p2.drop_last()[i]) by {
            assert(p2.drop_last()[i] == p2[i]);
        }
        assert(template_text(q, b) =~= template_text(p1, b) + template_text(p2, b + n1));
        q
    }
}

/// Склейка текстов с привязками по порядку.
proof fn lemma_concat_templates(s1: Seq<char>, s2: Seq<char>, b: nat, n1: nat, n2: nat)
    requires
        placeholders_in_order(s1, b, n1),
        placeholders_in_order(s2, b + n1, n2),
    ensures
        placeholders_in_order(s1 + s2, b, n1 + n2),
{
    let p1 = choose|p: Seq<Seq<char>>| template_pieces(p, n1) && #[trigger] template_text(p, b) == s1;
    let p2 = choose|p: Seq<Seq<char>>| template_pieces(p, n2) && #[trigger] template_text(p, (b + n1) as nat) == s2;
    let q = lemma_concat_pieces(p1, p2, b, n1);
    assert(template_pieces(q, n1 + n2));
}

/// Текст, который фильтр дописывает к строке, содержит привязки с `b` до
/// следующего номера по одному разу и по порядку.
#[verifier::rlimit(60)]
proof fn lemma_filter_placeholders(f: FilterModel, c: Seq<char>, b: nat)
    requires
        no_dollar(f.field),
    ensures
        filter_sql(f, c, b) matches Ok(p) ==> p.1 >= b && p.0.len() >= c.len() && p.0.subrange(0, c.len() as int) == c
            && placeholders_in_order(p.0.subrange(c.len() as int, p.0.len() as int), b, (p.1 - b) as nat),
{
    lemma_lits();
    let k = f.kind;
    let n = f.values.len();
    let nn = non_null_count(f.values);
    if let Ok(p) = filter_sql(f, c, b) {
        let s = p.0.subrange(c.len() as int, p.0.len() as int);
        let sp: Seq<char> = " "@;
        lemma_no_dollar_concat(sp, f.field);
        lemma_no_dollar_concat(sp + f.field, sp);
        lemma_no_dollar_concat(sp + f.field + sp, kind_str(k));
        let head = sp + f.field + sp + kind_str(k);
        if kind_is_simple(k) {
            if nn == 0 && k == SelectionKind::Equals {
                lemma_no_dollar_concat(sp + f.field + sp, "IS NULL"@);
                assert(p.0 =~= c + (sp + f.field + sp + "IS NULL"@));
                assert(s =~= sp + f.field + sp + "IS NULL"@);
                lemma_plain_template(s, b);
            } else if nn == 0 && k == SelectionKind::NotEquals {
                lemma_no_dollar_concat(sp + f.field + sp, "IS NOT NULL"@);
                assert(p.0 =~= c + (sp + f.field + sp + "IS NOT NULL"@));
                assert(s =~= sp + f.field + sp + "IS NOT NULL"@);
                lemma_plain_template(s, b);
            } else {
                assert(p.0 =~= c + (head + placeholder(b) + seq![]));
                assert(s =~= head + placeholder(b) + seq![]);
                lemma_one_placeholder(head, seq![], b);
            }
        } else if k == SelectionKind::Jsonpath {
            assert(p.0 =~= c + (head + placeholder(b) + "::jsonpath"@));
            assert(s =~= head + placeholder(b) + "::jsonpath"@);
            lemma_one_placeholder(head, "::jsonpath"@, b);
        } else if kind_is_in_brackets(k) {
            let open: Seq<char> = if k == SelectionKind::NotIn { "NOT ("@ } else { seq![] };
            let close: Seq<char> = if k == SelectionKind::NotIn { ")"@ } else { seq![] };
            lemma_null_filter_plain(k, f.field);
            lemma_no_dollar_concat(sp, open);
            if nn == 0 {
                lemma_no_dollar_concat(sp + open, null_filter(k, f.field));
                lemma_no_dollar_concat(sp + open + null_filter(k, f.field), close);
                assert(p.0 =~= c + (sp + open + null_filter(k, f.field) + close));
                assert(s =~= sp + open + null_filter(k, f.field) + close);
                lemma_plain_template(s, b);
            } else {
                let partial = nn < n;
                let lp: Seq<char> = if partial { "("@ } else { seq![] };
                let tail: Seq<char> = if partial { " OR "@ + null_filter(k, f.field) + ")"@ } else { seq![] };
                lemma_no_dollar_concat(" OR "@, null_filter(k, f.field));
                lemma_no_dollar_concat(" OR "@ + null_filter(k, f.field), ")"@);
                lemma_no_dollar_concat(sp + open, lp);
                lemma_no_dollar_concat(sp + open + lp, f.field);
                lemma_no_dollar_concat(sp + open + lp + f.field, "=ANY("@);
                lemma_no_dollar_concat(")"@, tail);
                lemma_no_dollar_concat(")"@ + tail, close);
                let a = sp + open + lp + f.field + "=ANY("@;
                let z = ")"@ + tail + close;
                assert(p.0 =~= c + (a + placeholder(b) + z));
                assert(s =~= a + placeholder(b) + z);
                lemma_one_placeholder(a, z, b);
            }
        } else if k == SelectionKind::Between {
            let iv: Seq<char> = if f.values[1] is Date { "+ interval '23:59:59'"@ } else { seq![] };
            lemma_no_dollar_concat(head, sp);
            let a = head + sp;
            assert(p.0 =~= c + (a + placeholder(b) + " AND "@ + placeholder(b + 1) + iv));
            assert(s =~= a + placeholder(b) + " AND "@ + placeholder(b + 1) + iv);
            lemma_two_placeholders(a, " AND "@, iv, b);
        }
    }
}

/// Текст, который дерево дописывает к строке, содержит привязки с `idx` до
/// следующего номера по одному разу и по порядку.
proof fn lemma_tree_placeholders(t: TreeModel, c: Seq<char>, idx: nat)
    requires
        tree_fields_plain(t),
    ensures
        tree_sql(t, c, idx) matches Ok(p) ==> p.1 >= idx && p.0.len() >= c.len() && p.0.subrange(0, c.len() as int) == c
            && placeholders_in_order(p.0.subrange(c.len() as int, p.0.len() as int), idx, (p.1 - idx) as nat),
    decreases t, 0int,
{
    match t {
        TreeModel::Empty => {
            lemma_lits();
            assert(c.subrange(c.len() as int, c.len() as int) =~= seq![]);
            assert(c.subrange(0, c.len() as int) =~= c);
            lemma_plain_template(seq![], idx);
        },
        TreeModel::Filter(f) => {
            lemma_filter_placeholders(f, c, idx);
        },
        TreeModel::Or(x) => {
            lemma_lits();
            lemma_list_placeholders(x, 0, false, " OR"@, c, idx);
        },
        TreeModel::And(x) => {
            lemma_lits();
            lemma_list_placeholders(x, 0, false, " AND"@, c, idx);
        },
    }
}

/// То же для продолжения группы с `i`-го поддерева.
proof fn lemma_list_placeholders(x: Seq<TreeModel>, i: int, started: bool, joiner: Seq<char>, c: Seq<char>, idx: nat)
    requires
        list_fields_plain(x, i),
        no_dollar(joiner),
        i >= 0,
    ensures
        list_sql(x, i, started, joiner, c, idx) matches Ok(p) ==> p.1 >= idx && p.0.len() >= c.len()
            && p.0.subrange(0, c.len() as int) == c
            && placeholders_in_order(p.0.subrange(c.len() as int, p.0.len() as int), idx, (p.1 - idx) as nat),
    decreases x, x.len() - i,
{
    lemma_lits();
    if i >= x.len() {
        let tail: Seq<char> = if started { ")"@ } else { seq![] };
        if let Ok(p) = list_sql(x, i, started, joiner, c, idx) {
            assert(p.0 =~= c + tail);
            assert(p.0.subrange(c.len() as int, p.0.len() as int) =~= tail);
            assert(p.0.subrange(0, c.len() as int) =~= c);
            lemma_plain_template(tail, idx);
        }
    } else if model_is_empty(x[i]) {
        lemma_list_placeholders(x, i + 1, started, joiner, c, idx);
    } else {
        let sep: Seq<char> = if started { joiner } else { " ("@ };
        let c1 = c + sep;
        lemma_tree_placeholders(x[i], c1, idx);
        if let Ok(p1) = tree_sql(x[i], c1, idx) {
            lemma_list_placeholders(x, i + 1, true, joiner, p1.0, p1.1);
            if let Ok(p) = list_sql(x, i, started, joiner, c, idx) {
                let s1 = p1.0.subrange(c1.len() as int, p1.0.len() as int);
                let s2 = p.0.subrange(p1.0.len() as int, p.0.len() as int);
                assert(p1.0 =~= c1 + s1);
                assert(p.0 =~= p1.0 + s2);
                let s = p.0.subrange(c.len() as int, p.0.len() as int);
                assert(s =~= sep + s1 + s2);
                assert(p.0.subrange(0, c.len() as int) =~= c);
                lemma_plain_template(sep, idx);
                lemma_concat_templates(sep, s1, idx, 0, (p1.1 - idx) as nat);
                assert(sep + s1 + s2 =~= (sep + s1) + s2);
                lemma_concat_templates(sep + s1, s2, idx, (p1.1 - idx) as nat, (p.1 - p1.1) as nat);
            }
        }
    }
}

/// Порядок привязок: если имена полей дерева не содержат `$`, то текст, который
/// построение условия (`FilterTree::build_sql`) дописывает к строке, содержит
/// привязки `$idx, $idx+1, ..., $(n-1)` (где `n` -- возвращённый номер) ровно по
/// одному разу и по возрастанию, а вне привязок знака `$` в нём нет.
pub proof fn lemma_placeholders_in_order(t: TreeModel, c: Seq<char>, idx: nat)
    requires
        tree_fields_plain(t),
    ensures
        tree_sql(t, c, idx) matches Ok(p) ==> p.1 >= idx && p.0.len() >= c.len() && p.0.subrange(0, c.len() as int) == c
            && placeholders_in_order(p.0.subrange(c.len() as int, p.0.len() as int), idx, (p.1 - idx) as nat),
{
    lemma_tree_placeholders(t, c, idx);
}

} // verus!
