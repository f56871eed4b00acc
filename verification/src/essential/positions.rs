//! Позиции полей в списке полей выгрузки.
use crate::text::{copy_string, str_eq, strings_view};
use vstd::prelude::*;

verus! {

/// Позиция первого вхождения `f` в `list`, если оно есть.
pub open spec fn first_position(list: Seq<Seq<char>>, f: Seq<char>) -> Option<int>
    decreases list.len(),
{
    if list.len() == 0 {
        None
    } else {
        match first_position(list.drop_last(), f) {
            Some(i) => Some(i),
            None => if list.last() == f {
                Some(list.len() - 1)
            } else {
                None
            },
        }
    }
}

/// Позиция первого вхождения `f` в `list`.
fn position_of(list: &Vec<String>, f: &str) -> (r: Option<usize>)
    ensures
        match r {
            Some(i) => first_position(strings_view(list@), f@) == Some(i as int),
            None => first_position(strings_view(list@), f@) is None,
        },
{
    let ghost v = strings_view(list@);
    let mut i: usize = 0;
    while i < list.len()
        invariant
            i <= list@.len(),
            v == strings_view(list@),
            first_position(v.take(i as int), f@) is None,
        decreases list.len() - i,
    {
        assert(v.take(i + 1).drop_last() =~= v.take(i as int));
        if str_eq(list[i].as_str(), f) {
            assert(first_position(v.take(i + 1), f@) == Some(i as int));
            proof {
                lemma_first_position_prefix(v, i + 1, f@);
            }
            return Some(i);
        }
        i = i + 1;
    }
    assert(v.take(list@.len() as int) =~= v);
    None
}

/// Найденная в начале списка позиция остаётся первой для всего списка.
proof fn lemma_first_position_prefix(v: Seq<Seq<char>>, n: int, f: Seq<char>)
    requires
        0 <= n <= v.len(),
        first_position(v.take(n), f) is Some,
    ensures
        first_position(v, f) == first_position(v.take(n), f),
    decreases v.len() - n,
{
    if n < v.len() {
        assert(v.take(n + 1).drop_last() =~= v.take(n));
        lemma_first_position_prefix(v, n + 1, f);
    } else {
        assert(v.take(n) =~= v);
    }
}

/// Поля из `fields`, найденные в `field_list`, с позициями их первых вхождений:
/// каждое поле один раз, в порядке первого упоминания в `fields`.
pub fn find_positions(field_list: &Vec<String>, fields: &Vec<String>) -> (r: Vec<(String, usize)>)
    ensures
        forall|k: int| 0 <= k < r@.len() ==> first_position(strings_view(field_list@), #[trigger] r@[k].0@) == Some(
            r@[k].1 as int,
        ),
        forall|k: int| 0 <= k < r@.len() ==> strings_view(fields@).contains(#[trigger] r@[k].0@),
        forall|j: int|
            0 <= j < fields@.len() && first_position(strings_view(field_list@), #[trigger] fields@[j]@) is Some
                ==> exists|k: int| 0 <= k < r@.len() && r@[k].0@ == fields@[j]@,
        forall|k1: int, k2: int| 0 <= k1 < k2 < r@.len() ==> r@[k1].0@ != r@[k2].0@,
{
    let ghost lv = strings_view(field_list@);
    let ghost fv = strings_view(fields@);
    let mut out: Vec<(String, usize)> = Vec::new();
    let mut j: usize = 0;
    while j < fields.len()
        invariant
            j <= fields@.len(),
            lv == strings_view(field_list@),
            fv == strings_view(fields@),
            forall|k: int| 0 <= k < out@.len() ==> first_position(lv, #[trigger] out@[k].0@) == Some(out@[k].1 as int),
            forall|k: int| 0 <= k < out@.len() ==> fv.contains(#[trigger] out@[k].0@),
            forall|i: int|
                0 <= i < j && first_position(lv, #[trigger] fields@[i]@) is Some ==> exists|k: int|
                    0 <= k < out@.len() && out@[k].0@ == fields@[i]@,
            forall|k1: int, k2: int| 0 <= k1 < k2 < out@.len() ==> out@[k1].0@ != out@[k2].0@,
        decreases fields.len() - j,
    {
        let f = fields[j].as_str();
        assert(fv[j as int] == f@);
        match position_of(field_list, f) {
            Some(p) => {
                let mut seen = false;
                let mut k: usize = 0;
                while k < out.len()
                    invariant
                        k <= out@.len(),
                        seen == exists|m: int| 0 <= m < k && out@[m].0@ == f@,
                    decreases out.len() - k,
                {
                    if str_eq(out[k].0.as_str(), f) {
                        seen = true;
                    }
                    k = k + 1;
                }
                if !seen {
                    let ghost before = out@;
                    out.push((copy_string(&fields[j]), p));
                    assert(out@[before.len() as int].0@ == fields@[j as int]@);
                    assert forall|i: int|
                        0 <= i < j + 1 && first_position(lv, #[trigger] fields@[i]@) is Some implies exists|m: int|
                        0 <= m < out@.len() && out@[m].0@ == fields@[i]@ by {
                        if i < j {
                            let m = choose|m: int| 0 <= m < before.len() && before[m].0@ == fields@[i]@;
                            assert(out@[m] == before[m]);
                        } else {
                            assert(out@[before.len() as int].0@ == fields@[i]@);
                        }
                    }
                }
            },
            None => {},
        }
        j = j + 1;
    }
    out
}

} // verus!
