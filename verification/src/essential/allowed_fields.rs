//! Проверка доступа пользователя к полям.
use crate::text::{contains_str, copy_string, seq_join, strings_view};
use crate::value::{quoted, quoted_text};
use vstd::prelude::*;

verus! {

/// Ошибка проверки полей: поля, на которые у пользователя нет доступа.
#[derive(Debug)]
pub struct ForbiddenFieldError(pub Vec<String>);

/// Отладочная запись списка строк: `["a", "b"]`.
pub open spec fn strings_debug(v: Seq<Seq<char>>) -> Seq<char> {
    "["@ + seq_join(v.map_values(|s: Seq<char>| "\""@ + quoted_text(s) + "\""@), ", "@) + "]"@
}

/// Текст ошибки (то, что печатает `Display`).
pub open spec fn forbidden_text(v: Seq<Seq<char>>) -> Seq<char> {
    "У Пользователя отсутствует авторизация на следующие поля: "@ + strings_debug(v)
}

impl ForbiddenFieldError {
    /// Текст ошибки.
    pub fn message(&self) -> (r: String)
        ensures
            r@ == forbidden_text(strings_view(self.0@)),
    {
        let ghost items = strings_view(self.0@).map_values(|s: Seq<char>| "\""@ + quoted_text(s) + "\""@);
        let mut parts: Vec<String> = Vec::new();
        let mut i: usize = 0;
        while i < self.0.len()
            invariant
                i <= self.0@.len(),
                items == strings_view(self.0@).map_values(|s: Seq<char>| "\""@ + quoted_text(s) + "\""@),
                strings_view(parts@) == items.take(i as int),
            decreases self.0.len() - i,
        {
            let mut p = String::from_str("\"");
            let q = quoted(self.0[i].as_str());
            p.append(q.as_str());
            p.append("\"");
            let ghost b0 = parts@;
            parts.push(p);
            assert(items.take(i + 1) =~= items.take(i as int).push(items[i as int]));
            assert(strings_view(parts@) =~= strings_view(b0).push(p@));
            i = i + 1;
        }
        assert(items.take(self.0@.len() as int) =~= items);
        let joined = crate::text::join_strings(&parts, ", ");
        let mut r = String::from_str("У Пользователя отсутствует авторизация на следующие поля: ");
        r.append("[");
        r.append(joined.as_str());
        r.append("]");
        r
    }
}

/// Проверяет, что все выбранные поля разрешены. Иначе -- ошибка со списком
/// неразрешённых полей (каждое по одному разу, в порядке первого появления).
pub fn validate_allowed_fields(selected_fields: &Vec<String>, allowed_fields: &Vec<String>) -> (r: Result<(), ForbiddenFieldError>)
    ensures
        r is Ok <==> forall|i: int| 0 <= i < selected_fields@.len()
            ==> strings_view(allowed_fields@).contains(#[trigger] selected_fields@[i]@),
        r is Err ==> ({
            let bad = strings_view(r->Err_0.0@);
            &&& bad.no_duplicates()
            &&& forall|s: Seq<char>| bad.contains(s) <==> (strings_view(selected_fields@).contains(s)
                && !strings_view(allowed_fields@).contains(s))
        }),
{
    let ghost sel = strings_view(selected_fields@);
    let ghost alw = strings_view(allowed_fields@);
    let mut bad: Vec<String> = Vec::new();
    let mut i: usize = 0;
    while i < selected_fields.len()
        invariant
            i <= selected_fields@.len(),
            sel == strings_view(selected_fields@),
            alw == strings_view(allowed_fields@),
            strings_view(bad@).no_duplicates(),
            forall|s: Seq<char>|
                #![trigger strings_view(bad@).contains(s)]
                #![trigger sel.take(i as int).contains(s)]
                strings_view(bad@).contains(s) <==> (sel.take(i as int).contains(s) && !alw.contains(s)),
            bad@.len() == 0 <==> forall|k: int| 0 <= k < i ==> alw.contains(#[trigger] selected_fields@[k]@),
        decreases selected_fields.len() - i,
    {
        let f = selected_fields[i].as_str();
        let ghost prev = sel.take(i as int);
        proof {
            assert(sel.take(i + 1) =~= prev.push(f@));
        }
        let allowed = contains_str(allowed_fields, f);
        let seen = contains_str(&bad, f);
        let ghost before = strings_view(bad@);
        if !allowed && !seen {
            bad.push(copy_string(&selected_fields[i]));
            proof {
                let now = strings_view(bad@);
                assert(now =~= before.push(f@));
                assert forall|a: int, b: int| 0 <= a < now.len() && 0 <= b < now.len() && a != b implies now[a] != now[b] by {
                    if a < before.len() && b < before.len() {
                        assert(before[a] != before[b]);
                    } else if a < before.len() {
                        assert(before.contains(now[a]));
                    } else {
                        assert(before.contains(now[b]));
                    }
                }
            }
        }
        proof {
            let now = strings_view(bad@);
            let cur = sel.take(i + 1);
            assert forall|s: Seq<char>| now.contains(s) <==> (cur.contains(s) && !alw.contains(s)) by {
                if now.contains(s) {
                    let k = choose|k: int| 0 <= k < now.len() && #[trigger] now[k] == s;
                    if k < before.len() {
                        assert(before[k] == s);
                        assert(before.contains(s));
                        assert(prev.contains(s));
                        let m = choose|m: int| 0 <= m < prev.len() && #[trigger] prev[m] == s;
                        assert(cur[m] == s);
                    } else {
                        assert(cur[i as int] == s);
                    }
                }
                if cur.contains(s) && !alw.contains(s) {
                    let m = choose|m: int| 0 <= m < cur.len() && #[trigger] cur[m] == s;
                    if m < i {
                        assert(prev[m] == s);
                        assert(prev.contains(s));
                        assert(before.contains(s));
                        let k = choose|k: int| 0 <= k < before.len() && #[trigger] before[k] == s;
                        assert(now[k] == s);
                    } else if seen {
                        assert(cur[i as int] == f@);
                        assert(before.contains(s));
                        let k = choose|k: int| 0 <= k < before.len() && #[trigger] before[k] == s;
                        assert(now[k] == s);
                    } else {
                        assert(now[now.len() - 1] == s);
                    }
                }
            }
            assert(alw.contains(selected_fields@[i as int]@) == allowed);
            if before.len() > 0 {
                assert(now.len() > 0);
            }
        }
        i = i + 1;
    }
    assert(sel.take(selected_fields@.len() as int) =~= sel);
    assert forall|s: Seq<char>| strings_view(bad@).contains(s) <==> (sel.contains(s) && !alw.contains(s)) by {
        assert(sel.take(selected_fields@.len() as int).contains(s) == sel.contains(s));
    }
    if bad.len() == 0 {
        Ok(())
    } else {
        Err(ForbiddenFieldError(bad))
    }
}

} // verus!
