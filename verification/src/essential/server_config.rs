//! Снимок переменных окружения сервиса с замаскированными паролями.
use std::collections::BTreeMap;
use vstd::prelude::*;

verus! {

/// Запись строки в верхнем регистре (`str::to_uppercase`).
pub uninterp spec fn uppercase_text(s: Seq<char>) -> Seq<char>;

/// Строка в верхнем регистре: `str::to_uppercase` из std.
///
/// Контракт: результат -- функция одной лишь строки (правила Unicode не
/// переписаны в спецификации, а названы).
#[verifier::external_body]
fn to_uppercase(s: &str) -> (r: String)
    ensures
        r@ == uppercase_text(s@),
{
    s.to_uppercase()
}

/// Строка `s` оканчивается на `suffix`.
pub open spec fn ends_with(s: Seq<char>, suffix: Seq<char>) -> bool {
    s.len() >= suffix.len() && s.subrange(s.len() - suffix.len(), s.len() as int) == suffix
}

fn str_ends_with(s: &str, suffix: &str) -> (r: bool)
    ensures
        r == ends_with(s@, suffix@),
{
    let n = s.unicode_len();
    let k = suffix.unicode_len();
    if k > n {
        return false;
    }
    let mut j: usize = 0;
    while j < k
        invariant
            n == s@.len(),
            k == suffix@.len(),
            k <= n,
            j <= k,
            forall|m: int| 0 <= m < j ==> s@[n - k + m] == suffix@[m],
        decreases k - j,
    {
        if s.get_char(n - k + j) != suffix.get_char(j) {
            assert(s@.subrange(n - k, n as int)[j as int] != suffix@[j as int]);
            return false;
        }
        j = j + 1;
    }
    assert(s@.subrange(n - k, n as int) =~= suffix@);
    true
}

/// Маска значения секретной переменной.
pub const PASSWORD_MASK: &'static str = "*************";

/// Пара после маскировки: значение переменной, имя которой в верхнем регистре
/// оканчивается на `PASS` или `PASSWORD`, заменяется маской.
pub open spec fn masked_pair(key: Seq<char>, value: Seq<char>) -> (Seq<char>, Seq<char>) {
    let up = uppercase_text(key);
    if ends_with(up, "PASS"@) || ends_with(up, "PASSWORD"@) {
        (key, "*************"@)
    } else {
        (key, value)
    }
}

/// Снимок переменных окружения для диагностики (в алфавитном порядке имён).
#[derive(Debug, Default)]
pub struct ServerConfig {
    env_vars: BTreeMap<String, String>,
}

impl ServerConfig {
    /// Маскирует значение секретной переменной.
    pub fn mask_password(key: String, value: String) -> (r: (String, String))
        ensures
            (r.0@, r.1@) == masked_pair(key@, value@),
    {
        let up = to_uppercase(key.as_str());
        if str_ends_with(up.as_str(), "PASS") || str_ends_with(up.as_str(), "PASSWORD") {
            proof {
                reveal_strlit("*************");
            }
            (key, String::from_str(PASSWORD_MASK))
        } else {
            (key, value)
        }
    }

    /// Снимок из уже замаскированных переменных.
    pub fn from_env_vars(env_vars: BTreeMap<String, String>) -> (r: ServerConfig)
        ensures
            r.vars() == env_vars,
    {
        ServerConfig { env_vars }
    }

    /// Переменные снимка.
    pub closed spec fn vars(&self) -> BTreeMap<String, String> {
        self.env_vars
    }

    /// Переменные снимка.
    pub fn env_vars(&self) -> (r: &BTreeMap<String, String>)
        ensures
            *r == self.vars(),
    {
        &self.env_vars
    }
}

} // verus!
