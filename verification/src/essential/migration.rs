//! Пути к каталогам миграций.
use vstd::prelude::*;

verus! {

/// Путь `base`, к которому присоединён `segment` (`Path::join`).
pub uninterp spec fn joined_path(base: Seq<char>, segment: Seq<char>) -> Seq<char>;

/// Присоединяет к пути сегмент: `std::path::Path::join`.
///
/// Контракт: результат -- функция двух аргументов (правила склейки путей
/// платформы не переписаны, а названы).
#[verifier::external_body]
fn path_join(base: &str, segment: &str) -> (r: String)
    ensures
        r@ == joined_path(base@, segment@),
{
    std::path::Path::new(base).join(segment).display().to_string()
}

/// Каталог миграций по умолчанию: `<app_dir>/migrations`.
pub fn default_migration_path(app_dir: &str) -> (r: String)
    ensures
        r@ == joined_path(app_dir@, "migrations"@),
{
    path_join(app_dir, "migrations")
}

/// Каталог UP-миграций: `<app_dir>/migrations/up`.
pub fn default_migration_up_path(app_dir: &str) -> (r: String)
    ensures
        r@ == joined_path(joined_path(app_dir@, "migrations"@), "up"@),
{
    let base = default_migration_path(app_dir);
    path_join(base.as_str(), "up")
}

/// Каталог DOWN-миграций: `<app_dir>/migrations/down`.
pub fn default_migration_down_path(app_dir: &str) -> (r: String)
    ensures
        r@ == joined_path(joined_path(app_dir@, "migrations"@), "down"@),
{
    let base = default_migration_path(app_dir);
    path_join(base.as_str(), "down")
}

} // verus!
