//! Общая логика микросервисов: справочники, проверки, пути миграций.
pub mod allowed_fields;
pub mod commission;
pub mod compression;
pub mod concat;
pub mod daily_task;
pub mod directory;
pub mod external_id;
pub mod historian;
pub mod lookup;
pub mod maps;
pub mod migration;
pub mod monolith;
pub mod planning_masterdata;
pub mod positions;
pub mod search_by_id;
pub mod server_config;
pub mod status;
