//! Описание таблиц, маски полей и построение SQL-запросов.
pub mod field_mask;
pub mod joined;
pub mod mask_laws;
pub mod query;
pub mod selection;
pub mod table;
pub mod traits;
pub mod update_laws;
pub mod versioned;
