//! Построение SQL-запросов к PostgreSQL, маски полей, фильтры и
//! вспомогательная логика общих микросервисных крейтов.
pub mod aggr_laws;
pub mod collections;
pub mod date_time;
pub mod essential;
pub mod options;
pub mod db_item;
pub mod result;
pub mod text;
pub mod value;
