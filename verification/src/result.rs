//! Ошибки логики построения запросов.
use vstd::prelude::*;

verus! {

/// Ошибки, которые возникают при построении запросов и разборе значений.
#[derive(Debug)]
pub enum SharedDbError {
    /// Произвольная строковая ошибка.
    Other(String),
    /// Ошибка при соединении нескольких таблиц (JOIN).
    Join(String),
    /// Ошибка преобразования значения между типами.
    ValueError(String),
}

impl SharedDbError {
    /// Текст ошибки (то, что печатает `Display`).
    pub open spec fn text(&self) -> Seq<char> {
        match self {
            SharedDbError::Other(e) => e@,
            SharedDbError::Join(e) => e@,
            SharedDbError::ValueError(e) => e@,
        }
    }

    /// Текст ошибки.
    pub fn message(&self) -> (r: &String)
        ensures
            r@ == self.text(),
    {
        match self {
            SharedDbError::Other(e) => e,
            SharedDbError::Join(e) => e,
            SharedDbError::ValueError(e) => e,
        }
    }
}

/// Псевдоним результата построителей запросов.
pub type Result<T> = core::result::Result<T, SharedDbError>;

} // verus!
