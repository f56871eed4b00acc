//! Записи справочников монолита, получаемые одним запросом `get_multiple`.
use vstd::prelude::*;

verus! {

/// Запрос нескольких справочников сразу.
#[derive(Clone, Default, Debug)]
pub struct MultipleRequest {
    pub user_ids: Vec<u32>,
    pub customer_ids: Vec<u32>,
    pub purchasing_method_ids: Vec<u8>,
    pub status_scheme_ids: Vec<u8>,
    pub unit_ids: Vec<u16>,
    pub currency_ids: Vec<u16>,
    pub vat_ids: Vec<u8>,
    pub document_ids: Vec<String>,
}

/// Основание выбора единственного поставщика.
#[derive(Clone, Default, Debug)]
pub struct SingleSupplierReason {
    pub id: u8,
    pub name: String,
}

/// Статья бюджета.
#[derive(Clone, Default, Debug)]
pub struct BudgetItem {
    pub id: u32,
    pub name: String,
}

/// Заказчик или поставщик.
#[derive(Clone, Default, Debug)]
pub struct CustomerSupplier {
    pub id: u32,
    pub text: String,
}

/// Код ОКПД2.
#[derive(Clone, Default, Debug)]
pub struct Okpd2Code {
    pub id: u32,
    pub text: String,
}

/// Код ОКВЭД2.
#[derive(Clone, Default, Debug)]
pub struct Okved2Code {
    pub id: u32,
    pub text: String,
}

/// Код ОКАТО.
#[derive(Clone, Default, Debug)]
pub struct OkatoCode {
    pub id: u32,
    pub text: String,
}

/// Ставка НДС.
#[derive(Clone, Default, Debug)]
pub struct Vat {
    pub id: u8,
    pub rate: u8,
    pub text: String,
}

/// Валюта.
#[derive(Clone, Default, Debug)]
pub struct Currency {
    pub id: u16,
    pub code: String,
    pub text: String,
}

/// Единица измерения.
#[derive(Clone, Default, Debug)]
pub struct Unit {
    pub id: u16,
    pub text: String,
    pub text_short: String,
}

/// Статус в схеме статусов.
#[derive(Clone, Default, Debug)]
pub struct Status {
    pub scheme_id: u8,
    pub id: u8,
    pub parent_id: u8,
    pub text: String,
}

/// Способ закупки.
#[derive(Clone, Default, Debug)]
pub struct PurchasingMethod {
    pub id: u8,
    pub text: String,
}

/// Заказчик.
#[derive(Clone, Default, Debug)]
pub struct Customer {
    pub id: u32,
    pub text: String,
}

/// Пользователь.
#[derive(Clone, Default, Debug)]
pub struct User {
    pub id: u32,
    pub initials_last_name: String,
}

impl CustomerSupplier {
    /// Запись для показа (то, что печатает `Display`): текст записи.
    pub fn display_text(&self) -> (r: String)
        ensures
            r@ == self.text@,
    {
        crate::text::copy_string(&self.text)
    }
}

impl Okpd2Code {
    /// Запись для показа: текст записи.
    pub fn display_text(&self) -> (r: String)
        ensures
            r@ == self.text@,
    {
        crate::text::copy_string(&self.text)
    }
}

impl Okved2Code {
    /// Запись для показа: текст записи.
    pub fn display_text(&self) -> (r: String)
        ensures
            r@ == self.text@,
    {
        crate::text::copy_string(&self.text)
    }
}

impl OkatoCode {
    /// Запись для показа: текст записи.
    pub fn display_text(&self) -> (r: String)
        ensures
            r@ == self.text@,
    {
        crate::text::copy_string(&self.text)
    }
}

impl Vat {
    /// Запись для показа: текст записи.
    pub fn display_text(&self) -> (r: String)
        ensures
            r@ == self.text@,
    {
        crate::text::copy_string(&self.text)
    }
}

impl Currency {
    /// Запись для показа: текст записи.
    pub fn display_text(&self) -> (r: String)
        ensures
            r@ == self.text@,
    {
        crate::text::copy_string(&self.text)
    }
}

impl Unit {
    /// Запись для показа: текст записи.
    pub fn display_text(&self) -> (r: String)
        ensures
            r@ == self.text@,
    {
        crate::text::copy_string(&self.text)
    }
}

impl Status {
    /// Запись для показа: текст записи.
    pub fn display_text(&self) -> (r: String)
        ensures
            r@ == self.text@,
    {
        crate::text::copy_string(&self.text)
    }
}

impl PurchasingMethod {
    /// Запись для показа: текст записи.
    pub fn display_text(&self) -> (r: String)
        ensures
            r@ == self.text@,
    {
        crate::text::copy_string(&self.text)
    }
}

impl Customer {
    /// Запись для показа: текст записи.
    pub fn display_text(&self) -> (r: String)
        ensures
            r@ == self.text@,
    {
        crate::text::copy_string(&self.text)
    }
}

} // verus!
