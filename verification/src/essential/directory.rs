//! Типы справочников НСИ и их имена в запросах.
use crate::text::{copy_string, str_eq};
use vstd::prelude::*;

verus! {

/// Ошибка работы со справочниками НСИ.
#[derive(Debug, PartialEq)]
pub enum MasterDataError {
    /// Внутренняя ошибка с текстом.
    InternalError(String),
}

impl MasterDataError {
    /// Текст ошибки (то, что печатает `Display`).
    pub fn message(&self) -> (r: String)
        ensures
            match self {
                MasterDataError::InternalError(m) => r@ == m@,
            },
    {
        match self {
            MasterDataError::InternalError(m) => copy_string(m),
        }
    }
}

/// Тип справочника.
#[derive(Clone, Copy, Debug, PartialEq, Eq, Hash, Structural)]
pub enum DirectoryType {
    /// Справочник "Метод ценообразования"
    AnalysisMethod,
    /// Справочник "Способ назначения исполнителя"
    AssigningExecutorMethod,
    /// Цветовые схемы критичности
    CriticalTypeColorScheme,
    /// Решения комиссии СК по ППЗ/ДС
    EstimatedCommissionResult,
    /// Статусы повестки
    EstimatedCommissionAgendaStatus,
    /// Статусы протокола
    EstimatedCommissionProtocolStatus,
    /// Тип протокола
    EstimatedCommissionProtocolType,
    /// Типы заключений эксперта
    ExpertConclusionType,
    /// Типы объектов
    ObjectType,
    /// Поставщики
    Organization,
    /// Условия оплаты
    PaymentConditions,
    /// Тип ППЗ
    PpzType,
    /// Методы ценообразования
    PriceAnalysisMethod,
    /// Департаменты (организации) АЦ
    PricingUnit,
    /// Каталог "Производственный календарь"
    SchedulerRequestUpdateCatalog,
    /// Тип запроса ЗЦИ
    PriceInformationRequestType,
    /// Статусы ТКП
    TcpStatus,
    /// Справочник решений
    DepartmentResponseStatus,
    /// Справочник ОКПД2
    Okpd2,
    /// Справочник Статья бюджета
    BudgetItem,
    /// Справочник ВПЗ
    Category,
    /// Структура организаций
    OrganizationalStructure,
    /// Справочник "Основания аннулирования"
    PlanReasonCancelImpactArea,
    /// Справочник "Функциональность"
    PlanReasonCancelFunctionality,
    /// Справочник "Проверки для ППЗ"
    PlanReasonCancelCheckReason,
}

/// Тип справочника по имени из запроса; `None`, если имя неизвестно.
pub open spec fn directory_of(s: Seq<char>) -> Option<DirectoryType> {
    if s == "agenda_status"@ {
        Some(DirectoryType::EstimatedCommissionAgendaStatus)
    } else if s == "analysis_method"@ {
        Some(DirectoryType::AnalysisMethod)
    } else if s == "assigning_executor_method"@ {
        Some(DirectoryType::AssigningExecutorMethod)
    } else if s == "critical_type_color_scheme"@ {
        Some(DirectoryType::CriticalTypeColorScheme)
    } else if s == "estimated_commission_agenda_status"@ {
        Some(DirectoryType::EstimatedCommissionAgendaStatus)
    } else if s == "estimated_commission_protocol_status"@ {
        Some(DirectoryType::EstimatedCommissionProtocolStatus)
    } else if s == "estimated_commission_result"@ {
        Some(DirectoryType::EstimatedCommissionResult)
    } else if s == "expert_conclusion_type"@ {
        Some(DirectoryType::ExpertConclusionType)
    } else if s == "organization"@ {
        Some(DirectoryType::Organization)
    } else if s == "payment_conditions"@ {
        Some(DirectoryType::PaymentConditions)
    } else if s == "ppz_type"@ {
        Some(DirectoryType::PpzType)
    } else if s == "price_information_request_type"@ {
        Some(DirectoryType::PriceInformationRequestType)
    } else if s == "price_analysis_method"@ {
        Some(DirectoryType::PriceAnalysisMethod)
    } else if s == "pricing_organization_unit"@ {
        Some(DirectoryType::PricingUnit)
    } else if s == "pricing_unit"@ {
        Some(DirectoryType::PricingUnit)
    } else if s == "protocol_status"@ {
        Some(DirectoryType::EstimatedCommissionProtocolStatus)
    } else if s == "protocol_type"@ {
        Some(DirectoryType::EstimatedCommissionProtocolType)
    } else if s == "scheduler_request_update_catalog"@ {
        Some(DirectoryType::SchedulerRequestUpdateCatalog)
    } else if s == "request_type"@ {
        Some(DirectoryType::PriceInformationRequestType)
    } else if s == "status_type"@ {
        Some(DirectoryType::TcpStatus)
    } else if s == "okpd2"@ {
        Some(DirectoryType::Okpd2)
    } else if s == "category"@ {
        Some(DirectoryType::Category)
    } else if s == "budget_item"@ {
        Some(DirectoryType::BudgetItem)
    } else if s == "organizational_structure"@ {
        Some(DirectoryType::OrganizationalStructure)
    } else if s == "plan_reason_cancel_impact_area"@ {
        Some(DirectoryType::PlanReasonCancelImpactArea)
    } else if s == "plan_reason_cancel_functionality"@ {
        Some(DirectoryType::PlanReasonCancelFunctionality)
    } else if s == "plan_reason_cancel_check_reason"@ {
        Some(DirectoryType::PlanReasonCancelCheckReason)
    } else {
        None
    }
}

/// Текст ошибки для неизвестного имени справочника.
pub open spec fn unknown_directory_text(s: Seq<char>) -> Seq<char> {
    "Directory with name "@ + s + " not found"@
}

/// Имя варианта (то, что печатает `Display`).
pub open spec fn directory_name(d: DirectoryType) -> Seq<char> {
    match d {
        DirectoryType::AnalysisMethod => "AnalysisMethod"@,
        DirectoryType::AssigningExecutorMethod => "AssigningExecutorMethod"@,
        DirectoryType::CriticalTypeColorScheme => "CriticalTypeColorScheme"@,
        DirectoryType::EstimatedCommissionResult => "EstimatedCommissionResult"@,
        DirectoryType::EstimatedCommissionAgendaStatus => "EstimatedCommissionAgendaStatus"@,
        DirectoryType::EstimatedCommissionProtocolStatus => "EstimatedCommissionProtocolStatus"@,
        DirectoryType::EstimatedCommissionProtocolType => "EstimatedCommissionProtocolType"@,
        DirectoryType::ExpertConclusionType => "ExpertConclusionType"@,
        DirectoryType::ObjectType => "ObjectType"@,
        DirectoryType::Organization => "Organization"@,
        DirectoryType::PaymentConditions => "PaymentConditions"@,
        DirectoryType::PpzType => "PpzType"@,
        DirectoryType::PriceAnalysisMethod => "PriceAnalysisMethod"@,
        DirectoryType::PricingUnit => "PricingUnit"@,
        DirectoryType::SchedulerRequestUpdateCatalog => "SchedulerRequestUpdateCatalog"@,
        DirectoryType::PriceInformationRequestType => "PriceInformationRequestType"@,
        DirectoryType::TcpStatus => "TcpStatus"@,
        DirectoryType::DepartmentResponseStatus => "DepartmentResponseStatus"@,
        DirectoryType::Okpd2 => "Okpd2"@,
        DirectoryType::BudgetItem => "BudgetItem"@,
        DirectoryType::Category => "Category"@,
        DirectoryType::OrganizationalStructure => "OrganizationalStructure"@,
        DirectoryType::PlanReasonCancelImpactArea => "PlanReasonCancelImpactArea"@,
        DirectoryType::PlanReasonCancelFunctionality => "PlanReasonCancelFunctionality"@,
        DirectoryType::PlanReasonCancelCheckReason => "PlanReasonCancelCheckReason"@,
    }
}

impl DirectoryType {
    /// Тип справочника по имени из запроса; для неизвестного имени -- текст ошибки.
    pub fn try_from_name(value: &str) -> (r: Result<DirectoryType, MasterDataError>)
        ensures
            match directory_of(value@) {
                Some(d) => r == Ok::<DirectoryType, MasterDataError>(d),
                None => r matches Err(MasterDataError::InternalError(m)) && m@ == unknown_directory_text(value@),
            },
    {
        if str_eq(value, "agenda_status") {
            Ok(DirectoryType::EstimatedCommissionAgendaStatus)
        } else if str_eq(value, "analysis_method") {
            Ok(DirectoryType::AnalysisMethod)
        } else if str_eq(value, "assigning_executor_method") {
            Ok(DirectoryType::AssigningExecutorMethod)
        } else if str_eq(value, "critical_type_color_scheme") {
            Ok(DirectoryType::CriticalTypeColorScheme)
        } else if str_eq(value, "estimated_commission_agenda_status") {
            Ok(DirectoryType::EstimatedCommissionAgendaStatus)
        } else if str_eq(value, "estimated_commission_protocol_status") {
            Ok(DirectoryType::EstimatedCommissionProtocolStatus)
        } else if str_eq(value, "estimated_commission_result") {
            Ok(DirectoryType::EstimatedCommissionResult)
        } else if str_eq(value, "expert_conclusion_type") {
            Ok(DirectoryType::ExpertConclusionType)
        } else if str_eq(value, "organization") {
            Ok(DirectoryType::Organization)
        } else if str_eq(value, "payment_conditions") {
            Ok(DirectoryType::PaymentConditions)
        } else if str_eq(value, "ppz_type") {
            Ok(DirectoryType::PpzType)
        } else if str_eq(value, "price_information_request_type") {
            Ok(DirectoryType::PriceInformationRequestType)
        } else if str_eq(value, "price_analysis_method") {
            Ok(DirectoryType::PriceAnalysisMethod)
        } else if str_eq(value, "pricing_organization_unit") {
            Ok(DirectoryType::PricingUnit)
        } else if str_eq(value, "pricing_unit") {
            Ok(DirectoryType::PricingUnit)
        } else if str_eq(value, "protocol_status") {
            Ok(DirectoryType::EstimatedCommissionProtocolStatus)
        } else if str_eq(value, "protocol_type") {
            Ok(DirectoryType::EstimatedCommissionProtocolType)
        } else if str_eq(value, "scheduler_request_update_catalog") {
            Ok(DirectoryType::SchedulerRequestUpdateCatalog)
        } else if str_eq(value, "request_type") {
            Ok(DirectoryType::PriceInformationRequestType)
        } else if str_eq(value, "status_type") {
            Ok(DirectoryType::TcpStatus)
        } else if str_eq(value, "okpd2") {
            Ok(DirectoryType::Okpd2)
        } else if str_eq(value, "category") {
            Ok(DirectoryType::Category)
        } else if str_eq(value, "budget_item") {
            Ok(DirectoryType::BudgetItem)
        } else if str_eq(value, "organizational_structure") {
            Ok(DirectoryType::OrganizationalStructure)
        } else if str_eq(value, "plan_reason_cancel_impact_area") {
            Ok(DirectoryType::PlanReasonCancelImpactArea)
        } else if str_eq(value, "plan_reason_cancel_functionality") {
            Ok(DirectoryType::PlanReasonCancelFunctionality)
        } else if str_eq(value, "plan_reason_cancel_check_reason") {
            Ok(DirectoryType::PlanReasonCancelCheckReason)
        } else {
            let mut m = String::from_str("Directory with name ");
            m.append(value);
            m.append(" not found");
            Err(MasterDataError::InternalError(m))
        }
    }

    /// Имя варианта (то, что печатает `Display`).
    pub fn name(&self) -> (r: &'static str)
        ensures
            r@ == directory_name(*self),
    {
        match self {
            DirectoryType::AnalysisMethod => "AnalysisMethod",
            DirectoryType::AssigningExecutorMethod => "AssigningExecutorMethod",
            DirectoryType::CriticalTypeColorScheme => "CriticalTypeColorScheme",
            DirectoryType::EstimatedCommissionResult => "EstimatedCommissionResult",
            DirectoryType::EstimatedCommissionAgendaStatus => "EstimatedCommissionAgendaStatus",
            DirectoryType::EstimatedCommissionProtocolStatus => "EstimatedCommissionProtocolStatus",
            DirectoryType::EstimatedCommissionProtocolType => "EstimatedCommissionProtocolType",
            DirectoryType::ExpertConclusionType => "ExpertConclusionType",
            DirectoryType::ObjectType => "ObjectType",
            DirectoryType::Organization => "Organization",
            DirectoryType::PaymentConditions => "PaymentConditions",
            DirectoryType::PpzType => "PpzType",
            DirectoryType::PriceAnalysisMethod => "PriceAnalysisMethod",
            DirectoryType::PricingUnit => "PricingUnit",
            DirectoryType::SchedulerRequestUpdateCatalog => "SchedulerRequestUpdateCatalog",
            DirectoryType::PriceInformationRequestType => "PriceInformationRequestType",
            DirectoryType::TcpStatus => "TcpStatus",
            DirectoryType::DepartmentResponseStatus => "DepartmentResponseStatus",
            DirectoryType::Okpd2 => "Okpd2",
            DirectoryType::BudgetItem => "BudgetItem",
            DirectoryType::Category => "Category",
            DirectoryType::OrganizationalStructure => "OrganizationalStructure",
            DirectoryType::PlanReasonCancelImpactArea => "PlanReasonCancelImpactArea",
            DirectoryType::PlanReasonCancelFunctionality => "PlanReasonCancelFunctionality",
            DirectoryType::PlanReasonCancelCheckReason => "PlanReasonCancelCheckReason",
        }
    }
}

} // verus!
