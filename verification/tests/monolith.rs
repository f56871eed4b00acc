use asez2_shared_db::essential::external_id::{SimpleExtId, SimpleExtRecord};
use asez2_shared_db::essential::lookup::DictionaryKind;
use asez2_shared_db::essential::monolith::{
    dictionary_key_action, dictionary_kind_from_name, dictionary_record_parts, DictionaryKeyAction,
};

#[test]
fn dictionary_kinds_by_name() {
    assert_eq!(dictionary_kind_from_name("Status"), Some(DictionaryKind::Status));
    assert_eq!(
        dictionary_kind_from_name("ContractAmendmentApprovingDecision"),
        Some(DictionaryKind::ContractAmendmentApprovingDecision)
    );
    assert_eq!(dictionary_kind_from_name("status"), None);
    assert_eq!(dictionary_kind_from_name("Qualification"), None);
}

#[test]
fn dictionary_key_actions() {
    assert_eq!(dictionary_key_action(false, "type"), DictionaryKeyAction::SkipService);
    assert_eq!(dictionary_key_action(true, "changed_at"), DictionaryKeyAction::SkipService);
    assert_eq!(dictionary_key_action(false, "Unit"), DictionaryKeyAction::ReadItems(DictionaryKind::Unit));
    assert_eq!(dictionary_key_action(true, "Unit"), DictionaryKeyAction::SkipDuplicate);
    assert_eq!(dictionary_key_action(false, "Law2013Country"), DictionaryKeyAction::SkipUnknownKind);
}

#[test]
fn dictionary_record_result() {
    let items = vec![SimpleExtRecord { id: SimpleExtId::Int(1), text: "шт".into(), ..Default::default() }];
    let (kind, got) = dictionary_record_parts(Some(DictionaryKind::Unit), Some(items));
    assert_eq!(kind, DictionaryKind::Unit);
    assert_eq!(got.len(), 1);
    let (kind, got) = dictionary_record_parts(Some(DictionaryKind::Unit), None);
    assert_eq!(kind, DictionaryKind::Unknown);
    assert!(got.is_empty());
    let (kind, _) = dictionary_record_parts(None, Some(vec![]));
    assert_eq!(kind, DictionaryKind::Unknown);
}
