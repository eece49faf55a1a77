//! The administrative API's data types and their parsing decisions.

use auth_tokens::api::{CheckPermissionPayload, DocumentType, PersonType};

#[test]
fn person_type_tags_parse() {
    assert_eq!(PersonType::parse("N"), PersonType::N);
    assert_eq!(PersonType::parse("J"), PersonType::J);
    // Anything unrecognized falls back to a natural person.
    assert_eq!(PersonType::parse("j"), PersonType::N);
    assert_eq!(PersonType::parse(""), PersonType::N);
    assert_eq!(PersonType::parse("JURIDICAL"), PersonType::N);
}

#[test]
fn document_type_tags_parse() {
    assert_eq!(DocumentType::parse("DNI"), DocumentType::DNI);
    assert_eq!(DocumentType::parse("CE"), DocumentType::CE);
    assert_eq!(DocumentType::parse("RUC"), DocumentType::RUC);
    // Anything unrecognized falls back to the national identity document.
    assert_eq!(DocumentType::parse("ce"), DocumentType::DNI);
    assert_eq!(DocumentType::parse(""), DocumentType::DNI);
}

#[test]
fn check_permission_params_need_all_three() {
    let full = CheckPermissionPayload::from_params(Some(1), Some(2), Some("read".to_string()));
    let p = full.unwrap();
    assert_eq!(p.person_id, 1);
    assert_eq!(p.service_id, 2);
    assert_eq!(p.permission_name, "read");

    assert!(CheckPermissionPayload::from_params(None, Some(2), Some("read".to_string())).is_none());
    assert!(CheckPermissionPayload::from_params(Some(1), None, Some("read".to_string())).is_none());
    assert!(CheckPermissionPayload::from_params(Some(1), Some(2), None).is_none());
}
