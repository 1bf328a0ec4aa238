use erp_core::errors::AppError;
use erp_core::model::{
    parse_status, parse_type, status_string, type_string, Customer, Product, TransactionStatus,
    TransactionType,
};
use erp_core::requests::{
    validate_create_customer, validate_update_company, validate_update_customer,
    CreateCustomerRequest, UpdateCompanyRequest, UpdateCustomerRequest,
};
use erp_core::store::Store;

#[test]
fn type_and_status_names_round_trip() {
    assert_eq!(type_string(TransactionType::Sale), "sale");
    assert_eq!(type_string(TransactionType::Purchase), "purchase");
    assert_eq!(status_string(TransactionStatus::Draft), "draft");
    assert_eq!(status_string(TransactionStatus::Confirmed), "confirmed");
    assert_eq!(status_string(TransactionStatus::Cancelled), "cancelled");
    assert_eq!(parse_type("sale"), Some(TransactionType::Sale));
    assert_eq!(parse_type("purchase"), Some(TransactionType::Purchase));
    assert_eq!(parse_type("gift"), None);
    assert_eq!(parse_status("draft"), Some(TransactionStatus::Draft));
    assert_eq!(parse_status("confirmed"), Some(TransactionStatus::Confirmed));
    assert_eq!(parse_status("cancelled"), Some(TransactionStatus::Cancelled));
    assert_eq!(parse_status("void"), None);
}

#[test]
fn error_responses_carry_stable_codes() {
    let r = AppError::NotFound("Customer not found".to_string()).to_response();
    assert_eq!(r.code, "NOT_FOUND");
    assert_eq!(r.error, "Customer not found");
    assert!(r.details.is_none());

    let r = AppError::Validation("bad input".to_string()).to_response();
    assert_eq!(r.code, "VALIDATION_ERROR");
    assert_eq!(r.error, "bad input");
    assert!(r.details.is_none());

    let r = AppError::Business("rule broken".to_string()).to_response();
    assert_eq!(r.code, "BUSINESS_ERROR");
    assert_eq!(r.error, "rule broken");

    let r = AppError::Database("disk gone".to_string()).to_response();
    assert_eq!(r.code, "DATABASE_ERROR");
    assert_eq!(r.error, "Database operation failed");
    assert_eq!(r.details.as_deref(), Some("disk gone"));

    let r = AppError::Io("file gone".to_string()).to_response();
    assert_eq!(r.code, "IO_ERROR");
    assert_eq!(r.details.as_deref(), Some("file gone"));

    let r = AppError::Serialization("bad json".to_string()).to_response();
    assert_eq!(r.code, "SERIALIZATION_ERROR");
    assert_eq!(r.details.as_deref(), Some("bad json"));

    let r = AppError::External("service down".to_string()).to_response();
    assert_eq!(r.code, "EXTERNAL_ERROR");
    assert_eq!(r.error, "service down");
}

fn customer_request(customer_type: &str) -> CreateCustomerRequest {
    CreateCustomerRequest {
        name: "Acme".to_string(),
        business_number: None,
        address: None,
        phone: None,
        email: None,
        contact_person: None,
        customer_type: customer_type.to_string(),
    }
}

#[test]
fn customer_creation_requires_a_customer_kind() {
    assert!(validate_create_customer(&customer_request("customer")).is_ok());
    assert!(validate_create_customer(&customer_request("supplier")).is_ok());
    let err = validate_create_customer(&customer_request("partner")).unwrap_err();
    assert!(matches!(err, AppError::Validation(_)));
}

#[test]
fn customer_update_requires_valid_kind_and_some_field() {
    let empty = UpdateCustomerRequest {
        name: None,
        business_number: None,
        address: None,
        phone: None,
        email: None,
        contact_person: None,
        customer_type: None,
    };
    let err = validate_update_customer(&empty).unwrap_err();
    assert!(matches!(err, AppError::Validation(_)));

    let renamed = UpdateCustomerRequest { name: Some("Bolt".to_string()), ..empty };
    assert!(validate_update_customer(&renamed).is_ok());

    let bad_kind = UpdateCustomerRequest {
        customer_type: Some("partner".to_string()),
        name: None,
        business_number: None,
        address: None,
        phone: None,
        email: None,
        contact_person: None,
    };
    let err = validate_update_customer(&bad_kind).unwrap_err();
    assert!(matches!(err, AppError::Validation(_)));
}

#[test]
fn company_update_requires_some_field() {
    let empty = UpdateCompanyRequest {
        name: None,
        business_number: None,
        address: None,
        phone: None,
        email: None,
        representative: None,
        business_type: None,
        business_category: None,
    };
    let err = validate_update_company(&empty).unwrap_err();
    assert!(matches!(err, AppError::Validation(_)));
    let named = UpdateCompanyRequest { name: Some("Acme GmbH".to_string()), ..empty };
    assert!(validate_update_company(&named).is_ok());
}

#[test]
fn duplicate_collaborator_registration_is_rejected() {
    let mut store = Store::new();
    store.register_customer(Customer { id: 1, name: "Acme".to_string() }).unwrap();
    let err = store
        .register_customer(Customer { id: 1, name: "Copy".to_string() })
        .unwrap_err();
    assert!(matches!(err, AppError::Validation(_)));
    store
        .register_product(Product { id: 1, name: "Widget".to_string(), is_active: true })
        .unwrap();
    let err = store
        .register_product(Product { id: 1, name: "Copy".to_string(), is_active: false })
        .unwrap_err();
    assert!(matches!(err, AppError::Validation(_)));
}
