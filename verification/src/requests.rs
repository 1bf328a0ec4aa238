//! Inbound request shapes and their field-level validation.
//!
//! Transaction requests feed the store; company and customer requests are
//! validated here and persisted by the surrounding application, which owns
//! those single-table collaborators.

use vstd::prelude::*;
use crate::errors::{AppError, AppResult};
use crate::model::str_eq;
use crate::money::TAX_RATE_SCALE;

verus! {

/// One requested line item.  `quantity` is in thousandths of a unit,
/// `unit_price` in cents, `tax_rate` in basis points; signed so that
/// out-of-range input can be received and rejected rather than excluded by
/// type.
#[derive(Clone, Copy, Debug, PartialEq, Eq, Structural)]
pub struct CreateTransactionItemRequest {
    pub product_id: i64,
    pub quantity: i64,
    pub unit_price: i64,
    pub tax_rate: i64,
}

/// A request to record a new transaction with its items.
#[derive(Debug)]
pub struct CreateTransactionRequest {
    pub customer_id: i64,
    pub transaction_type: String,
    pub transaction_date: i64,
    pub items: Vec<CreateTransactionItemRequest>,
    pub notes: Option<String>,
}

/// A partial update of a transaction's scalar fields; absent fields are left
/// untouched.
#[derive(Debug)]
pub struct UpdateTransactionRequest {
    pub customer_id: Option<i64>,
    pub transaction_date: Option<i64>,
    pub status: Option<String>,
    pub notes: Option<String>,
}

/// Whether an update request supplies at least one field.
pub open spec fn update_has_fields(r: &UpdateTransactionRequest) -> bool {
    ||| r.customer_id is Some
    ||| r.transaction_date is Some
    ||| r.status is Some
    ||| r.notes is Some
}

/// Whether one requested line item's fields are in range.
pub open spec fn item_request_valid(it: CreateTransactionItemRequest) -> bool {
    &&& 0 < it.quantity
    &&& 0 <= it.unit_price
    &&& 0 <= it.tax_rate <= TAX_RATE_SCALE
}

/// A request to register a company.
#[derive(Debug)]
pub struct CreateCompanyRequest {
    pub name: String,
    pub business_number: String,
    pub address: String,
    pub phone: Option<String>,
    pub email: Option<String>,
    pub representative: String,
    pub business_type: String,
    pub business_category: String,
}

/// A partial update of a company's fields.
#[derive(Debug)]
pub struct UpdateCompanyRequest {
    pub name: Option<String>,
    pub business_number: Option<String>,
    pub address: Option<String>,
    pub phone: Option<String>,
    pub email: Option<String>,
    pub representative: Option<String>,
    pub business_type: Option<String>,
    pub business_category: Option<String>,
}

/// A request to register a customer or supplier.
#[derive(Debug)]
pub struct CreateCustomerRequest {
    pub name: String,
    pub business_number: Option<String>,
    pub address: Option<String>,
    pub phone: Option<String>,
    pub email: Option<String>,
    pub contact_person: Option<String>,
    pub customer_type: String,
}

/// A partial update of a customer's fields.
#[derive(Debug)]
pub struct UpdateCustomerRequest {
    pub name: Option<String>,
    pub business_number: Option<String>,
    pub address: Option<String>,
    pub phone: Option<String>,
    pub email: Option<String>,
    pub contact_person: Option<String>,
    pub customer_type: Option<String>,
}

/// Whether a string names a customer kind.
pub open spec fn customer_type_valid(s: Seq<char>) -> bool {
    s == "customer"@ || s == "supplier"@
}

/// Whether a company update supplies at least one field.
pub open spec fn company_update_has_fields(r: &UpdateCompanyRequest) -> bool {
    ||| r.name is Some
    ||| r.business_number is Some
    ||| r.address is Some
    ||| r.phone is Some
    ||| r.email is Some
    ||| r.representative is Some
    ||| r.business_type is Some
    ||| r.business_category is Some
}

/// Whether a customer update supplies at least one field.
pub open spec fn customer_update_has_fields(r: &UpdateCustomerRequest) -> bool {
    ||| r.name is Some
    ||| r.business_number is Some
    ||| r.address is Some
    ||| r.phone is Some
    ||| r.email is Some
    ||| r.contact_person is Some
    ||| r.customer_type is Some
}

/// Field-level check of a customer-creation request: the customer type must
/// name one of the two customer kinds.
pub fn validate_create_customer(r: &CreateCustomerRequest) -> (res: AppResult<()>)
    ensures
        res is Ok <==> customer_type_valid(r.customer_type@),
        res matches Err(e) ==> e is Validation,
{
    if str_eq(r.customer_type.as_str(), "customer")
        || str_eq(r.customer_type.as_str(), "supplier") {
        Ok(())
    } else {
        Err(AppError::Validation("Customer type must be 'customer' or 'supplier'".to_owned()))
    }
}

/// Field-level check of a customer update: a supplied customer type must name
/// one of the two customer kinds, and at least one field must be supplied.
pub fn validate_update_customer(r: &UpdateCustomerRequest) -> (res: AppResult<()>)
    ensures
        res is Ok <==> {
            &&& (r.customer_type matches Some(t) ==> customer_type_valid(t@))
            &&& customer_update_has_fields(r)
        },
        res matches Err(e) ==> e is Validation,
{
    if let Some(t) = &r.customer_type {
        if !(str_eq(t.as_str(), "customer") || str_eq(t.as_str(), "supplier")) {
            return Err(AppError::Validation(
                "Customer type must be 'customer' or 'supplier'".to_owned(),
            ));
        }
    }
    if r.name.is_some() || r.business_number.is_some() || r.address.is_some()
        || r.phone.is_some() || r.email.is_some() || r.contact_person.is_some()
        || r.customer_type.is_some() {
        Ok(())
    } else {
        Err(AppError::Validation("No fields to update".to_owned()))
    }
}

/// Field-level check of a company update: at least one field must be supplied.
pub fn validate_update_company(r: &UpdateCompanyRequest) -> (res: AppResult<()>)
    ensures
        res is Ok <==> company_update_has_fields(r),
        res matches Err(e) ==> e is Validation,
{
    if r.name.is_some() || r.business_number.is_some() || r.address.is_some()
        || r.phone.is_some() || r.email.is_some() || r.representative.is_some()
        || r.business_type.is_some() || r.business_category.is_some() {
        Ok(())
    } else {
        Err(AppError::Validation("No fields to update".to_owned()))
    }
}

} // verus!
