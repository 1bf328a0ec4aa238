use erp_core::errors::AppError;
use erp_core::model::{Customer, Product, TransactionStatus, TransactionType};
use erp_core::requests::{CreateTransactionItemRequest, CreateTransactionRequest};
use erp_core::store::Store;

fn store_with_collaborators() -> Store {
    let mut store = Store::new();
    store
        .register_customer(Customer { id: 1, name: "Acme Trading".to_string() })
        .unwrap();
    store
        .register_customer(Customer { id: 2, name: "Northwind".to_string() })
        .unwrap();
    store
        .register_product(Product { id: 10, name: "Widget".to_string(), is_active: true })
        .unwrap();
    store
        .register_product(Product { id: 11, name: "Gadget".to_string(), is_active: true })
        .unwrap();
    store
        .register_product(Product { id: 12, name: "Relic".to_string(), is_active: false })
        .unwrap();
    store
}

fn sale_request(customer_id: i64, items: Vec<CreateTransactionItemRequest>) -> CreateTransactionRequest {
    CreateTransactionRequest {
        customer_id,
        transaction_type: "sale".to_string(),
        transaction_date: 1_700_000_000_000,
        items,
        notes: None,
    }
}

fn item(product_id: i64, quantity: i64, unit_price: i64, tax_rate: i64) -> CreateTransactionItemRequest {
    CreateTransactionItemRequest { product_id, quantity, unit_price, tax_rate }
}

#[test]
fn create_sale_with_two_items_derives_exact_totals() {
    // Quantities in thousandths, prices in cents, rates in basis points:
    // 2 units at 10.00 with 10% tax, 1 unit at 5.00 untaxed.
    let mut store = store_with_collaborators();
    let twi = store
        .create_transaction(
            sale_request(1, vec![item(10, 2000, 1000, 1000), item(11, 1000, 500, 0)]),
            42,
        )
        .unwrap();
    assert_eq!(twi.transaction.total_amount, 2700);
    assert_eq!(twi.transaction.tax_amount, 200);
    assert_eq!(twi.transaction.status, TransactionStatus::Draft);
    assert_eq!(twi.transaction.transaction_type, TransactionType::Sale);
    assert_eq!(twi.transaction.created_at, 42);
    assert_eq!(twi.items.len(), 2);
    assert_eq!(twi.items[0].item.subtotal, 2000);
    assert_eq!(twi.items[0].item.tax_amount, 200);
    assert_eq!(twi.items[0].item.total_amount, 2200);
    assert_eq!(twi.items[1].item.subtotal, 500);
    assert_eq!(twi.items[1].item.tax_amount, 0);
    assert_eq!(twi.items[1].item.total_amount, 500);
    assert_eq!(twi.customer.name, "Acme Trading");
    assert_eq!(twi.items[0].product.name, "Widget");
}

#[test]
fn transaction_totals_are_sums_over_items() {
    let mut store = store_with_collaborators();
    let twi = store
        .create_transaction(
            sale_request(
                1,
                vec![item(10, 1500, 999, 550), item(11, 3000, 250, 1000), item(10, 1, 1, 10000)],
            ),
            0,
        )
        .unwrap();
    let total: u64 = twi.items.iter().map(|i| i.item.total_amount).sum();
    let tax: u64 = twi.items.iter().map(|i| i.item.tax_amount).sum();
    assert_eq!(twi.transaction.total_amount, total);
    assert_eq!(twi.transaction.tax_amount, tax);
    for it in &twi.items {
        assert_eq!(it.item.total_amount, it.item.subtotal + it.item.tax_amount);
        assert_eq!(
            it.item.subtotal,
            it.item.quantity * it.item.unit_price / 1000
        );
        assert_eq!(it.item.tax_amount, it.item.subtotal * it.item.tax_rate / 10000);
    }
}

#[test]
fn fixed_point_amounts_round_down() {
    let mut store = store_with_collaborators();
    // 1.5 units at 9.99 and 5.5% tax: subtotal 1498 (floor), tax 82 (floor).
    let twi = store
        .create_transaction(sale_request(1, vec![item(10, 1500, 999, 550)]), 0)
        .unwrap();
    assert_eq!(twi.items[0].item.subtotal, 1498);
    assert_eq!(twi.items[0].item.tax_amount, 82);
    assert_eq!(twi.transaction.total_amount, 1580);
}

#[test]
fn create_with_empty_item_list_fails_with_validation() {
    let mut store = store_with_collaborators();
    let err = store.create_transaction(sale_request(1, vec![]), 0).unwrap_err();
    assert!(matches!(err, AppError::Validation(_)));
}

#[test]
fn create_with_unknown_customer_fails_with_not_found() {
    let mut store = store_with_collaborators();
    let err = store
        .create_transaction(sale_request(99, vec![item(10, 1000, 100, 0)]), 0)
        .unwrap_err();
    assert!(matches!(err, AppError::NotFound(_)));
}

#[test]
fn create_with_inactive_product_fails_with_not_found() {
    let mut store = store_with_collaborators();
    let err = store
        .create_transaction(sale_request(1, vec![item(12, 1000, 100, 0)]), 0)
        .unwrap_err();
    assert!(matches!(err, AppError::NotFound(_)));
}

#[test]
fn create_with_unknown_product_fails_with_not_found() {
    let mut store = store_with_collaborators();
    let err = store
        .create_transaction(sale_request(1, vec![item(77, 1000, 100, 0)]), 0)
        .unwrap_err();
    assert!(matches!(err, AppError::NotFound(_)));
}

#[test]
fn create_with_bad_type_fails_with_validation() {
    let mut store = store_with_collaborators();
    let mut req = sale_request(1, vec![item(10, 1000, 100, 0)]);
    req.transaction_type = "refund".to_string();
    let err = store.create_transaction(req, 0).unwrap_err();
    assert!(matches!(err, AppError::Validation(_)));
}

#[test]
fn create_rejects_out_of_range_item_fields() {
    let mut store = store_with_collaborators();
    let err = store
        .create_transaction(sale_request(1, vec![item(10, 0, 100, 0)]), 0)
        .unwrap_err();
    assert!(matches!(err, AppError::Validation(_)));
    let err = store
        .create_transaction(sale_request(1, vec![item(10, 1000, -1, 0)]), 0)
        .unwrap_err();
    assert!(matches!(err, AppError::Validation(_)));
    let err = store
        .create_transaction(sale_request(1, vec![item(10, 1000, 100, 10001)]), 0)
        .unwrap_err();
    assert!(matches!(err, AppError::Validation(_)));
    let err = store
        .create_transaction(sale_request(1, vec![item(10, 1000, 100, -1)]), 0)
        .unwrap_err();
    assert!(matches!(err, AppError::Validation(_)));
}

#[test]
fn create_rejects_unrepresentable_amounts() {
    let mut store = store_with_collaborators();
    let err = store
        .create_transaction(
            sale_request(1, vec![item(10, i64::MAX, i64::MAX, 0)]),
            0,
        )
        .unwrap_err();
    assert!(matches!(err, AppError::Validation(_)));
}

#[test]
fn failed_create_leaves_store_unchanged() {
    let mut store = store_with_collaborators();
    store
        .create_transaction(sale_request(1, vec![item(10, 1000, 100, 0)]), 0)
        .unwrap();
    let _ = store.create_transaction(sale_request(1, vec![item(12, 1000, 100, 0)]), 0);
    let listed = store.get_transactions(None, None, None, None).unwrap();
    assert_eq!(listed.len(), 1);
}

#[test]
fn get_returns_created_transaction_and_none_for_absent_id() {
    let mut store = store_with_collaborators();
    let twi = store
        .create_transaction(sale_request(2, vec![item(10, 1000, 100, 0)]), 7)
        .unwrap();
    let id = twi.transaction.id;
    let fetched = store.get_transaction_by_id(id).unwrap().unwrap();
    assert_eq!(fetched.transaction.id, id);
    assert_eq!(fetched.customer.id, 2);
    assert!(store.get_transaction_by_id(id + 100).unwrap().is_none());
}

#[test]
fn confirm_moves_draft_to_confirmed_and_reconfirm_fails() {
    let mut store = store_with_collaborators();
    let id = store
        .create_transaction(sale_request(1, vec![item(10, 1000, 100, 0)]), 1)
        .unwrap()
        .transaction
        .id;
    let confirmed = store.confirm_transaction(id, 2).unwrap();
    assert_eq!(confirmed.transaction.status, TransactionStatus::Confirmed);
    assert_eq!(confirmed.transaction.updated_at, 2);
    let err = store.confirm_transaction(id, 3).unwrap_err();
    assert!(matches!(err, AppError::Business(_)));
    let still = store.get_transaction_by_id(id).unwrap().unwrap();
    assert_eq!(still.transaction.status, TransactionStatus::Confirmed);
    assert_eq!(still.transaction.updated_at, 2);
}

#[test]
fn confirm_on_cancelled_fails_and_leaves_status_unchanged() {
    let mut store = store_with_collaborators();
    let id = store
        .create_transaction(sale_request(1, vec![item(10, 1000, 100, 0)]), 1)
        .unwrap()
        .transaction
        .id;
    store.cancel_transaction(id, 2).unwrap();
    let err = store.confirm_transaction(id, 3).unwrap_err();
    assert!(matches!(err, AppError::Business(_)));
    let still = store.get_transaction_by_id(id).unwrap().unwrap();
    assert_eq!(still.transaction.status, TransactionStatus::Cancelled);
}

#[test]
fn confirm_on_absent_id_fails_with_business() {
    let mut store = store_with_collaborators();
    let err = store.confirm_transaction(404, 0).unwrap_err();
    assert!(matches!(err, AppError::Business(_)));
}

#[test]
fn cancel_confirmed_transaction_then_recancel_fails() {
    let mut store = store_with_collaborators();
    let id = store
        .create_transaction(sale_request(1, vec![item(10, 1000, 100, 0)]), 1)
        .unwrap()
        .transaction
        .id;
    store.confirm_transaction(id, 2).unwrap();
    let cancelled = store.cancel_transaction(id, 3).unwrap();
    assert_eq!(cancelled.transaction.status, TransactionStatus::Cancelled);
    let err = store.cancel_transaction(id, 4).unwrap_err();
    assert!(matches!(err, AppError::Business(_)));
    let still = store.get_transaction_by_id(id).unwrap().unwrap();
    assert_eq!(still.transaction.status, TransactionStatus::Cancelled);
}

#[test]
fn delete_with_invoice_fails_and_keeps_transaction_intact() {
    let mut store = store_with_collaborators();
    let twi = store
        .create_transaction(
            sale_request(1, vec![item(10, 2000, 1000, 1000), item(11, 1000, 500, 0)]),
            1,
        )
        .unwrap();
    let id = twi.transaction.id;
    store.register_invoice(id);
    let err = store.delete_transaction(id).unwrap_err();
    assert!(matches!(err, AppError::Business(_)));
    let still = store.get_transaction_by_id(id).unwrap().unwrap();
    assert_eq!(still.items.len(), 2);
    assert_eq!(still.transaction.total_amount, 2700);
}

#[test]
fn delete_without_invoice_removes_transaction_and_items() {
    let mut store = store_with_collaborators();
    let id = store
        .create_transaction(sale_request(1, vec![item(10, 1000, 100, 0)]), 1)
        .unwrap()
        .transaction
        .id;
    store.delete_transaction(id).unwrap();
    assert!(store.get_transaction_by_id(id).unwrap().is_none());
    assert_eq!(store.get_transactions(None, None, None, None).unwrap().len(), 0);
}

#[test]
fn delete_of_absent_id_fails_with_not_found() {
    let mut store = store_with_collaborators();
    let err = store.delete_transaction(404).unwrap_err();
    assert!(matches!(err, AppError::NotFound(_)));
}
