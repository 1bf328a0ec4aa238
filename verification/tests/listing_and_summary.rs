use erp_core::model::{Customer, Product, TransactionStatus};
use erp_core::requests::{
    CreateTransactionItemRequest, CreateTransactionRequest, UpdateTransactionRequest,
};
use erp_core::store::Store;
use erp_core::errors::AppError;

fn seeded_store() -> Store {
    let mut store = Store::new();
    store.register_customer(Customer { id: 1, name: "Acme".to_string() }).unwrap();
    store.register_customer(Customer { id: 2, name: "Bolt".to_string() }).unwrap();
    store.register_product(Product { id: 10, name: "Widget".to_string(), is_active: true }).unwrap();
    store
}

fn request(
    customer_id: i64,
    transaction_type: &str,
    date: i64,
    amount_cents: i64,
) -> CreateTransactionRequest {
    CreateTransactionRequest {
        customer_id,
        transaction_type: transaction_type.to_string(),
        transaction_date: date,
        items: vec![CreateTransactionItemRequest {
            product_id: 10,
            quantity: 1000,
            unit_price: amount_cents,
            tax_rate: 0,
        }],
        notes: None,
    }
}

#[test]
fn listing_orders_by_date_then_creation_descending() {
    let mut store = seeded_store();
    let a = store.create_transaction(request(1, "sale", 100, 100), 1).unwrap().transaction.id;
    let b = store.create_transaction(request(1, "sale", 300, 200), 2).unwrap().transaction.id;
    let c = store.create_transaction(request(1, "sale", 200, 300), 3).unwrap().transaction.id;
    let d = store.create_transaction(request(1, "sale", 200, 400), 4).unwrap().transaction.id;
    let listed = store.get_transactions(None, None, None, None).unwrap();
    let ids: Vec<i64> = listed.iter().map(|t| t.transaction.id).collect();
    // Highest date first; among equal dates the later creation first.
    assert_eq!(ids, vec![b, d, c, a]);
}

#[test]
fn listing_filters_by_type_and_customer() {
    let mut store = seeded_store();
    store.create_transaction(request(1, "sale", 100, 100), 1).unwrap();
    store.create_transaction(request(2, "purchase", 200, 200), 2).unwrap();
    store.create_transaction(request(2, "sale", 300, 300), 3).unwrap();
    let sales = store
        .get_transactions(Some("sale".to_string()), None, None, None)
        .unwrap();
    assert_eq!(sales.len(), 2);
    let of_two = store.get_transactions(None, Some(2), None, None).unwrap();
    assert_eq!(of_two.len(), 2);
    let sales_of_two = store
        .get_transactions(Some("sale".to_string()), Some(2), None, None)
        .unwrap();
    assert_eq!(sales_of_two.len(), 1);
    assert_eq!(sales_of_two[0].transaction.transaction_date, 300);
    let none = store
        .get_transactions(Some("refund".to_string()), None, None, None)
        .unwrap();
    assert_eq!(none.len(), 0);
}

#[test]
fn listing_applies_limit_and_offset() {
    let mut store = seeded_store();
    for day in 1..=5 {
        store.create_transaction(request(1, "sale", day * 10, 100), day).unwrap();
    }
    let all = store.get_transactions(None, None, None, None).unwrap();
    assert_eq!(all.len(), 5);
    let first_two = store.get_transactions(None, None, Some(2), None).unwrap();
    assert_eq!(first_two.len(), 2);
    assert_eq!(first_two[0].transaction.transaction_date, 50);
    assert_eq!(first_two[1].transaction.transaction_date, 40);
    let middle = store.get_transactions(None, None, Some(2), Some(2)).unwrap();
    assert_eq!(middle.len(), 2);
    assert_eq!(middle[0].transaction.transaction_date, 30);
    assert_eq!(middle[1].transaction.transaction_date, 20);
    let past_end = store.get_transactions(None, None, Some(2), Some(10)).unwrap();
    assert_eq!(past_end.len(), 0);
    // An offset without a limit is ignored.
    let no_limit = store.get_transactions(None, None, None, Some(3)).unwrap();
    assert_eq!(no_limit.len(), 5);
}

#[test]
fn summary_excludes_cancelled_and_respects_filters() {
    let mut store = seeded_store();
    let a = store.create_transaction(request(1, "sale", 100, 1000), 1).unwrap().transaction.id;
    store.create_transaction(request(1, "sale", 200, 2000), 2).unwrap();
    store.create_transaction(request(1, "purchase", 300, 4000), 3).unwrap();
    store.cancel_transaction(a, 4).unwrap();
    let all = store.get_transaction_summary(None, None, None).unwrap();
    assert_eq!(all.count, 2);
    assert_eq!(all.total_amount, 6000);
    assert_eq!(all.tax_amount, 0);
    let sales = store
        .get_transaction_summary(Some("sale".to_string()), None, None)
        .unwrap();
    assert_eq!(sales.count, 1);
    assert_eq!(sales.total_amount, 2000);
    let ranged = store.get_transaction_summary(None, Some(150), Some(250)).unwrap();
    assert_eq!(ranged.count, 1);
    assert_eq!(ranged.total_amount, 2000);
}

#[test]
fn summary_with_zero_matches_is_all_zero() {
    let mut store = seeded_store();
    let a = store.create_transaction(request(1, "sale", 100, 1000), 1).unwrap().transaction.id;
    store.cancel_transaction(a, 2).unwrap();
    let s = store.get_transaction_summary(None, None, None).unwrap();
    assert_eq!(s.count, 0);
    assert_eq!(s.total_amount, 0);
    assert_eq!(s.tax_amount, 0);
    let empty_range = store.get_transaction_summary(None, Some(900), Some(999)).unwrap();
    assert_eq!(empty_range.count, 0);
}

#[test]
fn summary_includes_tax_sums() {
    let mut store = seeded_store();
    let mut req = request(1, "sale", 100, 1000);
    req.items[0].tax_rate = 1000;
    store.create_transaction(req, 1).unwrap();
    let s = store.get_transaction_summary(None, None, None).unwrap();
    assert_eq!(s.total_amount, 1100);
    assert_eq!(s.tax_amount, 100);
}

#[test]
fn update_rewrites_only_supplied_fields() {
    let mut store = seeded_store();
    let created = store.create_transaction(request(1, "sale", 100, 1000), 1).unwrap();
    let id = created.transaction.id;
    let updated = store
        .update_transaction(
            id,
            UpdateTransactionRequest {
                customer_id: None,
                transaction_date: None,
                status: None,
                notes: Some("rush order".to_string()),
            },
            9,
        )
        .unwrap();
    assert_eq!(updated.transaction.notes.as_deref(), Some("rush order"));
    assert_eq!(updated.transaction.customer_id, 1);
    assert_eq!(updated.transaction.transaction_date, 100);
    assert_eq!(updated.transaction.status, TransactionStatus::Draft);
    assert_eq!(updated.transaction.updated_at, 9);
    assert_eq!(updated.transaction.total_amount, 1000);

    let moved = store
        .update_transaction(
            id,
            UpdateTransactionRequest {
                customer_id: Some(2),
                transaction_date: Some(555),
                status: Some("confirmed".to_string()),
                notes: None,
            },
            10,
        )
        .unwrap();
    assert_eq!(moved.transaction.customer_id, 2);
    assert_eq!(moved.customer.name, "Bolt");
    assert_eq!(moved.transaction.transaction_date, 555);
    assert_eq!(moved.transaction.status, TransactionStatus::Confirmed);
    assert_eq!(moved.transaction.notes.as_deref(), Some("rush order"));
}

#[test]
fn update_failures() {
    let mut store = seeded_store();
    let id = store.create_transaction(request(1, "sale", 100, 1000), 1).unwrap().transaction.id;
    let none = UpdateTransactionRequest {
        customer_id: None,
        transaction_date: None,
        status: None,
        notes: None,
    };
    let err = store.update_transaction(404, none, 2).unwrap_err();
    assert!(matches!(err, AppError::NotFound(_)));
    let err = store
        .update_transaction(
            id,
            UpdateTransactionRequest {
                customer_id: Some(99),
                transaction_date: None,
                status: None,
                notes: None,
            },
            2,
        )
        .unwrap_err();
    assert!(matches!(err, AppError::NotFound(_)));
    let err = store
        .update_transaction(
            id,
            UpdateTransactionRequest {
                customer_id: None,
                transaction_date: None,
                status: Some("archived".to_string()),
                notes: None,
            },
            2,
        )
        .unwrap_err();
    assert!(matches!(err, AppError::Validation(_)));
    let err = store
        .update_transaction(
            id,
            UpdateTransactionRequest {
                customer_id: None,
                transaction_date: None,
                status: None,
                notes: None,
            },
            2,
        )
        .unwrap_err();
    assert!(matches!(err, AppError::Validation(_)));
    // None of the failures changed the stored transaction.
    let still = store.get_transaction_by_id(id).unwrap().unwrap();
    assert_eq!(still.transaction.customer_id, 1);
    assert_eq!(still.transaction.updated_at, 1);
}
