use erp_core::errors::AppError;
use erp_core::model::{
    Customer, Product, Transaction, TransactionItem, TransactionStatus, TransactionType,
};
use erp_core::store::Store;

fn collaborators(store: &mut Store) {
    store.register_customer(Customer { id: 1, name: "Acme".to_string() }).unwrap();
    store.register_product(Product { id: 10, name: "Widget".to_string(), is_active: false }).unwrap();
}

fn persisted_transaction() -> (Transaction, Vec<TransactionItem>) {
    let items = vec![
        TransactionItem {
            id: 5,
            transaction_id: 77,
            product_id: 10,
            quantity: 2000,
            unit_price: 1000,
            tax_rate: 1000,
            subtotal: 2000,
            tax_amount: 200,
            total_amount: 2200,
        },
        TransactionItem {
            id: 9,
            transaction_id: 77,
            product_id: 10,
            quantity: 1000,
            unit_price: 500,
            tax_rate: 0,
            subtotal: 500,
            tax_amount: 0,
            total_amount: 500,
        },
    ];
    let transaction = Transaction {
        id: 77,
        customer_id: 1,
        transaction_type: TransactionType::Purchase,
        transaction_date: 123,
        total_amount: 2700,
        tax_amount: 200,
        status: TransactionStatus::Confirmed,
        notes: Some("carried over".to_string()),
        created_at: 100,
        updated_at: 110,
    };
    (transaction, items)
}

#[test]
fn load_accepts_consistent_rows_and_keeps_fields() {
    let mut store = Store::new();
    collaborators(&mut store);
    let (transaction, items) = persisted_transaction();
    store.load_transaction(transaction, items).unwrap();
    let twi = store.get_transaction_by_id(77).unwrap().unwrap();
    assert_eq!(twi.transaction.status, TransactionStatus::Confirmed);
    assert_eq!(twi.transaction.created_at, 100);
    assert_eq!(twi.transaction.updated_at, 110);
    assert_eq!(twi.transaction.total_amount, 2700);
    assert_eq!(twi.items.len(), 2);
    assert_eq!(twi.items[0].item.id, 5);
    // An inactive product may stay on a historical transaction.
    assert_eq!(twi.items[0].product.name, "Widget");
}

#[test]
fn load_rejects_inconsistent_amounts() {
    let mut store = Store::new();
    collaborators(&mut store);
    let (transaction, mut items) = persisted_transaction();
    items[0].subtotal = 1999;
    let err = store.load_transaction(transaction, items).unwrap_err();
    assert!(matches!(err, AppError::Validation(_)));
    assert!(store.get_transaction_by_id(77).unwrap().is_none());
}

#[test]
fn load_rejects_inconsistent_totals() {
    let mut store = Store::new();
    collaborators(&mut store);
    let (mut transaction, items) = persisted_transaction();
    transaction.total_amount = 2699;
    let err = store.load_transaction(transaction, items).unwrap_err();
    assert!(matches!(err, AppError::Validation(_)));
}

#[test]
fn load_rejects_duplicate_id_and_missing_references() {
    let mut store = Store::new();
    collaborators(&mut store);
    let (transaction, items) = persisted_transaction();
    store.load_transaction(transaction, items.clone()).unwrap();
    let (transaction, items2) = persisted_transaction();
    let err = store.load_transaction(transaction, items2).unwrap_err();
    assert!(matches!(err, AppError::Validation(_)));

    let mut bare = Store::new();
    bare.register_product(Product { id: 10, name: "Widget".to_string(), is_active: true }).unwrap();
    let (transaction, items3) = persisted_transaction();
    let err = bare.load_transaction(transaction, items3).unwrap_err();
    assert!(matches!(err, AppError::NotFound(_)));

    let mut no_product = Store::new();
    no_product.register_customer(Customer { id: 1, name: "Acme".to_string() }).unwrap();
    let (transaction, items4) = persisted_transaction();
    let err = no_product.load_transaction(transaction, items4).unwrap_err();
    assert!(matches!(err, AppError::NotFound(_)));
}

#[test]
fn created_ids_continue_past_loaded_ids() {
    let mut store = Store::new();
    collaborators(&mut store);
    store.register_product(Product { id: 11, name: "Gadget".to_string(), is_active: true }).unwrap();
    let (transaction, items) = persisted_transaction();
    store.load_transaction(transaction, items).unwrap();
    let twi = store
        .create_transaction(
            erp_core::requests::CreateTransactionRequest {
                customer_id: 1,
                transaction_type: "sale".to_string(),
                transaction_date: 200,
                items: vec![erp_core::requests::CreateTransactionItemRequest {
                    product_id: 11,
                    quantity: 1000,
                    unit_price: 100,
                    tax_rate: 0,
                }],
                notes: None,
            },
            0,
        )
        .unwrap();
    assert_eq!(twi.transaction.id, 78);
    assert!(twi.items[0].item.id >= 10);
}
