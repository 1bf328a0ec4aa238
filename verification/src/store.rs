//! The transaction store: owns all recorded transactions and their items,
//! together with read-only snapshots of the customer, product and invoice
//! collaborators that the transaction operations consult.

use vstd::prelude::*;
use crate::errors::{AppError, AppResult};
use crate::model::{
    customer_exists, invoice_exists, product_exists, stored_tx_wf, tx_exists, tx_index_of,
    Customer, Product, StoredTransaction, StoredTxView, TransactionItemWithProduct,
    TransactionWithItems,
};

verus! {

/// Mathematical value of the whole store.
#[verifier::ext_equal]
pub ghost struct StoreModel {
    pub txs: Seq<StoredTxView>,
    pub customers: Seq<Customer>,
    pub products: Seq<Product>,
    pub invoices: Seq<i64>,
    pub next_tx_id: i64,
    pub next_item_id: i64,
}

/// The sequence of stored-transaction values held by a vector.
pub open spec fn txs_view(v: Seq<StoredTransaction>) -> Seq<StoredTxView> {
    v.map_values(|st: StoredTransaction| st@)
}

/// The in-memory transaction store.  Transactions exclusively own their item
/// rows; customers, products and invoice references are collaborator data the
/// store only reads.
pub struct Store {
    pub(crate) transactions: Vec<StoredTransaction>,
    pub(crate) customers: Vec<Customer>,
    pub(crate) products: Vec<Product>,
    pub(crate) invoices: Vec<i64>,
    pub(crate) next_tx_id: i64,
    pub(crate) next_item_id: i64,
}

impl View for Store {
    type V = StoreModel;

    open(crate) spec fn view(&self) -> StoreModel {
        StoreModel {
            txs: txs_view(self.transactions@),
            customers: self.customers@,
            products: self.products@,
            invoices: self.invoices@,
            next_tx_id: self.next_tx_id,
            next_item_id: self.next_item_id,
        }
    }
}

/// Invariant of the store: every stored transaction is internally consistent,
/// ids are unique and below the corresponding counter, and every reference a
/// transaction makes resolves within the store.
pub open spec fn model_wf(m: StoreModel) -> bool {
    &&& forall|k: int| 0 <= k < m.txs.len() ==> stored_tx_wf(#[trigger] m.txs[k])
    &&& forall|i: int, j: int|
        #![trigger m.txs[i], m.txs[j]]
        0 <= i < j < m.txs.len() ==> m.txs[i].transaction.id != m.txs[j].transaction.id
    &&& forall|k: int|
        0 <= k < m.txs.len() ==> 1 <= (#[trigger] m.txs[k]).transaction.id < m.next_tx_id
    &&& forall|k: int|
        0 <= k < m.txs.len() ==> customer_exists(
            m.customers,
            (#[trigger] m.txs[k]).transaction.customer_id,
        )
    &&& forall|k: int, i: int|
        #![trigger m.txs[k].items[i]]
        0 <= k < m.txs.len() && 0 <= i < m.txs[k].items.len() ==> product_exists(
            m.products,
            m.txs[k].items[i].product_id,
        ) && m.txs[k].items[i].id < m.next_item_id
    &&& forall|i: int, j: int|
        #![trigger m.customers[i], m.customers[j]]
        0 <= i < j < m.customers.len() ==> m.customers[i].id != m.customers[j].id
    &&& forall|i: int, j: int|
        #![trigger m.products[i], m.products[j]]
        0 <= i < j < m.products.len() ==> m.products[i].id != m.products[j].id
    &&& 1 <= m.next_tx_id
    &&& 1 <= m.next_item_id
}

/// Whether `c` is the customer record that `customers` holds under `id`.
pub open spec fn customer_match(customers: Seq<Customer>, id: i64, c: Customer) -> bool {
    c.id == id && exists|k: int| 0 <= k < customers.len() && customers[k] == c
}

/// Whether `p` is the product record that `products` holds under `id`.
pub open spec fn product_match(products: Seq<Product>, id: i64, p: Product) -> bool {
    p.id == id && exists|k: int| 0 <= k < products.len() && products[k] == p
}

/// Whether read model `twi` faithfully presents stored transaction `st`
/// against the collaborator data in `m`: same transaction, the same items in
/// the same order, and each reference resolved to the record the store holds.
pub open spec fn twi_matches(twi: TransactionWithItems, st: StoredTxView, m: StoreModel) -> bool {
    &&& twi.transaction == st.transaction
    &&& twi.items@.len() == st.items.len()
    &&& forall|j: int|
        0 <= j < st.items.len() ==> (#[trigger] twi.items@[j]).item == st.items[j]
            && product_match(m.products, st.items[j].product_id, twi.items@[j].product)
    &&& customer_match(m.customers, st.transaction.customer_id, twi.customer)
}

impl Store {
    /// Well-formedness of the store.
    pub open spec fn wf(&self) -> bool {
        model_wf(self@)
    }

    /// An empty store with id counters at one.
    pub fn new() -> (r: Store)
        ensures
            r.wf(),
            r@.txs.len() == 0,
            r@.customers.len() == 0,
            r@.products.len() == 0,
            r@.invoices.len() == 0,
            r@.next_tx_id == 1,
            r@.next_item_id == 1,
    {
        Store {
            transactions: Vec::new(),
            customers: Vec::new(),
            products: Vec::new(),
            invoices: Vec::new(),
            next_tx_id: 1,
            next_item_id: 1,
        }
    }

    /// Takes a snapshot of one customer record into the store.  Rejected as
    /// `Validation` when the id is already present.
    pub fn register_customer(&mut self, customer: Customer) -> (r: AppResult<()>)
        requires
            old(self).wf(),
        ensures
            final(self).wf(),
            r is Ok <==> !customer_exists(old(self)@.customers, customer.id),
            r is Ok ==> final(self)@ == (StoreModel {
                customers: old(self)@.customers.push(customer),
                ..old(self)@
            }),
            r is Err ==> final(self)@ == old(self)@,
            r matches Err(e) ==> e is Validation,
    {
        if self.find_customer(customer.id).is_some() {
            return Err(AppError::Validation("Customer id already registered".to_owned()));
        }
        self.customers.push(customer);
        proof {
            let m0 = old(self)@;
            let m1 = self@;
            assert forall|k: int|
                0 <= k < m1.txs.len() implies customer_exists(
                m1.customers,
                (#[trigger] m1.txs[k]).transaction.customer_id,
            ) by {
                let id = m0.txs[k].transaction.customer_id;
                assert(customer_exists(m0.customers, id));
                let w = choose|w: int| 0 <= w < m0.customers.len() && m0.customers[w].id == id;
                assert(m1.customers[w].id == id);
            }
        }
        Ok(())
    }

    /// Takes a snapshot of one product record into the store.  Rejected as
    /// `Validation` when the id is already present.
    pub fn register_product(&mut self, product: Product) -> (r: AppResult<()>)
        requires
            old(self).wf(),
        ensures
            final(self).wf(),
            r is Ok <==> !product_exists(old(self)@.products, product.id),
            r is Ok ==> final(self)@ == (StoreModel {
                products: old(self)@.products.push(product),
                ..old(self)@
            }),
            r is Err ==> final(self)@ == old(self)@,
            r matches Err(e) ==> e is Validation,
    {
        if self.find_product(product.id).is_some() {
            return Err(AppError::Validation("Product id already registered".to_owned()));
        }
        self.products.push(product);
        proof {
            let m0 = old(self)@;
            let m1 = self@;
            assert forall|k: int, i: int|
                #![trigger m1.txs[k].items[i]]
                0 <= k < m1.txs.len() && 0 <= i < m1.txs[k].items.len() implies product_exists(
                m1.products,
                m1.txs[k].items[i].product_id,
            ) && m1.txs[k].items[i].id < m1.next_item_id by {
                let id = m0.txs[k].items[i].product_id;
                assert(product_exists(m0.products, id));
                let w = choose|w: int| 0 <= w < m0.products.len() && m0.products[w].id == id;
                assert(m1.products[w].id == id);
            }
        }
        Ok(())
    }

    /// Records that a tax invoice references transaction `transaction_id`.
    pub fn register_invoice(&mut self, transaction_id: i64)
        requires
            old(self).wf(),
        ensures
            final(self).wf(),
            final(self)@ == (StoreModel {
                invoices: old(self)@.invoices.push(transaction_id),
                ..old(self)@
            }),
    {
        self.invoices.push(transaction_id);
    }

    /// Whether the id counters can accommodate one more transaction carrying
    /// `item_count` items, as `create_transaction` requires.
    pub fn has_id_capacity(&self, item_count: usize) -> (r: bool)
        requires
            self.wf(),
        ensures
            r == (self@.next_tx_id < i64::MAX && self@.next_item_id + item_count
                <= i64::MAX),
    {
        self.next_tx_id < i64::MAX && (self.next_item_id as u128) + (item_count as u128)
            <= i64::MAX as u128
    }

    /// Index of the customer carrying `id`, if any.
    pub(crate) fn find_customer(&self, id: i64) -> (r: Option<usize>)
        ensures
            r matches Some(k) ==> k < self@.customers.len() && self@.customers[k as int].id
                == id,
            r is None ==> !customer_exists(self@.customers, id),
    {
        let n = self.customers.len();
        for i in 0..n
            invariant
                n == self.customers.len(),
                forall|j: int| 0 <= j < i ==> self@.customers[j].id != id,
        {
            if self.customers[i].id == id {
                return Some(i);
            }
        }
        None
    }

    /// Index of the product carrying `id`, if any.
    pub(crate) fn find_product(&self, id: i64) -> (r: Option<usize>)
        ensures
            r matches Some(k) ==> k < self@.products.len() && self@.products[k as int].id == id,
            r is None ==> !product_exists(self@.products, id),
    {
        let n = self.products.len();
        for i in 0..n
            invariant
                n == self.products.len(),
                forall|j: int| 0 <= j < i ==> self@.products[j].id != id,
        {
            if self.products[i].id == id {
                return Some(i);
            }
        }
        None
    }

    /// Index of the stored transaction carrying `id`, if any.
    pub(crate) fn find_tx(&self, id: i64) -> (r: Option<usize>)
        ensures
            r matches Some(k) ==> k < self@.txs.len() && self@.txs[k as int].transaction.id
                == id,
            r is None ==> !tx_exists(self@.txs, id),
    {
        let n = self.transactions.len();
        for i in 0..n
            invariant
                n == self.transactions.len(),
                forall|j: int| 0 <= j < i ==> self@.txs[j].transaction.id != id,
        {
            if self.transactions[i].transaction.id == id {
                return Some(i);
            }
        }
        None
    }

    /// Whether any registered invoice references transaction `id`.
    pub(crate) fn has_invoice(&self, id: i64) -> (r: bool)
        ensures
            r == invoice_exists(self@.invoices, id),
    {
        let n = self.invoices.len();
        for i in 0..n
            invariant
                n == self.invoices.len(),
                forall|j: int| 0 <= j < i ==> self@.invoices[j] != id,
        {
            if self.invoices[i] == id {
                return true;
            }
        }
        false
    }

    /// Assembles the read model of one stored transaction, resolving its
    /// customer and product references against the store.
    pub(crate) fn resolve(&self, st: &StoredTransaction) -> (r: TransactionWithItems)
        requires
            customer_exists(self@.customers, st.transaction.customer_id),
            forall|i: int|
                0 <= i < st.items@.len() ==> product_exists(
                    self@.products,
                    (#[trigger] st.items@[i]).product_id,
                ),
        ensures
            twi_matches(r, st@, self@),
    {
        let cidx = self.find_customer(st.transaction.customer_id).unwrap();
        let customer = self.customers[cidx].clone();
        let mut items: Vec<TransactionItemWithProduct> = Vec::new();
        let n = st.items.len();
        for i in 0..n
            invariant
                customer_exists(self@.customers, st.transaction.customer_id),
                forall|j: int|
                    0 <= j < st.items@.len() ==> product_exists(
                        self@.products,
                        (#[trigger] st.items@[j]).product_id,
                    ),
                n == st.items.len(),
                items@.len() == i,
                forall|j: int|
                    0 <= j < i ==> (#[trigger] items@[j]).item == st.items@[j] && product_match(
                        self@.products,
                        st.items@[j].product_id,
                        items@[j].product,
                    ),
        {
            let item = st.items[i];
            let pidx = self.find_product(item.product_id).unwrap();
            let product = self.products[pidx].clone();
            items.push(TransactionItemWithProduct { item, product });
        }
        TransactionWithItems { transaction: st.transaction.clone(), items, customer }
    }

    /// Assembles the read model of the stored transaction at `idx`.
    pub(crate) fn read_model(&self, idx: usize) -> (r: TransactionWithItems)
        requires
            self.wf(),
            idx < self@.txs.len(),
        ensures
            twi_matches(r, self@.txs[idx as int], self@),
    {
        let st = &self.transactions[idx];
        assert(self@.txs[idx as int] == self.transactions@[idx as int]@);
        self.resolve(st)
    }

    /// Looks a transaction up by id and assembles its read model, or reports
    /// its absence with `None`.
    pub fn get_transaction_by_id(&self, id: i64) -> (r: AppResult<Option<TransactionWithItems>>)
        requires
            self.wf(),
        ensures
            r matches Ok(o) && match o {
                Some(twi) => tx_exists(self@.txs, id) && twi_matches(
                    twi,
                    self@.txs[tx_index_of(self@.txs, id)],
                    self@,
                ),
                None => !tx_exists(self@.txs, id),
            },
    {
        match self.find_tx(id) {
            None => Ok(None),
            Some(k) => {
                proof {
                    let c = tx_index_of(self@.txs, id);
                    assert(0 <= c < self@.txs.len() && self@.txs[c].transaction.id == id);
                    assert(c == k as int);
                }
                Ok(Some(self.read_model(k)))
            },
        }
    }
}

} // verus!
