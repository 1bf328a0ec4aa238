//! Creation of a transaction: validation, reference resolution, line-item
//! calculation, and the single atomic write of the transaction with all of
//! its items.

use vstd::prelude::*;
use crate::errors::{AppError, AppResult};
use crate::model::{
    active_product_exists, customer_exists, product_exists, spec_parse_type, parse_type,
    StoredTransaction, StoredTxView, Transaction, TransactionItem, TransactionStatus,
    TransactionWithItems,
};
use crate::money::{
    compute_item_amounts, item_amounts_fit, spec_item_total, spec_subtotal, spec_tax,
    TAX_RATE_SCALE,
};
use crate::requests::{item_request_valid, CreateTransactionItemRequest, CreateTransactionRequest};
use crate::store::{twi_matches, Store, StoreModel};

verus! {

/// The kind of failure a creation request runs into.
pub ghost enum CreateIssue {
    Validation,
    NotFound,
}

/// Whether the derived amounts of one requested item are representable.
pub open spec fn item_fits(it: CreateTransactionItemRequest) -> bool {
    item_amounts_fit(it.quantity as int, it.unit_price as int, it.tax_rate as int)
}

/// The first problem among the requested items, checked in request order:
/// field ranges first, then the product reference, then representability.
pub open spec fn items_issue(
    m: StoreModel,
    items: Seq<CreateTransactionItemRequest>,
) -> Option<CreateIssue>
    decreases items.len(),
{
    if items.len() == 0 {
        None
    } else if !item_request_valid(items[0]) {
        Some(CreateIssue::Validation)
    } else if !active_product_exists(m.products, items[0].product_id) {
        Some(CreateIssue::NotFound)
    } else if !item_fits(items[0]) {
        Some(CreateIssue::Validation)
    } else {
        items_issue(m, items.drop_first())
    }
}

/// Sum in cents of the requested items' total amounts.
pub open spec fn req_sum_total(items: Seq<CreateTransactionItemRequest>) -> int
    decreases items.len(),
{
    if items.len() == 0 {
        0
    } else {
        req_sum_total(items.drop_last()) + spec_item_total(
            items.last().quantity as int,
            items.last().unit_price as int,
            items.last().tax_rate as int,
        )
    }
}

/// Sum in cents of the requested items' tax amounts.
pub open spec fn req_sum_tax(items: Seq<CreateTransactionItemRequest>) -> int
    decreases items.len(),
{
    if items.len() == 0 {
        0
    } else {
        req_sum_tax(items.drop_last()) + spec_tax(
            spec_subtotal(items.last().quantity as int, items.last().unit_price as int),
            items.last().tax_rate as int,
        )
    }
}

/// Whether the transaction-level sums over the requested items are
/// representable in cents.
pub open spec fn totals_fit(items: Seq<CreateTransactionItemRequest>) -> bool {
    req_sum_total(items) <= u64::MAX as int && req_sum_tax(items) <= u64::MAX as int
}

/// The outcome of checking a creation request against store `m`, in the order
/// the checks run: transaction type, customer reference, item-list emptiness,
/// each item in turn, and last the transaction-level sums.
pub open spec fn create_issue(m: StoreModel, req: &CreateTransactionRequest) -> Option<
    CreateIssue,
> {
    if spec_parse_type(req.transaction_type@) is None {
        Some(CreateIssue::Validation)
    } else if !customer_exists(m.customers, req.customer_id) {
        Some(CreateIssue::NotFound)
    } else if req.items@.len() == 0 {
        Some(CreateIssue::Validation)
    } else if items_issue(m, req.items@) is Some {
        items_issue(m, req.items@)
    } else if !totals_fit(req.items@) {
        Some(CreateIssue::Validation)
    } else {
        None
    }
}

/// The item row built for requested item `it`, carrying id `id` and belonging
/// to transaction `tx_id`.
pub open spec fn built_item(it: CreateTransactionItemRequest, id: int, tx_id: i64) -> TransactionItem {
    TransactionItem {
        id: id as i64,
        transaction_id: tx_id,
        product_id: it.product_id,
        quantity: it.quantity as u64,
        unit_price: it.unit_price as u64,
        tax_rate: it.tax_rate as u64,
        subtotal: spec_subtotal(it.quantity as int, it.unit_price as int) as u64,
        tax_amount: spec_tax(
            spec_subtotal(it.quantity as int, it.unit_price as int),
            it.tax_rate as int,
        ) as u64,
        total_amount: spec_item_total(
            it.quantity as int,
            it.unit_price as int,
            it.tax_rate as int,
        ) as u64,
    }
}

/// The item rows built for a whole request, with consecutive ids starting at
/// `first_id`.
pub open spec fn built_items(
    items: Seq<CreateTransactionItemRequest>,
    first_id: i64,
    tx_id: i64,
) -> Seq<TransactionItem> {
    Seq::new(items.len(), |i: int| built_item(items[i], first_id + i, tx_id))
}

/// The stored transaction a successful creation appends: status forced to
/// draft, totals summed from the items, timestamps set to `now`.
pub open spec fn created_tx(m: StoreModel, req: &CreateTransactionRequest, now: i64) -> StoredTxView {
    StoredTxView {
        transaction: Transaction {
            id: m.next_tx_id,
            customer_id: req.customer_id,
            transaction_type: spec_parse_type(req.transaction_type@)->Some_0,
            transaction_date: req.transaction_date,
            total_amount: req_sum_total(req.items@) as u64,
            tax_amount: req_sum_tax(req.items@) as u64,
            status: TransactionStatus::Draft,
            notes: req.notes,
            created_at: now,
            updated_at: now,
        },
        items: built_items(req.items@, m.next_item_id, m.next_tx_id),
    }
}

impl Store {
    /// Records a new transaction with all of its items, atomically: on any
    /// failure the store is unchanged, and on success the transaction row and
    /// every item row appear together.  The status is forced to draft
    /// regardless of input, and both totals are derived from the items.
    #[verifier::loop_isolation(false)]
    pub fn create_transaction(&mut self, request: CreateTransactionRequest, now: i64) -> (r:
        AppResult<TransactionWithItems>)
        requires
            old(self).wf(),
            old(self)@.next_tx_id < i64::MAX,
            old(self)@.next_item_id + request.items@.len() <= i64::MAX,
        ensures
            final(self).wf(),
            r is Ok <==> create_issue(old(self)@, &request) is None,
            r matches Err(e) ==> final(self)@ == old(self)@ && match create_issue(
                old(self)@,
                &request,
            ) {
                Some(CreateIssue::Validation) => e is Validation,
                Some(CreateIssue::NotFound) => e is NotFound,
                None => false,
            },
            r matches Ok(twi) ==> {
                &&& final(self)@ == (StoreModel {
                    txs: old(self)@.txs.push(created_tx(old(self)@, &request, now)),
                    next_tx_id: (old(self)@.next_tx_id + 1) as i64,
                    next_item_id: (old(self)@.next_item_id + request.items@.len()) as i64,
                    ..old(self)@
                })
                &&& twi_matches(twi, created_tx(old(self)@, &request, now), final(self)@)
            },
    {
        let ghost m0 = self@;
        let tx_type = match parse_type(request.transaction_type.as_str()) {
            Some(t) => t,
            None => {
                return Err(AppError::Validation(
                    "Transaction type must be 'sale' or 'purchase'".to_owned(),
                ));
            },
        };
        if self.find_customer(request.customer_id).is_none() {
            return Err(AppError::NotFound("Customer not found".to_owned()));
        }
        let n = request.items.len();
        if n == 0 {
            return Err(AppError::Validation(
                "Transaction must have at least one item".to_owned(),
            ));
        }
        let tx_id = self.next_tx_id;
        let first_item_id = self.next_item_id;
        let mut items: Vec<TransactionItem> = Vec::new();
        let mut total_acc: u128 = 0;
        let mut tax_acc: u128 = 0;
        proof {
            assert(request.items@.skip(0) =~= request.items@);
            assert(items@ =~= built_items(request.items@.take(0), first_item_id, tx_id));
        }
        for i in 0..n
            invariant
                items@ =~= built_items(request.items@.take(i as int), first_item_id, tx_id),
                items_issue(m0, request.items@) == items_issue(
                    m0,
                    request.items@.skip(i as int),
                ),
                total_acc as int == req_sum_total(request.items@.take(i as int)),
                tax_acc as int == req_sum_tax(request.items@.take(i as int)),
                total_acc <= (i as int) * (u64::MAX as int),
                tax_acc <= (i as int) * (u64::MAX as int),
                forall|j: int|
                    0 <= j < i ==> item_request_valid(#[trigger] request.items@[j])
                        && item_fits(request.items@[j]) && active_product_exists(
                        m0.products,
                        request.items@[j].product_id,
                    ),
        {
            let it = request.items[i];
            proof {
                assert(request.items@.skip(i as int)[0] == it);
                assert(request.items@.skip(i as int).drop_first() =~= request.items@.skip(
                    i as int + 1,
                ));
            }
            if it.quantity <= 0 {
                return Err(AppError::Validation("Item quantity must be positive".to_owned()));
            }
            if it.unit_price < 0 {
                return Err(AppError::Validation(
                    "Item unit price cannot be negative".to_owned(),
                ));
            }
            if it.tax_rate < 0 || it.tax_rate > TAX_RATE_SCALE as i64 {
                return Err(AppError::Validation(
                    "Tax rate must be between 0.0 and 1.0".to_owned(),
                ));
            }
            let active = match self.find_product(it.product_id) {
                Some(k) => self.products_is_active(k),
                None => false,
            };
            if !active {
                proof {
                    if active_product_exists(m0.products, it.product_id) {
                        let w = choose|w: int|
                            0 <= w < m0.products.len() && m0.products[w].id == it.product_id
                                && m0.products[w].is_active;
                        assert(product_exists(m0.products, it.product_id));
                    }
                }
                return Err(AppError::NotFound("Product not found or inactive".to_owned()));
            }
            let amounts = match compute_item_amounts(it.quantity, it.unit_price, it.tax_rate) {
                Some(a) => a,
                None => {
                    return Err(AppError::Validation(
                        "Item amounts exceed the representable range".to_owned(),
                    ));
                },
            };
            let item = TransactionItem {
                id: first_item_id + i as i64,
                transaction_id: tx_id,
                product_id: it.product_id,
                quantity: it.quantity as u64,
                unit_price: it.unit_price as u64,
                tax_rate: it.tax_rate as u64,
                subtotal: amounts.0,
                tax_amount: amounts.1,
                total_amount: amounts.2,
            };
            items.push(item);
            proof {
                assert(items@ =~= built_items(
                    request.items@.take(i as int + 1),
                    first_item_id,
                    tx_id,
                ));
                assert(request.items@.take(i as int + 1).drop_last() =~= request.items@.take(
                    i as int,
                ));
                assert((i as int + 1) * (u64::MAX as int) == (i as int) * (u64::MAX as int)
                    + u64::MAX as int) by (nonlinear_arith);
            }
            total_acc = total_acc + amounts.2 as u128;
            tax_acc = tax_acc + amounts.1 as u128;
        }
        proof {
            assert(request.items@.skip(n as int) =~= Seq::<
                CreateTransactionItemRequest,
            >::empty());
            assert(request.items@.take(n as int) =~= request.items@);
        }
        if total_acc > u64::MAX as u128 || tax_acc > u64::MAX as u128 {
            return Err(AppError::Validation(
                "Transaction totals exceed the representable range".to_owned(),
            ));
        }
        let transaction = Transaction {
            id: tx_id,
            customer_id: request.customer_id,
            transaction_type: tx_type,
            transaction_date: request.transaction_date,
            total_amount: total_acc as u64,
            tax_amount: tax_acc as u64,
            status: TransactionStatus::Draft,
            notes: request.notes,
            created_at: now,
            updated_at: now,
        };
        let stored = StoredTransaction { transaction, items };
        proof {
            lemma_built_items_wf(request.items@, first_item_id, tx_id);
            assert(stored@ =~= created_tx(m0, &request, now));
            assert(crate::model::stored_tx_wf(stored@));
        }
        self.transactions.push(stored);
        self.next_tx_id = self.next_tx_id + 1;
        self.next_item_id = self.next_item_id + n as i64;
        proof {
            assert(self@.txs =~= m0.txs.push(created_tx(m0, &request, now)));
            assert(self@ =~= (StoreModel {
                txs: m0.txs.push(created_tx(m0, &request, now)),
                next_tx_id: (m0.next_tx_id + 1) as i64,
                next_item_id: (m0.next_item_id + request.items@.len()) as i64,
                ..m0
            }));
            assert(self.wf()) by {
                lemma_append_tx_preserves_wf(m0, self@, created_tx(m0, &request, now));
            }
        }
        let idx = self.transactions.len() - 1;
        let twi = self.read_model(idx);
        Ok(twi)
    }

    /// Whether the product at `k` is active.
    fn products_is_active(&self, k: usize) -> (r: bool)
        requires
            k < self@.products.len(),
        ensures
            r == self@.products[k as int].is_active,
    {
        self.products[k].is_active
    }
}

/// The rows built for valid, representable item requests are well formed and
/// sum to the request-level totals.
proof fn lemma_built_items_wf(
    reqs: Seq<CreateTransactionItemRequest>,
    first_id: i64,
    tx_id: i64,
)
    requires
        forall|j: int|
            0 <= j < reqs.len() ==> item_request_valid(#[trigger] reqs[j]) && item_fits(reqs[j]),
        1 <= first_id,
        first_id + reqs.len() <= i64::MAX,
    ensures
        forall|j: int|
            0 <= j < reqs.len() ==> crate::model::item_wf(
                #[trigger] built_items(reqs, first_id, tx_id)[j],
            ) && built_items(reqs, first_id, tx_id)[j].transaction_id == tx_id,
        crate::model::sum_total(built_items(reqs, first_id, tx_id)) == req_sum_total(reqs),
        crate::model::sum_tax(built_items(reqs, first_id, tx_id)) == req_sum_tax(reqs),
    decreases reqs.len(),
{
    if reqs.len() > 0 {
        let prefix = reqs.drop_last();
        lemma_built_items_wf(prefix, first_id, tx_id);
        assert(built_items(reqs, first_id, tx_id).drop_last() =~= built_items(
            prefix,
            first_id,
            tx_id,
        ));
        let it = reqs.last();
        let q = it.quantity as int;
        let p = it.unit_price as int;
        let rate = it.tax_rate as int;
        crate::money::lemma_subtotal_nonneg(q, p);
        crate::money::lemma_tax_le_subtotal(spec_subtotal(q, p), rate);
        assert(forall|j: int|
            0 <= j < prefix.len() ==> #[trigger] built_items(reqs, first_id, tx_id)[j]
                == built_items(prefix, first_id, tx_id)[j]);
    }
}

/// Appending a well-formed transaction with a fresh id and in-range item ids
/// preserves the store invariant.
pub(crate) proof fn lemma_append_tx_preserves_wf(m0: StoreModel, m1: StoreModel, st: StoredTxView)
    requires
        crate::store::model_wf(m0),
        m1.txs == m0.txs.push(st),
        m1.customers == m0.customers,
        m1.products == m0.products,
        m0.next_tx_id <= m1.next_tx_id,
        m0.next_item_id <= m1.next_item_id,
        crate::model::stored_tx_wf(st),
        1 <= st.transaction.id < m1.next_tx_id,
        forall|k: int|
            0 <= k < m0.txs.len() ==> (#[trigger] m0.txs[k]).transaction.id != st.transaction.id,
        customer_exists(m1.customers, st.transaction.customer_id),
        forall|i: int|
            0 <= i < st.items.len() ==> product_exists(
                m1.products,
                (#[trigger] st.items[i]).product_id,
            ) && st.items[i].id < m1.next_item_id,
    ensures
        crate::store::model_wf(m1),
{
    assert forall|k: int| 0 <= k < m1.txs.len() implies crate::model::stored_tx_wf(
        #[trigger] m1.txs[k],
    ) by {
        if k < m0.txs.len() {
            assert(m1.txs[k] == m0.txs[k]);
        }
    }
}

} // verus!
