//! Rehydration of persisted transactions: a stored row set is accepted back
//! into the store only after every invariant the store maintains has been
//! re-established — item consistency, total consistency, id uniqueness, and
//! resolvable references.

use vstd::prelude::*;
use crate::errors::{AppError, AppResult};
use crate::model::{
    customer_exists, item_wf, product_exists, stored_tx_wf, sum_tax, sum_total, tx_exists,
    StoredTransaction, StoredTxView, Transaction, TransactionItem,
};
use crate::money::{compute_item_amounts, TAX_RATE_SCALE};
use crate::store::{Store, StoreModel};

verus! {

/// The kind of failure a rehydration runs into.
pub ghost enum LoadIssue {
    Validation,
    NotFound,
}

/// The id counter `cur` raised past `id` if needed.
pub open spec fn bump_id(cur: i64, id: i64) -> i64
    recommends
        id < i64::MAX,
{
    if id + 1 > cur {
        (id + 1) as i64
    } else {
        cur
    }
}

/// The item-id counter raised past every id in `items`.
pub open spec fn bump_items(cur: i64, items: Seq<TransactionItem>) -> i64
    decreases items.len(),
{
    if items.len() == 0 {
        cur
    } else {
        bump_id(bump_items(cur, items.drop_last()), items.last().id)
    }
}

/// Whether the candidate's shape alone admits it: a well-formed stored
/// transaction whose ids leave room in the id counters.
pub open spec fn load_shape_ok(st: StoredTxView) -> bool {
    &&& stored_tx_wf(st)
    &&& 1 <= st.transaction.id < i64::MAX
    &&& forall|i: int| 0 <= i < st.items.len() ==> (#[trigger] st.items[i]).id < i64::MAX
}

/// The outcome of checking a candidate against store `m`: its shape and the
/// freshness of its id first, then its references.
pub open spec fn load_issue(m: StoreModel, st: StoredTxView) -> Option<LoadIssue> {
    if !load_shape_ok(st) {
        Some(LoadIssue::Validation)
    } else if tx_exists(m.txs, st.transaction.id) {
        Some(LoadIssue::Validation)
    } else if !customer_exists(m.customers, st.transaction.customer_id) {
        Some(LoadIssue::NotFound)
    } else if exists|i: int|
        0 <= i < st.items.len() && !product_exists(m.products, (#[trigger] st.items[i]).product_id) {
        Some(LoadIssue::NotFound)
    } else {
        None
    }
}

impl Store {
    /// Accepts a previously persisted transaction back into the store.  The
    /// row set is admitted only when it satisfies every invariant the store
    /// maintains: each item's derived amounts are exactly the fixed-point
    /// results of its captured inputs, the transaction's totals are exactly
    /// the sums over its items, item ids are distinct and increasing, the
    /// transaction id is fresh, and every reference resolves.
    #[verifier::loop_isolation(false)]
    #[verifier::rlimit(60)]
    pub fn load_transaction(&mut self, transaction: Transaction, items: Vec<TransactionItem>) -> (
        r: AppResult<()>)
        requires
            old(self).wf(),
        ensures
            final(self).wf(),
            r is Ok <==> load_issue(
                old(self)@,
                StoredTxView { transaction, items: items@ },
            ) is None,
            r matches Err(e) ==> final(self)@ == old(self)@ && match load_issue(
                old(self)@,
                StoredTxView { transaction, items: items@ },
            ) {
                Some(LoadIssue::Validation) => e is Validation,
                Some(LoadIssue::NotFound) => e is NotFound,
                None => false,
            },
            r is Ok ==> final(self)@ == (StoreModel {
                txs: old(self)@.txs.push(StoredTxView { transaction, items: items@ }),
                next_tx_id: bump_id(old(self)@.next_tx_id, transaction.id),
                next_item_id: bump_items(old(self)@.next_item_id, items@),
                ..old(self)@
            }),
    {
        let ghost st = StoredTxView { transaction, items: items@ };
        let n = items.len();
        if n == 0 {
            return Err(AppError::Validation("Transaction must have at least one item".to_owned()));
        }
        if transaction.id < 1 || transaction.id == i64::MAX {
            return Err(AppError::Validation("Transaction id out of range".to_owned()));
        }
        let mut total_acc: u128 = 0;
        let mut tax_acc: u128 = 0;
        proof {
            assert(items@.take(0) =~= Seq::<TransactionItem>::empty());
        }
        for i in 0..n
            invariant
                total_acc as int == sum_total(items@.take(i as int)),
                tax_acc as int == sum_tax(items@.take(i as int)),
                total_acc <= (i as int) * (u64::MAX as int),
                tax_acc <= (i as int) * (u64::MAX as int),
                forall|j: int|
                    0 <= j < i ==> item_wf(#[trigger] items@[j]) && items@[j].transaction_id
                        == transaction.id && items@[j].id < i64::MAX,
                forall|a: int, b: int|
                    #![trigger items@[a], items@[b]]
                    0 <= a < b < i ==> items@[a].id < items@[b].id,
        {
            let it = items[i];
            proof {
                assert(items@.take(i as int + 1).drop_last() =~= items@.take(i as int));
                assert((i as int + 1) * (u64::MAX as int) == (i as int) * (u64::MAX as int)
                    + u64::MAX as int) by (nonlinear_arith);
            }
            if it.transaction_id != transaction.id {
                return Err(AppError::Validation("Item does not belong to transaction".to_owned()));
            }
            if it.id == i64::MAX {
                return Err(AppError::Validation("Item id out of range".to_owned()));
            }
            if i > 0 && items[i - 1].id >= it.id {
                return Err(AppError::Validation("Item ids must be increasing".to_owned()));
            }
            if it.quantity == 0 || it.quantity > i64::MAX as u64 || it.unit_price > i64::MAX as u64
                || it.tax_rate > TAX_RATE_SCALE {
                return Err(AppError::Validation("Item fields out of range".to_owned()));
            }
            let recomputed = compute_item_amounts(
                it.quantity as i64,
                it.unit_price as i64,
                it.tax_rate as i64,
            );
            let consistent = match recomputed {
                Some(a) => a.0 == it.subtotal && a.1 == it.tax_amount && a.2 == it.total_amount,
                None => false,
            };
            if !consistent {
                return Err(AppError::Validation("Item amounts are inconsistent".to_owned()));
            }
            proof {
                if i > 0 {
                    assert forall|a: int, b: int|
                        #![trigger items@[a], items@[b]]
                        0 <= a < b < i + 1 implies items@[a].id < items@[b].id by {
                        if b == i as int && a < i - 1 {
                            assert(items@[a].id < items@[i - 1].id);
                        }
                    }
                }
            }
            total_acc = total_acc + it.total_amount as u128;
            tax_acc = tax_acc + it.tax_amount as u128;
        }
        proof {
            assert(items@.take(n as int) =~= items@);
        }
        if !(total_acc == transaction.total_amount as u128 && tax_acc
            == transaction.tax_amount as u128) {
            return Err(AppError::Validation("Transaction totals are inconsistent".to_owned()));
        }
        assert(stored_tx_wf(st));
        if self.find_tx(transaction.id).is_some() {
            return Err(AppError::Validation("Transaction id already present".to_owned()));
        }
        if self.find_customer(transaction.customer_id).is_none() {
            return Err(AppError::NotFound("Customer not found".to_owned()));
        }
        for i in 0..n
            invariant
                forall|j: int|
                    0 <= j < i ==> product_exists(
                        self@.products,
                        (#[trigger] items@[j]).product_id,
                    ),
        {
            if self.find_product(items[i].product_id).is_none() {
                return Err(AppError::NotFound("Product not found".to_owned()));
            }
        }
        let ghost m0 = self@;
        if transaction.id >= self.next_tx_id {
            self.next_tx_id = transaction.id + 1;
        }
        let mut item_counter = self.next_item_id;
        proof {
            assert(item_counter == bump_items(m0.next_item_id, items@.take(0)));
        }
        for i in 0..n
            invariant
                item_counter == bump_items(m0.next_item_id, items@.take(i as int)),
                self@ == (StoreModel { next_tx_id: bump_id(m0.next_tx_id, transaction.id), ..m0 }),
        {
            proof {
                assert(items@.take(i as int + 1).drop_last() =~= items@.take(i as int));
            }
            let it_id = items[i].id;
            if it_id >= item_counter {
                item_counter = it_id + 1;
            }
        }
        proof {
            assert(items@.take(n as int) =~= items@);
        }
        self.next_item_id = item_counter;
        self.transactions.push(StoredTransaction { transaction, items });
        proof {
            assert(self@.txs =~= m0.txs.push(st));
            assert(self@ =~= (StoreModel {
                txs: m0.txs.push(st),
                next_tx_id: bump_id(m0.next_tx_id, transaction.id),
                next_item_id: bump_items(m0.next_item_id, items@),
                ..m0
            }));
            lemma_bump_items_bounds(m0.next_item_id, items@);
            crate::create::lemma_append_tx_preserves_wf(m0, self@, st);
        }
        Ok(())
    }
}

/// The bumped item counter is at least the old counter and strictly above
/// every item id.
proof fn lemma_bump_items_bounds(cur: i64, items: Seq<TransactionItem>)
    requires
        forall|i: int| 0 <= i < items.len() ==> (#[trigger] items[i]).id < i64::MAX,
    ensures
        cur <= bump_items(cur, items),
        forall|i: int| 0 <= i < items.len() ==> (#[trigger] items[i]).id < bump_items(cur, items),
    decreases items.len(),
{
    if items.len() > 0 {
        lemma_bump_items_bounds(cur, items.drop_last());
        assert(forall|i: int|
            0 <= i < items.len() - 1 ==> #[trigger] items[i] == items.drop_last()[i]);
    }
}

} // verus!
