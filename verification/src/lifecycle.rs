//! The status lifecycle: draft to confirmed, and draft or confirmed to the
//! terminal cancelled state, each as one guarded conditional update.

use vstd::prelude::*;
use crate::errors::{AppError, AppResult};
use crate::model::{
    tx_exists, tx_index_of, StoredTxView, Transaction, TransactionStatus, TransactionWithItems,
};
use crate::store::{twi_matches, Store, StoreModel};

verus! {

/// The stored transaction `st` with its status replaced and its update
/// timestamp set to `now`; items and all other fields kept.
pub open spec fn with_status(st: StoredTxView, status: TransactionStatus, now: i64) -> StoredTxView {
    StoredTxView {
        transaction: Transaction { status, updated_at: now, ..st.transaction },
        items: st.items,
    }
}

impl Store {
    /// Replaces the stored transaction at `k` with `st`.
    pub(crate) fn replace_tx(&mut self, k: usize, st: crate::model::StoredTransaction)
        requires
            k < old(self)@.txs.len(),
        ensures
            final(self)@ == (StoreModel {
                txs: old(self)@.txs.update(k as int, st@),
                ..old(self)@
            }),
    {
        self.transactions.set(k, st);
        proof {
            assert(self@.txs =~= old(self)@.txs.update(k as int, self.transactions@[k as int]@));
            assert(self@ =~= (StoreModel {
                txs: old(self)@.txs.update(k as int, self.transactions@[k as int]@),
                ..old(self)@
            }));
        }
    }

    /// Confirms a draft transaction.  The write is conditional on the current
    /// status being draft; when no row matches, either because the id is
    /// absent or because the status is not draft, the store is left unchanged
    /// and the conflated `Business` failure is reported.
    pub fn confirm_transaction(&mut self, id: i64, now: i64) -> (r: AppResult<
        TransactionWithItems,
    >)
        requires
            old(self).wf(),
        ensures
            final(self).wf(),
            r is Ok <==> (tx_exists(old(self)@.txs, id) && old(self)@.txs[tx_index_of(
                old(self)@.txs,
                id,
            )].transaction.status is Draft),
            r matches Err(e) ==> e is Business && final(self)@ == old(self)@,
            r matches Ok(twi) ==> {
                &&& final(self)@ == (StoreModel {
                    txs: old(self)@.txs.update(
                        tx_index_of(old(self)@.txs, id),
                        with_status(
                            old(self)@.txs[tx_index_of(old(self)@.txs, id)],
                            TransactionStatus::Confirmed,
                            now,
                        ),
                    ),
                    ..old(self)@
                })
                &&& twi_matches(
                    twi,
                    with_status(
                        old(self)@.txs[tx_index_of(old(self)@.txs, id)],
                        TransactionStatus::Confirmed,
                        now,
                    ),
                    final(self)@,
                )
            },
    {
        self.transition(id, now, TransactionStatus::Confirmed)
    }

    /// Cancels a draft or confirmed transaction.  Cancelled is terminal: when
    /// no row matches, either because the id is absent or because the
    /// transaction is already cancelled, the store is left unchanged and the
    /// conflated `Business` failure is reported.
    pub fn cancel_transaction(&mut self, id: i64, now: i64) -> (r: AppResult<
        TransactionWithItems,
    >)
        requires
            old(self).wf(),
        ensures
            final(self).wf(),
            r is Ok <==> (tx_exists(old(self)@.txs, id) && !(old(self)@.txs[tx_index_of(
                old(self)@.txs,
                id,
            )].transaction.status is Cancelled)),
            r matches Err(e) ==> e is Business && final(self)@ == old(self)@,
            r matches Ok(twi) ==> {
                &&& final(self)@ == (StoreModel {
                    txs: old(self)@.txs.update(
                        tx_index_of(old(self)@.txs, id),
                        with_status(
                            old(self)@.txs[tx_index_of(old(self)@.txs, id)],
                            TransactionStatus::Cancelled,
                            now,
                        ),
                    ),
                    ..old(self)@
                })
                &&& twi_matches(
                    twi,
                    with_status(
                        old(self)@.txs[tx_index_of(old(self)@.txs, id)],
                        TransactionStatus::Cancelled,
                        now,
                    ),
                    final(self)@,
                )
            },
    {
        self.transition(id, now, TransactionStatus::Cancelled)
    }

    /// The shared conditional write: moves the transaction to `target` when
    /// its current status admits the transition.
    fn transition(&mut self, id: i64, now: i64, target: TransactionStatus) -> (r: AppResult<
        TransactionWithItems,
    >)
        requires
            old(self).wf(),
            !(target is Draft),
        ensures
            final(self).wf(),
            r is Ok <==> (tx_exists(old(self)@.txs, id) && match target {
                TransactionStatus::Confirmed => old(self)@.txs[tx_index_of(
                    old(self)@.txs,
                    id,
                )].transaction.status is Draft,
                TransactionStatus::Cancelled => !(old(self)@.txs[tx_index_of(
                    old(self)@.txs,
                    id,
                )].transaction.status is Cancelled),
                TransactionStatus::Draft => false,
            }),
            r matches Err(e) ==> e is Business && final(self)@ == old(self)@,
            r matches Ok(twi) ==> {
                &&& final(self)@ == (StoreModel {
                    txs: old(self)@.txs.update(
                        tx_index_of(old(self)@.txs, id),
                        with_status(old(self)@.txs[tx_index_of(old(self)@.txs, id)], target, now),
                    ),
                    ..old(self)@
                })
                &&& twi_matches(
                    twi,
                    with_status(old(self)@.txs[tx_index_of(old(self)@.txs, id)], target, now),
                    final(self)@,
                )
            },
    {
        let k = match self.find_tx(id) {
            Some(k) => k,
            None => {
                return Err(self.transition_error(target));
            },
        };
        proof {
            let c = tx_index_of(self@.txs, id);
            assert(0 <= c < self@.txs.len() && self@.txs[c].transaction.id == id);
            assert(c == k as int);
        }
        let allowed = match (self.transactions[k].transaction.status, target) {
            (TransactionStatus::Draft, TransactionStatus::Confirmed) => true,
            (TransactionStatus::Draft, TransactionStatus::Cancelled) => true,
            (TransactionStatus::Confirmed, TransactionStatus::Cancelled) => true,
            _ => false,
        };
        if !allowed {
            return Err(self.transition_error(target));
        }
        let ghost m0 = self@;
        let old_st = self.transactions[k].clone();
        let updated = crate::model::StoredTransaction {
            transaction: Transaction {
                status: target,
                updated_at: now,
                ..old_st.transaction
            },
            items: old_st.items,
        };
        proof {
            assert(updated@ =~= with_status(m0.txs[k as int], target, now));
        }
        self.replace_tx(k, updated);
        proof {
            let m1 = self@;
            assert forall|w: int| 0 <= w < m1.txs.len() implies crate::model::stored_tx_wf(
                #[trigger] m1.txs[w],
            ) by {
                if w != k as int {
                    assert(m1.txs[w] == m0.txs[w]);
                }
            }
            assert forall|w: int|
                0 <= w < m1.txs.len() implies crate::model::customer_exists(
                m1.customers,
                (#[trigger] m1.txs[w]).transaction.customer_id,
            ) by {
                if w != k as int {
                    assert(m1.txs[w] == m0.txs[w]);
                } else {
                    assert(m1.txs[w].transaction.customer_id
                        == m0.txs[w].transaction.customer_id);
                }
            }
            assert forall|w: int, i: int|
                #![trigger m1.txs[w].items[i]]
                0 <= w < m1.txs.len() && 0 <= i < m1.txs[w].items.len() implies
                crate::model::product_exists(m1.products, m1.txs[w].items[i].product_id)
                && m1.txs[w].items[i].id < m1.next_item_id by {
                if w != k as int {
                    assert(m1.txs[w] == m0.txs[w]);
                } else {
                    assert(m1.txs[w].items == m0.txs[w].items);
                }
            }
        }
        let twi = self.read_model(k);
        Ok(twi)
    }

    /// The conflated failure report of a conditional status write that
    /// matched no row.
    fn transition_error(&self, target: TransactionStatus) -> (r: AppError)
        requires
            !(target is Draft),
        ensures
            r is Business,
    {
        match target {
            TransactionStatus::Confirmed => AppError::Business(
                "Transaction not found or not in draft status".to_owned(),
            ),
            _ => AppError::Business("Transaction not found or already cancelled".to_owned()),
        }
    }
}

} // verus!
