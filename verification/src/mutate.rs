//! Partial update of a transaction's scalar fields, and deletion of a
//! transaction together with all of its items.

use vstd::prelude::*;
use crate::errors::{AppError, AppResult};
use crate::model::{
    customer_exists, invoice_exists, parse_status, spec_parse_status, tx_exists, tx_index_of,
    StoredTransaction, StoredTxView, Transaction, TransactionWithItems,
};
use crate::requests::{update_has_fields, UpdateTransactionRequest};
use crate::store::{twi_matches, Store, StoreModel};

verus! {

/// The kind of failure an update request runs into.
pub ghost enum UpdateIssue {
    Validation,
    NotFound,
}

/// The outcome of checking an update request against store `m`, in the order
/// the checks run: the transaction's existence, the customer reference if one
/// is supplied, the status value if one is supplied, and last that the field
/// set is not empty.
pub open spec fn update_issue(m: StoreModel, id: i64, req: &UpdateTransactionRequest) -> Option<
    UpdateIssue,
> {
    if !tx_exists(m.txs, id) {
        Some(UpdateIssue::NotFound)
    } else if req.customer_id matches Some(c) && !customer_exists(m.customers, c) {
        Some(UpdateIssue::NotFound)
    } else if req.status matches Some(s) && spec_parse_status(s@) is None {
        Some(UpdateIssue::Validation)
    } else if !update_has_fields(req) {
        Some(UpdateIssue::Validation)
    } else {
        None
    }
}

/// The stored transaction `st` with exactly the supplied scalar fields
/// rewritten and its update timestamp set to `now`; items and totals kept.
pub open spec fn patched_tx(st: StoredTxView, req: &UpdateTransactionRequest, now: i64) -> StoredTxView {
    StoredTxView {
        transaction: Transaction {
            customer_id: if req.customer_id is Some {
                req.customer_id->Some_0
            } else {
                st.transaction.customer_id
            },
            transaction_date: if req.transaction_date is Some {
                req.transaction_date->Some_0
            } else {
                st.transaction.transaction_date
            },
            status: if req.status is Some {
                spec_parse_status(req.status->Some_0@)->Some_0
            } else {
                st.transaction.status
            },
            notes: if req.notes is Some {
                req.notes
            } else {
                st.transaction.notes
            },
            updated_at: now,
            ..st.transaction
        },
        items: st.items,
    }
}

impl Store {
    /// Rewrites the supplied scalar fields of a transaction, leaving absent
    /// fields untouched.  Fails with `NotFound` when the id or a supplied
    /// customer reference is absent, and with `Validation` when a supplied
    /// status names no lifecycle state or no field is supplied at all.
    pub fn update_transaction(
        &mut self,
        id: i64,
        request: UpdateTransactionRequest,
        now: i64,
    ) -> (r: AppResult<TransactionWithItems>)
        requires
            old(self).wf(),
        ensures
            final(self).wf(),
            r is Ok <==> update_issue(old(self)@, id, &request) is None,
            r matches Err(e) ==> final(self)@ == old(self)@ && match update_issue(
                old(self)@,
                id,
                &request,
            ) {
                Some(UpdateIssue::Validation) => e is Validation,
                Some(UpdateIssue::NotFound) => e is NotFound,
                None => false,
            },
            r matches Ok(twi) ==> {
                &&& final(self)@ == (StoreModel {
                    txs: old(self)@.txs.update(
                        tx_index_of(old(self)@.txs, id),
                        patched_tx(
                            old(self)@.txs[tx_index_of(old(self)@.txs, id)],
                            &request,
                            now,
                        ),
                    ),
                    ..old(self)@
                })
                &&& twi_matches(
                    twi,
                    patched_tx(old(self)@.txs[tx_index_of(old(self)@.txs, id)], &request, now),
                    final(self)@,
                )
            },
    {
        let k = match self.find_tx(id) {
            Some(k) => k,
            None => {
                return Err(AppError::NotFound("Transaction not found".to_owned()));
            },
        };
        proof {
            let c = tx_index_of(self@.txs, id);
            assert(0 <= c < self@.txs.len() && self@.txs[c].transaction.id == id);
            assert(c == k as int);
        }
        if let Some(cid) = request.customer_id {
            if self.find_customer(cid).is_none() {
                return Err(AppError::NotFound("Customer not found".to_owned()));
            }
        }
        let parsed_status = match &request.status {
            Some(s) => {
                match parse_status(s.as_str()) {
                    Some(p) => Some(p),
                    None => {
                        return Err(AppError::Validation(
                            "Status must be 'draft', 'confirmed', or 'cancelled'".to_owned(),
                        ));
                    },
                }
            },
            None => None,
        };
        if request.customer_id.is_none() && request.transaction_date.is_none()
            && request.status.is_none() && request.notes.is_none() {
            return Err(AppError::Validation("No fields to update".to_owned()));
        }
        let ghost m0 = self@;
        let old_st = self.transactions[k].clone();
        let updated = StoredTransaction {
            transaction: Transaction {
                customer_id: match request.customer_id {
                    Some(c) => c,
                    None => old_st.transaction.customer_id,
                },
                transaction_date: match request.transaction_date {
                    Some(d) => d,
                    None => old_st.transaction.transaction_date,
                },
                status: match parsed_status {
                    Some(p) => p,
                    None => old_st.transaction.status,
                },
                notes: match request.notes {
                    Some(n) => Some(n),
                    None => old_st.transaction.notes,
                },
                updated_at: now,
                ..old_st.transaction
            },
            items: old_st.items,
        };
        proof {
            assert(updated@ =~= patched_tx(m0.txs[k as int], &request, now));
        }
        self.replace_tx(k, updated);
        proof {
            let m1 = self@;
            assert forall|w: int| 0 <= w < m1.txs.len() implies crate::model::stored_tx_wf(
                #[trigger] m1.txs[w],
            ) by {
                if w != k as int {
                    assert(m1.txs[w] == m0.txs[w]);
                }
            }
            assert forall|w: int|
                0 <= w < m1.txs.len() implies customer_exists(
                m1.customers,
                (#[trigger] m1.txs[w]).transaction.customer_id,
            ) by {
                if w != k as int {
                    assert(m1.txs[w] == m0.txs[w]);
                }
            }
            assert forall|w: int, i: int|
                #![trigger m1.txs[w].items[i]]
                0 <= w < m1.txs.len() && 0 <= i < m1.txs[w].items.len() implies
                crate::model::product_exists(m1.products, m1.txs[w].items[i].product_id)
                && m1.txs[w].items[i].id < m1.next_item_id by {
                if w != k as int {
                    assert(m1.txs[w] == m0.txs[w]);
                } else {
                    assert(m1.txs[w].items == m0.txs[w].items);
                }
            }
        }
        let twi = self.read_model(k);
        Ok(twi)
    }

    /// Deletes a transaction and, with it, all of its items.  A transaction
    /// any tax invoice references cannot be deleted and is left intact, as is
    /// the store when the id is absent.
    pub fn delete_transaction(&mut self, id: i64) -> (r: AppResult<()>)
        requires
            old(self).wf(),
        ensures
            final(self).wf(),
            r is Ok <==> (!invoice_exists(old(self)@.invoices, id) && tx_exists(
                old(self)@.txs,
                id,
            )),
            invoice_exists(old(self)@.invoices, id) ==> (r matches Err(e) && e is Business
                && final(self)@ == old(self)@),
            !invoice_exists(old(self)@.invoices, id) && !tx_exists(old(self)@.txs, id) ==> (
            r matches Err(e) && e is NotFound && final(self)@ == old(self)@),
            r is Ok ==> final(self)@ == (StoreModel {
                txs: old(self)@.txs.remove(tx_index_of(old(self)@.txs, id)),
                ..old(self)@
            }),
    {
        if self.has_invoice(id) {
            return Err(AppError::Business(
                "Cannot delete transaction that has tax invoices. Cancel the transaction instead."
                    .to_owned(),
            ));
        }
        let k = match self.find_tx(id) {
            Some(k) => k,
            None => {
                return Err(AppError::NotFound("Transaction not found".to_owned()));
            },
        };
        proof {
            let c = tx_index_of(self@.txs, id);
            assert(0 <= c < self@.txs.len() && self@.txs[c].transaction.id == id);
            assert(c == k as int);
        }
        let ghost m0 = self@;
        self.transactions.remove(k);
        proof {
            assert(self@.txs =~= m0.txs.remove(k as int));
            assert(self@ =~= (StoreModel { txs: m0.txs.remove(k as int), ..m0 }));
            let m1 = self@;
            assert forall|w: int| 0 <= w < m1.txs.len() implies crate::model::stored_tx_wf(
                #[trigger] m1.txs[w],
            ) && 1 <= m1.txs[w].transaction.id < m1.next_tx_id && customer_exists(
                m1.customers,
                m1.txs[w].transaction.customer_id,
            ) by {
                if w < k as int {
                    assert(m1.txs[w] == m0.txs[w]);
                } else {
                    assert(m1.txs[w] == m0.txs[w + 1]);
                }
            }
            assert forall|w: int, i: int|
                #![trigger m1.txs[w].items[i]]
                0 <= w < m1.txs.len() && 0 <= i < m1.txs[w].items.len() implies
                crate::model::product_exists(m1.products, m1.txs[w].items[i].product_id)
                && m1.txs[w].items[i].id < m1.next_item_id by {
                if w < k as int {
                    assert(m1.txs[w] == m0.txs[w]);
                } else {
                    assert(m1.txs[w] == m0.txs[w + 1]);
                }
            }
            assert forall|w: int, j: int|
                #![trigger m1.txs[w], m1.txs[j]]
                0 <= w < j < m1.txs.len() implies m1.txs[w].transaction.id
                != m1.txs[j].transaction.id by {
                let w0: int = if w < k as int { w } else { w + 1 };
                let j0: int = if j < k as int { j } else { j + 1 };
                assert(m1.txs[w] == m0.txs[w0]);
                assert(m1.txs[j] == m0.txs[j0]);
            }
        }
        Ok(())
    }
}

} // verus!
