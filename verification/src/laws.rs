//! The library's stated laws, proved once and for all over the store model.

use vstd::prelude::*;
use crate::model::{
    item_wf, stored_tx_wf, sum_tax, sum_total, tx_exists, tx_index_of, StoredTxView,
    TransactionItem, TransactionStatus,
};
use crate::money::{spec_subtotal, spec_tax};
use crate::store::{model_wf, StoreModel};

verus! {

/// A well-formed transaction's total amount is exactly the sum of its items'
/// total amounts, and its tax amount exactly the sum of their tax amounts.
pub proof fn lemma_transaction_totals(st: StoredTxView)
    requires
        stored_tx_wf(st),
    ensures
        st.transaction.total_amount as int == sum_total(st.items),
        st.transaction.tax_amount as int == sum_tax(st.items),
{
}

/// A well-formed line item's total amount is exactly its subtotal plus its
/// tax amount, its subtotal exactly its quantity times its unit price, and
/// its tax amount exactly its subtotal times its tax rate, in the fixed-point
/// arithmetic of the library.
pub proof fn lemma_item_amounts(it: TransactionItem)
    requires
        item_wf(it),
    ensures
        it.total_amount == it.subtotal + it.tax_amount,
        it.subtotal as int == spec_subtotal(it.quantity as int, it.unit_price as int),
        it.tax_amount as int == spec_tax(it.subtotal as int, it.tax_rate as int),
{
}

/// Both laws above hold of every transaction and every item a well-formed
/// store holds.
pub proof fn lemma_store_consistent(m: StoreModel, k: int, i: int)
    requires
        model_wf(m),
        0 <= k < m.txs.len(),
        0 <= i < m.txs[k].items.len(),
    ensures
        m.txs[k].transaction.total_amount as int == sum_total(m.txs[k].items),
        m.txs[k].transaction.tax_amount as int == sum_tax(m.txs[k].items),
        item_wf(m.txs[k].items[i]),
        m.txs[k].items[i].transaction_id == m.txs[k].transaction.id,
{
}

/// Removing the transaction a successful deletion removes leaves no
/// transaction under that id: a subsequent lookup reports absence.
pub proof fn lemma_delete_removes_id(m: StoreModel, id: i64)
    requires
        model_wf(m),
        tx_exists(m.txs, id),
    ensures
        !tx_exists(m.txs.remove(tx_index_of(m.txs, id)), id),
{
    let k = tx_index_of(m.txs, id);
    assert(0 <= k < m.txs.len() && m.txs[k].transaction.id == id);
    let rest = m.txs.remove(k);
    if tx_exists(rest, id) {
        let j = choose|j: int| 0 <= j < rest.len() && rest[j].transaction.id == id;
        if j < k {
            assert(rest[j] == m.txs[j]);
        } else {
            assert(rest[j] == m.txs[j + 1]);
        }
    }
}

/// A freshly appended transaction is visible under its id: after a creation,
/// a lookup of the new id finds exactly the appended record.
pub proof fn lemma_append_makes_visible(m0: StoreModel, m1: StoreModel, st: StoredTxView)
    requires
        model_wf(m1),
        m1.txs == m0.txs.push(st),
    ensures
        tx_exists(m1.txs, st.transaction.id),
        tx_index_of(m1.txs, st.transaction.id) == m0.txs.len(),
        m1.txs[tx_index_of(m1.txs, st.transaction.id)] == st,
{
    let n = m0.txs.len() as int;
    assert(m1.txs[n] == st);
    let k = tx_index_of(m1.txs, st.transaction.id);
    assert(0 <= k < m1.txs.len() && m1.txs[k].transaction.id == st.transaction.id);
    if k != n {
        assert(m1.txs[k].transaction.id != m1.txs[n].transaction.id);
    }
}

/// The lifecycle never leaves the cancelled state: no allowed transition
/// starts from it.
pub open spec fn transition_allowed(from: TransactionStatus, to: TransactionStatus) -> bool {
    match (from, to) {
        (TransactionStatus::Draft, TransactionStatus::Confirmed) => true,
        (TransactionStatus::Draft, TransactionStatus::Cancelled) => true,
        (TransactionStatus::Confirmed, TransactionStatus::Cancelled) => true,
        _ => false,
    }
}

/// Cancelled is terminal under the allowed transitions.
pub proof fn lemma_cancelled_terminal(to: TransactionStatus)
    ensures
        !transition_allowed(TransactionStatus::Cancelled, to),
{
}

/// The success guards of the two conditional status writes are exactly the
/// allowed transitions: confirmation succeeds precisely from draft, and
/// cancellation precisely from any state that is not already cancelled.
pub proof fn lemma_lifecycle_guards(from: TransactionStatus)
    ensures
        (from is Draft) == transition_allowed(from, TransactionStatus::Confirmed),
        !(from is Cancelled) == transition_allowed(from, TransactionStatus::Cancelled),
{
}

} // verus!
