//! Count and amount rollups over a filtered transaction set.  Cancelled
//! transactions never contribute; type and date-range filters apply
//! conjunctively when supplied.

use vstd::prelude::*;
use crate::errors::AppResult;
use crate::model::{spec_type_name, type_string, StoredTxView, Transaction, TransactionStatus};
use crate::store::Store;

verus! {

/// Count, total amount and tax amount over the transactions a summary query
/// selects; all zero when nothing matches.
#[derive(Clone, Copy, Debug, PartialEq, Eq, Structural)]
pub struct TransactionSummary {
    pub count: usize,
    pub total_amount: u128,
    pub tax_amount: u128,
}

/// The view of an optional string filter.
pub open spec fn opt_str_view(o: &Option<String>) -> Option<Seq<char>> {
    match o {
        Some(s) => Some(s@),
        None => None,
    }
}

/// Whether transaction `t` is selected by a summary query: never when
/// cancelled, and otherwise only when it passes every supplied filter.
pub open spec fn summary_selects(
    t: Transaction,
    ty: Option<Seq<char>>,
    start: Option<i64>,
    end: Option<i64>,
) -> bool {
    &&& !(t.status is Cancelled)
    &&& (ty matches Some(s) ==> spec_type_name(t.transaction_type) == s)
    &&& (start matches Some(d) ==> t.transaction_date >= d)
    &&& (end matches Some(d) ==> t.transaction_date <= d)
}

/// Number of selected transactions.
pub open spec fn summary_count(
    txs: Seq<StoredTxView>,
    ty: Option<Seq<char>>,
    start: Option<i64>,
    end: Option<i64>,
) -> int
    decreases txs.len(),
{
    if txs.len() == 0 {
        0
    } else {
        summary_count(txs.drop_last(), ty, start, end) + if summary_selects(
            txs.last().transaction,
            ty,
            start,
            end,
        ) {
            1int
        } else {
            0int
        }
    }
}

/// Sum in cents of the selected transactions' total amounts.
pub open spec fn summary_total(
    txs: Seq<StoredTxView>,
    ty: Option<Seq<char>>,
    start: Option<i64>,
    end: Option<i64>,
) -> int
    decreases txs.len(),
{
    if txs.len() == 0 {
        0
    } else {
        summary_total(txs.drop_last(), ty, start, end) + if summary_selects(
            txs.last().transaction,
            ty,
            start,
            end,
        ) {
            txs.last().transaction.total_amount as int
        } else {
            0int
        }
    }
}

/// Sum in cents of the selected transactions' tax amounts.
pub open spec fn summary_tax(
    txs: Seq<StoredTxView>,
    ty: Option<Seq<char>>,
    start: Option<i64>,
    end: Option<i64>,
) -> int
    decreases txs.len(),
{
    if txs.len() == 0 {
        0
    } else {
        summary_tax(txs.drop_last(), ty, start, end) + if summary_selects(
            txs.last().transaction,
            ty,
            start,
            end,
        ) {
            txs.last().transaction.tax_amount as int
        } else {
            0int
        }
    }
}

impl Store {
    /// Aggregates count, total amount and tax amount over the transactions
    /// that pass the supplied filters, always excluding cancelled ones.  With
    /// zero matches all three fields are zero.
    #[verifier::loop_isolation(false)]
    pub fn get_transaction_summary(
        &self,
        transaction_type: Option<String>,
        start_date: Option<i64>,
        end_date: Option<i64>,
    ) -> (r: AppResult<TransactionSummary>)
        requires
            self.wf(),
        ensures
            r matches Ok(s) && {
                let ty = opt_str_view(&transaction_type);
                &&& s.count as int == summary_count(self@.txs, ty, start_date, end_date)
                &&& s.total_amount as int == summary_total(self@.txs, ty, start_date, end_date)
                &&& s.tax_amount as int == summary_tax(self@.txs, ty, start_date, end_date)
            },
    {
        let ghost ty = opt_str_view(&transaction_type);
        let n = self.transactions.len();
        let mut count: usize = 0;
        let mut total: u128 = 0;
        let mut tax: u128 = 0;
        proof {
            assert(self@.txs.take(0) =~= Seq::<StoredTxView>::empty());
        }
        for i in 0..n
            invariant
                count as int == summary_count(self@.txs.take(i as int), ty, start_date, end_date),
                total as int == summary_total(self@.txs.take(i as int), ty, start_date, end_date),
                tax as int == summary_tax(self@.txs.take(i as int), ty, start_date, end_date),
                count <= i,
                total <= (i as int) * (u64::MAX as int),
                tax <= (i as int) * (u64::MAX as int),
        {
            let t = &self.transactions[i];
            proof {
                assert(self@.txs[i as int] == self.transactions@[i as int]@);
                assert(self@.txs.take(i as int + 1).drop_last() =~= self@.txs.take(i as int));
                assert((i as int + 1) * (u64::MAX as int) == (i as int) * (u64::MAX as int)
                    + u64::MAX as int) by (nonlinear_arith);
            }
            let selected = !matches!(t.transaction.status, TransactionStatus::Cancelled)
                && (match &transaction_type {
                Some(s) => {
                    let tn = type_string(t.transaction.transaction_type);
                    tn == *s
                },
                None => true,
            })
                && (match start_date {
                Some(d) => t.transaction.transaction_date >= d,
                None => true,
            })
                && (match end_date {
                Some(d) => t.transaction.transaction_date <= d,
                None => true,
            });
            if selected {
                count = count + 1;
                total = total + t.transaction.total_amount as u128;
                tax = tax + t.transaction.tax_amount as u128;
            }
        }
        proof {
            assert(self@.txs.take(n as int) =~= self@.txs);
        }
        Ok(TransactionSummary { count, total_amount: total, tax_amount: tax })
    }
}

} // verus!
