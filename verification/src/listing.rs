//! Listing of transactions: conjunctive filtering, ordering by transaction
//! date then creation time, both descending with the id as final tie-break,
//! and optional pagination.

use vstd::prelude::*;
use vstd::math::min;
use vstd::multiset::Multiset;
use crate::errors::AppResult;
use crate::model::{
    spec_type_name, type_string, StoredTransaction, StoredTxView, Transaction,
    TransactionWithItems,
};
use crate::store::{twi_matches, txs_view, Store};
use crate::summary::opt_str_view;

verus! {

/// Strict total order of the listing: later transaction dates first, then
/// later creation times, and the id as final tie-break so that equal keys
/// cannot occur.
pub open spec fn tx_before(a: StoredTxView, b: StoredTxView) -> bool {
    let at = a.transaction;
    let bt = b.transaction;
    ||| at.transaction_date > bt.transaction_date
    ||| (at.transaction_date == bt.transaction_date && at.created_at > bt.created_at)
    ||| (at.transaction_date == bt.transaction_date && at.created_at == bt.created_at && at.id
        < bt.id)
}

/// `x` placed before the first element of `s` it precedes.
pub open spec fn insert_ordered(x: StoredTxView, s: Seq<StoredTxView>) -> Seq<StoredTxView>
    decreases s.len(),
{
    if s.len() == 0 {
        seq![x]
    } else if tx_before(x, s[0]) {
        seq![x] + s
    } else {
        seq![s[0]] + insert_ordered(x, s.drop_first())
    }
}

/// Insertion sort of `s` under the listing order.
pub open spec fn sort_ordered(s: Seq<StoredTxView>) -> Seq<StoredTxView>
    decreases s.len(),
{
    if s.len() == 0 {
        Seq::empty()
    } else {
        insert_ordered(s.last(), sort_ordered(s.drop_last()))
    }
}

/// Whether transaction `t` passes the listing filters.
pub open spec fn list_selects(t: Transaction, ty: Option<Seq<char>>, cid: Option<i64>) -> bool {
    &&& (ty matches Some(s) ==> spec_type_name(t.transaction_type) == s)
    &&& (cid matches Some(c) ==> t.customer_id == c)
}

/// The subsequence of `txs` passing the listing filters, in store order.
pub open spec fn filter_list(
    txs: Seq<StoredTxView>,
    ty: Option<Seq<char>>,
    cid: Option<i64>,
) -> Seq<StoredTxView>
    decreases txs.len(),
{
    if txs.len() == 0 {
        Seq::empty()
    } else {
        filter_list(txs.drop_last(), ty, cid) + if list_selects(txs.last().transaction, ty, cid) {
            seq![txs.last()]
        } else {
            Seq::empty()
        }
    }
}

/// The window of `s` a pagination request selects: `limit` rows from `offset`
/// when both are given, the first `limit` rows when only `limit` is given,
/// and everything otherwise (an offset without a limit is ignored).
pub open spec fn page(
    s: Seq<StoredTxView>,
    limit: Option<usize>,
    offset: Option<usize>,
) -> Seq<StoredTxView> {
    match (limit, offset) {
        (Some(l), Some(o)) => {
            let start = min(o as int, s.len() as int);
            s.subrange(start, min(start + l, s.len() as int))
        },
        (Some(l), None) => s.subrange(0, min(l as int, s.len() as int)),
        (None, _) => s,
    }
}

/// Whether `s` stands in the listing order: no later element belongs before
/// an earlier one.
pub open spec fn ordered(s: Seq<StoredTxView>) -> bool {
    forall|i: int, j: int|
        #![trigger s[i], s[j]]
        0 <= i < j < s.len() ==> !tx_before(s[j], s[i])
}

/// Inserting into an ordered sequence keeps it ordered, whatever the element.
proof fn lemma_insert_ordered_keeps_order(x: StoredTxView, s: Seq<StoredTxView>)
    requires
        ordered(s),
    ensures
        ordered(insert_ordered(x, s)),
    decreases s.len(),
{
    if s.len() == 0 {
    } else if tx_before(x, s[0]) {
        let t = seq![x] + s;
        assert forall|i: int, j: int|
            #![trigger t[i], t[j]]
            0 <= i < j < t.len() implies !tx_before(t[j], t[i]) by {
            if i == 0 {
                if j > 1 {
                    assert(!tx_before(s[j - 1], s[0]));
                }
            } else {
                assert(t[i] == s[i - 1] && t[j] == s[j - 1]);
            }
        }
    } else {
        let rest = insert_ordered(x, s.drop_first());
        assert(ordered(s.drop_first()));
        lemma_insert_ordered_keeps_order(x, s.drop_first());
        let t = seq![s[0]] + rest;
        assert forall|i: int, j: int|
            #![trigger t[i], t[j]]
            0 <= i < j < t.len() implies !tx_before(t[j], t[i]) by {
            if i == 0 {
                lemma_insert_ordered_contains(x, s.drop_first(), t[j]);
                if t[j] == x {
                    assert(!tx_before(x, s[0]));
                } else {
                    let w = choose|w: int|
                        0 <= w < s.drop_first().len() && s.drop_first()[w] == t[j];
                    assert(s[w + 1] == t[j]);
                    assert(!tx_before(s[w + 1], s[0]));
                }
            } else {
                assert(t[i] == rest[i - 1] && t[j] == rest[j - 1]);
            }
        }
    }
}

/// The listing's sort really sorts: its result stands in the listing order.
pub proof fn lemma_sort_ordered_sorts(s: Seq<StoredTxView>)
    ensures
        ordered(sort_ordered(s)),
    decreases s.len(),
{
    if s.len() > 0 {
        lemma_sort_ordered_sorts(s.drop_last());
        lemma_insert_ordered_keeps_order(s.last(), sort_ordered(s.drop_last()));
    }
}

/// Inserting adds exactly the inserted element.
proof fn lemma_insert_ordered_multiset(x: StoredTxView, s: Seq<StoredTxView>)
    ensures
        insert_ordered(x, s).to_multiset() == s.to_multiset().insert(x),
    decreases s.len(),
{
    broadcast use vstd::seq_lib::group_to_multiset_ensures;

    if s.len() == 0 {
        assert(insert_ordered(x, s) =~= Seq::<StoredTxView>::empty().push(x));
        assert(insert_ordered(x, s).to_multiset() =~= s.to_multiset().insert(x));
    } else if tx_before(x, s[0]) {
        vstd::seq_lib::lemma_multiset_commutative(seq![x], s);
        assert(seq![x] =~= Seq::<StoredTxView>::empty().push(x));
        assert(seq![x].to_multiset() =~= Multiset::<StoredTxView>::empty().insert(x));
        assert(insert_ordered(x, s).to_multiset() =~= s.to_multiset().insert(x));
    } else {
        lemma_insert_ordered_multiset(x, s.drop_first());
        let rest = insert_ordered(x, s.drop_first());
        vstd::seq_lib::lemma_multiset_commutative(seq![s[0]], rest);
        vstd::seq_lib::lemma_multiset_commutative(seq![s[0]], s.drop_first());
        assert(s =~= seq![s[0]] + s.drop_first());
        assert(insert_ordered(x, s).to_multiset() =~= s.to_multiset().insert(x));
    }
}

/// The listing's sort is a permutation: it neither loses nor invents rows.
pub proof fn lemma_sort_ordered_permutes(s: Seq<StoredTxView>)
    ensures
        sort_ordered(s).to_multiset() == s.to_multiset(),
    decreases s.len(),
{
    broadcast use vstd::seq_lib::group_to_multiset_ensures;

    if s.len() > 0 {
        lemma_sort_ordered_permutes(s.drop_last());
        lemma_insert_ordered_multiset(s.last(), sort_ordered(s.drop_last()));
        assert(s =~= s.drop_last().push(s.last()));
        assert(sort_ordered(s).to_multiset() =~= s.to_multiset());
    }
}

/// Every element of an insertion came from the insertion's arguments.
proof fn lemma_insert_ordered_contains(x: StoredTxView, s: Seq<StoredTxView>, e: StoredTxView)
    requires
        insert_ordered(x, s).contains(e),
    ensures
        e == x || s.contains(e),
    decreases s.len(),
{
    if s.len() == 0 {
        assert(insert_ordered(x, s) == seq![x]);
        assert(e == insert_ordered(x, s)[0]);
    } else if tx_before(x, s[0]) {
        let t = seq![x] + s;
        let i = choose|i: int| 0 <= i < t.len() && t[i] == e;
        if i > 0 {
            assert(s[i - 1] == e);
        }
    } else {
        let rest = insert_ordered(x, s.drop_first());
        let t = seq![s[0]] + rest;
        let i = choose|i: int| 0 <= i < t.len() && t[i] == e;
        if i == 0 {
            assert(s[0] == e);
        } else {
            assert(rest[i - 1] == e);
            assert(rest.contains(e));
            lemma_insert_ordered_contains(x, s.drop_first(), e);
            if s.drop_first().contains(e) {
                let j = choose|j: int| 0 <= j < s.drop_first().len() && s.drop_first()[j] == e;
                assert(s[j + 1] == e);
            }
        }
    }
}

/// Every element of the sorted sequence came from the input.
proof fn lemma_sort_ordered_contains(s: Seq<StoredTxView>, e: StoredTxView)
    requires
        sort_ordered(s).contains(e),
    ensures
        s.contains(e),
    decreases s.len(),
{
    if s.len() > 0 {
        lemma_insert_ordered_contains(s.last(), sort_ordered(s.drop_last()), e);
        if e == s.last() {
            assert(s[s.len() - 1] == e);
        } else {
            lemma_sort_ordered_contains(s.drop_last(), e);
            let j = choose|j: int| 0 <= j < s.drop_last().len() && s.drop_last()[j] == e;
            assert(s[j] == e);
        }
    }
}

/// Every element of the filtered sequence came from the input.
proof fn lemma_filter_list_contains(
    txs: Seq<StoredTxView>,
    ty: Option<Seq<char>>,
    cid: Option<i64>,
    e: StoredTxView,
)
    requires
        filter_list(txs, ty, cid).contains(e),
    ensures
        txs.contains(e),
    decreases txs.len(),
{
    if txs.len() > 0 {
        let f = filter_list(txs, ty, cid);
        let fp = filter_list(txs.drop_last(), ty, cid);
        let i = choose|i: int| 0 <= i < f.len() && f[i] == e;
        if i < fp.len() {
            assert(fp[i] == e);
            lemma_filter_list_contains(txs.drop_last(), ty, cid, e);
            let j = choose|j: int| 0 <= j < txs.drop_last().len() && txs.drop_last()[j] == e;
            assert(txs[j] == e);
        } else {
            assert(txs.last() == e);
            assert(txs[txs.len() - 1] == e);
        }
    }
}

impl Store {
    /// Whether the listing order puts `a` before `b`.
    fn tx_before_exec(a: &StoredTransaction, b: &StoredTransaction) -> (r: bool)
        ensures
            r == tx_before(a@, b@),
    {
        let ad = a.transaction.transaction_date;
        let bd = b.transaction.transaction_date;
        if ad != bd {
            return ad > bd;
        }
        let ac = a.transaction.created_at;
        let bc = b.transaction.created_at;
        if ac != bc {
            return ac > bc;
        }
        a.transaction.id < b.transaction.id
    }

    /// Inserts `x` into the already ordered `v`, keeping the order.
    fn insert_sorted(x: StoredTransaction, mut v: Vec<StoredTransaction>) -> (r: Vec<
        StoredTransaction,
    >)
        ensures
            txs_view(r@) == insert_ordered(x@, txs_view(v@)),
        decreases v@.len(),
    {
        let ghost v0 = txs_view(v@);
        if v.len() == 0 {
            let mut r: Vec<StoredTransaction> = Vec::new();
            r.push(x);
            proof {
                assert(txs_view(r@) =~= seq![x@]);
            }
            r
        } else if Self::tx_before_exec(&x, &v[0]) {
            proof {
                assert(v0[0] == v@[0]@);
            }
            let mut r: Vec<StoredTransaction> = Vec::new();
            r.push(x);
            r.append(&mut v);
            proof {
                assert(txs_view(r@) =~= seq![x@] + v0);
            }
            r
        } else {
            proof {
                assert(v0[0] == v@[0]@);
            }
            let first = v.remove(0);
            proof {
                assert(txs_view(v@) =~= v0.drop_first());
            }
            let mut rest = Self::insert_sorted(x, v);
            let mut r: Vec<StoredTransaction> = Vec::new();
            r.push(first);
            r.append(&mut rest);
            proof {
                assert(txs_view(r@) =~= seq![v0[0]] + insert_ordered(x@, v0.drop_first()));
            }
            r
        }
    }

    /// Sorts `v` under the listing order by repeated insertion.
    fn sort_txs(v: Vec<StoredTransaction>) -> (r: Vec<StoredTransaction>)
        ensures
            txs_view(r@) == sort_ordered(txs_view(v@)),
    {
        let n = v.len();
        let mut acc: Vec<StoredTransaction> = Vec::new();
        proof {
            assert(txs_view(v@.take(0)) =~= Seq::<StoredTxView>::empty());
            assert(txs_view(acc@) =~= sort_ordered(txs_view(v@.take(0))));
        }
        for i in 0..n
            invariant
                n == v@.len(),
                txs_view(acc@) == sort_ordered(txs_view(v@.take(i as int))),
        {
            let x = v[i].clone();
            proof {
                let p = txs_view(v@.take(i as int + 1));
                assert(p.drop_last() =~= txs_view(v@.take(i as int)));
                assert(p.last() == v@[i as int]@);
            }
            acc = Self::insert_sorted(x, acc);
        }
        proof {
            assert(v@.take(n as int) =~= v@);
        }
        acc
    }

    /// Lists transactions as read models: those passing the supplied type and
    /// customer filters, ordered by transaction date descending then creation
    /// time descending, with the requested page cut out of that order.
    #[verifier::loop_isolation(false)]
    #[verifier::rlimit(60)]
    pub fn get_transactions(
        &self,
        transaction_type: Option<String>,
        customer_id: Option<i64>,
        limit: Option<usize>,
        offset: Option<usize>,
    ) -> (r: AppResult<Vec<TransactionWithItems>>)
        requires
            self.wf(),
        ensures
            r matches Ok(v) && {
                let shown = page(
                    sort_ordered(
                        filter_list(self@.txs, opt_str_view(&transaction_type), customer_id),
                    ),
                    limit,
                    offset,
                );
                &&& v@.len() == shown.len()
                &&& forall|j: int|
                    0 <= j < shown.len() ==> twi_matches(#[trigger] v@[j], shown[j], self@)
            },
    {
        let ghost ty = opt_str_view(&transaction_type);
        let n = self.transactions.len();
        let mut matching: Vec<StoredTransaction> = Vec::new();
        proof {
            assert(txs_view(matching@) =~= filter_list(self@.txs.take(0), ty, customer_id));
        }
        for i in 0..n
            invariant
                txs_view(matching@) == filter_list(self@.txs.take(i as int), ty, customer_id),
        {
            let t = &self.transactions[i];
            proof {
                assert(self@.txs[i as int] == self.transactions@[i as int]@);
                assert(self@.txs.take(i as int + 1).drop_last() =~= self@.txs.take(i as int));
            }
            let selected = (match &transaction_type {
                Some(s) => {
                    let tn = type_string(t.transaction.transaction_type);
                    tn == *s
                },
                None => true,
            })
                && (match customer_id {
                Some(c) => t.transaction.customer_id == c,
                None => true,
            });
            if selected {
                matching.push(t.clone());
                proof {
                    assert(txs_view(matching@) =~= filter_list(
                        self@.txs.take(i as int + 1),
                        ty,
                        customer_id,
                    ));
                }
            } else {
                proof {
                    assert(txs_view(matching@) =~= filter_list(
                        self@.txs.take(i as int + 1),
                        ty,
                        customer_id,
                    ));
                }
            }
        }
        proof {
            assert(self@.txs.take(n as int) =~= self@.txs);
        }
        let sorted = Self::sort_txs(matching);
        let ghost sorted_spec = sort_ordered(filter_list(self@.txs, ty, customer_id));
        let total = sorted.len();
        let start: usize;
        let stop: usize;
        match (limit, offset) {
            (Some(l), Some(o)) => {
                start = if o > total {
                    total
                } else {
                    o
                };
                stop = if l > total - start {
                    total
                } else {
                    start + l
                };
            },
            (Some(l), None) => {
                start = 0;
                stop = if l > total {
                    total
                } else {
                    l
                };
            },
            _ => {
                start = 0;
                stop = total;
            },
        }
        let ghost shown = page(sorted_spec, limit, offset);
        proof {
            assert(shown =~= txs_view(sorted@).subrange(start as int, stop as int));
        }
        let mut out: Vec<TransactionWithItems> = Vec::new();
        let mut j = start;
        while j < stop
            invariant
                start <= j <= stop,
                out@.len() == j - start,
                forall|t: int|
                    0 <= t < out@.len() ==> twi_matches(#[trigger] out@[t], shown[t], self@),
            decreases stop - j,
        {
            let st = &sorted[j];
            proof {
                assert(txs_view(sorted@)[j as int] == st@);
                assert(txs_view(sorted@).contains(st@));
                lemma_sort_ordered_contains(filter_list(self@.txs, ty, customer_id), st@);
                lemma_filter_list_contains(self@.txs, ty, customer_id, st@);
                let w = choose|w: int| 0 <= w < self@.txs.len() && self@.txs[w] == st@;
                assert(crate::model::stored_tx_wf(self@.txs[w]));
                assert(crate::model::customer_exists(
                    self@.customers,
                    st.transaction.customer_id,
                ));
                assert forall|i: int|
                    0 <= i < st.items@.len() implies crate::model::product_exists(
                    self@.products,
                    (#[trigger] st.items@[i]).product_id,
                ) by {
                    assert(self@.txs[w].items[i] == st.items@[i]);
                }
                assert(shown[j - start] == st@);
            }
            let twi = self.resolve(st);
            out.push(twi);
            j = j + 1;
        }
        Ok(out)
    }
}

} // verus!
