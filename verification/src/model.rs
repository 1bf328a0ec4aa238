//! Data model of the transaction core: entities, read models, and the
//! well-formedness conditions that tie a transaction's stored totals to the
//! line items they are derived from.

use vstd::prelude::*;
use crate::money::{spec_subtotal, spec_tax, TAX_RATE_SCALE};

verus! {

/// Whether a transaction records a sale or a purchase.
#[derive(Clone, Copy, Debug, PartialEq, Eq, Structural)]
pub enum TransactionType {
    Sale,
    Purchase,
}

/// Lifecycle state of a transaction; `Cancelled` is terminal.
#[derive(Clone, Copy, Debug, PartialEq, Eq, Structural)]
pub enum TransactionStatus {
    Draft,
    Confirmed,
    Cancelled,
}

/// The wire name of a transaction type.
pub open spec fn spec_type_name(t: TransactionType) -> Seq<char> {
    match t {
        TransactionType::Sale => "sale"@,
        TransactionType::Purchase => "purchase"@,
    }
}

/// The wire name of a status.
pub open spec fn spec_status_name(s: TransactionStatus) -> Seq<char> {
    match s {
        TransactionStatus::Draft => "draft"@,
        TransactionStatus::Confirmed => "confirmed"@,
        TransactionStatus::Cancelled => "cancelled"@,
    }
}

/// Parses a wire name back to a transaction type.
pub open spec fn spec_parse_type(s: Seq<char>) -> Option<TransactionType> {
    if s == "sale"@ {
        Some(TransactionType::Sale)
    } else if s == "purchase"@ {
        Some(TransactionType::Purchase)
    } else {
        None
    }
}

/// Parses a wire name back to a status.
pub open spec fn spec_parse_status(s: Seq<char>) -> Option<TransactionStatus> {
    if s == "draft"@ {
        Some(TransactionStatus::Draft)
    } else if s == "confirmed"@ {
        Some(TransactionStatus::Confirmed)
    } else if s == "cancelled"@ {
        Some(TransactionStatus::Cancelled)
    } else {
        None
    }
}

/// String equality by contents.
pub(crate) fn str_eq(a: &str, b: &str) -> (r: bool)
    ensures
        r == (a@ == b@),
{
    let left: String = a.to_owned();
    let right: String = b.to_owned();
    left == right
}

/// Renders a transaction type under its wire name.
pub fn type_string(t: TransactionType) -> (r: String)
    ensures
        r@ == spec_type_name(t),
{
    match t {
        TransactionType::Sale => "sale".to_owned(),
        TransactionType::Purchase => "purchase".to_owned(),
    }
}

/// Renders a status under its wire name.
pub fn status_string(s: TransactionStatus) -> (r: String)
    ensures
        r@ == spec_status_name(s),
{
    match s {
        TransactionStatus::Draft => "draft".to_owned(),
        TransactionStatus::Confirmed => "confirmed".to_owned(),
        TransactionStatus::Cancelled => "cancelled".to_owned(),
    }
}

/// Parses a transaction-type wire name; `None` for any other string.
pub fn parse_type(s: &str) -> (r: Option<TransactionType>)
    ensures
        r == spec_parse_type(s@),
{
    if str_eq(s, "sale") {
        Some(TransactionType::Sale)
    } else if str_eq(s, "purchase") {
        Some(TransactionType::Purchase)
    } else {
        None
    }
}

/// Parses a status wire name; `None` for any other string.
pub fn parse_status(s: &str) -> (r: Option<TransactionStatus>)
    ensures
        r == spec_parse_status(s@),
{
    if str_eq(s, "draft") {
        Some(TransactionStatus::Draft)
    } else if str_eq(s, "confirmed") {
        Some(TransactionStatus::Confirmed)
    } else if str_eq(s, "cancelled") {
        Some(TransactionStatus::Cancelled)
    } else {
        None
    }
}

/// A customer as the transaction core sees it: an id to reference and a name
/// for display.
#[derive(Debug)]
pub struct Customer {
    pub id: i64,
    pub name: String,
}

impl Clone for Customer {
    fn clone(&self) -> (res: Self)
        ensures
            res == *self,
    {
        Customer { id: self.id, name: self.name.clone() }
    }
}

/// A product as the transaction core sees it: an id, a display name, and
/// whether new transactions may reference it.
#[derive(Debug)]
pub struct Product {
    pub id: i64,
    pub name: String,
    pub is_active: bool,
}

impl Clone for Product {
    fn clone(&self) -> (res: Self)
        ensures
            res == *self,
    {
        Product { id: self.id, name: self.name.clone(), is_active: self.is_active }
    }
}

/// One line of a transaction.  `quantity` is in thousandths of a unit,
/// `unit_price`, `subtotal`, `tax_amount` and `total_amount` in cents, and
/// `tax_rate` in basis points, all captured at the time of sale.
#[derive(Clone, Copy, Debug, PartialEq, Eq, Structural)]
pub struct TransactionItem {
    pub id: i64,
    pub transaction_id: i64,
    pub product_id: i64,
    pub quantity: u64,
    pub unit_price: u64,
    pub tax_rate: u64,
    pub subtotal: u64,
    pub tax_amount: u64,
    pub total_amount: u64,
}

/// A recorded sale or purchase.  `total_amount` and `tax_amount` are derived
/// from the line items and never taken from input.  Dates and timestamps are
/// milliseconds since the epoch.
#[derive(Debug)]
pub struct Transaction {
    pub id: i64,
    pub customer_id: i64,
    pub transaction_type: TransactionType,
    pub transaction_date: i64,
    pub total_amount: u64,
    pub tax_amount: u64,
    pub status: TransactionStatus,
    pub notes: Option<String>,
    pub created_at: i64,
    pub updated_at: i64,
}

impl Clone for Transaction {
    fn clone(&self) -> (res: Self)
        ensures
            res == *self,
    {
        Transaction {
            id: self.id,
            customer_id: self.customer_id,
            transaction_type: self.transaction_type,
            transaction_date: self.transaction_date,
            total_amount: self.total_amount,
            tax_amount: self.tax_amount,
            status: self.status,
            notes: self.notes.clone(),
            created_at: self.created_at,
            updated_at: self.updated_at,
        }
    }
}

/// A transaction together with the line items it owns, as held by the store.
#[derive(Debug)]
pub struct StoredTransaction {
    pub transaction: Transaction,
    pub items: Vec<TransactionItem>,
}

/// Mathematical value of a stored transaction: the transaction and the
/// sequence of its items.
#[verifier::ext_equal]
pub ghost struct StoredTxView {
    pub transaction: Transaction,
    pub items: Seq<TransactionItem>,
}

impl View for StoredTransaction {
    type V = StoredTxView;

    open spec fn view(&self) -> StoredTxView {
        StoredTxView { transaction: self.transaction, items: self.items@ }
    }
}

impl Clone for StoredTransaction {
    fn clone(&self) -> (res: Self)
        ensures
            res@ == self@,
    {
        let items = self.items.clone();
        proof {
            assert(items@ =~= self.items@);
        }
        StoredTransaction { transaction: self.transaction.clone(), items }
    }
}

/// One line item with its product resolved for display.
#[derive(Debug)]
pub struct TransactionItemWithProduct {
    pub item: TransactionItem,
    pub product: Product,
}

impl Clone for TransactionItemWithProduct {
    fn clone(&self) -> (res: Self)
        ensures
            res == *self,
    {
        TransactionItemWithProduct { item: self.item, product: self.product.clone() }
    }
}

/// The denormalized read model: a transaction, its items with resolved
/// products, and the resolved customer.  Assembled on read, never stored.
#[derive(Debug)]
pub struct TransactionWithItems {
    pub transaction: Transaction,
    pub items: Vec<TransactionItemWithProduct>,
    pub customer: Customer,
}

/// Sum in cents of the items' total amounts.
pub open spec fn sum_total(items: Seq<TransactionItem>) -> int
    decreases items.len(),
{
    if items.len() == 0 {
        0
    } else {
        sum_total(items.drop_last()) + items.last().total_amount
    }
}

/// Sum in cents of the items' tax amounts.
pub open spec fn sum_tax(items: Seq<TransactionItem>) -> int
    decreases items.len(),
{
    if items.len() == 0 {
        0
    } else {
        sum_tax(items.drop_last()) + items.last().tax_amount
    }
}

/// A line item is well formed when its captured inputs are in range and its
/// three derived amounts are exactly the fixed-point results of those inputs.
pub open spec fn item_wf(it: TransactionItem) -> bool {
    &&& 0 < it.quantity <= i64::MAX as u64
    &&& it.unit_price <= i64::MAX as u64
    &&& it.tax_rate <= TAX_RATE_SCALE
    &&& it.subtotal as int == spec_subtotal(it.quantity as int, it.unit_price as int)
    &&& it.tax_amount as int == spec_tax(it.subtotal as int, it.tax_rate as int)
    &&& it.total_amount == it.subtotal + it.tax_amount
}

/// A stored transaction is well formed when it has at least one item, every
/// item is well formed, belongs to it, and carries a distinct increasing id,
/// and the transaction's totals equal the sums over its items.
pub open spec fn stored_tx_wf(st: StoredTxView) -> bool {
    &&& st.items.len() > 0
    &&& forall|i: int|
        0 <= i < st.items.len() ==> item_wf(#[trigger] st.items[i])
            && st.items[i].transaction_id == st.transaction.id
    &&& forall|i: int, j: int|
        #![trigger st.items[i], st.items[j]]
        0 <= i < j < st.items.len() ==> st.items[i].id < st.items[j].id
    &&& st.transaction.total_amount as int == sum_total(st.items)
    &&& st.transaction.tax_amount as int == sum_tax(st.items)
}

/// Whether some customer in `s` carries `id`.
pub open spec fn customer_exists(s: Seq<Customer>, id: i64) -> bool {
    exists|k: int| 0 <= k < s.len() && s[k].id == id
}

/// Whether some product in `s` carries `id`.
pub open spec fn product_exists(s: Seq<Product>, id: i64) -> bool {
    exists|k: int| 0 <= k < s.len() && s[k].id == id
}

/// Whether some active product in `s` carries `id`.
pub open spec fn active_product_exists(s: Seq<Product>, id: i64) -> bool {
    exists|k: int| 0 <= k < s.len() && s[k].id == id && s[k].is_active
}

/// Whether some transaction in `s` carries `id`.
pub open spec fn tx_exists(s: Seq<StoredTxView>, id: i64) -> bool {
    exists|k: int| 0 <= k < s.len() && s[k].transaction.id == id
}

/// The index of the transaction carrying `id`; meaningful only when
/// `tx_exists(s, id)` holds, and unique under the store's id-uniqueness
/// invariant.
pub open spec fn tx_index_of(s: Seq<StoredTxView>, id: i64) -> int {
    choose|k: int| 0 <= k < s.len() && s[k].transaction.id == id
}

/// Whether some invoice in `s` references transaction `id`.
pub open spec fn invoice_exists(s: Seq<i64>, id: i64) -> bool {
    exists|k: int| 0 <= k < s.len() && s[k] == id
}

} // verus!
