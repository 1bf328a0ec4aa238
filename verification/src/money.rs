//! Fixed-point line-item arithmetic.
//!
//! A quantity is a count of thousandths of a unit (`QUANTITY_SCALE`), a price
//! or amount is a count of cents, and a tax rate is a count of basis points
//! (`TAX_RATE_SCALE`, so `10000` stands for a rate of `1.0`).  With these
//! scales a line item's derived amounts are
//! `subtotal = quantity * unit_price / QUANTITY_SCALE` (cents),
//! `tax_amount = subtotal * tax_rate / TAX_RATE_SCALE` (cents), and
//! `total_amount = subtotal + tax_amount`, all with flooring integer division.

use vstd::prelude::*;
use vstd::arithmetic::div_mod::{lemma_div_is_ordered, lemma_div_multiples_vanish, lemma_div_pos_is_pos};
use vstd::arithmetic::mul::{lemma_mul_inequality, lemma_mul_nonnegative, lemma_mul_upper_bound};

verus! {

/// Number of quantity steps that make one unit.
pub const QUANTITY_SCALE: u64 = 1000;

/// Number of tax-rate steps that make a rate of one.
pub const TAX_RATE_SCALE: u64 = 10000;

/// Subtotal in cents of `quantity` thousandths at `unit_price` cents per unit.
pub open spec fn spec_subtotal(quantity: int, unit_price: int) -> int {
    (quantity * unit_price) / (QUANTITY_SCALE as int)
}

/// Tax in cents on a `subtotal` of cents at `tax_rate` basis points.
pub open spec fn spec_tax(subtotal: int, tax_rate: int) -> int {
    (subtotal * tax_rate) / (TAX_RATE_SCALE as int)
}

/// Total in cents of one line item: subtotal plus tax.
pub open spec fn spec_item_total(quantity: int, unit_price: int, tax_rate: int) -> int {
    spec_subtotal(quantity, unit_price) + spec_tax(spec_subtotal(quantity, unit_price), tax_rate)
}

/// Whether the derived amounts of one line item are representable in cents.
pub open spec fn item_amounts_fit(quantity: int, unit_price: int, tax_rate: int) -> bool {
    spec_item_total(quantity, unit_price, tax_rate) <= u64::MAX as int
}

/// The subtotal of in-range inputs is non-negative.
pub proof fn lemma_subtotal_nonneg(quantity: int, unit_price: int)
    requires
        0 <= quantity,
        0 <= unit_price,
    ensures
        0 <= spec_subtotal(quantity, unit_price),
{
    lemma_mul_nonnegative(quantity, unit_price);
    lemma_div_pos_is_pos(quantity * unit_price, QUANTITY_SCALE as int);
}

/// At a rate of at most one, the tax on a subtotal never exceeds the subtotal.
pub proof fn lemma_tax_le_subtotal(subtotal: int, tax_rate: int)
    requires
        0 <= subtotal,
        0 <= tax_rate <= TAX_RATE_SCALE,
    ensures
        0 <= spec_tax(subtotal, tax_rate) <= subtotal,
{
    lemma_mul_nonnegative(subtotal, tax_rate);
    lemma_div_pos_is_pos(subtotal * tax_rate, TAX_RATE_SCALE as int);
    lemma_mul_inequality(tax_rate, TAX_RATE_SCALE as int, subtotal);
    lemma_div_is_ordered(
        subtotal * tax_rate,
        subtotal * (TAX_RATE_SCALE as int),
        TAX_RATE_SCALE as int,
    );
    lemma_div_multiples_vanish(subtotal, TAX_RATE_SCALE as int);
}

/// Derives `(subtotal, tax_amount, total_amount)` in cents for one line item,
/// or `None` when the exact result does not fit in cents.
pub fn compute_item_amounts(quantity: i64, unit_price: i64, tax_rate: i64) -> (r: Option<(u64, u64, u64)>)
    requires
        0 < quantity,
        0 <= unit_price,
        0 <= tax_rate <= TAX_RATE_SCALE,
    ensures
        r is Some <==> item_amounts_fit(quantity as int, unit_price as int, tax_rate as int),
        r matches Some(a) ==> {
            &&& a.0 as int == spec_subtotal(quantity as int, unit_price as int)
            &&& a.1 as int == spec_tax(a.0 as int, tax_rate as int)
            &&& a.2 == a.0 + a.1
        },
{
    proof {
        lemma_subtotal_nonneg(quantity as int, unit_price as int);
        lemma_tax_le_subtotal(
            spec_subtotal(quantity as int, unit_price as int),
            tax_rate as int,
        );
        lemma_mul_upper_bound(quantity as int, i64::MAX as int, unit_price as int, i64::MAX as int);
    }
    let product: u128 = (quantity as u128) * (unit_price as u128);
    let subtotal_wide: u128 = product / (QUANTITY_SCALE as u128);
    if subtotal_wide > u64::MAX as u128 {
        return None;
    }
    let tax_wide: u128 = subtotal_wide * (tax_rate as u128) / (TAX_RATE_SCALE as u128);
    proof {
        lemma_tax_le_subtotal(subtotal_wide as int, tax_rate as int);
    }
    let total_wide: u128 = subtotal_wide + tax_wide;
    if total_wide > u64::MAX as u128 {
        return None;
    }
    Some((subtotal_wide as u64, tax_wide as u64, total_wide as u64))
}

} // verus!
