//! Derived dividend economics for one position.
//!
//! All figures are fixed-point micro-units (`crate::num`).  The arithmetic
//! lives in spec functions here so that both the analytics engine and its
//! callers speak about the same quantities; `spec_dividend_info` is the
//! one-line summary of what the engine produces.

use vstd::prelude::*;

use crate::num::{spec_mul_div, PCT_SCALE, SCALE};

verus! {

/// Read-only dividend summary of one position.
#[derive(Debug, PartialEq)]
pub struct DividendInfo {
    /// Canonical quote symbol.
    pub symbol: String,
    /// Shares held, micro-units.
    pub quantity: u128,
    /// Average cost per share, micro-units.
    pub avg_price: u128,
    /// `quantity * avg_price`, micro-units.
    pub total_investment: u128,
    /// Trailing dividend per share and year, micro-units.
    pub annual_dividend_per_share: u128,
    /// `annual_dividend_per_share * quantity`, micro-units.
    pub annual_dividend: u128,
    /// Post-tax dividend yield against the current price, micro-percent.
    pub dividend_yield: u128,
    /// Post-tax dividend yield against the cost basis, micro-percent.
    pub yield_on_cost: u128,
    /// Withholding tax on the annual dividend, micro-units.
    pub annual_wht: u128,
    /// Annual dividend left after withholding tax, micro-units.
    pub annual_income_after_wht: u128,
    /// `quantity * current_price`, micro-units.
    pub current_investment_val: u128,
}

impl Clone for DividendInfo {
    /// A field-for-field copy.
    fn clone(&self) -> (r: Self)
        ensures
            r == *self,
    {
        DividendInfo {
            symbol: self.symbol.clone(),
            quantity: self.quantity,
            avg_price: self.avg_price,
            total_investment: self.total_investment,
            annual_dividend_per_share: self.annual_dividend_per_share,
            annual_dividend: self.annual_dividend,
            dividend_yield: self.dividend_yield,
            yield_on_cost: self.yield_on_cost,
            annual_wht: self.annual_wht,
            annual_income_after_wht: self.annual_income_after_wht,
            current_investment_val: self.current_investment_val,
        }
    }
}

/// The annual dividend per share: the trailing rate when known, otherwise
/// derived from the trailing yield (in micro-percent) and the current
/// price, otherwise zero.
pub open spec fn spec_per_share(
    yield_opt: Option<u128>,
    rate_opt: Option<u128>,
    current_price: int,
) -> int {
    match rate_opt {
        Option::Some(rate) => rate as int,
        Option::None => match yield_opt {
            Option::Some(y) => spec_mul_div(y as int, current_price, PCT_SCALE as int),
            Option::None => 0,
        },
    }
}

/// Per-share dividend left after withholding tax.
pub open spec fn spec_per_share_after_tax(per_share: int, tax_pct: int) -> int {
    (per_share * (100 - tax_pct)) / 100
}

/// A post-tax per-share amount expressed as a percentage of a price, in
/// micro-percent; exactly zero when the price is zero.
pub open spec fn spec_yield_pct(amount: int, price: int) -> int {
    if price == 0 {
        0
    } else {
        spec_mul_div(amount, PCT_SCALE as int, price)
    }
}

} // verus!
