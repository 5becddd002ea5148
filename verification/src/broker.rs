//! Broker-facing data: instrument metadata and raw position rows.
//!
//! Fetching from the broker happens outside this crate; what arrives here
//! are plain rows.  Ingestion turns raw rows into `Position` values:
//! zero-quantity rows are dropped, the market value and the price-only
//! profit/loss percentage are computed, and a missing currency falls back
//! to the reference currency code.

use vstd::prelude::*;

use crate::num::{spec_mul_div, PCT_SCALE, SCALE};
use crate::portfolio::{
    spec_prediction_unset, spec_raw_bounded, DividendPrediction, Position, RawPosition,
};

verus! {

/// Instrument metadata row from the broker.
#[derive(Debug, Clone)]
pub struct InstrumentMetadata {
    /// Date the instrument was added.
    pub added_on: String,
    /// Currency the instrument trades in.
    pub currency_code: String,
    /// ISIN identifier.
    pub isin: String,
    /// Full instrument name.
    pub name: String,
    /// Short instrument name.
    pub short_name: String,
    /// Broker ticker.
    pub ticker: String,
    /// Instrument type label.
    pub instrument_type: String,
}

/// How one ingested position relates to the raw broker row it came from.
pub open spec fn spec_row_ingested(r: RawPosition, p: Position) -> bool {
    &&& p.ticker == r.ticker
    &&& p.yf_ticker@ == Seq::<char>::empty()
    &&& p.quantity == r.quantity
    &&& p.average_price == r.average_price
    &&& p.current_price == r.current_price
    &&& match r.currency {
        Option::Some(c) => p.currency == c,
        Option::None => p.currency@ == "GBP"@,
    }
    &&& p.value == spec_mul_div(r.quantity as int, r.current_price as int, SCALE as int)
    &&& p.ppl == r.ppl
    &&& p.fx_ppl == match r.fx_ppl {
        Option::Some(f) => f as int,
        Option::None => 0,
    }
    &&& p.ppl_percent == if r.average_price != 0 {
        spec_mul_div(r.current_price as int, PCT_SCALE as int, r.average_price as int) - PCT_SCALE
    } else {
        0
    }
    &&& p.div_info is None
    &&& spec_prediction_unset(p.div_prediction)
    &&& p.wht == 0
}

/// The raw rows that survive ingestion: those with a positive quantity,
/// in their input order.
pub open spec fn spec_kept_rows(rows: Seq<RawPosition>) -> Seq<RawPosition>
    decreases rows.len(),
{
    if rows.len() == 0 {
        Seq::empty()
    } else {
        let rest = spec_kept_rows(rows.drop_last());
        if rows.last().quantity > 0 {
            rest.push(rows.last())
        } else {
            rest
        }
    }
}

/// Turns raw broker rows into positions: zero-quantity rows are dropped,
/// the rest keep their order and get their market value, price-only
/// profit/loss percentage and currency fallback filled in.  Dividend
/// fields start unset.
pub fn ingest_positions(rows: &Vec<RawPosition>) -> (out: Vec<Position>)
    requires
        forall|i: int| 0 <= i < rows@.len() ==> spec_raw_bounded(#[trigger] rows@[i]),
    ensures
        out@.len() == spec_kept_rows(rows@).len(),
        forall|i: int|
            0 <= i < out@.len() ==> spec_row_ingested(spec_kept_rows(rows@)[i], #[trigger] out@[i]),
        forall|i: int|
            0 <= i < out@.len() ==> crate::portfolio::spec_position_bounded(#[trigger] out@[i]),
{
    let n = rows.len();
    let mut out: Vec<Position> = Vec::new();
    let mut i: usize = 0;
    proof {
        assert(rows@.take(0) =~= Seq::<RawPosition>::empty());
    }
    while i < n
        invariant
            n == rows@.len(),
            0 <= i <= n,
            forall|k: int| 0 <= k < rows@.len() ==> spec_raw_bounded(#[trigger] rows@[k]),
            out@.len() == spec_kept_rows(rows@.take(i as int)).len(),
            forall|j: int|
                0 <= j < out@.len() ==> spec_row_ingested(
                    spec_kept_rows(rows@.take(i as int))[j],
                    #[trigger] out@[j],
                ),
            forall|j: int|
                0 <= j < out@.len() ==> crate::portfolio::spec_position_bounded(
                    #[trigger] out@[j],
                ),
        decreases n - i,
    {
        let row = &rows[i];
        proof {
            assert(rows@.take(i + 1).drop_last() =~= rows@.take(i as int));
            assert(rows@.take(i + 1).last() == rows@[i as int]);
        }
        if row.quantity > 0 {
            proof {
                crate::num::lemma_mul_le(
                    row.quantity as int,
                    crate::portfolio::QTY_LIMIT as int,
                    row.current_price as int,
                    crate::portfolio::PRICE_LIMIT as int,
                );
                if row.average_price != 0 {
                    crate::num::lemma_mul_le(
                        row.current_price as int,
                        crate::portfolio::PRICE_LIMIT as int,
                        PCT_SCALE as int,
                        PCT_SCALE as int,
                    );
                }
            }
            let value = crate::num::mul_div(row.quantity, row.current_price, SCALE);
            let ppl_percent: i128 = if row.average_price != 0 {
                let ratio = crate::num::mul_div(row.current_price, PCT_SCALE, row.average_price);
                (ratio as i128) - (PCT_SCALE as i128)
            } else {
                0
            };
            let p = Position {
                ticker: row.ticker.clone(),
                yf_ticker: String::new(),
                quantity: row.quantity,
                average_price: row.average_price,
                current_price: row.current_price,
                currency: match &row.currency {
                    Option::Some(c) => c.clone(),
                    Option::None => "GBP".to_owned(),
                },
                value,
                ppl: row.ppl,
                fx_ppl: match row.fx_ppl {
                    Option::Some(f) => f,
                    Option::None => 0,
                },
                ppl_percent,
                div_info: Option::None,
                div_prediction: DividendPrediction::default(),
                wht: 0,
            };
            out.push(p);
        }
        i = i + 1;
    }
    proof {
        assert(rows@.take(n as int) =~= rows@);
    }
    out
}

} // verus!
