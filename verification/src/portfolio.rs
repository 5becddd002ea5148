//! Positions, the portfolio aggregate, and the analytics that enrich them.
//!
//! `Portfolio::process` is the assembler: it resolves each position's
//! currency and canonical symbol, normalizes prices into the reference
//! currency, attaches dividend analytics and a forward payment prediction
//! from injected quote facts, and recomputes the rollups.  Everything it
//! needs arrives as plain values; it performs no fetching of its own.

use vstd::prelude::*;

use crate::currency::{
    spec_currency_from_code, spec_rate_of, spec_rates_bounded, Currency, CurrencyConverter,
};
use crate::dates::Date;
use crate::dividend::{
    spec_per_share, spec_per_share_after_tax, spec_yield_pct, DividendInfo,
};
use crate::num::{spec_mul_div, spec_mul_div_signed, PCT_SCALE, SCALE};

verus! {

/// Errors of portfolio assembly.
#[derive(Debug, Clone, Copy, PartialEq, Eq, Structural)]
pub enum PortfolioError {
    /// No positions are available.
    NoPositionsError,
    /// Unknown error.
    Unknown,
}

/// Largest share quantity accepted, in micro-units (one million shares).
pub const QTY_LIMIT: u128 = 1_000_000_000_000;

/// Largest raw price accepted, in micro-units (one million per share).
pub const PRICE_LIMIT: u128 = 1_000_000_000_000;

/// Largest raw market value: `QTY_LIMIT * PRICE_LIMIT / SCALE`.
pub const VALUE_LIMIT: u128 = 1_000_000_000_000_000_000;

/// Largest profit/loss magnitude accepted, in micro-units.
pub const PL_LIMIT: u128 = 1_000_000_000_000_000_000;

/// Largest profit/loss percentage magnitude after ingestion, in
/// micro-percent: `PRICE_LIMIT * PCT_SCALE` over the smallest positive
/// cost basis.
pub const PPL_PCT_LIMIT: u128 = 100_000_000_000_000_000_000;

/// Largest trailing yield accepted from quote facts, in micro-percent
/// (one thousand percent).
pub const YIELD_FACT_LIMIT: u128 = 1_000_000_000;

/// Largest price normalized into the reference currency:
/// `PRICE_LIMIT * RATE_LIMIT`.
pub const NORM_PRICE_LIMIT: u128 = 1_000_000_000_000_000_000_000_000;

/// Largest market value normalized into the reference currency:
/// `VALUE_LIMIT * RATE_LIMIT`.
pub const NORM_VALUE_LIMIT: u128 = 1_000_000_000_000_000_000_000_000_000_000;

/// Most positions a portfolio may hold.
pub const MAX_POSITIONS: usize = 1_000_000;

/// One historical or predicted dividend payment.
#[derive(Debug, Clone, Copy, PartialEq, Eq, Structural)]
pub struct MonthlyPayment {
    /// Payment date.
    pub date: Date,
    /// Payment amount per share, micro-units.
    pub amount: u128,
}

/// An upstream payment record before its date text is parsed.
#[derive(Debug, Clone)]
pub struct RawPayment {
    /// Payment date as `YYYY-MM-DD` text.
    pub date_text: String,
    /// Payment amount per share, micro-units.
    pub amount: u128,
}

/// Forward-looking dividend prediction for one position.  Every field is
/// optional: an absent value means "not known", which stays distinct from
/// a known zero.
#[derive(Debug, PartialEq)]
pub struct DividendPrediction {
    /// Up to four most recent historical payments.
    pub last_4_dividends_dates: Option<Vec<MonthlyPayment>>,
    /// Next ex-dividend date, seconds since the epoch.
    pub next_exdate: Option<i64>,
    /// Next payment date, seconds since the epoch.
    pub next_payment_date: Option<i64>,
    /// Announced per-share amount of the next payment, micro-units.
    pub payment_amount_per_share: Option<u128>,
    /// Gross amount of the next payment for the held quantity.
    pub net_payment_amount: Option<u128>,
    /// Withholding tax on the next payment.
    pub net_wht: Option<u128>,
    /// Next payment left after withholding tax.
    pub net_payment_amount_after_wht: Option<u128>,
    /// Predicted further monthly payments.
    pub predicted_monthly_payments: Option<Vec<MonthlyPayment>>,
}

/// No field of the prediction is set.
pub open spec fn spec_prediction_unset(d: DividendPrediction) -> bool {
    &&& d.last_4_dividends_dates is None
    &&& d.next_exdate is None
    &&& d.next_payment_date is None
    &&& d.payment_amount_per_share is None
    &&& d.net_payment_amount is None
    &&& d.net_wht is None
    &&& d.net_payment_amount_after_wht is None
    &&& d.predicted_monthly_payments is None
}

impl Default for DividendPrediction {
    /// A prediction with nothing known yet.
    fn default() -> (r: Self)
        ensures
            spec_prediction_unset(r),
    {
        DividendPrediction {
            last_4_dividends_dates: Option::None,
            next_exdate: Option::None,
            next_payment_date: Option::None,
            payment_amount_per_share: Option::None,
            net_payment_amount: Option::None,
            net_wht: Option::None,
            net_payment_amount_after_wht: Option::None,
            predicted_monthly_payments: Option::None,
        }
    }
}

/// A raw broker position row, before ingestion.
#[derive(Debug, Clone)]
pub struct RawPosition {
    /// Broker ticker.
    pub ticker: String,
    /// Shares held, micro-units.
    pub quantity: u128,
    /// Average cost per share, micro-units.
    pub average_price: u128,
    /// Current quoted price per share, micro-units.
    pub current_price: u128,
    /// Absolute profit/loss, micro-units.
    pub ppl: i128,
    /// FX-attributable profit/loss, micro-units, when reported.
    pub fx_ppl: Option<i128>,
    /// Currency code, when reported.
    pub currency: Option<String>,
}

/// The raw row's values are within the accepted machine limits.
pub open spec fn spec_raw_bounded(r: RawPosition) -> bool {
    &&& r.quantity <= QTY_LIMIT
    &&& r.average_price <= PRICE_LIMIT
    &&& r.current_price <= PRICE_LIMIT
    &&& -(PL_LIMIT as int) <= r.ppl <= PL_LIMIT
    &&& match r.fx_ppl {
        Option::Some(f) => -(PL_LIMIT as int) <= f <= PL_LIMIT,
        Option::None => true,
    }
}

/// One held instrument.
#[derive(Debug, PartialEq)]
pub struct Position {
    /// Broker ticker.
    pub ticker: String,
    /// Canonical quote symbol, once resolved.
    pub yf_ticker: String,
    /// Shares held, micro-units.
    pub quantity: u128,
    /// Average cost per share, micro-units.
    pub average_price: u128,
    /// Current quoted price per share, micro-units.
    pub current_price: u128,
    /// Currency code of the prices.
    pub currency: String,
    /// Market value, micro-units.
    pub value: u128,
    /// Absolute profit/loss, micro-units.
    pub ppl: i128,
    /// FX-attributable profit/loss, micro-units.
    pub fx_ppl: i128,
    /// Profit/loss percentage, micro-percent.
    pub ppl_percent: i128,
    /// Dividend summary, once computed.
    pub div_info: Option<DividendInfo>,
    /// Forward payment prediction.
    pub div_prediction: DividendPrediction,
    /// Withholding-tax rate, whole percent.
    pub wht: u32,
}

/// The position's values are within the accepted machine limits for a
/// freshly ingested, not yet normalized position.
pub open spec fn spec_position_bounded(p: Position) -> bool {
    &&& p.quantity <= QTY_LIMIT
    &&& p.average_price <= PRICE_LIMIT
    &&& p.current_price <= PRICE_LIMIT
    &&& p.value <= VALUE_LIMIT
    &&& -(PL_LIMIT as int) <= p.ppl <= PL_LIMIT
    &&& -(PL_LIMIT as int) <= p.fx_ppl <= PL_LIMIT
    &&& -(PPL_PCT_LIMIT as int) <= p.ppl_percent <= PPL_PCT_LIMIT
    &&& p.wht <= 100
}

/// Trailing and forward dividend facts for one symbol, as handed in by
/// the quote-facts provider.
#[derive(Debug)]
pub struct QuoteFacts {
    /// Trailing dividend rate per share and year, micro-units.
    pub dividend_rate: Option<u128>,
    /// Trailing dividend yield, micro-percent.
    pub dividend_yield: Option<u128>,
    /// Most recent historical payments, dates still as text.
    pub last_4_dividends: Option<Vec<RawPayment>>,
    /// Next payment date, seconds since the epoch.
    pub next_payment_date: Option<i64>,
    /// Next ex-dividend date, seconds since the epoch.
    pub next_exdate: Option<i64>,
    /// Announced per-share amount of the next payment, micro-units.
    pub payment_amount_per_share: Option<u128>,
}

/// The facts' values are within the accepted machine limits.
pub open spec fn spec_facts_bounded(f: QuoteFacts) -> bool {
    &&& match f.dividend_rate {
        Option::Some(v) => v <= PRICE_LIMIT,
        Option::None => true,
    }
    &&& match f.dividend_yield {
        Option::Some(v) => v <= YIELD_FACT_LIMIT,
        Option::None => true,
    }
    &&& match f.payment_amount_per_share {
        Option::Some(v) => v <= PRICE_LIMIT,
        Option::None => true,
    }
}

/// Quote facts keyed by canonical symbol.
#[derive(Debug)]
pub struct QuoteFactsEntry {
    /// Canonical quote symbol.
    pub symbol: String,
    /// The facts for that symbol.
    pub facts: QuoteFacts,
}

/// The facts stored for a symbol: the first entry with that symbol.
pub open spec fn spec_facts_lookup(
    entries: Seq<QuoteFactsEntry>,
    symbol: Seq<char>,
) -> Option<QuoteFacts>
    decreases entries.len(),
{
    if entries.len() == 0 {
        Option::None
    } else if entries[0].symbol@ == symbol {
        Option::Some(entries[0].facts)
    } else {
        spec_facts_lookup(entries.drop_first(), symbol)
    }
}

/// The portfolio aggregate: positions, rollups, and publish bookkeeping.
#[derive(Debug, PartialEq)]
pub struct Portfolio {
    /// Held positions, in broker order.
    pub positions: Vec<Position>,
    /// Sum of all position values, micro-units.
    pub total_value: u128,
    /// Sum of all position cost bases, micro-units.
    pub total_cost: u128,
    /// Sum of all position profits/losses, micro-units.
    pub total_ppl: i128,
    /// Total profit/loss over total cost, micro-percent.
    pub total_ppl_percent: i128,
    /// Seconds timestamp of the last successful refresh.
    pub last_updated: u64,
    /// Number of successful publishes of this shared snapshot.
    pub update_count: i128,
}

impl Default for Portfolio {
    /// The empty portfolio a process starts with.
    fn default() -> (r: Self)
        ensures
            r.positions@.len() == 0,
            r.total_value == 0,
            r.total_cost == 0,
            r.total_ppl == 0,
            r.total_ppl_percent == 0,
            r.last_updated == 0,
            r.update_count == 0,
    {
        Portfolio {
            positions: Vec::new(),
            total_value: 0,
            total_cost: 0,
            total_ppl: 0,
            total_ppl_percent: 0,
            last_updated: 0,
            update_count: 0,
        }
    }
}

/// The dividend summary the analytics engine computes for a position from
/// a trailing yield and/or a trailing per-share rate.
pub open spec fn spec_dividend_info(
    p: Position,
    yield_opt: Option<u128>,
    rate_opt: Option<u128>,
) -> DividendInfo {
    let ps = spec_per_share(yield_opt, rate_opt, p.current_price as int);
    let ad = spec_mul_div(ps, p.quantity as int, SCALE as int);
    let wht_amt = (ad * p.wht) / 100;
    let ps_after = spec_per_share_after_tax(ps, p.wht as int);
    DividendInfo {
        symbol: p.yf_ticker,
        quantity: p.quantity,
        avg_price: p.average_price,
        total_investment: spec_mul_div(p.quantity as int, p.average_price as int, SCALE as int)
            as u128,
        annual_dividend_per_share: ps as u128,
        annual_dividend: ad as u128,
        dividend_yield: spec_yield_pct(ps_after, p.current_price as int) as u128,
        yield_on_cost: spec_yield_pct(ps_after, p.average_price as int) as u128,
        annual_wht: wht_amt as u128,
        annual_income_after_wht: (ad - wht_amt) as u128,
        current_investment_val: spec_mul_div(p.quantity as int, p.current_price as int, SCALE as int)
            as u128,
    }
}

/// Computes the dividend summary for a position and stores it in
/// `div_info`, leaving every other field untouched.
///
/// The per-share dividend prefers the trailing rate and otherwise derives
/// from the trailing yield; withholding tax comes off the annual dividend
/// exactly, and both yields are exactly zero when their price denominator
/// is zero.
pub fn calculate_dividend(p: &mut Position, yield_opt: Option<u128>, rate_opt: Option<u128>)
    requires
        old(p).quantity <= QTY_LIMIT,
        old(p).average_price <= NORM_PRICE_LIMIT,
        old(p).current_price <= NORM_PRICE_LIMIT,
        old(p).wht <= 100,
        match yield_opt {
            Option::Some(y) => y <= YIELD_FACT_LIMIT,
            Option::None => true,
        },
        match rate_opt {
            Option::Some(v) => v <= NORM_PRICE_LIMIT,
            Option::None => true,
        },
    ensures
        *final(p) == (Position {
            div_info: Option::Some(spec_dividend_info(*old(p), yield_opt, rate_opt)),
            ..*old(p)
        }),
        // Withholding tax and post-tax income always recombine exactly.
        ({
            let d = spec_dividend_info(*old(p), yield_opt, rate_opt);
            d.annual_income_after_wht + d.annual_wht == d.annual_dividend
        }),
        // A zero current price yields exactly zero, never an undefined ratio.
        old(p).current_price == 0 ==> spec_dividend_info(
            *old(p),
            yield_opt,
            rate_opt,
        ).dividend_yield == 0,
        // A zero cost basis likewise gives a zero yield on cost.
        old(p).average_price == 0 ==> spec_dividend_info(
            *old(p),
            yield_opt,
            rate_opt,
        ).yield_on_cost == 0,
{
    let ghost d = spec_dividend_info(*p, yield_opt, rate_opt);
    // Per-share annual dividend.
    let per_share: u128 = match rate_opt {
        Option::Some(rate) => rate,
        Option::None => match yield_opt {
            Option::Some(y) => {
                proof {
                    crate::num::lemma_mul_le(
                        y as int,
                        YIELD_FACT_LIMIT as int,
                        p.current_price as int,
                        NORM_PRICE_LIMIT as int,
                    );
                }
                crate::num::mul_div(y, p.current_price, PCT_SCALE)
            },
            Option::None => 0,
        },
    };
    proof {
        if rate_opt is None && yield_opt is Some {
            vstd::arithmetic::div_mod::lemma_div_is_ordered(
                (yield_opt->0 as int) * (p.current_price as int),
                (YIELD_FACT_LIMIT * NORM_PRICE_LIMIT) as int,
                PCT_SCALE as int,
            );
        }
        assert(per_share <= 10_000_000_000_000_000_000_000_000u128);
    }
    let ghost ps_limit: u128 = 10_000_000_000_000_000_000_000_000u128;

    // Annual dividend for the held quantity.
    proof {
        crate::num::lemma_mul_le(per_share as int, ps_limit as int, p.quantity as int, QTY_LIMIT as int);
    }
    let annual_dividend: u128 = crate::num::mul_div(per_share, p.quantity, SCALE);

    // Withholding tax, exactly complementary to the post-tax income.
    proof {
        vstd::arithmetic::div_mod::lemma_div_is_ordered(
            (per_share * p.quantity) as int,
            (ps_limit * QTY_LIMIT) as int,
            SCALE as int,
        );
        crate::num::lemma_mul_le(
            annual_dividend as int,
            (ps_limit as int) * (QTY_LIMIT as int) / (SCALE as int),
            p.wht as int,
            100,
        );
    }
    let annual_wht: u128 = crate::num::mul_div(annual_dividend, p.wht as u128, 100);
    proof {
        crate::num::lemma_mul_le(annual_dividend as int, annual_dividend as int, p.wht as int, 100);
        vstd::arithmetic::div_mod::lemma_div_is_ordered(
            (annual_dividend * p.wht) as int,
            (annual_dividend * 100) as int,
            100,
        );
        vstd::arithmetic::div_mod::lemma_div_multiples_vanish(annual_dividend as int, 100);
        assert(annual_wht <= annual_dividend);
    }
    let annual_income_after_wht: u128 = annual_dividend - annual_wht;

    // Post-tax per-share figure and the two yields.
    proof {
        crate::num::lemma_mul_le(per_share as int, ps_limit as int, (100 - p.wht) as int, 100);
    }
    let per_share_after: u128 = crate::num::mul_div(per_share, (100 - p.wht) as u128, 100);
    proof {
        vstd::arithmetic::div_mod::lemma_div_is_ordered(
            (per_share * (100 - p.wht)) as int,
            (ps_limit * 100) as int,
            100,
        );
        crate::num::lemma_mul_le(per_share_after as int, ps_limit as int, PCT_SCALE as int, PCT_SCALE as int);
    }
    let dividend_yield: u128 = if p.current_price != 0 {
        crate::num::mul_div(per_share_after, PCT_SCALE, p.current_price)
    } else {
        0
    };
    let yield_on_cost: u128 = if p.average_price != 0 {
        crate::num::mul_div(per_share_after, PCT_SCALE, p.average_price)
    } else {
        0
    };

    proof {
        crate::num::lemma_mul_le(
            p.quantity as int,
            QTY_LIMIT as int,
            p.average_price as int,
            NORM_PRICE_LIMIT as int,
        );
        crate::num::lemma_mul_le(
            p.quantity as int,
            QTY_LIMIT as int,
            p.current_price as int,
            NORM_PRICE_LIMIT as int,
        );
    }
    let total_investment: u128 = crate::num::mul_div(p.quantity, p.average_price, SCALE);
    let current_investment_val: u128 = crate::num::mul_div(p.quantity, p.current_price, SCALE);

    let info = DividendInfo {
        symbol: p.yf_ticker.clone(),
        quantity: p.quantity,
        avg_price: p.average_price,
        total_investment,
        annual_dividend_per_share: per_share,
        annual_dividend,
        dividend_yield,
        yield_on_cost,
        annual_wht,
        annual_income_after_wht,
        current_investment_val,
    };
    proof {
        assert(info == d);
    }
    p.div_info = Option::Some(info);
}


/// Currency code the instrument metadata assigns to a ticker; with
/// duplicate rows the later one wins, matching a lookup map built by
/// overwriting inserts.
pub open spec fn spec_meta_currency(
    metas: Seq<crate::broker::InstrumentMetadata>,
    ticker: Seq<char>,
) -> Option<String>
    decreases metas.len(),
{
    if metas.len() == 0 {
        Option::None
    } else if metas.last().ticker@ == ticker {
        Option::Some(metas.last().currency_code)
    } else {
        spec_meta_currency(metas.drop_last(), ticker)
    }
}

/// The currency a position is treated as quoted in: the metadata's code
/// when the ticker appears there, otherwise whatever the broker reported.
pub open spec fn spec_effective_currency(
    metas: Seq<crate::broker::InstrumentMetadata>,
    p: Position,
) -> String {
    match spec_meta_currency(metas, p.ticker@) {
        Option::Some(c) => c,
        Option::None => p.currency,
    }
}

/// A minor-unit quote: pence, to be divided by 100 into pounds rather
/// than converted through the rate table.
pub open spec fn spec_is_minor_unit(code: Seq<char>, target: Currency) -> bool {
    code == "GBX"@ && target == Currency::GBP
}

/// The conversion factor applied to a position quoted in `code`:
/// the exact table factor when the code names a supported currency and
/// both rates are present, and the factor one otherwise (an unsupported
/// or unresolvable currency leaves the position unconverted).
pub open spec fn spec_applied_factor(
    rates: Seq<crate::currency::RateEntry>,
    code: Seq<char>,
    target: Currency,
) -> crate::currency::Factor {
    let stock = spec_currency_from_code(code);
    if stock == Currency::UnSupported {
        crate::currency::Factor { numer: 1, denom: 1 }
    } else if stock == target {
        crate::currency::Factor { numer: 1, denom: 1 }
    } else {
        match (
            spec_rate_of(rates, crate::currency::spec_currency_code(stock)),
            spec_rate_of(rates, crate::currency::spec_currency_code(target)),
        ) {
            (Option::Some(rf), Option::Some(rt)) => crate::currency::Factor {
                numer: rt,
                denom: rf,
            },
            _ => crate::currency::Factor { numer: 1, denom: 1 },
        }
    }
}

/// The payments whose date text parses, in order, with their dates
/// parsed.
pub open spec fn spec_parse_payments(raw: Seq<RawPayment>) -> Seq<MonthlyPayment>
    decreases raw.len(),
{
    if raw.len() == 0 {
        Seq::empty()
    } else {
        let rest = spec_parse_payments(raw.drop_last());
        match crate::dates::spec_parse_date(raw.last().date_text@) {
            Option::Some(d) => rest.push(MonthlyPayment { date: d, amount: raw.last().amount }),
            Option::None => rest,
        }
    }
}

/// How a filled-in prediction relates to the quote facts it came from:
/// dates and the announced amount pass through, the parsed payment list
/// keeps its order, and the net figures for the next payment are computed
/// exactly when an amount was announced — otherwise they stay unset.
pub open spec fn spec_prediction_set(
    pred: DividendPrediction,
    facts: QuoteFacts,
    quantity: int,
    tax_pct: int,
) -> bool {
    &&& match (pred.last_4_dividends_dates, facts.last_4_dividends) {
        (Option::Some(v), Option::Some(raw)) => v@ == spec_parse_payments(raw@),
        (Option::None, Option::None) => true,
        _ => false,
    }
    &&& pred.next_payment_date == facts.next_payment_date
    &&& pred.next_exdate == facts.next_exdate
    &&& pred.payment_amount_per_share == facts.payment_amount_per_share
    &&& match facts.payment_amount_per_share {
        Option::Some(amt) => {
            let net = spec_mul_div(amt as int, quantity, SCALE as int);
            let net_tax = (net * tax_pct) / 100;
            &&& pred.net_payment_amount == Option::Some(net as u128)
            &&& pred.net_wht == Option::Some(net_tax as u128)
            &&& pred.net_payment_amount_after_wht == Option::Some((net - net_tax) as u128)
        },
        Option::None => {
            &&& pred.net_payment_amount is None
            &&& pred.net_wht is None
            &&& pred.net_payment_amount_after_wht is None
        },
    }
    &&& pred.predicted_monthly_payments is None
}

/// The trailing rate handed to the analytics engine: converted with the
/// position's factor except for a minor-unit quote, which keeps it.
pub open spec fn spec_converted_rate(
    rate: Option<u128>,
    minor: bool,
    f: crate::currency::Factor,
) -> Option<u128> {
    match rate {
        Option::Some(rv) => if minor {
            Option::Some(rv)
        } else {
            Option::Some(spec_mul_div(rv as int, f.numer as int, f.denom as int) as u128)
        },
        Option::None => Option::None,
    }
}

/// How one enriched position relates to the position it came from, given
/// the instrument metadata, the symbol override table, the quote facts
/// and the rate table.
pub open spec fn spec_enriched(
    p: Position,
    q: Position,
    metas: Seq<crate::broker::InstrumentMetadata>,
    table: Seq<crate::symbol_mapper::SymbolEntry>,
    facts: Seq<QuoteFactsEntry>,
    rates: Seq<crate::currency::RateEntry>,
    target: Currency,
) -> bool {
    let cur = spec_effective_currency(metas, p);
    let sym = crate::symbol_mapper::spec_resolved_symbol(table, p.ticker@);
    let tax = crate::symbol_mapper::spec_resolved_tax(table, p.ticker@);
    let minor = spec_is_minor_unit(cur@, target);
    let f = spec_applied_factor(rates, cur@, target);
    let avg2 = if minor {
        p.average_price as int / 100
    } else {
        spec_mul_div(p.average_price as int, f.numer as int, f.denom as int)
    };
    let cur2 = if minor {
        p.current_price as int / 100
    } else {
        spec_mul_div(p.current_price as int, f.numer as int, f.denom as int)
    };
    let val2 = if minor {
        p.value as int / 100
    } else {
        spec_mul_div(p.value as int, f.numer as int, f.denom as int)
    };
    let fx_adjust = !minor && p.ppl != 0 && val2 != 0;
    &&& q.ticker == p.ticker
    &&& q.yf_ticker@ == sym
    &&& q.wht == tax
    &&& q.currency == cur
    &&& q.quantity == p.quantity
    &&& q.average_price == avg2
    &&& q.current_price == cur2
    &&& q.value == val2
    &&& q.ppl == p.ppl
    &&& q.fx_ppl == p.fx_ppl
    &&& q.ppl_percent == if fx_adjust {
        p.ppl_percent + spec_mul_div_signed(p.fx_ppl as int, PCT_SCALE as int, val2)
    } else {
        p.ppl_percent as int
    }
    &&& match spec_facts_lookup(facts, sym) {
        Option::Some(ff) => {
            let rate2 = spec_converted_rate(ff.dividend_rate, minor, f);
            &&& spec_prediction_set(q.div_prediction, ff, p.quantity as int, tax)
            &&& if ff.dividend_yield is Some || rate2 is Some {
                q.div_info == Option::Some(spec_dividend_info(q, ff.dividend_yield, rate2))
            } else {
                q.div_info is None
            }
        },
        Option::None => q.div_info is None && spec_prediction_unset(q.div_prediction),
    }
}

/// Machine limits an enriched position obeys, used to bound the rollup
/// sums.
pub open spec fn spec_enriched_limits(q: Position) -> bool {
    &&& q.quantity <= QTY_LIMIT
    &&& q.average_price <= NORM_PRICE_LIMIT
    &&& q.current_price <= NORM_PRICE_LIMIT
    &&& q.value <= NORM_VALUE_LIMIT
    &&& -(PL_LIMIT as int) <= q.ppl <= PL_LIMIT
}

/// Every entry of the symbol table carries a percentage tax rate.
pub open spec fn spec_table_bounded(table: Seq<crate::symbol_mapper::SymbolEntry>) -> bool {
    forall|i: int| 0 <= i < table.len() ==> 0 <= #[trigger] table[i].info.tax <= 100
}

/// Every quote-facts entry is within the accepted machine limits.
pub open spec fn spec_all_facts_bounded(facts: Seq<QuoteFactsEntry>) -> bool {
    forall|i: int| 0 <= i < facts.len() ==> spec_facts_bounded(#[trigger] facts[i].facts)
}

/// Sum of the market values of a position sequence.
pub open spec fn spec_total_value(s: Seq<Position>) -> int
    decreases s.len(),
{
    if s.len() == 0 {
        0
    } else {
        spec_total_value(s.drop_last()) + s.last().value
    }
}

/// Sum of the cost bases (`quantity * average_price`) of a position
/// sequence.
pub open spec fn spec_total_cost(s: Seq<Position>) -> int
    decreases s.len(),
{
    if s.len() == 0 {
        0
    } else {
        spec_total_cost(s.drop_last()) + spec_mul_div(
            s.last().quantity as int,
            s.last().average_price as int,
            SCALE as int,
        )
    }
}

/// Sum of the profits/losses of a position sequence.
pub open spec fn spec_total_ppl(s: Seq<Position>) -> int
    decreases s.len(),
{
    if s.len() == 0 {
        0
    } else {
        spec_total_ppl(s.drop_last()) + s.last().ppl
    }
}

/// The total profit/loss percentage a portfolio reports: the total
/// profit/loss over the total cost basis, zero when nothing was paid in.
pub open spec fn spec_total_ppl_percent(s: Seq<Position>) -> int {
    if spec_total_cost(s) == 0 {
        0
    } else {
        spec_mul_div_signed(spec_total_ppl(s), PCT_SCALE as int, spec_total_cost(s))
    }
}

/// The tax a ticker resolves to over a bounded table is a percentage.
pub proof fn lemma_resolved_tax_bounded(
    table: Seq<crate::symbol_mapper::SymbolEntry>,
    ticker: Seq<char>,
)
    requires
        spec_table_bounded(table),
    ensures
        0 <= crate::symbol_mapper::spec_resolved_tax(table, ticker) <= 100,
    decreases table.len(),
{
    if table.len() > 0 {
        assert(0 <= table[0].info.tax <= 100);
        if table[0].ticker@ != ticker {
            assert(spec_table_bounded(table.drop_first())) by {
                assert forall|i: int| 0 <= i < table.drop_first().len() implies 0 <= (
                #[trigger] table.drop_first()[i]).info.tax <= 100 by {
                    assert(table.drop_first()[i] == table[i + 1]);
                }
            }
            lemma_resolved_tax_bounded(table.drop_first(), ticker);
        }
    }
}

/// The facts looked up in a bounded facts table are bounded.
pub proof fn lemma_facts_lookup_bounded(facts: Seq<QuoteFactsEntry>, symbol: Seq<char>)
    requires
        spec_all_facts_bounded(facts),
    ensures
        match spec_facts_lookup(facts, symbol) {
            Option::Some(f) => spec_facts_bounded(f),
            Option::None => true,
        },
    decreases facts.len(),
{
    if facts.len() > 0 {
        assert(spec_facts_bounded(facts[0].facts));
        if facts[0].symbol@ != symbol {
            assert(spec_all_facts_bounded(facts.drop_first())) by {
                assert(forall|i: int|
                    0 <= i < facts.drop_first().len() ==> facts.drop_first()[i] == facts[i + 1]);
            }
            lemma_facts_lookup_bounded(facts.drop_first(), symbol);
        }
    }
}

/// The rate stored for a bounded table is itself bounded.
proof fn lemma_rate_of_bounded(rates: Seq<crate::currency::RateEntry>, code: Seq<char>)
    requires
        spec_rates_bounded(rates),
    ensures
        match spec_rate_of(rates, code) {
            Option::Some(r) => 1 <= r <= crate::currency::RATE_LIMIT,
            Option::None => true,
        },
    decreases rates.len(),
{
    if rates.len() > 0 {
        assert(rates[0].rate <= crate::currency::RATE_LIMIT);
        assert(spec_rates_bounded(rates.drop_first())) by {
            assert(forall|i: int|
                0 <= i < rates.drop_first().len() ==> rates.drop_first()[i] == rates[i + 1]);
        }
        lemma_rate_of_bounded(rates.drop_first(), code);
    }
}

/// Currency code the metadata assigns to a ticker, reading from the end
/// so that a duplicate later row wins.
fn lookup_meta_currency(
    metas: &Vec<crate::broker::InstrumentMetadata>,
    ticker: &str,
) -> (r: Option<String>)
    ensures
        r == spec_meta_currency(metas@, ticker@),
{
    let mut j = metas.len();
    proof {
        assert(metas@.take(metas@.len() as int) =~= metas@);
    }
    while j > 0
        invariant
            0 <= j <= metas@.len(),
            spec_meta_currency(metas@, ticker@) == spec_meta_currency(
                metas@.take(j as int),
                ticker@,
            ),
        decreases j,
    {
        proof {
            assert(metas@.take(j as int).last() == metas@[j - 1]);
            assert(metas@.take(j as int).drop_last() =~= metas@.take(j - 1));
        }
        if crate::text::str_eq(metas[j - 1].ticker.as_str(), ticker) {
            return Option::Some(metas[j - 1].currency_code.clone());
        }
        j = j - 1;
    }
    Option::None
}

/// Finds the quote facts stored for a symbol.
fn lookup_facts<'a>(entries: &'a Vec<QuoteFactsEntry>, symbol: &str) -> (r: Option<&'a QuoteFacts>)
    ensures
        match r {
            Option::Some(f) => spec_facts_lookup(entries@, symbol@) == Option::Some(*f),
            Option::None => spec_facts_lookup(entries@, symbol@) is None,
        },
{
    let n = entries.len();
    let mut i: usize = 0;
    proof {
        assert(entries@.skip(0) =~= entries@);
    }
    while i < n
        invariant
            n == entries@.len(),
            0 <= i <= n,
            spec_facts_lookup(entries@, symbol@) == spec_facts_lookup(
                entries@.skip(i as int),
                symbol@,
            ),
        decreases n - i,
    {
        proof {
            assert(entries@.skip(i as int)[0] == entries@[i as int]);
        }
        if crate::text::str_eq(entries[i].symbol.as_str(), symbol) {
            return Option::Some(&entries[i].facts);
        }
        proof {
            assert(entries@.skip(i as int).drop_first() =~= entries@.skip(i + 1));
        }
        i = i + 1;
    }
    proof {
        assert(entries@.skip(n as int).len() == 0);
    }
    Option::None
}

/// Parses the payment list of the quote facts, keeping the records whose
/// date text spells an existing day.
fn parse_payments(raw: &Vec<RawPayment>) -> (out: Vec<MonthlyPayment>)
    ensures
        out@ == spec_parse_payments(raw@),
{
    let n = raw.len();
    let mut out: Vec<MonthlyPayment> = Vec::new();
    let mut i: usize = 0;
    proof {
        assert(raw@.take(0) =~= Seq::<RawPayment>::empty());
    }
    while i < n
        invariant
            n == raw@.len(),
            0 <= i <= n,
            out@ == spec_parse_payments(raw@.take(i as int)),
        decreases n - i,
    {
        proof {
            assert(raw@.take(i + 1).drop_last() =~= raw@.take(i as int));
            assert(raw@.take(i + 1).last() == raw@[i as int]);
        }
        match crate::dates::parse_date(raw[i].date_text.as_str()) {
            Option::Some(d) => {
                out.push(MonthlyPayment { date: d, amount: raw[i].amount });
            },
            Option::None => {},
        }
        i = i + 1;
    }
    proof {
        assert(raw@.take(n as int) =~= raw@);
    }
    out
}


/// Enriches one position: resolves its currency and canonical symbol,
/// normalizes its prices into the target currency, and fills in the
/// prediction and dividend summary from the quote facts for its symbol.
#[verifier::rlimit(60)]
pub fn enrich_one(
    p: &Position,
    metadata: &Vec<crate::broker::InstrumentMetadata>,
    table: &Vec<crate::symbol_mapper::SymbolEntry>,
    facts: &Vec<QuoteFactsEntry>,
    converter: &CurrencyConverter,
    target: Currency,
) -> (q: Position)
    requires
        spec_position_bounded(*p),
        spec_rates_bounded(converter.rates@),
        spec_table_bounded(table@),
        spec_all_facts_bounded(facts@),
    ensures
        spec_enriched(*p, q, metadata@, table@, facts@, converter.rates@, target),
        spec_enriched_limits(q),
{
    // Currency override from the instrument metadata.
    let cur: String = match lookup_meta_currency(metadata, p.ticker.as_str()) {
        Option::Some(c) => c,
        Option::None => p.currency.clone(),
    };

    // Canonical symbol and withholding tax.
    let resolved = crate::symbol_mapper::extract_symbol(p.ticker.as_str(), table);
    let info = resolved.1;
    proof {
        lemma_resolved_tax_bounded(table@, p.ticker@);
    }
    let wht: u32 = info.tax as u32;

    // Price normalization: pence scale down, or rate-table conversion.
    let minor = crate::text::str_eq(cur.as_str(), "GBX") && matches!(target, Currency::GBP);
    let ghost f_spec = spec_applied_factor(converter.rates@, cur@, target);
    let factor: crate::currency::Factor = if minor {
        crate::currency::Factor { numer: 1, denom: 1 }
    } else {
        let stock = Currency::from_code(cur.as_str());
        if matches!(stock, Currency::UnSupported) {
            crate::currency::Factor { numer: 1, denom: 1 }
        } else {
            match converter.get_conversion_factor(stock, target) {
                Result::Ok(f) => f,
                Result::Err(_) => crate::currency::Factor { numer: 1, denom: 1 },
            }
        }
    };
    proof {
        lemma_rate_of_bounded(converter.rates@, crate::currency::spec_currency_code(
            spec_currency_from_code(cur@),
        ));
        lemma_rate_of_bounded(converter.rates@, crate::currency::spec_currency_code(target));
        if !minor {
            assert(factor == f_spec);
        }
        assert(1 <= factor.denom);
        assert(factor.numer <= crate::currency::RATE_LIMIT);
        crate::num::lemma_mul_le(
            p.average_price as int,
            PRICE_LIMIT as int,
            factor.numer as int,
            crate::currency::RATE_LIMIT as int,
        );
        crate::num::lemma_mul_le(
            p.current_price as int,
            PRICE_LIMIT as int,
            factor.numer as int,
            crate::currency::RATE_LIMIT as int,
        );
        crate::num::lemma_mul_le(
            p.value as int,
            VALUE_LIMIT as int,
            factor.numer as int,
            crate::currency::RATE_LIMIT as int,
        );
        vstd::arithmetic::div_mod::lemma_div_is_ordered(
            (p.average_price * factor.numer) as int,
            (PRICE_LIMIT as int) * (crate::currency::RATE_LIMIT as int),
            factor.denom as int,
        );
        vstd::arithmetic::div_mod::lemma_div_is_ordered(
            (p.current_price * factor.numer) as int,
            (PRICE_LIMIT as int) * (crate::currency::RATE_LIMIT as int),
            factor.denom as int,
        );
        vstd::arithmetic::div_mod::lemma_div_is_ordered(
            (p.value * factor.numer) as int,
            (VALUE_LIMIT as int) * (crate::currency::RATE_LIMIT as int),
            factor.denom as int,
        );
        vstd::arithmetic::div_mod::lemma_div_is_ordered_by_denominator(
            (p.average_price * factor.numer) as int,
            1,
            factor.denom as int,
        );
    }
    let avg2: u128 = if minor {
        p.average_price / 100
    } else {
        factor.apply(p.average_price)
    };
    let cur2: u128 = if minor {
        p.current_price / 100
    } else {
        factor.apply(p.current_price)
    };
    let val2: u128 = if minor {
        p.value / 100
    } else {
        factor.apply(p.value)
    };

    // FX-attributable part of the profit/loss percentage.
    let ppl_percent: i128 = if !minor && p.ppl != 0 && val2 != 0 {
        let adj = crate::num::mul_div_signed(p.fx_ppl, PCT_SCALE, val2);
        proof {
            vstd::arithmetic::div_mod::lemma_div_is_ordered(
                ((if p.fx_ppl >= 0 { p.fx_ppl as int } else { -(p.fx_ppl as int) })
                    * (PCT_SCALE as int)),
                (PL_LIMIT as int) * (PCT_SCALE as int),
                val2 as int,
            );
        }
        p.ppl_percent + adj
    } else {
        p.ppl_percent
    };

    // Quote facts: prediction fields and dividend analytics.
    let ghost sym = crate::symbol_mapper::spec_resolved_symbol(table@, p.ticker@);
    proof {
        lemma_facts_lookup_bounded(facts@, sym);
    }
    let found = lookup_facts(facts, info.yf_ticker.as_str());
    let div_yield: Option<u128>;
    let rate2: Option<u128>;
    let mut q = match found {
        Option::Some(ff) => {
            let last4: Option<Vec<MonthlyPayment>> = match &ff.last_4_dividends {
                Option::Some(raw) => Option::Some(parse_payments(raw)),
                Option::None => Option::None,
            };
            let nets: (Option<u128>, Option<u128>, Option<u128>) = match ff
                .payment_amount_per_share {
                Option::Some(amt) => {
                    proof {
                        crate::num::lemma_mul_le(
                            amt as int,
                            PRICE_LIMIT as int,
                            p.quantity as int,
                            QTY_LIMIT as int,
                        );
                    }
                    let net = crate::num::mul_div(amt, p.quantity, SCALE);
                    proof {
                        crate::num::lemma_mul_le(net as int, net as int, wht as int, 100);
                        vstd::arithmetic::div_mod::lemma_div_is_ordered(
                            (net * wht) as int,
                            (net * 100) as int,
                            100,
                        );
                        vstd::arithmetic::div_mod::lemma_div_multiples_vanish(net as int, 100);
                    }
                    let net_tax = crate::num::mul_div(net, wht as u128, 100);
                    (
                        Option::Some(net),
                        Option::Some(net_tax),
                        Option::Some(net - net_tax),
                    )
                },
                Option::None => (Option::None, Option::None, Option::None),
            };
            let pred = DividendPrediction {
                last_4_dividends_dates: last4,
                next_exdate: ff.next_exdate,
                next_payment_date: ff.next_payment_date,
                payment_amount_per_share: ff.payment_amount_per_share,
                net_payment_amount: nets.0,
                net_wht: nets.1,
                net_payment_amount_after_wht: nets.2,
                predicted_monthly_payments: Option::None,
            };
            div_yield = ff.dividend_yield;
            rate2 = match ff.dividend_rate {
                Option::Some(rv) => if minor {
                    Option::Some(rv)
                } else {
                    proof {
                        crate::num::lemma_mul_le(
                            rv as int,
                            PRICE_LIMIT as int,
                            factor.numer as int,
                            crate::currency::RATE_LIMIT as int,
                        );
                        vstd::arithmetic::div_mod::lemma_div_is_ordered(
                            (rv * factor.numer) as int,
                            (PRICE_LIMIT as int) * (crate::currency::RATE_LIMIT as int),
                            factor.denom as int,
                        );
                    }
                    Option::Some(factor.apply(rv))
                },
                Option::None => Option::None,
            };
            Position {
                ticker: p.ticker.clone(),
                yf_ticker: info.yf_ticker,
                quantity: p.quantity,
                average_price: avg2,
                current_price: cur2,
                currency: cur,
                value: val2,
                ppl: p.ppl,
                fx_ppl: p.fx_ppl,
                ppl_percent,
                div_info: Option::None,
                div_prediction: pred,
                wht,
            }
        },
        Option::None => {
            div_yield = Option::None;
            rate2 = Option::None;
            Position {
                ticker: p.ticker.clone(),
                yf_ticker: info.yf_ticker,
                quantity: p.quantity,
                average_price: avg2,
                current_price: cur2,
                currency: cur,
                value: val2,
                ppl: p.ppl,
                fx_ppl: p.fx_ppl,
                ppl_percent,
                div_info: Option::None,
                div_prediction: DividendPrediction::default(),
                wht,
            }
        },
    };

    // Dividend analytics when a trailing rate or yield is known.
    if matches!(div_yield, Option::Some(_)) || matches!(rate2, Option::Some(_)) {
        calculate_dividend(&mut q, div_yield, rate2);
    }
    q
}


impl Portfolio {
    /// Assembles the enriched snapshot: every position is enriched in
    /// input order, the rollups are recomputed as order-independent sums,
    /// and `last_updated` is set to `now`.  An empty portfolio is reported
    /// as `NoPositionsError` and left untouched; the update counter is
    /// never changed here — only a publish touches it.
    pub fn process(
        &mut self,
        config: &crate::settings::Config,
        converter: &CurrencyConverter,
        instrument_metadata: &Vec<crate::broker::InstrumentMetadata>,
        symbol_table: &Vec<crate::symbol_mapper::SymbolEntry>,
        quote_facts: &Vec<QuoteFactsEntry>,
        now: u64,
    ) -> (r: Result<(), PortfolioError>)
        requires
            old(self).positions@.len() <= MAX_POSITIONS,
            forall|i: int|
                0 <= i < old(self).positions@.len() ==> spec_position_bounded(
                    #[trigger] old(self).positions@[i],
                ),
            spec_rates_bounded(converter.rates@),
            spec_table_bounded(symbol_table@),
            spec_all_facts_bounded(quote_facts@),
        ensures
            old(self).positions@.len() == 0 ==> r == Result::<(), PortfolioError>::Err(
                PortfolioError::NoPositionsError,
            ) && *final(self) == *old(self),
            old(self).positions@.len() > 0 ==> {
                &&& r == Result::<(), PortfolioError>::Ok(())
                &&& final(self).positions@.len() == old(self).positions@.len()
                &&& forall|i: int|
                    0 <= i < old(self).positions@.len() ==> spec_enriched(
                        old(self).positions@[i],
                        #[trigger] final(self).positions@[i],
                        instrument_metadata@,
                        symbol_table@,
                        quote_facts@,
                        converter.rates@,
                        config.currency,
                    )
                &&& final(self).total_value == spec_total_value(final(self).positions@)
                &&& final(self).total_cost == spec_total_cost(final(self).positions@)
                &&& final(self).total_ppl == spec_total_ppl(final(self).positions@)
                &&& final(self).total_ppl_percent == spec_total_ppl_percent(
                    final(self).positions@,
                )
                &&& final(self).last_updated == now
                &&& final(self).update_count == old(self).update_count
            },
    {
        let n = self.positions.len();
        if n == 0 {
            return Result::Err(PortfolioError::NoPositionsError);
        }
        let target = config.currency;

        // Enrich every position, in input order.
        let mut out: Vec<Position> = Vec::new();
        let mut i: usize = 0;
        while i < n
            invariant
                n == self.positions@.len(),
                n <= MAX_POSITIONS,
                0 <= i <= n,
                target == config.currency,
                forall|k: int|
                    0 <= k < n ==> spec_position_bounded(#[trigger] self.positions@[k]),
                spec_rates_bounded(converter.rates@),
                spec_table_bounded(symbol_table@),
                spec_all_facts_bounded(quote_facts@),
                out@.len() == i,
                forall|j: int|
                    0 <= j < i ==> spec_enriched(
                        self.positions@[j],
                        #[trigger] out@[j],
                        instrument_metadata@,
                        symbol_table@,
                        quote_facts@,
                        converter.rates@,
                        target,
                    ),
                forall|j: int| 0 <= j < i ==> spec_enriched_limits(#[trigger] out@[j]),
            decreases n - i,
        {
            let q = enrich_one(
                &self.positions[i],
                instrument_metadata,
                symbol_table,
                quote_facts,
                converter,
                target,
            );
            out.push(q);
            i = i + 1;
        }

        // Rollups: order-independent sums over the enriched positions.
        let mut total_value: u128 = 0;
        let mut total_cost: u128 = 0;
        let mut total_ppl: i128 = 0;
        let mut j: usize = 0;
        proof {
            assert(out@.take(0) =~= Seq::<Position>::empty());
        }
        while j < n
            invariant
                n == out@.len(),
                n <= MAX_POSITIONS,
                0 <= j <= n,
                forall|k: int| 0 <= k < n ==> spec_enriched_limits(#[trigger] out@[k]),
                total_value == spec_total_value(out@.take(j as int)),
                total_cost == spec_total_cost(out@.take(j as int)),
                total_ppl == spec_total_ppl(out@.take(j as int)),
                total_value <= (j as int) * (NORM_VALUE_LIMIT as int),
                total_cost <= (j as int) * (NORM_VALUE_LIMIT as int),
                -((j as int) * (PL_LIMIT as int)) <= total_ppl <= (j as int) * (PL_LIMIT as int),
            decreases n - j,
        {
            proof {
                assert(out@.take(j + 1).drop_last() =~= out@.take(j as int));
                assert(out@.take(j + 1).last() == out@[j as int]);
                crate::num::lemma_mul_le(
                    out@[j as int].quantity as int,
                    QTY_LIMIT as int,
                    out@[j as int].average_price as int,
                    NORM_PRICE_LIMIT as int,
                );
                vstd::arithmetic::div_mod::lemma_div_is_ordered(
                    (out@[j as int].quantity * out@[j as int].average_price) as int,
                    (QTY_LIMIT as int) * (NORM_PRICE_LIMIT as int),
                    SCALE as int,
                );
            }
            let q = &out[j];
            total_value = total_value + q.value;
            total_cost = total_cost + crate::num::mul_div(q.quantity, q.average_price, SCALE);
            total_ppl = total_ppl + q.ppl;
            j = j + 1;
        }
        proof {
            assert(out@.take(n as int) =~= out@);
        }

        let total_ppl_percent: i128 = if total_cost == 0 {
            0
        } else {
            crate::num::mul_div_signed(total_ppl, PCT_SCALE, total_cost)
        };

        self.positions = out;
        self.total_value = total_value;
        self.total_cost = total_cost;
        self.total_ppl = total_ppl;
        self.total_ppl_percent = total_ppl_percent;
        self.last_updated = now;
        Result::Ok(())
    }
}


/// Enrichment is a function of its inputs: two positions enriched from
/// the same source position, with the same metadata, symbol table, quote
/// facts and rate table, carry the same derived values — assembling twice
/// from identical inputs can differ only in the snapshot timestamp.
pub proof fn lemma_enrichment_deterministic(
    p: Position,
    q1: Position,
    q2: Position,
    metas: Seq<crate::broker::InstrumentMetadata>,
    table: Seq<crate::symbol_mapper::SymbolEntry>,
    facts: Seq<QuoteFactsEntry>,
    rates: Seq<crate::currency::RateEntry>,
    target: Currency,
)
    requires
        spec_enriched(p, q1, metas, table, facts, rates, target),
        spec_enriched(p, q2, metas, table, facts, rates, target),
    ensures
        q1.ticker == q2.ticker,
        q1.yf_ticker@ == q2.yf_ticker@,
        q1.currency == q2.currency,
        q1.quantity == q2.quantity,
        q1.average_price == q2.average_price,
        q1.current_price == q2.current_price,
        q1.value == q2.value,
        q1.ppl == q2.ppl,
        q1.fx_ppl == q2.fx_ppl,
        q1.ppl_percent == q2.ppl_percent,
        q1.wht == q2.wht,
        q1.div_prediction.next_exdate == q2.div_prediction.next_exdate,
        q1.div_prediction.next_payment_date == q2.div_prediction.next_payment_date,
        q1.div_prediction.payment_amount_per_share == q2.div_prediction.payment_amount_per_share,
        q1.div_prediction.net_payment_amount == q2.div_prediction.net_payment_amount,
        q1.div_prediction.net_wht == q2.div_prediction.net_wht,
        q1.div_prediction.net_payment_amount_after_wht
            == q2.div_prediction.net_payment_amount_after_wht,
        match (
            q1.div_prediction.last_4_dividends_dates,
            q2.div_prediction.last_4_dividends_dates,
        ) {
            (Option::Some(v1), Option::Some(v2)) => v1@ == v2@,
            (Option::None, Option::None) => true,
            _ => false,
        },
        match (q1.div_info, q2.div_info) {
            (Option::Some(d1), Option::Some(d2)) => {
                &&& d1.symbol@ == d2.symbol@
                &&& d1.quantity == d2.quantity
                &&& d1.avg_price == d2.avg_price
                &&& d1.total_investment == d2.total_investment
                &&& d1.annual_dividend_per_share == d2.annual_dividend_per_share
                &&& d1.annual_dividend == d2.annual_dividend
                &&& d1.dividend_yield == d2.dividend_yield
                &&& d1.yield_on_cost == d2.yield_on_cost
                &&& d1.annual_wht == d2.annual_wht
                &&& d1.annual_income_after_wht == d2.annual_income_after_wht
                &&& d1.current_investment_val == d2.current_investment_val
            },
            (Option::None, Option::None) => true,
            _ => false,
        },
{
}

/// Sequences of positions that agree pointwise on value, quantity,
/// average price and profit/loss have equal rollup sums.
pub proof fn lemma_rollups_pointwise(s1: Seq<Position>, s2: Seq<Position>)
    requires
        s1.len() == s2.len(),
        forall|i: int|
            0 <= i < s1.len() ==> (#[trigger] s1[i]).value == (#[trigger] s2[i]).value
                && s1[i].quantity == s2[i].quantity && s1[i].average_price == s2[i].average_price
                && s1[i].ppl == s2[i].ppl,
    ensures
        spec_total_value(s1) == spec_total_value(s2),
        spec_total_cost(s1) == spec_total_cost(s2),
        spec_total_ppl(s1) == spec_total_ppl(s2),
        spec_total_ppl_percent(s1) == spec_total_ppl_percent(s2),
    decreases s1.len(),
{
    if s1.len() > 0 {
        assert(forall|i: int|
            0 <= i < s1.drop_last().len() ==> s1.drop_last()[i] == s1[i] && s2.drop_last()[i]
                == s2[i]);
        lemma_rollups_pointwise(s1.drop_last(), s2.drop_last());
        assert(s1.last() == s1[s1.len() - 1]);
        assert(s2.last() == s2[s1.len() - 1]);
    }
}

/// Assembling twice from identical raw inputs and an unchanged rate table
/// yields identical per-position derived values and identical rollups;
/// only the timestamp may differ between the two snapshots.
pub proof fn lemma_assembly_idempotent(
    source: Seq<Position>,
    out1: Seq<Position>,
    out2: Seq<Position>,
    metas: Seq<crate::broker::InstrumentMetadata>,
    table: Seq<crate::symbol_mapper::SymbolEntry>,
    facts: Seq<QuoteFactsEntry>,
    rates: Seq<crate::currency::RateEntry>,
    target: Currency,
)
    requires
        out1.len() == source.len(),
        out2.len() == source.len(),
        forall|i: int|
            0 <= i < source.len() ==> spec_enriched(
                source[i],
                #[trigger] out1[i],
                metas,
                table,
                facts,
                rates,
                target,
            ),
        forall|i: int|
            0 <= i < source.len() ==> spec_enriched(
                source[i],
                #[trigger] out2[i],
                metas,
                table,
                facts,
                rates,
                target,
            ),
    ensures
        forall|i: int|
            0 <= i < source.len() ==> (#[trigger] out1[i]).value == (#[trigger] out2[i]).value
                && out1[i].quantity == out2[i].quantity && out1[i].average_price
                == out2[i].average_price && out1[i].current_price == out2[i].current_price
                && out1[i].ppl_percent == out2[i].ppl_percent,
        spec_total_value(out1) == spec_total_value(out2),
        spec_total_cost(out1) == spec_total_cost(out2),
        spec_total_ppl(out1) == spec_total_ppl(out2),
        spec_total_ppl_percent(out1) == spec_total_ppl_percent(out2),
{
    assert forall|i: int| 0 <= i < source.len() implies (#[trigger] out1[i]).value
        == (#[trigger] out2[i]).value && out1[i].quantity == out2[i].quantity
        && out1[i].average_price == out2[i].average_price && out1[i].current_price
        == out2[i].current_price && out1[i].ppl_percent == out2[i].ppl_percent && out1[i].ppl
        == out2[i].ppl by {
        lemma_enrichment_deterministic(source[i], out1[i], out2[i], metas, table, facts, rates, target);
    }
    lemma_rollups_pointwise(out1, out2);
}


/// Largest post-tax annual income a single enriched position can carry.
pub const INCOME_LIMIT: u128 = 10_000_000_000_000_000_000_000_000_000_000;

/// The dividend summaries present in a position sequence, in order.
pub open spec fn spec_dividend_infos(s: Seq<Position>) -> Seq<DividendInfo>
    decreases s.len(),
{
    if s.len() == 0 {
        Seq::empty()
    } else {
        let rest = spec_dividend_infos(s.drop_last());
        match s.last().div_info {
            Option::Some(d) => rest.push(d),
            Option::None => rest,
        }
    }
}

/// Sum of the post-tax annual incomes of the dividend summaries.
pub open spec fn spec_annual_income_total(s: Seq<Position>) -> int
    decreases s.len(),
{
    if s.len() == 0 {
        0
    } else {
        spec_annual_income_total(s.drop_last()) + match s.last().div_info {
            Option::Some(d) => d.annual_income_after_wht as int,
            Option::None => 0,
        }
    }
}

impl Portfolio {
    /// The dividend summaries of all positions that have one, in position
    /// order: what the dividends page lists.
    pub fn dividend_infos(&self) -> (out: Vec<DividendInfo>)
        ensures
            out@ == spec_dividend_infos(self.positions@),
    {
        let n = self.positions.len();
        let mut out: Vec<DividendInfo> = Vec::new();
        let mut i: usize = 0;
        proof {
            assert(self.positions@.take(0) =~= Seq::<Position>::empty());
        }
        while i < n
            invariant
                n == self.positions@.len(),
                0 <= i <= n,
                out@ == spec_dividend_infos(self.positions@.take(i as int)),
            decreases n - i,
        {
            proof {
                assert(self.positions@.take(i + 1).drop_last() =~= self.positions@.take(i as int));
                assert(self.positions@.take(i + 1).last() == self.positions@[i as int]);
            }
            match &self.positions[i].div_info {
                Option::Some(d) => {
                    out.push(d.clone());
                },
                Option::None => {},
            }
            i = i + 1;
        }
        proof {
            assert(self.positions@.take(n as int) =~= self.positions@);
        }
        out
    }

    /// Total post-tax annual dividend income over all positions: the
    /// yearly figure the dividends page headlines.
    pub fn annual_income_total(&self) -> (r: u128)
        requires
            self.positions@.len() <= MAX_POSITIONS,
            forall|i: int|
                0 <= i < self.positions@.len() ==> match (#[trigger] self.positions@[i]).div_info {
                    Option::Some(d) => d.annual_income_after_wht <= INCOME_LIMIT,
                    Option::None => true,
                },
        ensures
            r == spec_annual_income_total(self.positions@),
    {
        let n = self.positions.len();
        let mut acc: u128 = 0;
        let mut i: usize = 0;
        proof {
            assert(self.positions@.take(0) =~= Seq::<Position>::empty());
        }
        while i < n
            invariant
                n == self.positions@.len(),
                n <= MAX_POSITIONS,
                0 <= i <= n,
                forall|k: int|
                    0 <= k < n ==> match (#[trigger] self.positions@[k]).div_info {
                        Option::Some(d) => d.annual_income_after_wht <= INCOME_LIMIT,
                        Option::None => true,
                    },
                acc == spec_annual_income_total(self.positions@.take(i as int)),
                acc <= (i as int) * (INCOME_LIMIT as int),
            decreases n - i,
        {
            proof {
                assert(self.positions@.take(i + 1).drop_last() =~= self.positions@.take(i as int));
                assert(self.positions@.take(i + 1).last() == self.positions@[i as int]);
            }
            match &self.positions[i].div_info {
                Option::Some(d) => {
                    acc = acc + d.annual_income_after_wht;
                },
                Option::None => {},
            }
            i = i + 1;
        }
        proof {
            assert(self.positions@.take(n as int) =~= self.positions@);
        }
        acc
    }
}


/// Inserting an element anywhere in a sequence adds exactly that element
/// to its multiset.
proof fn lemma_insert_to_multiset(s: Seq<DividendInfo>, i: int, x: DividendInfo)
    requires
        0 <= i <= s.len(),
    ensures
        s.insert(i, x).to_multiset() == s.to_multiset().insert(x),
{
    broadcast use vstd::seq_lib::group_to_multiset_ensures;

    let t = s.insert(i, x);
    assert(t.remove(i) =~= s);
    assert(t[i] == x);
    assert(t.remove(i).to_multiset() =~= t.to_multiset().remove(x));
    assert(t.to_multiset().contains(x)) by {
        assert(t.contains(x));
    }
    assert(t.to_multiset() =~= s.to_multiset().insert(x));
}

/// Sorts dividend summaries by post-tax annual income, largest first:
/// the order of the dividends page.  The result holds exactly the given
/// summaries.
pub fn sort_dividend_infos(infos: &Vec<DividendInfo>) -> (out: Vec<DividendInfo>)
    ensures
        out@.len() == infos@.len(),
        out@.to_multiset() == infos@.to_multiset(),
        forall|a: int, b: int|
            0 <= a < b < out@.len() ==> (#[trigger] out@[a]).annual_income_after_wht >= (
            #[trigger] out@[b]).annual_income_after_wht,
{
    broadcast use vstd::seq_lib::group_to_multiset_ensures;

    let n = infos.len();
    let mut out: Vec<DividendInfo> = Vec::new();
    let mut i: usize = 0;
    proof {
        assert(infos@.take(0) =~= Seq::<DividendInfo>::empty());
        assert(infos@.take(0).to_multiset() =~= Seq::<DividendInfo>::empty().to_multiset());
    }
    while i < n
        invariant
            n == infos@.len(),
            0 <= i <= n,
            out@.len() == i,
            out@.to_multiset() == infos@.take(i as int).to_multiset(),
            forall|a: int, b: int|
                0 <= a < b < out@.len() ==> (#[trigger] out@[a]).annual_income_after_wht >= (
                #[trigger] out@[b]).annual_income_after_wht,
        decreases n - i,
    {
        broadcast use vstd::seq_lib::group_to_multiset_ensures;

        let x = infos[i].clone();
        let m = out.len();
        let mut pos: usize = 0;
        while pos < m && income_at(&out, pos) >= x.annual_income_after_wht
            invariant
                m == out@.len(),
                0 <= pos <= m,
                forall|a: int|
                    0 <= a < pos ==> (#[trigger] out@[a]).annual_income_after_wht
                        >= x.annual_income_after_wht,
            decreases m - pos,
        {
            pos = pos + 1;
        }
        proof {
            lemma_insert_to_multiset(out@, pos as int, x);
            assert(infos@.take(i + 1).drop_last() =~= infos@.take(i as int));
            assert(infos@.take(i + 1) =~= infos@.take(i as int).push(infos@[i as int]));
            assert(infos@.take(i as int).push(infos@[i as int]).to_multiset() =~= infos@.take(
                i as int,
            ).to_multiset().insert(infos@[i as int]));
            assert(x == infos@[i as int]);
            let ghost oldout = out@;
            assert forall|b: int| pos <= b < oldout.len() implies (
            #[trigger] oldout[b]).annual_income_after_wht < x.annual_income_after_wht by {
                if b > pos {
                    assert(oldout[pos as int].annual_income_after_wht
                        >= oldout[b].annual_income_after_wht);
                }
            }
        }
        out.insert(pos, x);
        i = i + 1;
    }
    proof {
        assert(infos@.take(n as int) =~= infos@);
    }
    out
}

/// The post-tax income of the summary stored at `k`.
fn income_at(infos: &Vec<DividendInfo>, k: usize) -> (r: u128)
    requires
        k < infos@.len(),
    ensures
        r == infos@[k as int].annual_income_after_wht,
{
    infos[k].annual_income_after_wht
}


/// One row of the upcoming-payments table: a position with an announced
/// next payment, with the net figures spelled out.
#[derive(Debug, PartialEq)]
pub struct UpComingDivPaymetsPred {
    /// Broker ticker.
    pub symbol: String,
    /// Next payment date, seconds since the epoch, when announced.
    pub payment_date: Option<i64>,
    /// Next ex-dividend date, seconds since the epoch, when announced.
    pub exdate: Option<i64>,
    /// Announced per-share amount, micro-units.
    pub div_per_share: u128,
    /// Shares held, micro-units.
    pub no_of_shares: u128,
    /// Gross amount of the payment, micro-units.
    pub total_dividend: u128,
    /// Withholding tax on the payment, micro-units.
    pub total_wht: u128,
    /// Payment left after withholding tax, micro-units.
    pub net_dividend: u128,
}

impl Clone for UpComingDivPaymetsPred {
    /// A field-for-field copy.
    fn clone(&self) -> (r: Self)
        ensures
            r == *self,
    {
        UpComingDivPaymetsPred {
            symbol: self.symbol.clone(),
            payment_date: self.payment_date,
            exdate: self.exdate,
            div_per_share: self.div_per_share,
            no_of_shares: self.no_of_shares,
            total_dividend: self.total_dividend,
            total_wht: self.total_wht,
            net_dividend: self.net_dividend,
        }
    }
}

/// The upcoming-payment row of a position with an announced amount.
pub open spec fn spec_upcoming_row(p: Position, amount: u128) -> UpComingDivPaymetsPred {
    UpComingDivPaymetsPred {
        symbol: p.ticker,
        payment_date: p.div_prediction.next_payment_date,
        exdate: p.div_prediction.next_exdate,
        div_per_share: amount,
        no_of_shares: p.quantity,
        total_dividend: match p.div_prediction.net_payment_amount {
            Option::Some(v) => v,
            Option::None => 0,
        },
        total_wht: match p.div_prediction.net_wht {
            Option::Some(v) => v,
            Option::None => 0,
        },
        net_dividend: match p.div_prediction.net_payment_amount_after_wht {
            Option::Some(v) => v,
            Option::None => 0,
        },
    }
}

/// The upcoming-payment rows of a position sequence, in position order.
pub open spec fn spec_upcoming_payments(s: Seq<Position>) -> Seq<UpComingDivPaymetsPred>
    decreases s.len(),
{
    if s.len() == 0 {
        Seq::empty()
    } else {
        let rest = spec_upcoming_payments(s.drop_last());
        match s.last().div_prediction.payment_amount_per_share {
            Option::Some(amount) => rest.push(spec_upcoming_row(s.last(), amount)),
            Option::None => rest,
        }
    }
}

/// An unannounced payment date sorts after every announced one.
pub open spec fn spec_payment_date_key(u: UpComingDivPaymetsPred) -> int {
    match u.payment_date {
        Option::Some(t) => t as int,
        Option::None => i64::MAX as int,
    }
}

impl Portfolio {
    /// The positions with an announced next payment, in position order:
    /// what the upcoming-payments table lists.
    pub fn upcoming_payments(&self) -> (out: Vec<UpComingDivPaymetsPred>)
        ensures
            out@ == spec_upcoming_payments(self.positions@),
    {
        let n = self.positions.len();
        let mut out: Vec<UpComingDivPaymetsPred> = Vec::new();
        let mut i: usize = 0;
        proof {
            assert(self.positions@.take(0) =~= Seq::<Position>::empty());
        }
        while i < n
            invariant
                n == self.positions@.len(),
                0 <= i <= n,
                out@ == spec_upcoming_payments(self.positions@.take(i as int)),
            decreases n - i,
        {
            proof {
                assert(self.positions@.take(i + 1).drop_last() =~= self.positions@.take(i as int));
                assert(self.positions@.take(i + 1).last() == self.positions@[i as int]);
            }
            let p = &self.positions[i];
            match p.div_prediction.payment_amount_per_share {
                Option::Some(amount) => {
                    out.push(
                        UpComingDivPaymetsPred {
                            symbol: p.ticker.clone(),
                            payment_date: p.div_prediction.next_payment_date,
                            exdate: p.div_prediction.next_exdate,
                            div_per_share: amount,
                            no_of_shares: p.quantity,
                            total_dividend: match p.div_prediction.net_payment_amount {
                                Option::Some(v) => v,
                                Option::None => 0,
                            },
                            total_wht: match p.div_prediction.net_wht {
                                Option::Some(v) => v,
                                Option::None => 0,
                            },
                            net_dividend: match p.div_prediction.net_payment_amount_after_wht {
                                Option::Some(v) => v,
                                Option::None => 0,
                            },
                        },
                    );
                },
                Option::None => {},
            }
            i = i + 1;
        }
        proof {
            assert(self.positions@.take(n as int) =~= self.positions@);
        }
        out
    }
}

/// Inserting an upcoming-payment row anywhere in a sequence adds exactly
/// that row to its multiset.
proof fn lemma_insert_upcoming_to_multiset(
    s: Seq<UpComingDivPaymetsPred>,
    i: int,
    x: UpComingDivPaymetsPred,
)
    requires
        0 <= i <= s.len(),
    ensures
        s.insert(i, x).to_multiset() == s.to_multiset().insert(x),
{
    broadcast use vstd::seq_lib::group_to_multiset_ensures;

    let t = s.insert(i, x);
    assert(t.remove(i) =~= s);
    assert(t[i] == x);
    assert(t.remove(i).to_multiset() =~= t.to_multiset().remove(x));
    assert(t.to_multiset().contains(x)) by {
        assert(t.contains(x));
    }
    assert(t.to_multiset() =~= s.to_multiset().insert(x));
}

/// Sorts upcoming-payment rows by payment date, earliest first, with
/// unannounced dates last.  The result holds exactly the given rows.
pub fn sort_upcoming_payments(rows: &Vec<UpComingDivPaymetsPred>) -> (out: Vec<
    UpComingDivPaymetsPred,
>)
    ensures
        out@.len() == rows@.len(),
        out@.to_multiset() == rows@.to_multiset(),
        forall|a: int, b: int|
            0 <= a < b < out@.len() ==> spec_payment_date_key(#[trigger] out@[a])
                <= spec_payment_date_key(#[trigger] out@[b]),
{
    broadcast use vstd::seq_lib::group_to_multiset_ensures;

    let n = rows.len();
    let mut out: Vec<UpComingDivPaymetsPred> = Vec::new();
    let mut i: usize = 0;
    proof {
        assert(rows@.take(0) =~= Seq::<UpComingDivPaymetsPred>::empty());
        assert(rows@.take(0).to_multiset() =~= Seq::<UpComingDivPaymetsPred>::empty().to_multiset());
    }
    while i < n
        invariant
            n == rows@.len(),
            0 <= i <= n,
            out@.len() == i,
            out@.to_multiset() == rows@.take(i as int).to_multiset(),
            forall|a: int, b: int|
                0 <= a < b < out@.len() ==> spec_payment_date_key(#[trigger] out@[a])
                    <= spec_payment_date_key(#[trigger] out@[b]),
        decreases n - i,
    {
        broadcast use vstd::seq_lib::group_to_multiset_ensures;

        let x = rows[i].clone();
        let x_key: i64 = match x.payment_date {
            Option::Some(t) => t,
            Option::None => i64::MAX,
        };
        let m = out.len();
        let mut pos: usize = 0;
        while pos < m && date_key_at(&out, pos) <= x_key
            invariant
                m == out@.len(),
                x_key == spec_payment_date_key(x),
                0 <= pos <= m,
                forall|a: int|
                    0 <= a < pos ==> spec_payment_date_key(#[trigger] out@[a]) <= x_key,
            decreases m - pos,
        {
            pos = pos + 1;
        }
        proof {
            lemma_insert_upcoming_to_multiset(out@, pos as int, x);
            assert(rows@.take(i + 1).drop_last() =~= rows@.take(i as int));
            assert(rows@.take(i + 1) =~= rows@.take(i as int).push(rows@[i as int]));
            assert(rows@.take(i as int).push(rows@[i as int]).to_multiset() =~= rows@.take(
                i as int,
            ).to_multiset().insert(rows@[i as int]));
            assert(x == rows@[i as int]);
            let ghost oldout = out@;
            assert forall|b: int| pos <= b < oldout.len() implies spec_payment_date_key(
                #[trigger] oldout[b],
            ) > x_key by {
                if b > pos {
                    assert(spec_payment_date_key(oldout[pos as int]) <= spec_payment_date_key(
                        oldout[b],
                    ));
                }
            }
        }
        out.insert(pos, x);
        i = i + 1;
    }
    proof {
        assert(rows@.take(n as int) =~= rows@);
    }
    out
}

/// The payment-date ordering key of the row stored at `k`.
fn date_key_at(rows: &Vec<UpComingDivPaymetsPred>, k: usize) -> (r: i64)
    requires
        k < rows@.len(),
    ensures
        r == spec_payment_date_key(rows@[k as int]),
{
    match rows[k].payment_date {
        Option::Some(t) => t,
        Option::None => i64::MAX,
    }
}

} // verus!
