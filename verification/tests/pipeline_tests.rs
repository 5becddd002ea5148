use t212_portfolio_analytics::broker::{ingest_positions, InstrumentMetadata};
use t212_portfolio_analytics::currency::{Currency, CurrencyConverter, RateEntry};
use t212_portfolio_analytics::portfolio::{
    calculate_dividend, Portfolio, PortfolioError, QuoteFacts, QuoteFactsEntry, RawPayment,
    RawPosition,
};
use t212_portfolio_analytics::scheduler::{
    due_for_refresh, scheduler_step, PortfolioStore, SchedulerAction, SchedulerEvent,
    SchedulerState,
};
use t212_portfolio_analytics::settings::Config;

fn raw(ticker: &str, quantity: u128, avg: u128, cur: u128, currency: &str) -> RawPosition {
    RawPosition {
        ticker: ticker.to_string(),
        quantity,
        average_price: avg,
        current_price: cur,
        ppl: 0,
        fx_ppl: None,
        currency: Some(currency.to_string()),
    }
}

fn gbp_usd_rates() -> Vec<RateEntry> {
    vec![
        RateEntry { code: "GBP".to_string(), rate: 1_000_000 },
        RateEntry { code: "USD".to_string(), rate: 1_250_000 },
    ]
}

fn facts_rate_4_usd() -> Vec<QuoteFactsEntry> {
    vec![QuoteFactsEntry {
        symbol: "X".to_string(),
        facts: QuoteFacts {
            dividend_rate: Some(4_000_000),
            dividend_yield: None,
            last_4_dividends: None,
            next_payment_date: None,
            next_exdate: None,
            payment_amount_per_share: None,
        },
    }]
}

/// The worked scenario: 10 shares at cost 100 USD quoted at 120 USD,
/// reference currency GBP at 0.8 GBP per USD, trailing rate 4 USD per
/// share, withholding tax 15 %.
#[test]
fn test_scenario_usd_position_normalized_to_gbp() {
    let mut portfolio = Portfolio::default();
    portfolio.positions = ingest_positions(&vec![raw("X", 10_000_000, 100_000_000, 120_000_000, "USD")]);
    let converter = CurrencyConverter::new(gbp_usd_rates(), 0);
    let config = Config::default();
    portfolio
        .process(&config, &converter, &Vec::new(), &Vec::new(), &facts_rate_4_usd(), 777)
        .expect("assembly succeeds");

    let p = &portfolio.positions[0];
    assert_eq!(p.average_price, 80_000_000);
    assert_eq!(p.current_price, 96_000_000);
    assert_eq!(p.value, 960_000_000);
    assert_eq!(p.wht, 15);
    assert_eq!(p.yf_ticker, "X");

    let d = p.div_info.as_ref().expect("dividend facts were supplied");
    assert_eq!(d.annual_dividend_per_share, 3_200_000);
    assert_eq!(d.annual_dividend, 32_000_000);
    assert_eq!(d.annual_wht, 4_800_000);
    assert_eq!(d.annual_income_after_wht, 27_200_000);
    // ((3.2 * 0.85) / 96) * 100 = 2.8333…%, floored at six decimals.
    assert_eq!(d.dividend_yield, 2_833_333);
    // ((3.2 * 0.85) / 80) * 100 = 3.4 % exactly.
    assert_eq!(d.yield_on_cost, 3_400_000);
    assert_eq!(d.total_investment, 800_000_000);
    assert_eq!(d.current_investment_val, 960_000_000);

    assert_eq!(portfolio.total_value, 960_000_000);
    assert_eq!(portfolio.total_cost, 800_000_000);
    assert_eq!(portfolio.total_ppl, 0);
    assert_eq!(portfolio.total_ppl_percent, 0);
    assert_eq!(portfolio.last_updated, 777);
    assert_eq!(portfolio.update_count, 0);
}

/// Assembly of an empty portfolio fails with `NoPositionsError` and the
/// shared snapshot stays whatever it was.
#[test]
fn test_empty_portfolio_is_reported_and_store_unchanged() {
    let mut store = PortfolioStore::new();
    let mut empty = Portfolio::default();
    let converter = CurrencyConverter::new(gbp_usd_rates(), 0);
    let config = Config::default();
    let result = empty.process(&config, &converter, &Vec::new(), &Vec::new(), &Vec::new(), 9);
    assert_eq!(result, Err(PortfolioError::NoPositionsError));
    // Nothing was published: readers still see the starting snapshot.
    assert_eq!(store.snapshot().update_count, 0);
    assert_eq!(store.snapshot().positions.len(), 0);
    store.publish(Portfolio::default());
    assert_eq!(store.snapshot().update_count, 1);
}

/// A publish replaces the positions and bumps the counter in one step:
/// a reader never sees the new counter with the old positions.
#[test]
fn test_publish_swaps_snapshot_and_counter_together() {
    let mut store = PortfolioStore::new();
    let mut fresh = Portfolio::default();
    fresh.positions = ingest_positions(&vec![raw("X", 1_000_000, 0, 0, "GBP")]);
    fresh.last_updated = 42;
    store.publish(fresh);
    let seen = store.snapshot();
    assert_eq!(seen.update_count, 1);
    assert_eq!(seen.positions.len(), 1);
    assert_eq!(seen.last_updated, 42);

    let mut second = Portfolio::default();
    second.last_updated = 43;
    store.publish(second);
    let seen = store.snapshot();
    assert_eq!(seen.update_count, 2);
    assert_eq!(seen.positions.len(), 0);
    assert_eq!(seen.last_updated, 43);
}

/// Withholding tax and post-tax income recombine exactly.
#[test]
fn test_income_and_tax_recombine() {
    let mut portfolio = Portfolio::default();
    portfolio.positions = ingest_positions(&vec![raw("X", 7_300_000, 91_000_000, 103_000_000, "GBP")]);
    let mut p = portfolio.positions.pop().unwrap();
    p.wht = 35;
    calculate_dividend(&mut p, Some(1_234_567), None);
    let d = p.div_info.expect("analytics ran");
    assert_eq!(d.annual_income_after_wht + d.annual_wht, d.annual_dividend);
}

/// A zero current price gives a dividend yield of exactly zero, and a
/// zero cost basis a yield-on-cost of exactly zero.
#[test]
fn test_zero_denominators_give_zero_yields() {
    let mut portfolio = Portfolio::default();
    portfolio.positions = ingest_positions(&vec![raw("X", 1_000_000, 0, 0, "GBP")]);
    let mut p = portfolio.positions.pop().unwrap();
    p.wht = 15;
    calculate_dividend(&mut p, Some(2_000_000), Some(1_000_000));
    let d = p.div_info.expect("analytics ran");
    assert_eq!(d.dividend_yield, 0);
    assert_eq!(d.yield_on_cost, 0);
    assert_eq!(d.annual_dividend, 1_000_000);
}

/// Assembling twice from identical inputs gives identical positions and
/// rollups; only the timestamp differs.
#[test]
fn test_assembly_idempotent() {
    let rows = vec![
        raw("X", 10_000_000, 100_000_000, 120_000_000, "USD"),
        raw("PHNXl_EQ", 2_000_000, 50_000_000, 55_000_000, "GBX"),
    ];
    let converter = CurrencyConverter::new(gbp_usd_rates(), 0);
    let config = Config::default();

    let mut first = Portfolio::default();
    first.positions = ingest_positions(&rows);
    first
        .process(&config, &converter, &Vec::new(), &Vec::new(), &facts_rate_4_usd(), 1)
        .unwrap();

    let mut second = Portfolio::default();
    second.positions = ingest_positions(&rows);
    second
        .process(&config, &converter, &Vec::new(), &Vec::new(), &facts_rate_4_usd(), 2)
        .unwrap();

    assert_eq!(first.positions, second.positions);
    assert_eq!(first.total_value, second.total_value);
    assert_eq!(first.total_cost, second.total_cost);
    assert_eq!(first.total_ppl, second.total_ppl);
    assert_eq!(first.total_ppl_percent, second.total_ppl_percent);
    assert_ne!(first.last_updated, second.last_updated);
}

/// Ingestion drops zero-quantity rows, computes the market value and the
/// price-only profit/loss percentage, and falls back to GBP.
#[test]
fn test_ingestion() {
    let rows = vec![
        RawPosition {
            ticker: "A".to_string(),
            quantity: 0,
            average_price: 1_000_000,
            current_price: 1_000_000,
            ppl: 0,
            fx_ppl: None,
            currency: None,
        },
        RawPosition {
            ticker: "B".to_string(),
            quantity: 10_000_000,
            average_price: 100_000_000,
            current_price: 120_000_000,
            ppl: 200_000_000,
            fx_ppl: Some(-1_000_000),
            currency: None,
        },
    ];
    let positions = ingest_positions(&rows);
    assert_eq!(positions.len(), 1);
    let p = &positions[0];
    assert_eq!(p.ticker, "B");
    assert_eq!(p.currency, "GBP");
    assert_eq!(p.value, 1_200_000_000);
    // 120 / 100 - 1 = 20 %.
    assert_eq!(p.ppl_percent, 20_000_000);
    assert_eq!(p.fx_ppl, -1_000_000);
    assert!(p.div_info.is_none());
    assert!(p.div_prediction.payment_amount_per_share.is_none());
}

/// A pence quote is scaled into pounds instead of rate-converted.
#[test]
fn test_minor_unit_scaling() {
    let mut portfolio = Portfolio::default();
    portfolio.positions = ingest_positions(&vec![raw("Y", 2_000_000, 50_000_000, 60_000_000, "GBX")]);
    let converter = CurrencyConverter::new(gbp_usd_rates(), 0);
    let config = Config::default();
    portfolio
        .process(&config, &converter, &Vec::new(), &Vec::new(), &Vec::new(), 0)
        .unwrap();
    let p = &portfolio.positions[0];
    assert_eq!(p.average_price, 500_000);
    assert_eq!(p.current_price, 600_000);
    assert_eq!(p.value, 1_200_000);
}

/// An unsupported currency leaves the position unconverted, never drops it.
#[test]
fn test_unsupported_currency_left_unconverted() {
    let mut portfolio = Portfolio::default();
    portfolio.positions = ingest_positions(&vec![raw("Z", 1_000_000, 7_000_000, 8_000_000, "JPY")]);
    let converter = CurrencyConverter::new(gbp_usd_rates(), 0);
    let config = Config::default();
    portfolio
        .process(&config, &converter, &Vec::new(), &Vec::new(), &Vec::new(), 0)
        .unwrap();
    let p = &portfolio.positions[0];
    assert_eq!(p.average_price, 7_000_000);
    assert_eq!(p.current_price, 8_000_000);
    assert_eq!(p.value, 8_000_000);
}

/// Metadata overrides the broker-reported currency code.
#[test]
fn test_metadata_currency_override() {
    let mut portfolio = Portfolio::default();
    portfolio.positions = ingest_positions(&vec![raw("M", 1_000_000, 100_000_000, 100_000_000, "USD")]);
    let metadata = vec![InstrumentMetadata {
        added_on: String::new(),
        currency_code: "GBX".to_string(),
        isin: String::new(),
        name: String::new(),
        short_name: String::new(),
        ticker: "M".to_string(),
        instrument_type: String::new(),
    }];
    let converter = CurrencyConverter::new(gbp_usd_rates(), 0);
    let config = Config::default();
    portfolio
        .process(&config, &converter, &metadata, &Vec::new(), &Vec::new(), 0)
        .unwrap();
    let p = &portfolio.positions[0];
    assert_eq!(p.currency, "GBX");
    assert_eq!(p.current_price, 1_000_000);
}

/// Missing quote facts leave the dividend fields unset and abort nothing.
#[test]
fn test_missing_facts_degrade_only_that_position() {
    let mut portfolio = Portfolio::default();
    portfolio.positions = ingest_positions(&vec![
        raw("X", 10_000_000, 100_000_000, 120_000_000, "USD"),
        raw("NOFACTS", 1_000_000, 1_000_000, 1_000_000, "USD"),
    ]);
    let converter = CurrencyConverter::new(gbp_usd_rates(), 0);
    let config = Config::default();
    portfolio
        .process(&config, &converter, &Vec::new(), &Vec::new(), &facts_rate_4_usd(), 0)
        .unwrap();
    assert!(portfolio.positions[0].div_info.is_some());
    assert!(portfolio.positions[1].div_info.is_none());
    assert!(portfolio.positions[1].div_prediction.next_exdate.is_none());
    // The second position was still normalized.
    assert_eq!(portfolio.positions[1].current_price, 800_000);
}

/// The forward prediction passes dates through, computes the net figures
/// exactly, and distinguishes "no amount announced" from a zero amount.
#[test]
fn test_prediction_net_figures() {
    let mut portfolio = Portfolio::default();
    portfolio.positions = ingest_positions(&vec![raw("P", 2_000_000, 10_000_000, 10_000_000, "GBP")]);
    let facts = vec![QuoteFactsEntry {
        symbol: "P".to_string(),
        facts: QuoteFacts {
            dividend_rate: None,
            dividend_yield: None,
            last_4_dividends: Some(vec![
                RawPayment { date_text: "2025-03-10".to_string(), amount: 500_000 },
                RawPayment { date_text: "bad date".to_string(), amount: 600_000 },
            ]),
            next_payment_date: Some(1_760_000_000),
            next_exdate: Some(1_750_000_000),
            payment_amount_per_share: Some(1_000_000),
        },
    }];
    let converter = CurrencyConverter::new(gbp_usd_rates(), 0);
    let config = Config::default();
    portfolio
        .process(&config, &converter, &Vec::new(), &Vec::new(), &facts, 0)
        .unwrap();
    let pred = &portfolio.positions[0].div_prediction;
    assert_eq!(pred.next_payment_date, Some(1_760_000_000));
    assert_eq!(pred.next_exdate, Some(1_750_000_000));
    assert_eq!(pred.payment_amount_per_share, Some(1_000_000));
    // 1.0 per share on 2 shares, 15 % fallback withholding tax.
    assert_eq!(pred.net_payment_amount, Some(2_000_000));
    assert_eq!(pred.net_wht, Some(300_000));
    assert_eq!(pred.net_payment_amount_after_wht, Some(1_700_000));
    // The unparsable date was skipped, the good one kept.
    let payments = pred.last_4_dividends_dates.as_ref().unwrap();
    assert_eq!(payments.len(), 1);
    assert_eq!(payments[0].amount, 500_000);
    assert_eq!(payments[0].date.year, 2025);
    assert_eq!(payments[0].date.month, 3);
    assert_eq!(payments[0].date.day, 10);
}

/// An announced zero amount stays a known zero, distinct from unset.
#[test]
fn test_prediction_zero_amount_is_not_unset() {
    let mut portfolio = Portfolio::default();
    portfolio.positions = ingest_positions(&vec![raw("P", 2_000_000, 10_000_000, 10_000_000, "GBP")]);
    let facts = vec![QuoteFactsEntry {
        symbol: "P".to_string(),
        facts: QuoteFacts {
            dividend_rate: None,
            dividend_yield: None,
            last_4_dividends: None,
            next_payment_date: None,
            next_exdate: None,
            payment_amount_per_share: Some(0),
        },
    }];
    let converter = CurrencyConverter::new(gbp_usd_rates(), 0);
    let config = Config::default();
    portfolio
        .process(&config, &converter, &Vec::new(), &Vec::new(), &facts, 0)
        .unwrap();
    let pred = &portfolio.positions[0].div_prediction;
    assert_eq!(pred.net_payment_amount, Some(0));
    assert_eq!(pred.net_wht, Some(0));
    assert_eq!(pred.net_payment_amount_after_wht, Some(0));
}

/// The dividends page figures: the summaries of the positions that have
/// one, and their summed post-tax income.
#[test]
fn test_dividend_rollup() {
    let mut portfolio = Portfolio::default();
    portfolio.positions = ingest_positions(&vec![
        raw("X", 10_000_000, 100_000_000, 120_000_000, "USD"),
        raw("NOFACTS", 1_000_000, 1_000_000, 1_000_000, "USD"),
    ]);
    let converter = CurrencyConverter::new(gbp_usd_rates(), 0);
    let config = Config::default();
    portfolio
        .process(&config, &converter, &Vec::new(), &Vec::new(), &facts_rate_4_usd(), 0)
        .unwrap();
    let infos = portfolio.dividend_infos();
    assert_eq!(infos.len(), 1);
    assert_eq!(infos[0].symbol, "X");
    assert_eq!(portfolio.annual_income_total(), 27_200_000);
}

/// The scheduler's transition table, case by case.
#[test]
fn test_scheduler_transitions() {
    assert_eq!(
        scheduler_step(SchedulerState::Idle, SchedulerEvent::IntervalElapsed),
        (SchedulerState::Assembling, SchedulerAction::BeginAssembly)
    );
    assert_eq!(
        scheduler_step(SchedulerState::Idle, SchedulerEvent::UpdateSignal),
        (SchedulerState::Assembling, SchedulerAction::BeginAssembly)
    );
    assert_eq!(
        scheduler_step(SchedulerState::Assembling, SchedulerEvent::AssemblySucceeded),
        (SchedulerState::Publishing, SchedulerAction::PublishSnapshot)
    );
    assert_eq!(
        scheduler_step(SchedulerState::Assembling, SchedulerEvent::FetchFailed),
        (SchedulerState::Idle, SchedulerAction::Wait)
    );
    assert_eq!(
        scheduler_step(SchedulerState::Assembling, SchedulerEvent::AssemblyFailed),
        (SchedulerState::Idle, SchedulerAction::Wait)
    );
    assert_eq!(
        scheduler_step(SchedulerState::Publishing, SchedulerEvent::Published),
        (SchedulerState::Idle, SchedulerAction::Wait)
    );
    // A duplicate signal while assembling is coalesced.
    assert_eq!(
        scheduler_step(SchedulerState::Assembling, SchedulerEvent::UpdateSignal),
        (SchedulerState::Assembling, SchedulerAction::Wait)
    );
}

#[test]
fn test_due_for_refresh() {
    assert!(due_for_refresh(60, 60));
    assert!(due_for_refresh(60, 61));
    assert!(!due_for_refresh(60, 59));
    // A zero interval means: wait only for signals.
    assert!(!due_for_refresh(0, 1_000_000));
}

/// The dividends page lists summaries by income, largest first.
#[test]
fn test_sort_dividend_infos() {
    let mut portfolio = Portfolio::default();
    portfolio.positions = ingest_positions(&vec![
        raw("SMALL", 1_000_000, 100_000_000, 100_000_000, "GBP"),
        raw("BIG", 10_000_000, 100_000_000, 100_000_000, "GBP"),
    ]);
    let facts = vec![
        QuoteFactsEntry {
            symbol: "SMALL".to_string(),
            facts: QuoteFacts {
                dividend_rate: Some(1_000_000),
                dividend_yield: None,
                last_4_dividends: None,
                next_payment_date: None,
                next_exdate: None,
                payment_amount_per_share: None,
            },
        },
        QuoteFactsEntry {
            symbol: "BIG".to_string(),
            facts: QuoteFacts {
                dividend_rate: Some(5_000_000),
                dividend_yield: None,
                last_4_dividends: None,
                next_payment_date: None,
                next_exdate: None,
                payment_amount_per_share: None,
            },
        },
    ];
    let converter = CurrencyConverter::new(gbp_usd_rates(), 0);
    let config = Config::default();
    portfolio
        .process(&config, &converter, &Vec::new(), &Vec::new(), &facts, 0)
        .unwrap();
    let sorted =
        t212_portfolio_analytics::portfolio::sort_dividend_infos(&portfolio.dividend_infos());
    assert_eq!(sorted.len(), 2);
    assert_eq!(sorted[0].symbol, "BIG");
    assert_eq!(sorted[1].symbol, "SMALL");
    assert!(sorted[0].annual_income_after_wht >= sorted[1].annual_income_after_wht);
}

/// The upcoming-payments table lists only announced payments, ordered by
/// payment date with unannounced dates last.
#[test]
fn test_upcoming_payments_sorted_by_date() {
    let mut portfolio = Portfolio::default();
    portfolio.positions = ingest_positions(&vec![
        raw("LATER", 1_000_000, 1_000_000, 1_000_000, "GBP"),
        raw("NONE", 1_000_000, 1_000_000, 1_000_000, "GBP"),
        raw("SOON", 1_000_000, 1_000_000, 1_000_000, "GBP"),
        raw("QUIET", 1_000_000, 1_000_000, 1_000_000, "GBP"),
    ]);
    fn announced(symbol: &str, date: Option<i64>, amount: u128) -> QuoteFactsEntry {
        QuoteFactsEntry {
            symbol: symbol.to_string(),
            facts: QuoteFacts {
                dividend_rate: None,
                dividend_yield: None,
                last_4_dividends: None,
                next_payment_date: date,
                next_exdate: None,
                payment_amount_per_share: Some(amount),
            },
        }
    }
    let facts = vec![
        announced("LATER", Some(2_000), 300_000),
        announced("NONE", None, 100_000),
        announced("SOON", Some(1_000), 200_000),
    ];
    let converter = CurrencyConverter::new(gbp_usd_rates(), 0);
    let config = Config::default();
    portfolio
        .process(&config, &converter, &Vec::new(), &Vec::new(), &facts, 0)
        .unwrap();
    let upcoming = t212_portfolio_analytics::portfolio::sort_upcoming_payments(
        &portfolio.upcoming_payments(),
    );
    // QUIET has no facts at all, so only three rows appear.
    assert_eq!(upcoming.len(), 3);
    assert_eq!(upcoming[0].symbol, "SOON");
    assert_eq!(upcoming[1].symbol, "LATER");
    assert_eq!(upcoming[2].symbol, "NONE");
    assert_eq!(upcoming[0].total_dividend, 200_000);
}
