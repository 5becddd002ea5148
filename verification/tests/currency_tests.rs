use t212_portfolio_analytics::currency::{
    Currency, CurrencyConverter, CurrencyError, RateEntry,
};
use t212_portfolio_analytics::dates::{parse_date, Date};
use t212_portfolio_analytics::exchange_rate::{
    rate_from_cache, rate_from_response, CachedRates, ExchangeRateError,
};

fn table() -> Vec<RateEntry> {
    vec![
        RateEntry { code: "GBP".to_string(), rate: 1_000_000 },
        RateEntry { code: "USD".to_string(), rate: 1_250_000 },
        RateEntry { code: "EUR".to_string(), rate: 1_160_000 },
    ]
}

#[test]
fn test_currency_codes() {
    assert_eq!(Currency::USD.as_str(), "USD");
    assert_eq!(Currency::EUR.as_str(), "EUR");
    assert_eq!(Currency::GBP.as_str(), "GBP");
    assert_eq!(Currency::CHF.as_str(), "CHF");
    assert_eq!(Currency::UnSupported.as_str(), "UnSupported");
    assert_eq!(Currency::from_code("usd"), Currency::USD);
    assert_eq!(Currency::from_code("Gbp"), Currency::GBP);
    assert_eq!(Currency::from_code("GBX"), Currency::UnSupported);
    assert_eq!(Currency::default(), Currency::GBP);
}

#[test]
fn test_same_currency_factor_is_one() {
    let converter = CurrencyConverter::new(Vec::new(), 0);
    let factor = converter
        .get_conversion_factor(Currency::USD, Currency::USD)
        .expect("equal currencies always convert");
    assert_eq!(factor.apply(123_456), 123_456);
}

#[test]
fn test_conversion_factor_usd_to_gbp() {
    let converter = CurrencyConverter::new(table(), 0);
    let factor = converter
        .get_conversion_factor(Currency::USD, Currency::GBP)
        .expect("both rates are in the table");
    // 1.25 USD per GBP: converting 100 USD gives 80 GBP.
    assert_eq!(factor.apply(100_000_000), 80_000_000);
}

#[test]
fn test_conversion_factor_missing_rate() {
    let converter = CurrencyConverter::new(table(), 0);
    let err = converter
        .get_conversion_factor(Currency::CHF, Currency::GBP)
        .expect_err("CHF is not in the table");
    assert_eq!(err, CurrencyError::RateNotAvailable);
}

#[test]
fn test_conversion_round_trip_close() {
    let converter = CurrencyConverter::new(table(), 0);
    let there = converter
        .get_conversion_factor(Currency::USD, Currency::EUR)
        .unwrap();
    let back = converter
        .get_conversion_factor(Currency::EUR, Currency::USD)
        .unwrap();
    let x: u128 = 123_456_789;
    let y = back.apply(there.apply(x));
    assert!(y <= x);
    assert!(x - y <= 2);
}

#[test]
fn test_staleness_and_swap() {
    let mut converter = CurrencyConverter::new(table(), 1000);
    assert!(!converter.is_stale(1000 + 360));
    assert!(converter.is_stale(1000 + 361));
    converter.set_rates(vec![RateEntry { code: "USD".to_string(), rate: 1_300_000 }], 2000);
    assert!(!converter.is_stale(2001));
    let factor = converter
        .get_conversion_factor(Currency::GBP, Currency::USD)
        .expect_err("GBP left the table with the swap");
    assert_eq!(factor, CurrencyError::RateNotAvailable);
}

#[test]
fn test_rate_cache_answers_only_fresh_matching_base() {
    let cache = Some(CachedRates {
        base: "USD".to_string(),
        rates: vec![RateEntry { code: "EUR".to_string(), rate: 930_000 }],
        timestamp: 10_000,
    });
    assert_eq!(rate_from_cache(&cache, "USD", "EUR", 10_100), Some(930_000));
    // Too old.
    assert_eq!(rate_from_cache(&cache, "USD", "EUR", 10_000 + 3600), None);
    // Other base.
    assert_eq!(rate_from_cache(&cache, "GBP", "EUR", 10_100), None);
    // Unknown target.
    assert_eq!(rate_from_cache(&cache, "USD", "JPY", 10_100), None);
    assert_eq!(rate_from_cache(&None, "USD", "EUR", 10_100), None);
}

#[test]
fn test_rate_from_response() {
    let rates = vec![RateEntry { code: "EUR".to_string(), rate: 930_000 }];
    assert_eq!(rate_from_response(&rates, "EUR"), Ok(930_000));
    assert_eq!(
        rate_from_response(&rates, "JPY"),
        Err(ExchangeRateError::ConversionNotAvailable)
    );
}

#[test]
fn test_parse_date() {
    assert_eq!(
        parse_date("2024-02-29"),
        Some(Date { year: 2024, month: 2, day: 29 })
    );
    assert_eq!(parse_date("2023-02-29"), None);
    assert_eq!(parse_date("1900-02-29"), None);
    assert_eq!(parse_date("2000-02-29"), Some(Date { year: 2000, month: 2, day: 29 }));
    assert_eq!(parse_date("2024-13-01"), None);
    assert_eq!(parse_date("2024-04-31"), None);
    assert_eq!(parse_date("2024-4-01"), None);
    assert_eq!(parse_date("24-04-01"), None);
    assert_eq!(parse_date("not a date"), None);
    assert_eq!(
        parse_date("2025-12-31"),
        Some(Date { year: 2025, month: 12, day: 31 })
    );
}
