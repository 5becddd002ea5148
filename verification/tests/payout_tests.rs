use t212_portfolio_analytics::payout::{
    calculate_monthly_dividends, format_micro_2dp, parse_decimal, ticker_summary,
    total_dividends, total_withholding, DividendRecord,
};

fn record(ticker: &str, total: &str, wht: &str) -> DividendRecord {
    DividendRecord {
        date: "2025-01-15".to_string(),
        isin: "US0000000000".to_string(),
        ticker: ticker.to_string(),
        name: ticker.to_string(),
        quantity: "1.0000".to_string(),
        price: "10.0000".to_string(),
        currency: "GBP".to_string(),
        total: total.to_string(),
        withholding_tax: wht.to_string(),
    }
}

#[test]
fn test_parse_decimal() {
    assert_eq!(parse_decimal("12.34"), Some(12_340_000));
    assert_eq!(parse_decimal("0.5"), Some(500_000));
    assert_eq!(parse_decimal("12."), Some(12_000_000));
    assert_eq!(parse_decimal("7"), Some(7_000_000));
    assert_eq!(parse_decimal("0.123456"), Some(123_456));
    assert_eq!(parse_decimal(".5"), None);
    assert_eq!(parse_decimal(""), None);
    assert_eq!(parse_decimal("1e3"), None);
    assert_eq!(parse_decimal("1.2.3"), None);
    assert_eq!(parse_decimal("-1.0"), None);
    assert_eq!(parse_decimal("0.1234567"), None);
}

#[test]
fn test_format_micro_2dp() {
    assert_eq!(format_micro_2dp(12_340_000), "12.34");
    assert_eq!(format_micro_2dp(0), "0.00");
    assert_eq!(format_micro_2dp(500_000), "0.50");
    // Cents round half-up.
    assert_eq!(format_micro_2dp(12_345_678), "12.35");
    assert_eq!(format_micro_2dp(994_999), "0.99");
    assert_eq!(format_micro_2dp(995_000), "1.00");
    assert_eq!(format_micro_2dp(1_000_000_000), "1000.00");
}

#[test]
fn test_totals_skip_unparsable_amounts() {
    let records = vec![
        record("AAPL", "10.00", "1.50"),
        record("MSFT", "5.25", "0.75"),
        record("BAD", "n/a", "0.10"),
    ];
    assert_eq!(total_dividends(&records), 15_250_000);
    assert_eq!(total_withholding(&records), 2_350_000);
}

#[test]
fn test_ticker_summary_groups_in_first_appearance_order() {
    let records = vec![
        record("AAPL", "10.00", "1.50"),
        record("MSFT", "5.25", "0.75"),
        record("AAPL", "2.50", "0.40"),
        record("SKIP", "oops", "0.40"),
    ];
    let summary = ticker_summary(&records);
    assert_eq!(summary.len(), 2);
    assert_eq!(summary[0].ticker, "AAPL");
    assert_eq!(summary[0].total, "12.50");
    assert_eq!(summary[0].wht, "1.90");
    assert_eq!(summary[1].ticker, "MSFT");
    assert_eq!(summary[1].total, "5.25");
    assert_eq!(summary[1].wht, "0.75");
}

fn dated_record(date: &str, total: &str) -> DividendRecord {
    let mut r = record("AAPL", total, "0.00");
    r.date = date.to_string();
    r
}

#[test]
fn test_monthly_dividends_grouped_newest_first() {
    let records = vec![
        dated_record("2025-01-15", "10.00"),
        dated_record("2025-02-03", "4.00"),
        dated_record("2025-01-20", "2.50"),
        dated_record("2024-12-31", "1.00"),
        dated_record("not a date", "99.00"),
        dated_record("2025-02-10", "bad"),
    ];
    let months = calculate_monthly_dividends(&records);
    assert_eq!(months.len(), 3);
    assert_eq!((months[0].year, months[0].month, months[0].total), (2025, 2, 4_000_000));
    assert_eq!((months[1].year, months[1].month, months[1].total), (2025, 1, 12_500_000));
    assert_eq!((months[2].year, months[2].month, months[2].total), (2024, 12, 1_000_000));
}
