use t212_portfolio_analytics::symbol_mapper::{extract_symbol, StockInfo, SymbolEntry};

fn lut() -> Vec<SymbolEntry> {
    vec![SymbolEntry {
        ticker: "AAPL_US".to_string(),
        info: StockInfo {
            name: "Apple Inc.".to_string(),
            country: "US".to_string(),
            yf_ticker: "AAPL".to_string(),
            tax: 15,
        },
    }]
}

#[test]
fn test_extract_symbol_from_lut() {
    let (ticker, info) = extract_symbol("AAPL_US", &lut());
    assert_eq!(ticker, "AAPL_US");
    assert_eq!(info.name, "Apple Inc.");
}

#[test]
fn test_extract_symbol_fallback_dot_l() {
    let (ticker, info) = extract_symbol("PHNXl_EQ", &lut());
    assert_eq!(ticker, "PHNXl_EQ");
    assert_eq!(info.yf_ticker, "PHNX.L");
}

#[test]
fn test_fallback_keeps_plain_root() {
    let (_, info) = extract_symbol("VUSA_EQ", &Vec::new());
    assert_eq!(info.yf_ticker, "VUSA");
    assert_eq!(info.tax, 15);
    assert_eq!(info.name, "NA");
    assert_eq!(info.country, "NA");
}

#[test]
fn test_fallback_exchange_marker_takes_capital_run() {
    // Only the run of capitals right before the marker letter survives.
    let (_, info) = extract_symbol("AxBCd_EQ", &Vec::new());
    assert_eq!(info.yf_ticker, "BC.L");
}

#[test]
fn test_fallback_strips_trailing_lowercase_without_marker() {
    // Two trailing lowercase letters are no exchange marker: they are
    // stripped instead.
    let (_, info) = extract_symbol("PHNXll_EQ", &Vec::new());
    assert_eq!(info.yf_ticker, "PHNX");
}

#[test]
fn test_fallback_without_underscore() {
    let (_, info) = extract_symbol("X", &Vec::new());
    assert_eq!(info.yf_ticker, "X");
}
