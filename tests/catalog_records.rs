use stonks::catalog::{
    creation_date, load_options, load_symbols, parse_option_catalog, parse_symbol_catalog,
    relative_filepath, symbols_file_path, CatalogLoad,
};
use stonks::date::MarketDate;
use stonks::options::{OptionListing, OptionType};
use stonks::symbols::{FinancialStatus, MarketCategory, RecordError, Symbol};

fn date(y: i32, m: u32, d: u32) -> MarketDate {
    MarketDate::from_ymd(y, m, d).unwrap()
}

#[test]
fn symbol_line_parses() {
    let s = Symbol::from_line("AAPL|Apple Inc.|Q|N|N|100|N|N").unwrap();
    assert_eq!(s.symbol, "AAPL");
    assert_eq!(s.security_name, "Apple Inc.");
    assert_eq!(s.market_category, MarketCategory::GlobalSelectMarketSM);
    assert!(!s.test_issue);
    assert_eq!(s.financial_status, FinancialStatus::Normal);
    assert_eq!(s.round_lot_size, 100);
    assert!(!s.etf);
    assert!(!s.next_shares);
}

#[test]
fn symbol_unknown_codes_and_default_lot() {
    let s = Symbol::from_line("ZZ|Zed Co|X|Y|Z|lots|Y|N").unwrap();
    assert_eq!(s.market_category, MarketCategory::Unknown);
    assert_eq!(s.financial_status, FinancialStatus::Unknown);
    assert_eq!(s.round_lot_size, 100);
    assert!(s.test_issue);
    assert!(s.etf);
    let s = Symbol::from_line("ZZ|Zed Co|G|N|K|+250|N|Y").unwrap();
    assert_eq!(s.market_category, MarketCategory::GlobalMarketSM);
    assert_eq!(s.financial_status, FinancialStatus::DeficientDelinquentAndBankrupt);
    assert_eq!(s.round_lot_size, 250);
    assert!(s.next_shares);
    let s = Symbol::from_line("ZZ|Zed Co|S|N|D|70000|N|N").unwrap();
    assert_eq!(s.round_lot_size, 100);
}

#[test]
fn symbol_wrong_field_count_is_refused() {
    assert_eq!(Symbol::from_line("AAPL|Apple Inc.|Q|N|N|100|N").unwrap_err(), RecordError::FieldCount);
    assert_eq!(
        Symbol::from_line("AAPL|Apple Inc.|Q|N|N|100|N|N|extra").unwrap_err(),
        RecordError::FieldCount
    );
}

#[test]
fn symbol_round_trip() {
    let line = "msft|Microsoft Corp |S|Y|H|007|Y|N";
    let s = Symbol::from_line(line).unwrap();
    let again = Symbol::from_line(&s.to_line()).unwrap();
    assert_eq!(s.to_line(), "msft|Microsoft Corp |S|Y|H|7|Y|N");
    assert_eq!(again.symbol, s.symbol);
    assert_eq!(again.security_name, s.security_name);
    assert_eq!(again.market_category, s.market_category);
    assert_eq!(again.test_issue, s.test_issue);
    assert_eq!(again.financial_status, s.financial_status);
    assert_eq!(again.round_lot_size, s.round_lot_size);
    assert_eq!(again.etf, s.etf);
    assert_eq!(again.next_shares, s.next_shares);
}

#[test]
fn option_line_parses() {
    let o = OptionListing::from_line("AAPL|STANDARD|C|2024-01-19|150|AAPL|Apple Inc.|N").unwrap();
    assert_eq!(o.options_type, OptionType::Call);
    assert_eq!(o.strike_price.parse::<f32>().unwrap(), 150.0);
    assert!(!o.pending);
    assert_eq!(o.closing_type, "STANDARD");
    assert_eq!(o.expiration_date, "2024-01-19");
    assert_eq!(o.underlying_symbol, "AAPL");
    assert_eq!(o.underlying_name, "Apple Inc.");
}

#[test]
fn option_errors() {
    assert_eq!(
        OptionListing::from_line("AAPL|STANDARD|X|2024-01-19|150|AAPL|Apple Inc.|N").unwrap_err(),
        RecordError::OptionType
    );
    assert_eq!(
        OptionListing::from_line("AAPL|STANDARD|P|2024-01-19|1.5.0|AAPL|Apple Inc.|N").unwrap_err(),
        RecordError::StrikePrice
    );
    assert_eq!(
        OptionListing::from_line("AAPL|STANDARD|P|2024-01-19").unwrap_err(),
        RecordError::FieldCount
    );
    let o = OptionListing::from_line("AAPL|STANDARD|P|2024-01-19|152.5|AAPL|Apple Inc.|Y").unwrap();
    assert_eq!(o.options_type, OptionType::Put);
    assert!(o.pending);
}

#[test]
fn option_round_trip() {
    let o = OptionListing::from_line("SPYX|WEEKLY|P|2024-02-02|401.25|SPY|SPDR S&P 500|Y").unwrap();
    let line = o.to_line();
    assert_eq!(line, "SPY|WEEKLY|P|2024-02-02|401.25|SPY|SPDR S&P 500|Y");
    let again = OptionListing::from_line(&line).unwrap();
    assert_eq!(again.closing_type, o.closing_type);
    assert_eq!(again.options_type, o.options_type);
    assert_eq!(again.expiration_date, o.expiration_date);
    assert_eq!(again.strike_price, o.strike_price);
    assert_eq!(again.underlying_symbol, o.underlying_symbol);
    assert_eq!(again.underlying_name, o.underlying_name);
    assert_eq!(again.pending, o.pending);
}

#[test]
fn trailer_date() {
    let line: Vec<char> = "File Creation Time: 07022020|||||||".chars().collect();
    let d = creation_date(&line, date(2024, 3, 10));
    assert_eq!(d, date(2020, 7, 2));
}

#[test]
fn trailer_without_date_gives_today() {
    let today = date(2024, 3, 10);
    let no_pipe: Vec<char> = "File Creation Time: 07022020".chars().collect();
    assert_eq!(creation_date(&no_pipe, today), today);
    let bad_month: Vec<char> = "File Creation Time: 13022020|".chars().collect();
    assert_eq!(creation_date(&bad_month, today), today);
    let short: Vec<char> = "File Creation Time: 0702|".chars().collect();
    assert_eq!(creation_date(&short, today), today);
    let letters: Vec<char> = "File Creation Time: ab022020|".chars().collect();
    assert_eq!(creation_date(&letters, today), today);
}

const SYMBOL_FILE: &str = "Symbol|Security Name|Market Category|Test Issue|Financial Status|Round Lot Size|ETF|NextShares\nAAPL|Apple Inc.|Q|N|N|100|N|N\nbroken line\nMSFT|Microsoft|Q|N|N|100|N|N\nFile Creation Time: 03082024|||||||\n";

#[test]
fn symbol_catalog_parses() {
    let today = date(2024, 3, 10);
    let r = parse_symbol_catalog(SYMBOL_FILE, today);
    assert_eq!(r.symbols.len(), 2);
    assert_eq!(r.symbols[0].symbol, "AAPL");
    assert_eq!(r.symbols[1].symbol, "MSFT");
    assert_eq!(r.file_creation_date, date(2024, 3, 8));
}

#[test]
fn short_catalog_is_empty() {
    let today = date(2024, 3, 11);
    let r = parse_symbol_catalog("header\nAAPL|Apple Inc.|Q|N|N|100|N|N", today);
    assert!(r.symbols.is_empty());
    assert_eq!(r.file_creation_date, today);
    let r = parse_option_catalog("", today);
    assert!(r.symbols.is_empty());
    assert_eq!(r.file_creation_date, today);
}

#[test]
fn option_catalog_parses() {
    let text = "Root|Closing|Type|Exp|Strike|Und|Name|Pending\nAAPL|STANDARD|C|2024-01-19|150|AAPL|Apple Inc.|N\nAAPL|STANDARD|Q|2024-01-19|150|AAPL|Apple Inc.|N\nFile Creation Time: 03112024|||||||\n";
    let r = parse_option_catalog(text, date(2024, 3, 11));
    assert_eq!(r.symbols.len(), 1);
    assert_eq!(r.file_creation_date, date(2024, 3, 11));
}

#[test]
fn load_decisions() {
    match load_symbols(None, date(2024, 3, 10)) {
        CatalogLoad::Refresh => {}
        CatalogLoad::Loaded(_) => panic!("an unread file must be fetched"),
    }
    match load_symbols(Some(SYMBOL_FILE), date(2024, 3, 10)) {
        CatalogLoad::Loaded(v) => assert_eq!(v.len(), 2),
        CatalogLoad::Refresh => panic!("a weekend never refreshes"),
    }
    match load_symbols(Some(SYMBOL_FILE), date(2024, 3, 11)) {
        CatalogLoad::Refresh => {}
        CatalogLoad::Loaded(_) => panic!("a Monday after a Friday file refreshes"),
    }
    match load_symbols(Some(SYMBOL_FILE), date(2024, 3, 8)) {
        CatalogLoad::Loaded(v) => assert_eq!(v.len(), 2),
        CatalogLoad::Refresh => panic!("a file of today is fresh"),
    }
    match load_options(None, date(2024, 3, 8)) {
        CatalogLoad::Refresh => {}
        CatalogLoad::Loaded(_) => panic!("an unread file must be fetched"),
    }
}

#[test]
fn catalog_paths() {
    assert_eq!(relative_filepath("options.txt"), "./SymbolDirectory/options.txt");
    assert_eq!(symbols_file_path(), "./SymbolDirectory/nasdaqlisted.txt");
}

#[test]
fn records_parse_through_from_str() {
    let s: Symbol = "NVDA|NVIDIA Corporation|Q|N|N|100|N|N".parse().unwrap();
    assert_eq!(s.symbol, "NVDA");
    let o: Result<OptionListing, RecordError> = "X|Y|C|Z".parse();
    assert_eq!(o.unwrap_err(), RecordError::FieldCount);
}

#[test]
fn codes_parse_through_from_str() {
    assert_eq!("S".parse::<MarketCategory>().unwrap(), MarketCategory::CapitalMarket);
    assert_eq!("?".parse::<MarketCategory>().unwrap(), MarketCategory::Unknown);
    assert_eq!("J".parse::<FinancialStatus>().unwrap(), FinancialStatus::DelinquentAndBankrupt);
    assert_eq!("P".parse::<OptionType>().unwrap(), OptionType::Put);
    assert_eq!("p".parse::<OptionType>().unwrap_err(), RecordError::OptionType);
}

#[test]
fn strike_prices_in_float_forms() {
    for strike in [".5", "5.", "1e2", "-1.5E-3", "+2.25", "150", "inf", "-Infinity", "NaN"] {
        let line = format!("AAPL|STANDARD|C|2024-01-19|{}|AAPL|Apple Inc.|N", strike);
        let o = OptionListing::from_line(&line).unwrap();
        assert_eq!(o.strike_price, strike);
        assert!(o.strike_price.parse::<f32>().is_ok());
    }
    for strike in ["", ".", "e5", "1e", "1e+", "+", "1.5.0", "infin", "nan1", "--1", "1 5"] {
        let line = format!("AAPL|STANDARD|C|2024-01-19|{}|AAPL|Apple Inc.|N", strike);
        assert_eq!(OptionListing::from_line(&line).unwrap_err(), RecordError::StrikePrice);
    }
}
