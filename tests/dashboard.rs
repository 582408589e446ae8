use stonks::api::{
    api_date_string, ApiEndpoint, MarketTime, Requestable, join_symbols, parse_network_error, time_series_status_error, time_series_url,
    ApiError,
};
use stonks::app::App;
use stonks::chart::to_graph_data;
use stonks::date::MarketDate;
use stonks::symbols::Symbol;
use stonks::watchlist::{get_watch_list, is_default_ticker, Listable, StatefulList};

fn sym(line: &str) -> Symbol {
    Symbol::from_line(line).unwrap()
}

fn list(n: usize) -> StatefulList<Symbol> {
    let mut v = Vec::new();
    for i in 0..n {
        v.push(sym(&format!("S{}|Name|Q|N|N|100|N|N", i)));
    }
    StatefulList::with_list(v)
}

#[test]
fn navigation_wraps() {
    let mut l = list(3);
    l.next();
    assert_eq!(l.selected(), Some(0));
    l.next();
    l.next();
    assert_eq!(l.selected(), Some(2));
    l.next();
    assert_eq!(l.selected(), Some(0));
    l.previous();
    assert_eq!(l.selected(), Some(2));
    let mut l = list(3);
    l.previous();
    assert_eq!(l.selected(), Some(0));
}

#[test]
fn navigation_k_steps() {
    let mut l = list(4);
    l.select(Some(1));
    for _ in 0..7 {
        l.next();
    }
    assert_eq!(l.selected(), Some((1 + 7) % 4));
    for _ in 0..5 {
        l.previous();
    }
    assert_eq!(l.selected(), Some(3));
}

#[test]
fn empty_navigation_keeps_none() {
    let mut l: StatefulList<Symbol> = StatefulList::new();
    l.next();
    l.previous();
    assert_eq!(l.selected(), None);
}

#[test]
fn downsample_picks_lower_neighbour() {
    let series = vec![10.0f64, 11.0, 12.0, 13.0];
    let out = to_graph_data(&series, 2);
    assert_eq!(out, vec![(0u16, 10.0f64), (1u16, 12.0f64)]);
}

#[test]
fn downsample_shape() {
    let series = vec![1u32, 2, 3];
    let out = to_graph_data(&series, 7);
    assert_eq!(out.len(), 7);
    for (i, p) in out.iter().enumerate() {
        assert_eq!(p.0 as usize, i);
        assert_eq!(p.1, series[i * 3 / 7]);
    }
}

#[test]
fn watch_list_uses_upper_case() {
    let all = vec![
        sym("spy|SPDR|Q|N|N|100|Y|N"),
        sym("XYZ|Other|Q|N|N|100|N|N"),
        sym("AAPL|Apple Inc.|Q|N|N|100|N|N"),
    ];
    let w = get_watch_list(&all);
    assert_eq!(w.len(), 2);
    assert_eq!(w[0].short_name(), "spy");
    assert_eq!(w[1].short_name(), "AAPL");
    assert!(is_default_ticker("AMZN"));
    assert!(!is_default_ticker("amzn"));
}

#[test]
fn network_errors() {
    match parse_network_error(Some(404)) {
        ApiError::NetworkError { code, msg } => {
            assert_eq!(code, 404);
            assert_eq!(msg, "404");
        }
        other => panic!("unexpected {:?}", other),
    }
    assert!(matches!(parse_network_error(None), ApiError::UnknownError));
    assert!(matches!(
        time_series_status_error(400),
        Some(ApiError::NetworkError { code: 400, .. })
    ));
    assert!(time_series_status_error(200).is_none());
}

#[test]
fn request_texts() {
    let day = MarketDate::from_ymd(2020, 7, 2).unwrap();
    let start = MarketTime { date: day, hour: 9, minute: 30, second: 0 };
    let end = MarketTime { date: day, hour: 16, minute: 0, second: 1 };
    assert_eq!(api_date_string(start).unwrap(), "2020-07-02 09:30");
    let ancient = MarketTime { date: MarketDate::from_ymd(-5, 1, 9).unwrap(), hour: 7, minute: 5, second: 0 };
    assert_eq!(api_date_string(ancient).unwrap(), "-005-01-09 07:05");
    assert_eq!(
        time_series_url("SPY", start, end, 5).unwrap(),
        "https://sandbox.tradier.com/v1/markets/timesales?symbol=SPY&interval=5min&start=2020-07-02 09:30&end=2020-07-02 16:00"
    );
    let syms = vec!["SPY".to_string(), "AAPL".to_string()];
    assert_eq!(join_symbols(&syms), "SPY,AAPL");
}

fn app_with_watchlist() -> App<u32, Vec<u32>> {
    let mut app: App<u32, Vec<u32>> = App::new();
    app.install_symbols(vec![
        sym("SPY|SPDR|Q|N|N|100|Y|N"),
        sym("XYZ|Other|Q|N|N|100|N|N"),
        sym("TSLA|Tesla|Q|N|N|100|N|N"),
    ]);
    app
}

#[test]
fn install_selects_first() {
    let app = app_with_watchlist();
    assert_eq!(app.title, "StonksCLI");
    assert_eq!(app.watchlist.list.len(), 2);
    assert_eq!(app.watchlist.selected(), Some(0));
    assert_eq!(app.selected_ticker(), "SPY");
    assert_eq!(app.log.last().unwrap(), "Loaded 3 symbols and watchlist.");
}

#[test]
fn caches_only_grow() {
    let mut app = app_with_watchlist();
    assert_eq!(app.watchlist_tickers(), vec!["SPY".to_string(), "TSLA".to_string()]);
    app.apply_quotes(vec![("SPY".to_string(), 1), ("TSLA".to_string(), 2)]);
    assert_eq!(app.get_quote("SPY"), Some(&1));
    app.apply_quotes(vec![("SPY".to_string(), 3)]);
    assert_eq!(app.get_quote("SPY"), Some(&3));
    assert_eq!(app.get_quote("TSLA"), Some(&2));
    assert_eq!(app.get_quote("AAPL"), None);
    assert_eq!(app.log.last().unwrap(), "Downloaded watchlist quotes");

    assert_eq!(app.chart_request(), Some("SPY".to_string()));
    app.apply_chart("SPY".to_string(), Ok(vec![1, 2]));
    assert_eq!(app.log.last().unwrap(), "Got timeseries data for $SPY.");
    assert_eq!(app.chart_request(), None);
    assert!(app.on_down());
    assert_eq!(app.selected_ticker(), "TSLA");
    app.apply_chart("TSLA".to_string(), Err(ApiError::UnknownError));
    assert_eq!(app.log.last().unwrap(), "Failed to get timeseries data");
    assert_eq!(app.chart_request(), Some("TSLA".to_string()));
    assert!(app.on_up());
    assert_eq!(app.chart_request(), None);
    assert_eq!(app.get_quote("TSLA"), Some(&2));
}

#[test]
fn quit_key() {
    let mut app = app_with_watchlist();
    app.on_key('x');
    assert!(!app.should_quit);
    app.on_tick();
    app.on_key('q');
    assert!(app.should_quit);
}

#[test]
fn options_logged() {
    let mut app = app_with_watchlist();
    app.apply_options(Vec::new());
    assert_eq!(app.log.last().unwrap(), "Loaded 0 options.");
}

#[test]
fn endpoint_urls() {
    let quotes = ApiEndpoint::Quotes { symbols: vec!["SPY".to_string(), "AAPL".to_string()] };
    assert_eq!(
        quotes.url().unwrap().as_str(),
        "https://sandbox.tradier.com/v1/markets/quotes?symbols=SPY%2CAAPL"
    );
    let day = MarketDate::from_ymd(2020, 7, 2).unwrap();
    let start_date = MarketTime { date: day, hour: 9, minute: 30, second: 0 };
    let end_date = MarketTime { date: day, hour: 16, minute: 0, second: 1 };
    let series = ApiEndpoint::TimeSeries { symbol: "SPY".to_string(), start_date, end_date, interval: 5 };
    assert_eq!(
        series.url().unwrap().as_str(),
        "https://sandbox.tradier.com/v1/markets/timesales?symbol=SPY&interval=5min&start=2020-07-02%2009:30&end=2020-07-02%2016:00"
    );
    let bad = ApiEndpoint::TimeSeries { symbol: "S PY".to_string(), start_date, end_date, interval: 15 };
    assert!(bad.url().unwrap().as_str().contains("symbol=S%20PY&interval=15min"));
    let (_, text) = series.request_url().unwrap();
    assert!(text.ends_with("&end=2020-07-02%2016:00"));
    let (_, text) = quotes.request_url().unwrap();
    assert_eq!(text, "https://sandbox.tradier.com/v1/markets/quotes?symbols=SPY%2CAAPL");
    let next_day = MarketTime { date: MarketDate::from_ymd(2020, 7, 6).unwrap(), hour: 16, minute: 0, second: 0 };
    let span = ApiEndpoint::TimeSeries { symbol: "SPY".to_string(), start_date, end_date: next_day, interval: 5 };
    assert!(span.url().unwrap().as_str().ends_with("start=2020-07-02%2009:30&end=2020-07-06%2016:00"));
}

#[test]
fn default_list_is_empty() {
    let l: StatefulList<Symbol> = StatefulList::default();
    assert!(l.list.is_empty());
    assert_eq!(l.selected(), None);
}
