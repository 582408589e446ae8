use vstd::prelude::*;

use crate::date::{days_from_ce, has_date, lemma_days_from_ce_injective, valid_ymd, MarketDate};
use crate::symbols::{join_chars, push_all};
use crate::text::{chars_of, decimal_text, join_with, push_decimal, string_from_chars, views};

verus! {

/// The market data service's base address.
pub const BASE_URL: &'static str = "https://sandbox.tradier.com/v1";

#[derive(Clone, Debug)]
pub enum ApiError {
    DeserializationError,
    NetworkError { code: u16, msg: String },
    ParseError,
    SetUpError,
    UnknownError,
}

/// The error for a failed request: the status code where the response had one, as a
/// number and as text.
pub fn parse_network_error(status: Option<u16>) -> (r: ApiError)
    ensures
        match status {
            Some(code) => r matches ApiError::NetworkError { code: c, msg } && c == code && msg@
                == decimal_text(code as nat),
            None => r matches ApiError::UnknownError,
        },
{
    match status {
        Some(code) => {
            let mut digits: Vec<char> = Vec::new();
            push_decimal(&mut digits, code as u64);
            assert(digits@ =~= decimal_text(code as nat));
            ApiError::NetworkError { code, msg: string_from_chars(digits.as_slice()) }
        },
        None => ApiError::UnknownError,
    }
}

/// The error that a time series response's status makes: a 400 is refused without
/// reading the body.
pub fn time_series_status_error(status: u16) -> (r: Option<ApiError>)
    ensures
        status == 400 ==> (r matches Some(ApiError::NetworkError { code: 400, msg }) && msg@.len()
            == 0),
        status != 400 ==> r is None,
{
    if status == 400 {
        Some(ApiError::NetworkError { code: 400, msg: String::new() })
    } else {
        None
    }
}

/// The tickers of a quotes request, joined with commas.
pub fn join_symbols(symbols: &Vec<String>) -> (r: String)
    ensures
        r@ == joined_tickers(symbols@),
{
    let mut pieces: Vec<Vec<char>> = Vec::new();
    let mut i: usize = 0;
    while i < symbols.len()
        invariant
            i <= symbols.len(),
            views(pieces@) == Seq::new(i as nat, |j: int| symbols@[j]@),
        decreases symbols.len() - i,
    {
        let ghost before = pieces@;
        let cs = chars_of(symbols[i].as_str());
        pieces.push(cs);
        proof {
            assert(views(pieces@) =~= views(before).push(symbols@[i as int]@));
        }
        i = i + 1;
        assert(views(pieces@) =~= Seq::new(i as nat, |j: int| symbols@[j]@));
    }
    let joined = join_chars(&pieces, ',');
    string_from_chars(joined.as_slice())
}

/// `n` in decimal, padded with leading zeros to `width` characters.
pub open spec fn padded(n: nat, width: nat) -> Seq<char> {
    let d = decimal_text(n);
    if d.len() >= width {
        d
    } else {
        Seq::new((width - d.len()) as nat, |i: int| '0') + d
    }
}

/// A year as `{:04}` writes it: the sign counts toward the width.
pub open spec fn year_text(y: int) -> Seq<char> {
    if y < 0 {
        seq!['-'] + padded((-y) as nat, 3)
    } else {
        padded(y as nat, 4)
    }
}

/// A date and time of day as the time series query writes it: `YYYY-MM-DD HH:MM`.
pub open spec fn api_date_text(y: int, m: nat, d: nat, hh: nat, mm: nat) -> Seq<char> {
    year_text(y) + seq!['-'] + padded(m, 2) + seq!['-'] + padded(d, 2) + seq![' '] + padded(hh, 2)
        + seq![':'] + padded(mm, 2)
}

fn push_padded(out: &mut Vec<char>, n: u64, width: usize)
    ensures
        final(out)@ == old(out)@ + padded(n as nat, width as nat),
{
    let mut digits: Vec<char> = Vec::new();
    push_decimal(&mut digits, n);
    assert(digits@ =~= decimal_text(n as nat));
    if digits.len() < width {
        let mut k: usize = width - digits.len();
        let ghost zeros = Seq::new((width - digits.len()) as nat, |i: int| '0');
        while k > 0
            invariant
                k <= width - digits.len(),
                out@ == old(out)@ + zeros.take((width - digits.len()) - k),
                zeros == Seq::new((width - digits.len()) as nat, |i: int| '0'),
            decreases k,
        {
            out.push('0');
            k = k - 1;
            assert(out@ =~= old(out)@ + zeros.take((width - digits.len()) - k));
        }
        assert(zeros.take((width - digits.len()) as int) =~= zeros);
        push_all(out, &digits);
        assert(final(out)@ =~= old(out)@ + padded(n as nat, width as nat));
    } else {
        push_all(out, &digits);
    }
}

fn push_year(out: &mut Vec<char>, y: i32)
    ensures
        final(out)@ == old(out)@ + year_text(y as int),
{
    if y < 0 {
        out.push('-');
        let ghost mid = out@;
        push_padded(out, (0 - (y as i64)) as u64, 3);
        assert(final(out)@ =~= old(out)@ + year_text(y as int));
    } else {
        push_padded(out, y as u64, 4);
    }
}

fn push_api_date(out: &mut Vec<char>, y: i32, m: u32, d: u32, hour: u32, minute: u32)
    ensures
        final(out)@ == old(out)@ + api_date_text(
            y as int,
            m as nat,
            d as nat,
            hour as nat,
            minute as nat,
        ),
{
    push_year(out, y);
    out.push('-');
    push_padded(out, m as u64, 2);
    out.push('-');
    push_padded(out, d as u64, 2);
    out.push(' ');
    push_padded(out, hour as u64, 2);
    out.push(':');
    push_padded(out, minute as u64, 2);
    assert(final(out)@ =~= old(out)@ + api_date_text(
        y as int,
        m as nat,
        d as nat,
        hour as nat,
        minute as nat,
    ));
}

/// A moment of a trading day in Eastern Time: a date and a time of day.
#[derive(Clone, Copy, PartialEq, Eq, Debug, Structural)]
pub struct MarketTime {
    pub date: MarketDate,
    pub hour: u32,
    pub minute: u32,
    pub second: u32,
}

/// The calendar date of day number `n`, where it has one (there is only one).
pub open spec fn ymd_of(n: int) -> (int, nat, nat) {
    choose|t: (int, nat, nat)|
        valid_ymd(t.0, t.1 as int, t.2 as int) && days_from_ce(t.0, t.1 as int, t.2 as int) == n
}

proof fn lemma_ymd_of(y: int, m: nat, d: nat)
    requires
        valid_ymd(y, m as int, d as int),
    ensures
        ymd_of(days_from_ce(y, m as int, d as int)) == (y, m, d),
{
    let n = days_from_ce(y, m as int, d as int);
    assert(valid_ymd((y, m, d).0, (y, m, d).1 as int, (y, m, d).2 as int) && days_from_ce(
        (y, m, d).0,
        (y, m, d).1 as int,
        (y, m, d).2 as int,
    ) == n);
    let t = ymd_of(n);
    lemma_days_from_ce_injective(y, m as int, d as int, t.0, t.1 as int, t.2 as int);
}

/// A moment as the time series query writes it: `YYYY-MM-DD HH:MM`.
pub open spec fn api_time_text(t: MarketTime) -> Seq<char> {
    let ymd = ymd_of(t.date.day());
    api_date_text(ymd.0, ymd.1, ymd.2, t.hour as nat, t.minute as nat)
}

/// Writes a moment as the time series query wants it; there is no text for a day
/// outside the calendar's range.
pub fn api_date_string(time: MarketTime) -> (r: Option<String>)
    ensures
        r is Some <==> has_date(time.date.day()),
        r matches Some(s) ==> s@ == api_time_text(time),
{
    match time.date.ymd() {
        None => None,
        Some((y, m, d)) => {
            let mut out: Vec<char> = Vec::new();
            push_api_date(&mut out, y, m, d, time.hour, time.minute);
            proof {
                lemma_ymd_of(y as int, m as nat, d as nat);
                assert(days_from_ce(y as int, m as int, d as int) == time.date.day() && valid_ymd(
                    y as int,
                    m as int,
                    d as int,
                ));
            }
            Some(string_from_chars(out.as_slice()))
        },
    }
}

/// The time series query for `symbol` from `start` to `end`, in buckets of `interval`
/// minutes.
pub open spec fn time_series_query(
    symbol: Seq<char>,
    start: MarketTime,
    end: MarketTime,
    interval: nat,
) -> Seq<char> {
    BASE_URL@ + "/markets/timesales?symbol="@ + symbol + "&interval="@ + decimal_text(interval)
        + "min&start="@ + api_time_text(start) + "&end="@ + api_time_text(end)
}

/// The address, before URL encoding, of the intraday series of `symbol` from `start`
/// to `end`.
pub fn time_series_url(symbol: &str, start: MarketTime, end: MarketTime, interval: u8) -> (r:
    Option<String>)
    ensures
        r is Some <==> has_date(start.date.day()) && has_date(end.date.day()),
        r matches Some(s) ==> s@ == time_series_query(symbol@, start, end, interval as nat),
{
    let from = match api_date_string(start) {
        Some(t) => t,
        None => {
            return None;
        },
    };
    let to = match api_date_string(end) {
        Some(t) => t,
        None => {
            return None;
        },
    };
    let mut out = chars_of(BASE_URL);
    push_all(&mut out, &chars_of("/markets/timesales?symbol="));
    push_all(&mut out, &chars_of(symbol));
    push_all(&mut out, &chars_of("&interval="));
    push_decimal(&mut out, interval as u64);
    push_all(&mut out, &chars_of("min&start="));
    push_all(&mut out, &chars_of(from.as_str()));
    push_all(&mut out, &chars_of("&end="));
    push_all(&mut out, &chars_of(to.as_str()));
    assert(out@ =~= time_series_query(symbol@, start, end, interval as nat));
    Some(string_from_chars(out.as_slice()))
}

#[verifier::external_type_specification]
#[verifier::external_body]
pub struct ExUrl(reqwest::Url);

/// Whether `Url::parse` accepts the text.
pub uninterp spec fn url_accepts(s: Seq<char>) -> bool;

/// The serialisation (`Url::as_str`) of the address that `Url::parse` makes of the text.
pub uninterp spec fn parsed_url_text(s: Seq<char>) -> Seq<char>;

/// The serialisation of the address that `Url::parse_with_params` makes of `base` with
/// the one pair `key=value`.
pub uninterp spec fn url_with_pair_text(base: Seq<char>, key: Seq<char>, value: Seq<char>) -> Seq<
    char,
>;

/// Relies on `Url::parse` (the url crate, as reqwest re-exports it): whether the text
/// parses, and the address it makes, depend on the text alone. The address comes back
/// with its serialisation, `Url::as_str`.
#[verifier::external_body]
fn parse_url(text: &str) -> (r: Option<(reqwest::Url, String)>)
    ensures
        r is Some <==> url_accepts(text@),
        r matches Some(p) ==> p.1@ == parsed_url_text(text@),
{
    match reqwest::Url::parse(text) {
        Ok(url) => {
            let serialised = url.as_str().to_string();
            Some((url, serialised))
        },
        Err(_) => None,
    }
}

/// Relies on `Url::parse_with_params`, which parses `base` as `Url::parse` does and,
/// where that succeeds, appends the pair `key=value`, form-encoded, to the query; the
/// address depends on the three texts alone. It comes back with its serialisation,
/// `Url::as_str`.
#[verifier::external_body]
fn parse_url_with_param(base: &str, key: &str, value: &str) -> (r: Option<(reqwest::Url, String)>)
    ensures
        r is Some <==> url_accepts(base@),
        r matches Some(p) ==> p.1@ == url_with_pair_text(base@, key@, value@),
{
    match reqwest::Url::parse_with_params(base, &[(key, value)]) {
        Ok(url) => {
            let serialised = url.as_str().to_string();
            Some((url, serialised))
        },
        Err(_) => None,
    }
}

/// The query key under which a quotes request names its tickers.
pub const QUOTES_KEY: &'static str = "symbols";

/// The address of the quotes endpoint, before its query.
pub open spec fn quotes_base() -> Seq<char> {
    BASE_URL@ + "/markets/quotes"@
}

/// The tickers joined with commas.
pub open spec fn joined_tickers(symbols: Seq<String>) -> Seq<char> {
    join_with(Seq::new(symbols.len(), |i: int| symbols[i]@), ',')
}

/// A request to the market data service.
#[derive(Clone, Debug)]
pub enum ApiEndpoint {
    Quotes { symbols: Vec<String> },
    TimeSeries { symbol: String, start_date: MarketTime, end_date: MarketTime, interval: u8 },
}

/// Something that names an address of the service.
pub trait Requestable {
    fn url(&self) -> Result<reqwest::Url, ApiError>;
}

impl ApiEndpoint {
    /// The address of the request, with its serialisation: quotes for the tickers
    /// joined with commas under `QUOTES_KEY`, or the intraday series of one symbol
    /// between two moments. An address that does not parse is a `ParseError`.
    pub fn request_url(&self) -> (r: Result<(reqwest::Url, String), ApiError>)
        ensures
            r is Err ==> r matches Err(ApiError::ParseError),
            match self {
                ApiEndpoint::Quotes { symbols } => {
                    &&& r is Ok <==> url_accepts(quotes_base())
                    &&& r matches Ok(p) ==> p.1@ == url_with_pair_text(
                        quotes_base(),
                        QUOTES_KEY@,
                        joined_tickers(symbols@),
                    )
                },
                ApiEndpoint::TimeSeries { symbol, start_date, end_date, interval } => {
                    let query = time_series_query(symbol@, *start_date, *end_date, *interval as nat);
                    &&& r is Ok <==> has_date(start_date.date.day()) && has_date(
                        end_date.date.day(),
                    ) && url_accepts(query)
                    &&& r matches Ok(p) ==> p.1@ == parsed_url_text(query)
                },
            },
    {
        match self {
            ApiEndpoint::Quotes { symbols } => {
                let joined = join_symbols(symbols);
                let mut base = chars_of(BASE_URL);
                push_all(&mut base, &chars_of("/markets/quotes"));
                let base = string_from_chars(base.as_slice());
                match parse_url_with_param(base.as_str(), QUOTES_KEY, joined.as_str()) {
                    Some(p) => Ok(p),
                    None => Err(ApiError::ParseError),
                }
            },
            ApiEndpoint::TimeSeries { symbol, start_date, end_date, interval } => {
                match time_series_url(symbol.as_str(), *start_date, *end_date, *interval) {
                    Some(text) => match parse_url(text.as_str()) {
                        Some(p) => Ok(p),
                        None => Err(ApiError::ParseError),
                    },
                    None => Err(ApiError::ParseError),
                }
            },
        }
    }
}

impl Requestable for ApiEndpoint {
    fn url(&self) -> Result<reqwest::Url, ApiError> {
        match self.request_url() {
            Ok(p) => Ok(p.0),
            Err(e) => Err(e),
        }
    }
}

} // verus!
