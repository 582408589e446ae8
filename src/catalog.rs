use vstd::prelude::*;
use vstd::slice::slice_subrange;
use vstd::string::StringExecFns;

use crate::date::{days_from_ce, is_stale, stale, valid_ymd, MarketDate};
use crate::options::{parse_option_line, OptionListing, OptionRecord};
use crate::symbols::{parse_symbol_line, Symbol, SymbolRecord};
use crate::text::{
    chars_of, parse_i32, parse_i32_spec, parse_unsigned,
    parse_unsigned_spec, split_chars, split_on, views,
};

verus! {

/// The directory, relative to the working directory, that holds the catalog files.
pub const SYMBOLS_DIRECTORY: &'static str = "SymbolDirectory";

/// The catalog of listed securities.
pub const SYMBOLS_FILENAME: &'static str = "nasdaqlisted.txt";

/// The catalog of listed options.
pub const OPTIONS_FILENAME: &'static str = "options.txt";


/// Failure to load a catalog.
#[derive(Clone, Debug)]
pub enum CliError {
    InitError { msg: String },
}

/// The record lines and the trailer line of a catalog text: the first line (a header)
/// and the last (empty after the final line feed) are dropped, and the trailer is the
/// line before the last. A text of fewer than three lines has neither.
pub open spec fn catalog_parts(text: Seq<char>) -> Option<(Seq<Seq<char>>, Seq<char>)> {
    let lines = split_on(text, '\n');
    if lines.len() < 3 {
        None
    } else {
        Some((lines.subrange(1, lines.len() - 2), lines[lines.len() - 2]))
    }
}

/// The position of the first `c` in `s`.
pub open spec fn first_index_of(s: Seq<char>, c: char) -> Option<int>
    decreases s.len(),
{
    if s.len() == 0 {
        None
    } else if s[0] == c {
        Some(0)
    } else {
        match first_index_of(s.drop_first(), c) {
            Some(i) => Some(i + 1),
            None => None,
        }
    }
}

/// The creation date that a trailer line gives, `today` where it gives none: the text
/// between the prefix and the first `|` holds the month, the day and the year in its
/// characters `[0, 2)`, `[2, 4)` and `[4, 8)`.
pub open spec fn creation_date_of(line: Seq<char>, today: int) -> int {
    match first_index_of(line, '|') {
        None => today,
        Some(end) => {
            if end < 20 || end - 20 < 8 {
                today
            } else {
                let seg = line.subrange(20, end);
                let m = parse_unsigned_spec(seg.subrange(0, 2), 0xffff_ffff);
                let d = parse_unsigned_spec(seg.subrange(2, 4), 0xffff_ffff);
                let y = parse_i32_spec(seg.subrange(4, 8));
                if m is Some && d is Some && y is Some && valid_ymd(
                    y.unwrap(),
                    m.unwrap() as int,
                    d.unwrap() as int,
                ) {
                    days_from_ce(y.unwrap(), m.unwrap() as int, d.unwrap() as int)
                } else {
                    today
                }
            }
        },
    }
}

/// The records that the lines describe, in order, the lines that describe none left out.
pub open spec fn symbols_of(lines: Seq<Seq<char>>) -> Seq<SymbolRecord>
    decreases lines.len(),
{
    if lines.len() == 0 {
        Seq::empty()
    } else {
        let init = symbols_of(lines.drop_last());
        match parse_symbol_line(lines.last()) {
            Some(r) => init.push(r),
            None => init,
        }
    }
}

pub open spec fn options_of(lines: Seq<Seq<char>>) -> Seq<OptionRecord>
    decreases lines.len(),
{
    if lines.len() == 0 {
        Seq::empty()
    } else {
        let init = options_of(lines.drop_last());
        match parse_option_line(lines.last()) {
            Ok(r) => init.push(r),
            Err(_) => init,
        }
    }
}

/// The records and the creation date of a securities catalog text.
pub open spec fn symbol_catalog(text: Seq<char>, today: int) -> (Seq<SymbolRecord>, int) {
    match catalog_parts(text) {
        None => (Seq::empty(), today),
        Some(p) => (symbols_of(p.0), creation_date_of(p.1, today)),
    }
}

pub open spec fn option_catalog(text: Seq<char>, today: int) -> (Seq<OptionRecord>, int) {
    match catalog_parts(text) {
        None => (Seq::empty(), today),
        Some(p) => (options_of(p.0), creation_date_of(p.1, today)),
    }
}

pub open spec fn symbol_views(v: Seq<Symbol>) -> Seq<SymbolRecord> {
    Seq::new(v.len(), |i: int| v[i]@)
}

pub open spec fn option_views(v: Seq<OptionListing>) -> Seq<OptionRecord> {
    Seq::new(v.len(), |i: int| v[i]@)
}

proof fn lemma_first_index_in_bounds(s: Seq<char>, c: char)
    ensures
        first_index_of(s, c) matches Some(i) ==> 0 <= i < s.len() && s[i] == c,
    decreases s.len(),
{
    if s.len() > 0 && s[0] != c {
        lemma_first_index_in_bounds(s.drop_first(), c);
    }
}

fn first_index(s: &Vec<char>, c: char) -> (r: Option<usize>)
    ensures
        match first_index_of(s@, c) {
            Some(i) => r matches Some(e) && e == i && i < s.len(),
            None => r is None,
        },
{
    proof {
        lemma_first_index_in_bounds(s@, c);
        assert(s@.skip(0) =~= s@);
    }
    let mut i: usize = 0;
    while i < s.len()
        invariant
            i <= s.len(),
            first_index_of(s@, c) == (match first_index_of(s@.skip(i as int), c) {
                Some(k) => Some(k + i),
                None => None::<int>,
            }),
        decreases s.len() - i,
    {
        assert(s@.skip(i as int).drop_first() =~= s@.skip(i + 1));
        if s[i] == c {
            return Some(i);
        }
        i = i + 1;
    }
    assert(s@.skip(i as int) =~= Seq::<char>::empty());
    None
}

/// The creation date that a trailer line gives, `today` where it gives none.
pub fn creation_date(line: &Vec<char>, today: MarketDate) -> (r: MarketDate)
    ensures
        r.day() == creation_date_of(line@, today.day()),
{
    let end = match first_index(line, '|') {
        Some(e) => e,
        None => {
            return today;
        },
    };
    if end < 20 || end - 20 < 8 {
        return today;
    }
    let s = line.as_slice();
    let start: usize = 20;
    assert(s@ == line@);
    assert(28 <= end && end < line@.len());
    let m = parse_unsigned(slice_subrange(s, start, start + 2), 0xffff_ffff);
    let d = parse_unsigned(slice_subrange(s, start + 2, start + 4), 0xffff_ffff);
    let y = parse_i32(slice_subrange(s, start + 4, start + 8));
    proof {
        let seg = line@.subrange(20, end as int);
        assert(seg.subrange(0, 2) =~= line@.subrange(20, 22));
        assert(seg.subrange(2, 4) =~= line@.subrange(22, 24));
        assert(seg.subrange(4, 8) =~= line@.subrange(24, 28));
    }
    if let (Some(m), Some(d), Some(y)) = (m, d, y) {
        match MarketDate::from_ymd(y, m as u32, d as u32) {
            Some(date) => date,
            None => today,
        }
    } else {
        today
    }
}

fn clone_chars(v: &Vec<char>) -> (r: Vec<char>)
    ensures
        r@ == v@,
{
    let mut r: Vec<char> = Vec::new();
    let mut i: usize = 0;
    while i < v.len()
        invariant
            i <= v.len(),
            r@ == v@.take(i as int),
        decreases v.len() - i,
    {
        r.push(v[i]);
        i = i + 1;
        assert(r@ =~= v@.take(i as int));
    }
    assert(v@.take(i as int) =~= v@);
    r
}

/// The record lines and the trailer of a catalog text, as `catalog_parts` gives them.
fn catalog_lines(text: &str) -> (r: Option<(Vec<Vec<char>>, Vec<char>)>)
    ensures
        match catalog_parts(text@) {
            None => r is None,
            Some(p) => r matches Some(q) && views(q.0@) == p.0 && q.1@ == p.1,
        },
{
    let cs = chars_of(text);
    let lines = split_chars(cs.as_slice(), '\n');
    let n = lines.len();
    if n < 3 {
        return None;
    }
    let mut records: Vec<Vec<char>> = Vec::new();
    let mut i: usize = 1;
    while i < n - 2
        invariant
            1 <= i <= n - 2,
            n == lines.len(),
            views(records@) == views(lines@).subrange(1, i as int),
        decreases n - 2 - i,
    {
        let ghost before = records@;
        let line = clone_chars(&lines[i]);
        records.push(line);
        proof {
            assert(views(records@) =~= views(before).push(lines@[i as int]@));
        }
        i = i + 1;
        assert(views(records@) =~= views(lines@).subrange(1, i as int));
    }
    let trailer = clone_chars(&lines[n - 2]);
    Some((records, trailer))
}

/// The records of a securities catalog and the day it was made.
#[derive(Clone, Debug)]
pub struct SymbolLoadingResult {
    pub symbols: Vec<Symbol>,
    pub file_creation_date: MarketDate,
}

/// The records of an options catalog and the day it was made.
#[derive(Clone, Debug)]
pub struct OptionLoadingResult {
    pub symbols: Vec<OptionListing>,
    pub file_creation_date: MarketDate,
}

/// Reads a securities catalog: its records, malformed lines left out, and its
/// creation date, `today` where the trailer gives none.
pub fn parse_symbol_catalog(text: &str, today: MarketDate) -> (r: SymbolLoadingResult)
    ensures
        symbol_views(r.symbols@) == symbol_catalog(text@, today.day()).0,
        r.file_creation_date.day() == symbol_catalog(text@, today.day()).1,
{
    match catalog_lines(text) {
        None => SymbolLoadingResult { symbols: Vec::new(), file_creation_date: today },
        Some((lines, trailer)) => {
            let mut out: Vec<Symbol> = Vec::new();
            let mut i: usize = 0;
            while i < lines.len()
                invariant
                    i <= lines.len(),
                    symbol_views(out@) == symbols_of(views(lines@).take(i as int)),
                decreases lines.len() - i,
            {
                let ghost before = out@;
                let line = crate::text::string_from_chars(lines[i].as_slice());
                let parsed = Symbol::from_line(line.as_str());
                proof {
                    assert(views(lines@).take(i + 1).drop_last() =~= views(lines@).take(i as int));
                }
                match parsed {
                    Ok(s) => {
                        out.push(s);
                        assert(symbol_views(out@) =~= symbol_views(before).push(s@));
                    },
                    Err(_) => {},
                }
                i = i + 1;
            }
            assert(views(lines@).take(i as int) =~= views(lines@));
            SymbolLoadingResult { symbols: out, file_creation_date: creation_date(&trailer, today) }
        },
    }
}

/// Reads an options catalog: its records, malformed lines left out, and its creation
/// date, `today` where the trailer gives none.
pub fn parse_option_catalog(text: &str, today: MarketDate) -> (r: OptionLoadingResult)
    ensures
        option_views(r.symbols@) == option_catalog(text@, today.day()).0,
        r.file_creation_date.day() == option_catalog(text@, today.day()).1,
{
    match catalog_lines(text) {
        None => OptionLoadingResult { symbols: Vec::new(), file_creation_date: today },
        Some((lines, trailer)) => {
            let mut out: Vec<OptionListing> = Vec::new();
            let mut i: usize = 0;
            while i < lines.len()
                invariant
                    i <= lines.len(),
                    option_views(out@) == options_of(views(lines@).take(i as int)),
                decreases lines.len() - i,
            {
                let ghost before = out@;
                let line = crate::text::string_from_chars(lines[i].as_slice());
                let parsed = OptionListing::from_line(line.as_str());
                proof {
                    assert(views(lines@).take(i + 1).drop_last() =~= views(lines@).take(i as int));
                }
                match parsed {
                    Ok(o) => {
                        out.push(o);
                        assert(option_views(out@) =~= option_views(before).push(o@));
                    },
                    Err(_) => {},
                }
                i = i + 1;
            }
            assert(views(lines@).take(i as int) =~= views(lines@));
            OptionLoadingResult { symbols: out, file_creation_date: creation_date(&trailer, today) }
        },
    }
}

/// The path, relative to the working directory, of the catalog file `file`.
pub fn relative_filepath(file: &str) -> (r: String)
    ensures
        r@ == "./SymbolDirectory/"@ + file@,
{
    let mut path = String::from_str("./SymbolDirectory/");
    path.append(file);
    path
}

/// The path of the securities catalog.
pub fn symbols_file_path() -> (r: String)
    ensures
        r@ == "./SymbolDirectory/"@ + SYMBOLS_FILENAME@,
{
    relative_filepath(SYMBOLS_FILENAME)
}

/// The path of the options catalog.
pub fn options_file_path() -> (r: String)
    ensures
        r@ == "./SymbolDirectory/"@ + OPTIONS_FILENAME@,
{
    relative_filepath(OPTIONS_FILENAME)
}

/// What a catalog on disk comes to: its records, or the need to fetch it afresh.
#[derive(Clone, Debug)]
pub enum CatalogLoad<T> {
    Loaded(Vec<T>),
    Refresh,
}

/// Decides what the securities catalog read from disk (`None` where it could not be
/// read) gives on `today`: a file that could not be read, or that is stale, must be
/// fetched again; otherwise its records are used.
pub fn load_symbols(contents: Option<&str>, today: MarketDate) -> (r: CatalogLoad<Symbol>)
    ensures
        match contents {
            None => r is Refresh,
            Some(t) => {
                let c = symbol_catalog(t@, today.day());
                if stale(c.1, today.day()) {
                    r is Refresh
                } else {
                    r matches CatalogLoad::Loaded(v) && symbol_views(v@) == c.0
                }
            },
        },
{
    match contents {
        None => CatalogLoad::Refresh,
        Some(text) => {
            let loaded = parse_symbol_catalog(text, today);
            if is_stale(loaded.file_creation_date, today) {
                CatalogLoad::Refresh
            } else {
                CatalogLoad::Loaded(loaded.symbols)
            }
        },
    }
}

/// Decides what the options catalog read from disk gives on `today`, as
/// `load_symbols` does for the securities catalog.
pub fn load_options(contents: Option<&str>, today: MarketDate) -> (r: CatalogLoad<OptionListing>)
    ensures
        match contents {
            None => r is Refresh,
            Some(t) => {
                let c = option_catalog(t@, today.day());
                if stale(c.1, today.day()) {
                    r is Refresh
                } else {
                    r matches CatalogLoad::Loaded(v) && option_views(v@) == c.0
                }
            },
        },
{
    match contents {
        None => CatalogLoad::Refresh,
        Some(text) => {
            let loaded = parse_option_catalog(text, today);
            if is_stale(loaded.file_creation_date, today) {
                CatalogLoad::Refresh
            } else {
                CatalogLoad::Loaded(loaded.symbols)
            }
        },
    }
}

} // verus!
