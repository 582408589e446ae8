use vstd::prelude::*;

use crate::text::{
    all_digits, chars_of, decimal_text, free_of, join_with, lemma_decimal_text,
    lemma_parse_decimal_text, lemma_split_join, lemma_split_pieces_free, parse_unsigned,
    parse_unsigned_spec, push_decimal, split_chars, split_on, string_from_chars, views,
};

verus! {

/// Why a catalog line was not read as a record.
#[derive(Clone, Copy, PartialEq, Eq, Debug, Structural)]
pub enum RecordError {
    FieldCount,
    OptionType,
    StrikePrice,
}

#[derive(Clone, Copy, PartialEq, Eq, Debug, Structural)]
pub enum MarketCategory {
    GlobalSelectMarketSM,
    GlobalMarketSM,
    CapitalMarket,
    Unknown,
}

#[derive(Clone, Copy, PartialEq, Eq, Debug, Structural)]
pub enum FinancialStatus {
    Deficient,
    Delinquent,
    Bankrupt,
    Normal,
    DeficientAndBankrupt,
    DeficientAndDelinquent,
    DelinquentAndBankrupt,
    DeficientDelinquentAndBankrupt,
    Unknown,
}

/// One listed security.
#[derive(Clone, Debug)]
pub struct Symbol {
    pub symbol: String,
    pub security_name: String,
    pub market_category: MarketCategory,
    pub test_issue: bool,
    pub financial_status: FinancialStatus,
    pub round_lot_size: u16,
    pub etf: bool,
    pub next_shares: bool,
}

/// What a `Symbol` holds, with its text as character sequences.
pub struct SymbolRecord {
    pub symbol: Seq<char>,
    pub security_name: Seq<char>,
    pub market_category: MarketCategory,
    pub test_issue: bool,
    pub financial_status: FinancialStatus,
    pub round_lot_size: u16,
    pub etf: bool,
    pub next_shares: bool,
}

impl View for Symbol {
    type V = SymbolRecord;

    open spec fn view(&self) -> SymbolRecord {
        SymbolRecord {
            symbol: self.symbol@,
            security_name: self.security_name@,
            market_category: self.market_category,
            test_issue: self.test_issue,
            financial_status: self.financial_status,
            round_lot_size: self.round_lot_size,
            etf: self.etf,
            next_shares: self.next_shares,
        }
    }
}

pub open spec fn market_category_of(code: Seq<char>) -> MarketCategory {
    if code == seq!['Q'] {
        MarketCategory::GlobalSelectMarketSM
    } else if code == seq!['G'] {
        MarketCategory::GlobalMarketSM
    } else if code == seq!['S'] {
        MarketCategory::CapitalMarket
    } else {
        MarketCategory::Unknown
    }
}

pub open spec fn market_category_code(c: MarketCategory) -> Seq<char> {
    match c {
        MarketCategory::GlobalSelectMarketSM => seq!['Q'],
        MarketCategory::GlobalMarketSM => seq!['G'],
        MarketCategory::CapitalMarket => seq!['S'],
        MarketCategory::Unknown => Seq::<char>::empty(),
    }
}

pub open spec fn financial_status_of(code: Seq<char>) -> FinancialStatus {
    if code == seq!['D'] {
        FinancialStatus::Deficient
    } else if code == seq!['E'] {
        FinancialStatus::Delinquent
    } else if code == seq!['Q'] {
        FinancialStatus::Bankrupt
    } else if code == seq!['N'] {
        FinancialStatus::Normal
    } else if code == seq!['G'] {
        FinancialStatus::DeficientAndBankrupt
    } else if code == seq!['H'] {
        FinancialStatus::DeficientAndDelinquent
    } else if code == seq!['J'] {
        FinancialStatus::DelinquentAndBankrupt
    } else if code == seq!['K'] {
        FinancialStatus::DeficientDelinquentAndBankrupt
    } else {
        FinancialStatus::Unknown
    }
}

pub open spec fn financial_status_code(s: FinancialStatus) -> Seq<char> {
    match s {
        FinancialStatus::Deficient => seq!['D'],
        FinancialStatus::Delinquent => seq!['E'],
        FinancialStatus::Bankrupt => seq!['Q'],
        FinancialStatus::Normal => seq!['N'],
        FinancialStatus::DeficientAndBankrupt => seq!['G'],
        FinancialStatus::DeficientAndDelinquent => seq!['H'],
        FinancialStatus::DelinquentAndBankrupt => seq!['J'],
        FinancialStatus::DeficientDelinquentAndBankrupt => seq!['K'],
        FinancialStatus::Unknown => Seq::<char>::empty(),
    }
}

/// A `Y` field is true; anything else is false.
pub open spec fn flag_of(field: Seq<char>) -> bool {
    field == seq!['Y']
}

pub open spec fn flag_code(b: bool) -> Seq<char> {
    if b {
        seq!['Y']
    } else {
        seq!['N']
    }
}

/// The round lot size field, 100 where it is not a `u16`.
pub open spec fn lot_size_of(field: Seq<char>) -> u16 {
    match parse_unsigned_spec(field, 0xffff) {
        Some(v) => v as u16,
        None => 100,
    }
}

/// The record that eight fields describe; other counts describe none.
pub open spec fn symbol_record(f: Seq<Seq<char>>) -> Option<SymbolRecord> {
    if f.len() == 8 {
        Some(
            SymbolRecord {
                symbol: f[0],
                security_name: f[1],
                market_category: market_category_of(f[2]),
                test_issue: flag_of(f[3]),
                financial_status: financial_status_of(f[4]),
                round_lot_size: lot_size_of(f[5]),
                etf: flag_of(f[6]),
                next_shares: flag_of(f[7]),
            },
        )
    } else {
        None
    }
}

/// The record that one line of the securities catalog describes.
pub open spec fn parse_symbol_line(line: Seq<char>) -> Option<SymbolRecord> {
    symbol_record(split_on(line, '|'))
}

pub open spec fn symbol_fields(r: SymbolRecord) -> Seq<Seq<char>> {
    seq![
        r.symbol,
        r.security_name,
        market_category_code(r.market_category),
        flag_code(r.test_issue),
        financial_status_code(r.financial_status),
        decimal_text(r.round_lot_size as nat),
        flag_code(r.etf),
        flag_code(r.next_shares),
    ]
}

/// The catalog line that describes a record.
pub open spec fn symbol_line(r: SymbolRecord) -> Seq<char> {
    join_with(symbol_fields(r), '|')
}

/// Every record read from a catalog line, written back as a line, reads back as the
/// same record.
pub proof fn lemma_symbol_round_trip(line: Seq<char>)
    requires
        parse_symbol_line(line) is Some,
    ensures
        parse_symbol_line(symbol_line(parse_symbol_line(line).unwrap())) == parse_symbol_line(
            line,
        ),
{
    let r = parse_symbol_line(line).unwrap();
    let f = split_on(line, '|');
    lemma_split_pieces_free(line, '|');
    assert(free_of(f[0], '|'));
    assert(free_of(f[1], '|'));
    let g = symbol_fields(r);
    lemma_decimal_text(r.round_lot_size as nat);
    let dt = decimal_text(r.round_lot_size as nat);
    assert(free_of(dt, '|')) by {
        assert forall|i: int| 0 <= i < dt.len() implies dt[i] != '|' by {
            assert(all_digits(dt));
        }
    }
    assert forall|k: int| 0 <= k < g.len() implies free_of(#[trigger] g[k], '|') by {
        if k == 5 {
            assert(g[k] == dt);
        }
    }
    lemma_split_join(g, '|');
    lemma_parse_decimal_text(r.round_lot_size as nat, 0xffff);
    assert(symbol_record(g) == Some(r));
}

/// Whether the characters of `f` are exactly `c`.
pub(crate) fn is_code(f: &Vec<char>, c: char) -> (r: bool)
    ensures
        r == (f@ == seq![c]),
{
    if f.len() == 1 && f[0] == c {
        assert(f@ =~= seq![c]);
        true
    } else {
        false
    }
}

impl MarketCategory {
    pub fn from_code(code: &Vec<char>) -> (r: MarketCategory)
        ensures
            r == market_category_of(code@),
    {
        if is_code(code, 'Q') {
            MarketCategory::GlobalSelectMarketSM
        } else if is_code(code, 'G') {
            MarketCategory::GlobalMarketSM
        } else if is_code(code, 'S') {
            MarketCategory::CapitalMarket
        } else {
            MarketCategory::Unknown
        }
    }

    pub fn code(&self) -> (r: Vec<char>)
        ensures
            r@ == market_category_code(*self),
    {
        let r = match self {
            MarketCategory::GlobalSelectMarketSM => vec!['Q'],
            MarketCategory::GlobalMarketSM => vec!['G'],
            MarketCategory::CapitalMarket => vec!['S'],
            MarketCategory::Unknown => Vec::new(),
        };
        assert(r@ =~= market_category_code(*self));
        r
    }
}

impl FinancialStatus {
    pub fn from_code(code: &Vec<char>) -> (r: FinancialStatus)
        ensures
            r == financial_status_of(code@),
    {
        if is_code(code, 'D') {
            FinancialStatus::Deficient
        } else if is_code(code, 'E') {
            FinancialStatus::Delinquent
        } else if is_code(code, 'Q') {
            FinancialStatus::Bankrupt
        } else if is_code(code, 'N') {
            FinancialStatus::Normal
        } else if is_code(code, 'G') {
            FinancialStatus::DeficientAndBankrupt
        } else if is_code(code, 'H') {
            FinancialStatus::DeficientAndDelinquent
        } else if is_code(code, 'J') {
            FinancialStatus::DelinquentAndBankrupt
        } else if is_code(code, 'K') {
            FinancialStatus::DeficientDelinquentAndBankrupt
        } else {
            FinancialStatus::Unknown
        }
    }

    pub fn code(&self) -> (r: Vec<char>)
        ensures
            r@ == financial_status_code(*self),
    {
        let r = match self {
            FinancialStatus::Deficient => vec!['D'],
            FinancialStatus::Delinquent => vec!['E'],
            FinancialStatus::Bankrupt => vec!['Q'],
            FinancialStatus::Normal => vec!['N'],
            FinancialStatus::DeficientAndBankrupt => vec!['G'],
            FinancialStatus::DeficientAndDelinquent => vec!['H'],
            FinancialStatus::DelinquentAndBankrupt => vec!['J'],
            FinancialStatus::DeficientDelinquentAndBankrupt => vec!['K'],
            FinancialStatus::Unknown => Vec::new(),
        };
        assert(r@ =~= financial_status_code(*self));
        r
    }
}

pub(crate) fn flag_from(field: &Vec<char>) -> (r: bool)
    ensures
        r == flag_of(field@),
{
    is_code(field, 'Y')
}

pub(crate) fn push_flag(out: &mut Vec<char>, b: bool)
    ensures
        final(out)@ == old(out)@ + flag_code(b),
{
    if b {
        out.push('Y');
        assert(final(out)@ =~= old(out)@ + flag_code(b));
    } else {
        out.push('N');
        assert(final(out)@ =~= old(out)@ + flag_code(b));
    }
}

/// Appends the characters of `piece` to `out`.
pub(crate) fn push_all(out: &mut Vec<char>, piece: &Vec<char>)
    ensures
        final(out)@ == old(out)@ + piece@,
{
    let mut i: usize = 0;
    while i < piece.len()
        invariant
            i <= piece.len(),
            out@ == old(out)@ + piece@.take(i as int),
        decreases piece.len() - i,
    {
        out.push(piece[i]);
        i = i + 1;
        assert(out@ =~= old(out)@ + piece@.take(i as int));
    }
    assert(piece@.take(i as int) =~= piece@);
}

/// Joins the pieces with `sep` between them.
pub(crate) fn join_chars(pieces: &Vec<Vec<char>>, sep: char) -> (r: Vec<char>)
    ensures
        r@ == join_with(views(pieces@), sep),
{
    let mut out: Vec<char> = Vec::new();
    let mut i: usize = 0;
    while i < pieces.len()
        invariant
            i <= pieces.len(),
            out@ == join_with(views(pieces@).take(i as int), sep),
        decreases pieces.len() - i,
    {
        let ghost before = out@;
        if i > 0 {
            out.push(sep);
        }
        push_all(&mut out, &pieces[i]);
        i = i + 1;
        proof {
            let t = views(pieces@).take(i as int);
            assert(t.drop_last() =~= views(pieces@).take(i - 1));
            if i == 1 {
                assert(out@ =~= t[0]);
            }
        }
    }
    assert(views(pieces@).take(i as int) =~= views(pieces@));
    out
}

impl Symbol {
    /// Reads a record from the fields of a catalog line.
    pub fn from_fields(f: &Vec<Vec<char>>) -> (r: Result<Symbol, RecordError>)
        ensures
            match r {
                Ok(s) => symbol_record(views(f@)) == Some(s@),
                Err(e) => symbol_record(views(f@)) is None && e == RecordError::FieldCount,
            },
    {
        if f.len() != 8 {
            return Err(RecordError::FieldCount);
        }
        let round_lot_size = match parse_unsigned(f[5].as_slice(), 0xffff) {
            Some(v) => v as u16,
            None => 100,
        };
        let s = Symbol {
            symbol: string_from_chars(f[0].as_slice()),
            security_name: string_from_chars(f[1].as_slice()),
            market_category: MarketCategory::from_code(&f[2]),
            test_issue: flag_from(&f[3]),
            financial_status: FinancialStatus::from_code(&f[4]),
            round_lot_size,
            etf: flag_from(&f[6]),
            next_shares: flag_from(&f[7]),
        };
        assert(views(f@)[5] == f@[5]@);
        Ok(s)
    }

    /// Reads a record from one line of the securities catalog.
    pub fn from_line(line: &str) -> (r: Result<Symbol, RecordError>)
        ensures
            match r {
                Ok(s) => parse_symbol_line(line@) == Some(s@),
                Err(e) => parse_symbol_line(line@) is None && e == RecordError::FieldCount,
            },
    {
        let cs = chars_of(line);
        let f = split_chars(cs.as_slice(), '|');
        Symbol::from_fields(&f)
    }

    /// A copy of the record.
    pub fn copied(&self) -> (r: Symbol)
        ensures
            r@ == self@,
    {
        Symbol {
            symbol: self.symbol.clone(),
            security_name: self.security_name.clone(),
            market_category: self.market_category,
            test_issue: self.test_issue,
            financial_status: self.financial_status,
            round_lot_size: self.round_lot_size,
            etf: self.etf,
            next_shares: self.next_shares,
        }
    }

    /// The catalog line that describes this record.
    pub fn to_line(&self) -> (r: String)
        ensures
            r@ == symbol_line(self@),
    {
        let mut fields: Vec<Vec<char>> = Vec::new();
        fields.push(chars_of(self.symbol.as_str()));
        fields.push(chars_of(self.security_name.as_str()));
        fields.push(self.market_category.code());
        let mut f: Vec<char> = Vec::new();
        push_flag(&mut f, self.test_issue);
        fields.push(f);
        fields.push(self.financial_status.code());
        let mut f: Vec<char> = Vec::new();
        push_decimal(&mut f, self.round_lot_size as u64);
        fields.push(f);
        let mut f: Vec<char> = Vec::new();
        push_flag(&mut f, self.etf);
        fields.push(f);
        let mut f: Vec<char> = Vec::new();
        push_flag(&mut f, self.next_shares);
        fields.push(f);
        assert(views(fields@) =~= symbol_fields(self@));
        let line = join_chars(&fields, '|');
        string_from_chars(line.as_slice())
    }
}

impl std::str::FromStr for Symbol {
    type Err = RecordError;

    fn from_str(s: &str) -> Result<Symbol, RecordError> {
        Symbol::from_line(s)
    }
}

impl std::str::FromStr for MarketCategory {
    type Err = RecordError;

    fn from_str(s: &str) -> Result<MarketCategory, RecordError> {
        Ok(MarketCategory::from_code(&chars_of(s)))
    }
}

impl std::str::FromStr for FinancialStatus {
    type Err = RecordError;

    fn from_str(s: &str) -> Result<FinancialStatus, RecordError> {
        Ok(FinancialStatus::from_code(&chars_of(s)))
    }
}

} // verus!
