use vstd::prelude::*;
use vstd::slice::slice_subrange;

use crate::symbols::{flag_code, flag_from, flag_of, is_code, join_chars, push_flag, RecordError};
use crate::text::{
    chars_of, free_of, is_digit, join_with, lemma_split_join, lemma_split_pieces_free, split_chars,
    split_on, string_from_chars, views,
};

verus! {

#[derive(Clone, Copy, PartialEq, Eq, Debug, Structural)]
pub enum OptionType {
    Call,
    Put,
}

/// The kind of an option, under its other name.
pub type OptionsType = OptionType;

/// One listed option. The strike price is kept as the catalog writes it, a decimal
/// number in text that `str::parse` reads as a float.
#[derive(Clone, Debug)]
pub struct OptionListing {
    pub closing_type: String,
    pub options_type: OptionType,
    pub expiration_date: String,
    pub strike_price: String,
    pub underlying_symbol: String,
    pub underlying_name: String,
    pub pending: bool,
}

/// What an `OptionListing` holds, with its text as character sequences.
pub struct OptionRecord {
    pub closing_type: Seq<char>,
    pub options_type: OptionType,
    pub expiration_date: Seq<char>,
    pub strike_price: Seq<char>,
    pub underlying_symbol: Seq<char>,
    pub underlying_name: Seq<char>,
    pub pending: bool,
}

impl View for OptionListing {
    type V = OptionRecord;

    open spec fn view(&self) -> OptionRecord {
        OptionRecord {
            closing_type: self.closing_type@,
            options_type: self.options_type,
            expiration_date: self.expiration_date@,
            strike_price: self.strike_price@,
            underlying_symbol: self.underlying_symbol@,
            underlying_name: self.underlying_name@,
            pending: self.pending,
        }
    }
}

/// The states of reading a decimal number as `str::parse` reads a float: 0 at
/// the start, 1 after the sign, 2 in the integer digits, 3 after a point with no digit
/// before it, 4 in the fraction, 5 after the exponent mark, 6 after the exponent's
/// sign, 7 in the exponent digits, 8 once the text cannot be a number.
pub open spec fn price_step(state: int, c: char) -> int {
    if is_digit(c) {
        if state <= 2 {
            2
        } else if state == 3 || state == 4 {
            4
        } else if 5 <= state <= 7 {
            7
        } else {
            8
        }
    } else if c == '+' || c == '-' {
        if state == 0 {
            1
        } else if state == 5 {
            6
        } else {
            8
        }
    } else if c == '.' {
        if state == 0 || state == 1 {
            3
        } else if state == 2 {
            4
        } else {
            8
        }
    } else if c == 'e' || c == 'E' {
        if state == 2 || state == 4 {
            5
        } else {
            8
        }
    } else {
        8
    }
}

/// The state after reading all of `s` from `state`.
pub open spec fn price_run(s: Seq<char>, state: int) -> int
    decreases s.len(),
{
    if s.len() == 0 {
        state
    } else {
        price_run(s.drop_first(), price_step(state, s[0]))
    }
}

/// Whether `t` spells the word whose letters are `lower`, in any case.
pub open spec fn word_matches(t: Seq<char>, lower: Seq<char>, upper: Seq<char>) -> bool {
    &&& t.len() == lower.len()
    &&& forall|i: int| 0 <= i < t.len() ==> #[trigger] t[i] == lower[i] || t[i] == upper[i]
}

/// An optional sign, then `inf`, `infinity` or `nan` in any case.
pub open spec fn is_special_number(s: Seq<char>) -> bool {
    let t = if s.len() > 0 && (s[0] == '+' || s[0] == '-') {
        s.drop_first()
    } else {
        s
    };
    word_matches(t, seq!['i', 'n', 'f'], seq!['I', 'N', 'F']) || word_matches(
        t,
        seq!['i', 'n', 'f', 'i', 'n', 'i', 't', 'y'],
        seq!['I', 'N', 'F', 'I', 'N', 'I', 'T', 'Y'],
    ) || word_matches(t, seq!['n', 'a', 'n'], seq!['N', 'A', 'N'])
}

/// A price as the catalog writes it, in the forms that float parsing takes: an
/// optional sign, digits with at most one point and at least one digit, and an
/// optional exponent (`e` or `E`, an optional sign, digits); or an optional sign and
/// `inf`, `infinity` or `nan` in any case.
pub open spec fn is_price_text(s: Seq<char>) -> bool {
    let end = price_run(s, 0);
    end == 2 || end == 4 || end == 7 || is_special_number(s)
}

fn word_is(t: &[char], lower: &Vec<char>, upper: &Vec<char>) -> (r: bool)
    requires
        lower.len() == upper.len(),
    ensures
        r == word_matches(t@, lower@, upper@),
{
    if t.len() != lower.len() {
        return false;
    }
    let mut i: usize = 0;
    while i < t.len()
        invariant
            i <= t.len() == lower.len() == upper.len(),
            forall|k: int| 0 <= k < i ==> #[trigger] t@[k] == lower@[k] || t@[k] == upper@[k],
        decreases t.len() - i,
    {
        if t[i] != lower[i] && t[i] != upper[i] {
            return false;
        }
        i = i + 1;
    }
    true
}

fn special_number(s: &Vec<char>) -> (r: bool)
    ensures
        r == is_special_number(s@),
{
    let start: usize = if s.len() > 0 && (s[0] == '+' || s[0] == '-') {
        1
    } else {
        0
    };
    let t = slice_subrange(s.as_slice(), start, s.len());
    proof {
        assert(s@.drop_first() =~= s@.subrange(1, s.len() as int));
        assert(s@ =~= s@.subrange(0, s.len() as int));
    }
    let inf_lower = vec!['i', 'n', 'f'];
    let inf_upper = vec!['I', 'N', 'F'];
    let infinity_lower = vec!['i', 'n', 'f', 'i', 'n', 'i', 't', 'y'];
    let infinity_upper = vec!['I', 'N', 'F', 'I', 'N', 'I', 'T', 'Y'];
    let nan_lower = vec!['n', 'a', 'n'];
    let nan_upper = vec!['N', 'A', 'N'];
    proof {
        assert(inf_lower@ =~= seq!['i', 'n', 'f']);
        assert(inf_upper@ =~= seq!['I', 'N', 'F']);
        assert(infinity_lower@ =~= seq!['i', 'n', 'f', 'i', 'n', 'i', 't', 'y']);
        assert(infinity_upper@ =~= seq!['I', 'N', 'F', 'I', 'N', 'I', 'T', 'Y']);
        assert(nan_lower@ =~= seq!['n', 'a', 'n']);
        assert(nan_upper@ =~= seq!['N', 'A', 'N']);
    }
    word_is(t, &inf_lower, &inf_upper) || word_is(t, &infinity_lower, &infinity_upper) || word_is(
        t,
        &nan_lower,
        &nan_upper,
    )
}

fn price_step_exec(state: u8, c: char) -> (r: u8)
    requires
        state <= 8,
    ensures
        r == price_step(state as int, c),
        r <= 8,
{
    if is_digit_char(c) {
        if state <= 2 {
            2
        } else if state == 3 || state == 4 {
            4
        } else if 5 <= state && state <= 7 {
            7
        } else {
            8
        }
    } else if c == '+' || c == '-' {
        if state == 0 {
            1
        } else if state == 5 {
            6
        } else {
            8
        }
    } else if c == '.' {
        if state == 0 || state == 1 {
            3
        } else if state == 2 {
            4
        } else {
            8
        }
    } else if c == 'e' || c == 'E' {
        if state == 2 || state == 4 {
            5
        } else {
            8
        }
    } else {
        8
    }
}

/// Whether the characters form a price.
pub fn price_text(s: &Vec<char>) -> (r: bool)
    ensures
        r == is_price_text(s@),
{
    let mut state: u8 = 0;
    let mut i: usize = 0;
    assert(s@.skip(0) =~= s@);
    while i < s.len()
        invariant
            i <= s.len(),
            state <= 8,
            price_run(s@, 0) == price_run(s@.skip(i as int), state as int),
        decreases s.len() - i,
    {
        assert(s@.skip(i as int).drop_first() =~= s@.skip(i + 1));
        state = price_step_exec(state, s[i]);
        i = i + 1;
    }
    assert(s@.skip(i as int) =~= Seq::<char>::empty());
    state == 2 || state == 4 || state == 7 || special_number(s)
}

fn is_digit_char(c: char) -> (r: bool)
    ensures
        r == is_digit(c),
{
    '0' <= c && c <= '9'
}

pub open spec fn option_type_of(code: Seq<char>) -> Option<OptionType> {
    if code == seq!['C'] {
        Some(OptionType::Call)
    } else if code == seq!['P'] {
        Some(OptionType::Put)
    } else {
        None
    }
}

pub open spec fn option_type_code(t: OptionType) -> Seq<char> {
    match t {
        OptionType::Call => seq!['C'],
        OptionType::Put => seq!['P'],
    }
}

/// What the fields of an options catalog line give: the record, or why there is none.
/// The first field, the root symbol, is not kept.
pub open spec fn option_record(f: Seq<Seq<char>>) -> Result<OptionRecord, RecordError> {
    if f.len() != 8 {
        Err(RecordError::FieldCount)
    } else if option_type_of(f[2]) is None {
        Err(RecordError::OptionType)
    } else if !is_price_text(f[4]) {
        Err(RecordError::StrikePrice)
    } else {
        Ok(
            OptionRecord {
                closing_type: f[1],
                options_type: option_type_of(f[2]).unwrap(),
                expiration_date: f[3],
                strike_price: f[4],
                underlying_symbol: f[5],
                underlying_name: f[6],
                pending: flag_of(f[7]),
            },
        )
    }
}

/// The record that one line of the options catalog describes.
pub open spec fn parse_option_line(line: Seq<char>) -> Result<OptionRecord, RecordError> {
    option_record(split_on(line, '|'))
}

/// The fields of a line for the record; the underlying symbol stands for the root.
pub open spec fn option_fields(r: OptionRecord) -> Seq<Seq<char>> {
    seq![
        r.underlying_symbol,
        r.closing_type,
        option_type_code(r.options_type),
        r.expiration_date,
        r.strike_price,
        r.underlying_symbol,
        r.underlying_name,
        flag_code(r.pending),
    ]
}

pub open spec fn option_line(r: OptionRecord) -> Seq<char> {
    join_with(option_fields(r), '|')
}

/// Every record read from an options catalog line, written back as a line, reads back
/// as the same record.
pub proof fn lemma_option_round_trip(line: Seq<char>)
    requires
        parse_option_line(line) is Ok,
    ensures
        parse_option_line(option_line(parse_option_line(line).unwrap())) == parse_option_line(
            line,
        ),
{
    let r = parse_option_line(line).unwrap();
    let f = split_on(line, '|');
    lemma_split_pieces_free(line, '|');
    assert(free_of(f[1], '|'));
    assert(free_of(f[3], '|'));
    assert(free_of(f[4], '|'));
    assert(free_of(f[5], '|'));
    assert(free_of(f[6], '|'));
    let g = option_fields(r);
    assert forall|k: int| 0 <= k < g.len() implies free_of(#[trigger] g[k], '|') by {}
    lemma_split_join(g, '|');
    assert(option_record(g) == Ok::<OptionRecord, RecordError>(r));
}

impl OptionType {
    pub fn from_code(code: &Vec<char>) -> (r: Option<OptionType>)
        ensures
            r == option_type_of(code@),
    {
        if is_code(code, 'C') {
            Some(OptionType::Call)
        } else if is_code(code, 'P') {
            Some(OptionType::Put)
        } else {
            None
        }
    }

    pub fn code(&self) -> (r: Vec<char>)
        ensures
            r@ == option_type_code(*self),
    {
        let r = match self {
            OptionType::Call => vec!['C'],
            OptionType::Put => vec!['P'],
        };
        assert(r@ =~= option_type_code(*self));
        r
    }
}

impl OptionListing {
    /// Reads a record from the fields of an options catalog line.
    pub fn from_fields(f: &Vec<Vec<char>>) -> (r: Result<OptionListing, RecordError>)
        ensures
            match r {
                Ok(o) => option_record(views(f@)) == Ok::<OptionRecord, RecordError>(o@),
                Err(e) => option_record(views(f@)) == Err::<OptionRecord, RecordError>(e),
            },
    {
        if f.len() != 8 {
            return Err(RecordError::FieldCount);
        }
        assert(views(f@)[2] == f@[2]@ && views(f@)[4] == f@[4]@);
        let options_type = match OptionType::from_code(&f[2]) {
            Some(t) => t,
            None => {
                return Err(RecordError::OptionType);
            },
        };
        if !price_text(&f[4]) {
            return Err(RecordError::StrikePrice);
        }
        let strike_price = string_from_chars(f[4].as_slice());
        Ok(
            OptionListing {
                closing_type: string_from_chars(f[1].as_slice()),
                options_type,
                expiration_date: string_from_chars(f[3].as_slice()),
                strike_price,
                underlying_symbol: string_from_chars(f[5].as_slice()),
                underlying_name: string_from_chars(f[6].as_slice()),
                pending: flag_from(&f[7]),
            },
        )
    }

    /// Reads a record from one line of the options catalog.
    pub fn from_line(line: &str) -> (r: Result<OptionListing, RecordError>)
        ensures
            match r {
                Ok(o) => parse_option_line(line@) == Ok::<OptionRecord, RecordError>(o@),
                Err(e) => parse_option_line(line@) == Err::<OptionRecord, RecordError>(e),
            },
    {
        let cs = chars_of(line);
        let f = split_chars(cs.as_slice(), '|');
        OptionListing::from_fields(&f)
    }

    /// The options catalog line that describes this record.
    pub fn to_line(&self) -> (r: String)
        ensures
            r@ == option_line(self@),
    {
        let mut fields: Vec<Vec<char>> = Vec::new();
        fields.push(chars_of(self.underlying_symbol.as_str()));
        fields.push(chars_of(self.closing_type.as_str()));
        fields.push(self.options_type.code());
        fields.push(chars_of(self.expiration_date.as_str()));
        fields.push(chars_of(self.strike_price.as_str()));
        fields.push(chars_of(self.underlying_symbol.as_str()));
        fields.push(chars_of(self.underlying_name.as_str()));
        let mut f: Vec<char> = Vec::new();
        push_flag(&mut f, self.pending);
        fields.push(f);
        assert(views(fields@) =~= option_fields(self@));
        let line = join_chars(&fields, '|');
        string_from_chars(line.as_slice())
    }
}

impl std::str::FromStr for OptionListing {
    type Err = RecordError;

    fn from_str(s: &str) -> Result<OptionListing, RecordError> {
        OptionListing::from_line(s)
    }
}

impl std::str::FromStr for OptionType {
    type Err = RecordError;

    fn from_str(s: &str) -> Result<OptionType, RecordError> {
        match OptionType::from_code(&chars_of(s)) {
            Some(t) => Ok(t),
            None => Err(RecordError::OptionType),
        }
    }
}

} // verus!
