use vstd::prelude::*;

use crate::catalog::symbol_views;
use crate::options::OptionListing;
use crate::symbols::{Symbol, SymbolRecord};
use crate::text::chars_of;

verus! {

/// An item that a list shows by a short name.
pub trait Listable {
    spec fn name_view(&self) -> Seq<char>;

    fn short_name(&self) -> (r: String)
        ensures
            r@ == self.name_view(),
    ;
}

impl Listable for Symbol {
    open spec fn name_view(&self) -> Seq<char> {
        self.symbol@
    }

    fn short_name(&self) -> (r: String) {
        self.symbol.clone()
    }
}

impl Listable for OptionListing {
    open spec fn name_view(&self) -> Seq<char> {
        self.underlying_symbol@
    }

    fn short_name(&self) -> (r: String) {
        self.underlying_symbol.clone()
    }
}

/// The selection after moving down: wraps from the last item to the first, and starts
/// at the first where nothing is selected; an empty list keeps no selection.
pub open spec fn next_selection(sel: Option<usize>, len: nat) -> Option<usize> {
    if len == 0 {
        sel
    } else {
        match sel {
            Some(i) => Some(((i + 1) % (len as int)) as usize),
            None => Some(0),
        }
    }
}

/// The selection after moving up: wraps from the first item to the last, and starts at
/// the first where nothing is selected; an empty list keeps no selection.
pub open spec fn previous_selection(sel: Option<usize>, len: nat) -> Option<usize> {
    if len == 0 {
        sel
    } else {
        match sel {
            Some(i) => Some(((i + len - 1) % (len as int)) as usize),
            None => Some(0),
        }
    }
}

pub open spec fn next_times(sel: Option<usize>, len: nat, k: nat) -> Option<usize>
    decreases k,
{
    if k == 0 {
        sel
    } else {
        next_selection(next_times(sel, len, (k - 1) as nat), len)
    }
}

pub open spec fn previous_times(sel: Option<usize>, len: nat, k: nat) -> Option<usize>
    decreases k,
{
    if k == 0 {
        sel
    } else {
        previous_selection(previous_times(sel, len, (k - 1) as nat), len)
    }
}

/// On a list of `len` items with item `s` selected, `k` moves down select item
/// `(s + k) mod len`, and `k` moves up select item `(s - k) mod len`.
pub proof fn lemma_navigation(len: nat, s: nat, k: nat)
    requires
        s < len <= usize::MAX,
    ensures
        next_times(Some(s as usize), len, k) == Some(((s + k) as int % (len as int)) as usize),
        previous_times(Some(s as usize), len, k) == Some(((s - k) % (len as int)) as usize),
    decreases k,
{
    if k > 0 {
        lemma_navigation(len, s, (k - 1) as nat);
        let a = (s + k - 1) as int % (len as int);
        let b = (s - (k - 1)) % (len as int);
        assert(0 <= a < len && 0 <= b < len);
        assert(next_times(Some(s as usize), len, k) == next_selection(Some(a as usize), len));
        assert(previous_times(Some(s as usize), len, k) == previous_selection(
            Some(b as usize),
            len,
        ));
        assert((a + 1) % (len as int) == (s + k) as int % (len as int)) by (nonlinear_arith)
            requires
                a == (s + k - 1) as int % (len as int),
                len > 0,
        ;
        assert((b + len - 1) % (len as int) == (s - k) % (len as int)) by (nonlinear_arith)
            requires
                b == (s - (k - 1)) % (len as int),
                len > 0,
        ;
    } else {
        assert(s as int % (len as int) == s) by (nonlinear_arith)
            requires
                s < len,
        ;
    }
}

/// On an empty list, moving either way keeps no selection.
pub proof fn lemma_navigation_empty(k: nat)
    ensures
        next_times(None, 0, k) == None::<usize>,
        previous_times(None, 0, k) == None::<usize>,
    decreases k,
{
    if k > 0 {
        lemma_navigation_empty((k - 1) as nat);
    }
}

/// A list of items with a selection cursor.
#[derive(Clone, Debug)]
pub struct StatefulList<T> {
    pub list: Vec<T>,
    pub selected: Option<usize>,
}

impl<T> StatefulList<T> {
    /// The selection, where there is one, is an item of the list.
    pub open spec fn wf(&self) -> bool {
        self.selected matches Some(i) ==> i < self.list.len()
    }

    pub fn new() -> (r: StatefulList<T>)
        ensures
            r.list@.len() == 0,
            r.selected is None,
    {
        StatefulList { list: Vec::new(), selected: None }
    }

    /// The list of `list`, with nothing selected.
    pub fn with_list(list: Vec<T>) -> (r: StatefulList<T>)
        ensures
            r.list@ == list@,
            r.selected is None,
    {
        StatefulList { list, selected: None }
    }

    /// Selects item `i`, or nothing.
    pub fn select(&mut self, i: Option<usize>)
        requires
            i matches Some(k) ==> k < old(self).list.len(),
        ensures
            final(self).list@ == old(self).list@,
            final(self).selected == i,
    {
        self.selected = i;
    }

    pub fn selected(&self) -> (r: Option<usize>)
        ensures
            r == self.selected,
    {
        self.selected
    }

    /// Moves the selection down, wrapping to the first item.
    pub fn next(&mut self)
        requires
            old(self).wf(),
        ensures
            final(self).wf(),
            final(self).list@ == old(self).list@,
            final(self).selected == next_selection(old(self).selected, old(self).list.len() as nat),
    {
        let len = self.list.len();
        if len == 0 {
            return;
        }
        let i = match self.selected {
            Some(i) => {
                if i >= len - 1 {
                    0
                } else {
                    i + 1
                }
            },
            None => 0,
        };
        proof {
            if let Some(j) = old(self).selected {
                if j + 1 < len {
                    assert((j + 1) % (len as int) == j + 1) by (nonlinear_arith)
                        requires
                            j + 1 < len,
                    ;
                } else {
                    assert((j + 1) % (len as int) == 0) by (nonlinear_arith)
                        requires
                            j + 1 == len,
                    ;
                }
            }
        }
        self.selected = Some(i);
    }

    /// Moves the selection up, wrapping to the last item.
    pub fn previous(&mut self)
        requires
            old(self).wf(),
        ensures
            final(self).wf(),
            final(self).list@ == old(self).list@,
            final(self).selected == previous_selection(
                old(self).selected,
                old(self).list.len() as nat,
            ),
    {
        let len = self.list.len();
        if len == 0 {
            return;
        }
        let i = match self.selected {
            Some(i) => {
                if i == 0 {
                    len - 1
                } else {
                    i - 1
                }
            },
            None => 0,
        };
        proof {
            if let Some(j) = old(self).selected {
                if j > 0 {
                    assert((j + len - 1) % (len as int) == j - 1) by (nonlinear_arith)
                        requires
                            0 < j < len,
                    ;
                } else {
                    assert((len - 1) % (len as int) == len - 1) by (nonlinear_arith)
                        requires
                            len > 0,
                    ;
                }
            }
        }
        self.selected = Some(i);
    }
}

impl<T> Default for StatefulList<T> {
    fn default() -> (r: StatefulList<T>)
        ensures
            r.list@.len() == 0,
            r.selected is None,
    {
        StatefulList::new()
    }
}

/// The upper-case form of a text, as `str::to_uppercase` gives it.
pub uninterp spec fn upper_of(s: Seq<char>) -> Seq<char>;

/// Relies on `str::to_uppercase`: its result depends on the characters alone.
#[verifier::external_body]
fn uppercase(s: &str) -> (r: String)
    ensures
        r@ == upper_of(s@),
{
    s.to_uppercase()
}

/// The tickers of the default watchlist.
pub open spec fn default_tickers() -> Seq<Seq<char>> {
    seq![
        seq!['S', 'P', 'Y'],
        seq!['T', 'S', 'L', 'A'],
        seq!['D', 'I', 'S'],
        seq!['A', 'M', 'D'],
        seq!['N', 'V', 'D', 'A'],
        seq!['A', 'A', 'P', 'L'],
        seq!['M', 'S', 'F', 'T'],
        seq!['F', 'B'],
        seq!['G', 'O', 'O', 'G'],
        seq!['A', 'M', 'Z', 'N'],
    ]
}

/// The records whose upper-cased symbol is a default ticker, in order.
pub open spec fn watch_list_of(s: Seq<SymbolRecord>) -> Seq<SymbolRecord>
    decreases s.len(),
{
    if s.len() == 0 {
        Seq::empty()
    } else {
        let init = watch_list_of(s.drop_last());
        if default_tickers().contains(upper_of(s.last().symbol)) {
            init.push(s.last())
        } else {
            init
        }
    }
}

fn chars_equal(a: &Vec<char>, b: &Vec<char>) -> (r: bool)
    ensures
        r == (a@ == b@),
{
    if a.len() != b.len() {
        return false;
    }
    let mut i: usize = 0;
    while i < a.len()
        invariant
            i <= a.len() == b.len(),
            a@.take(i as int) == b@.take(i as int),
        decreases a.len() - i,
    {
        if a[i] != b[i] {
            return false;
        }
        i = i + 1;
        assert(a@.take(i as int) =~= a@.take(i - 1).push(a@[i - 1]));
        assert(b@.take(i as int) =~= b@.take(i - 1).push(b@[i - 1]));
    }
    assert(a@ =~= a@.take(i as int));
    assert(b@ =~= b@.take(i as int));
    true
}

/// Whether an upper-case ticker is one of the default watchlist.
pub fn is_default_ticker(upper: &str) -> (r: bool)
    ensures
        r == default_tickers().contains(upper@),
{
    let cs = chars_of(upper);
    let tickers: Vec<Vec<char>> = vec![
        vec!['S', 'P', 'Y'],
        vec!['T', 'S', 'L', 'A'],
        vec!['D', 'I', 'S'],
        vec!['A', 'M', 'D'],
        vec!['N', 'V', 'D', 'A'],
        vec!['A', 'A', 'P', 'L'],
        vec!['M', 'S', 'F', 'T'],
        vec!['F', 'B'],
        vec!['G', 'O', 'O', 'G'],
        vec!['A', 'M', 'Z', 'N'],
    ];
    proof {
        assert(crate::text::views(tickers@) =~= default_tickers());
    }
    let mut i: usize = 0;
    while i < tickers.len()
        invariant
            i <= tickers.len(),
            crate::text::views(tickers@) == default_tickers(),
            cs@ == upper@,
            forall|j: int| 0 <= j < i ==> default_tickers()[j] != cs@,
        decreases tickers.len() - i,
    {
        if chars_equal(&tickers[i], &cs) {
            assert(crate::text::views(tickers@)[i as int] == tickers@[i as int]@);
            assert(default_tickers()[i as int] == upper@);
            return true;
        }
        assert(crate::text::views(tickers@)[i as int] == tickers@[i as int]@);
        i = i + 1;
    }
    false
}

/// The symbols of the default watchlist, in catalog order: those whose upper-cased
/// symbol is a default ticker.
pub fn get_watch_list(s: &[Symbol]) -> (r: Vec<Symbol>)
    ensures
        symbol_views(r@) == watch_list_of(symbol_views(s@)),
{
    let mut out: Vec<Symbol> = Vec::new();
    let mut i: usize = 0;
    while i < s.len()
        invariant
            i <= s.len(),
            symbol_views(out@) == watch_list_of(symbol_views(s@).take(i as int)),
        decreases s.len() - i,
    {
        let ghost before = out@;
        proof {
            assert(symbol_views(s@).take(i + 1).drop_last() =~= symbol_views(s@).take(i as int));
        }
        let upper = uppercase(s[i].symbol.as_str());
        if is_default_ticker(upper.as_str()) {
            out.push(s[i].copied());
            assert(symbol_views(out@) =~= symbol_views(before).push(s@[i as int]@));
        }
        i = i + 1;
    }
    assert(symbol_views(s@).take(i as int) =~= symbol_views(s@));
    out
}

} // verus!
