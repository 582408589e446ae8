use vstd::prelude::*;

use crate::api::ApiError;
use crate::cache::Cache;
use crate::catalog::symbol_views;
use crate::options::OptionListing;
use crate::symbols::{push_all, Symbol};
use crate::text::{chars_of, decimal_text, push_decimal, string_from_chars};
use crate::watchlist::{get_watch_list, next_selection, previous_selection, watch_list_of, StatefulList};

verus! {

/// The view that has the keyboard.
#[derive(Clone, Copy, PartialEq, Eq, Debug, Structural)]
pub enum ViewContext {
    Watchlist,
}

/// `new_log` is `old_log` with `line` appended.
pub open spec fn appended(old_log: Seq<String>, new_log: Seq<String>, line: Seq<char>) -> bool {
    &&& new_log.len() == old_log.len() + 1
    &&& new_log.take(old_log.len() as int) == old_log
    &&& new_log.last()@ == line
}

/// The map after inserting each pair in turn.
pub open spec fn insert_all<V>(m: Map<Seq<char>, V>, pairs: Seq<(String, V)>) -> Map<Seq<char>, V>
    decreases pairs.len(),
{
    if pairs.len() == 0 {
        m
    } else {
        insert_all(m, pairs.drop_last()).insert(pairs.last().0@, pairs.last().1)
    }
}

/// `prefix`, the decimal spelling of `n`, then `suffix`.
fn text_with_count(prefix: &str, n: usize, suffix: &str) -> (r: String)
    ensures
        r@ == prefix@ + decimal_text(n as nat) + suffix@,
{
    let mut out = chars_of(prefix);
    push_decimal(&mut out, n as u64);
    push_all(&mut out, &chars_of(suffix));
    string_from_chars(out.as_slice())
}

/// The state of the dashboard: the catalogs, the watchlist, what has been fetched for
/// it, and the status log. `Q` is a quote and `S` an intraday series.
pub struct App<Q, S> {
    pub title: String,
    pub symbols: Vec<Symbol>,
    pub options: Vec<OptionListing>,
    pub watchlist: StatefulList<Symbol>,
    pub log: Vec<String>,
    pub should_quit: bool,
    pub quote_cache: Cache<Q>,
    pub graph_cache: Cache<S>,
    pub active_context: ViewContext,
}

impl<Q, S> App<Q, S> {
    /// The quotes fetched so far, by symbol.
    pub closed spec fn quotes(&self) -> Map<Seq<char>, Q> {
        self.quote_cache.view()
    }

    /// The intraday series fetched so far, by symbol.
    pub closed spec fn charts(&self) -> Map<Seq<char>, S> {
        self.graph_cache.view()
    }

    pub closed spec fn context(&self) -> ViewContext {
        self.active_context
    }

    pub open spec fn wf(&self) -> bool {
        self.watchlist.wf()
    }

    /// The title, the catalogs and the active view are the same in `self` and `next`.
    pub open spec fn same_setup(&self, next: &Self) -> bool {
        &&& next.title == self.title
        &&& next.symbols == self.symbols
        &&& next.options == self.options
        &&& next.context() == self.context()
    }

    /// Nothing that was fetched is lost from `self` to `next`.
    pub open spec fn caches_kept(&self, next: &Self) -> bool {
        &&& self.quotes().dom().subset_of(next.quotes().dom())
        &&& self.charts().dom().subset_of(next.charts().dom())
    }

    pub fn new() -> (r: App<Q, S>)
        ensures
            r.title@ == "StonksCLI"@,
            r.symbols@.len() == 0,
            r.options@.len() == 0,
            r.watchlist.list@.len() == 0,
            r.watchlist.selected is None,
            r.log@.len() == 0,
            !r.should_quit,
            r.quotes() == Map::<Seq<char>, Q>::empty(),
            r.charts() == Map::<Seq<char>, S>::empty(),
            r.context() == ViewContext::Watchlist,
            r.wf(),
    {
        App {
            title: String::from_str("StonksCLI"),
            symbols: Vec::new(),
            options: Vec::new(),
            watchlist: StatefulList::new(),
            log: Vec::new(),
            should_quit: false,
            quote_cache: Cache::new(),
            graph_cache: Cache::new(),
            active_context: ViewContext::Watchlist,
        }
    }

    /// A key press: `q` asks to quit.
    pub fn on_key(&mut self, c: char)
        ensures
            old(self).same_setup(&*final(self)),
            old(self).caches_kept(&*final(self)),
            final(self).should_quit == (old(self).should_quit || c == 'q'),
            final(self).watchlist == old(self).watchlist,
            final(self).log == old(self).log,
            final(self).quotes() == old(self).quotes(),
            final(self).charts() == old(self).charts(),
    {
        if c == 'q' {
            self.should_quit = true;
        }
    }

    /// Moves the selection up; the result says whether the newly selected chart is to
    /// be fetched.
    pub fn on_up(&mut self) -> (fetch_chart: bool)
        requires
            old(self).wf(),
        ensures
            old(self).same_setup(&*final(self)),
            old(self).caches_kept(&*final(self)),
            final(self).wf(),
            final(self).watchlist.list@ == old(self).watchlist.list@,
            final(self).watchlist.selected == previous_selection(
                old(self).watchlist.selected,
                old(self).watchlist.list.len() as nat,
            ),
            final(self).should_quit == old(self).should_quit,
            final(self).log == old(self).log,
            final(self).quotes() == old(self).quotes(),
            final(self).charts() == old(self).charts(),
            fetch_chart,
    {
        match self.active_context {
            ViewContext::Watchlist => {
                self.watchlist.previous();
                true
            },
        }
    }

    /// Moves the selection down; the result says whether the newly selected chart is
    /// to be fetched.
    pub fn on_down(&mut self) -> (fetch_chart: bool)
        requires
            old(self).wf(),
        ensures
            old(self).same_setup(&*final(self)),
            old(self).caches_kept(&*final(self)),
            final(self).wf(),
            final(self).watchlist.list@ == old(self).watchlist.list@,
            final(self).watchlist.selected == next_selection(
                old(self).watchlist.selected,
                old(self).watchlist.list.len() as nat,
            ),
            final(self).should_quit == old(self).should_quit,
            final(self).log == old(self).log,
            final(self).quotes() == old(self).quotes(),
            final(self).charts() == old(self).charts(),
            fetch_chart,
    {
        match self.active_context {
            ViewContext::Watchlist => {
                self.watchlist.next();
                true
            },
        }
    }

    /// A timer tick; nothing changes.
    pub fn on_tick(&mut self)
        ensures
            *final(self) == *old(self),
    {
    }

    /// The quote fetched for `ticker`.
    pub fn get_quote(&self, ticker: &str) -> (r: Option<&Q>)
        ensures
            match r {
                Some(q) => self.quotes().contains_key(ticker@) && *q == self.quotes()[ticker@],
                None => !self.quotes().contains_key(ticker@),
            },
    {
        self.quote_cache.get(ticker)
    }

    /// The symbol of the selected watchlist item.
    pub fn selected_ticker(&self) -> (r: &str)
        requires
            self.wf(),
            self.watchlist.selected is Some,
        ensures
            r@ == self.watchlist.list@[self.watchlist.selected.unwrap() as int].symbol@,
    {
        match self.active_context {
            ViewContext::Watchlist => {
                let index = self.watchlist.selected.unwrap();
                self.watchlist.list[index].symbol.as_str()
            },
        }
    }

    /// Takes in the securities catalog: the watchlist becomes its default tickers, with
    /// the first selected where there is one, and the log says how many were loaded.
    pub fn install_symbols(&mut self, symbols: Vec<Symbol>)
        ensures
            final(self).title == old(self).title,
            final(self).options == old(self).options,
            final(self).context() == old(self).context(),
            old(self).caches_kept(&*final(self)),
            final(self).wf(),
            final(self).symbols@ == symbols@,
            symbol_views(final(self).watchlist.list@) == watch_list_of(symbol_views(symbols@)),
            final(self).watchlist.selected == (if final(self).watchlist.list@.len() > 0 {
                Some(0usize)
            } else {
                None
            }),
            appended(
                old(self).log@,
                final(self).log@,
                "Loaded "@ + decimal_text(symbols@.len()) + " symbols and watchlist."@,
            ),
            final(self).should_quit == old(self).should_quit,
            final(self).quotes() == old(self).quotes(),
            final(self).charts() == old(self).charts(),
    {
        let list = get_watch_list(symbols.as_slice());
        let count = symbols.len();
        self.symbols = symbols;
        self.watchlist = StatefulList::with_list(list);
        if self.watchlist.list.len() > 0 {
            self.watchlist.select(Some(0));
        }
        let msg = text_with_count("Loaded ", count, " symbols and watchlist.");
        self.log.push(msg);
        assert(self.log@.take(old(self).log@.len() as int) =~= old(self).log@);
    }

    /// Takes in the options catalog, and logs how many were loaded.
    pub fn apply_options(&mut self, options: Vec<OptionListing>)
        ensures
            final(self).title == old(self).title,
            final(self).context() == old(self).context(),
            old(self).caches_kept(&*final(self)),
            final(self).options@ == options@,
            appended(
                old(self).log@,
                final(self).log@,
                "Loaded "@ + decimal_text(options@.len()) + " options."@,
            ),
            final(self).symbols == old(self).symbols,
            final(self).watchlist == old(self).watchlist,
            final(self).should_quit == old(self).should_quit,
            final(self).quotes() == old(self).quotes(),
            final(self).charts() == old(self).charts(),
    {
        let count = options.len();
        self.options = options;
        let msg = text_with_count("Loaded ", count, " options.");
        self.log.push(msg);
        assert(self.log@.take(old(self).log@.len() as int) =~= old(self).log@);
    }

    /// The tickers of the watchlist, in order, for a quotes request.
    pub fn watchlist_tickers(&self) -> (r: Vec<String>)
        ensures
            r@.len() == self.watchlist.list@.len(),
            forall|i: int| 0 <= i < r@.len() ==> #[trigger] r@[i]@ == self.watchlist.list@[i].symbol@,
    {
        let mut out: Vec<String> = Vec::new();
        let mut i: usize = 0;
        while i < self.watchlist.list.len()
            invariant
                i <= self.watchlist.list@.len(),
                out@.len() == i,
                forall|k: int| 0 <= k < i ==> #[trigger] out@[k]@ == self.watchlist.list@[k].symbol@,
            decreases self.watchlist.list.len() - i,
        {
            out.push(self.watchlist.list[i].symbol.clone());
            i = i + 1;
        }
        out
    }

    /// Caches the quotes that a watchlist request returned, each under its symbol, and
    /// logs the download. No quote held before is lost.
    pub fn apply_quotes(&mut self, quotes: Vec<(String, Q)>)
        ensures
            old(self).same_setup(&*final(self)),
            final(self).quotes() == insert_all(old(self).quotes(), quotes@),
            old(self).caches_kept(&*final(self)),
            final(self).charts() == old(self).charts(),
            appended(old(self).log@, final(self).log@, "Downloaded watchlist quotes"@),
            final(self).watchlist == old(self).watchlist,
            final(self).should_quit == old(self).should_quit,
    {
        let ghost pairs = quotes@;
        let mut rest = quotes;
        let mut i: usize = 0;
        let n = rest.len();
        let ghost start = self.quotes();
        while rest.len() > 0
            invariant
                rest@.len() + i == n,
                n == pairs.len(),
                rest@ == pairs.skip(i as int),
                self.quotes() == insert_all(start, pairs.take(i as int)),
                start == old(self).quotes(),
                self.charts() == old(self).charts(),
                self.log == old(self).log,
                self.watchlist == old(self).watchlist,
                old(self).same_setup(&*self),
                self.should_quit == old(self).should_quit,
            decreases rest.len(),
        {
            let (key, quote) = rest.remove(0);
            proof {
                assert(pairs.take(i + 1).drop_last() =~= pairs.take(i as int));
                assert(pairs.take(i + 1).last() == pairs[i as int]);
                assert(pairs.skip(i + 1) =~= pairs.skip(i as int).remove(0));
            }
            self.quote_cache.insert(key, quote);
            i = i + 1;
        }
        proof {
            assert(pairs.take(i as int) =~= pairs);
            lemma_insert_all_grows(start, pairs);
        }
        self.log.push(String::from_str("Downloaded watchlist quotes"));
        assert(self.log@.take(old(self).log@.len() as int) =~= old(self).log@);
    }

    /// The symbol whose chart is to be fetched: the selected one, unless its chart is
    /// already held.
    pub fn chart_request(&self) -> (r: Option<String>)
        requires
            self.wf(),
        ensures
            match self.watchlist.selected {
                None => r is None,
                Some(i) => {
                    let sym = self.watchlist.list@[i as int].symbol@;
                    if self.charts().contains_key(sym) {
                        r is None
                    } else {
                        r matches Some(s) && s@ == sym
                    }
                },
            },
    {
        match self.watchlist.selected {
            None => None,
            Some(idx) => {
                let symbol = self.watchlist.list[idx].symbol.clone();
                if self.graph_cache.contains(symbol.as_str()) {
                    None
                } else {
                    Some(symbol)
                }
            },
        }
    }

    /// Records the outcome of fetching the chart of `symbol`: a series is cached and
    /// logged; a failure is only logged, so that the next selection tries again.
    pub fn apply_chart(&mut self, symbol: String, result: Result<S, ApiError>)
        ensures
            old(self).same_setup(&*final(self)),
            match result {
                Ok(series) => {
                    &&& final(self).charts() == old(self).charts().insert(symbol@, series)
                    &&& appended(
                        old(self).log@,
                        final(self).log@,
                        "Got timeseries data for $"@ + symbol@ + "."@,
                    )
                },
                Err(_) => {
                    &&& final(self).charts() == old(self).charts()
                    &&& appended(
                        old(self).log@,
                        final(self).log@,
                        "Failed to get timeseries data"@,
                    )
                },
            },
            old(self).caches_kept(&*final(self)),
            final(self).quotes() == old(self).quotes(),
            final(self).watchlist == old(self).watchlist,
            final(self).should_quit == old(self).should_quit,
    {
        match result {
            Ok(series) => {
                let mut line = chars_of("Got timeseries data for $");
                push_all(&mut line, &chars_of(symbol.as_str()));
                push_all(&mut line, &chars_of("."));
                self.log.push(string_from_chars(line.as_slice()));
                self.graph_cache.insert(symbol, series);
            },
            Err(_) => {
                self.log.push(String::from_str("Failed to get timeseries data"));
            },
        }
        assert(self.log@.take(old(self).log@.len() as int) =~= old(self).log@);
    }
}

/// Over a run of states in which each step keeps the caches, as every method of `App`
/// does, a quote or a chart once fetched stays present in every later state.
pub proof fn lemma_session_keeps_caches<Q, S>(states: Seq<App<Q, S>>, i: int, j: int)
    requires
        forall|k: int| 0 <= k < states.len() - 1 ==> #[trigger] states[k].caches_kept(&states[k + 1]),
        0 <= i <= j < states.len(),
    ensures
        states[i].caches_kept(&states[j]),
    decreases j - i,
{
    if i < j {
        lemma_session_keeps_caches(states, i + 1, j);
        assert(states[i].caches_kept(&states[i + 1]));
    }
}

/// Inserting pairs keeps every key that was there.
pub proof fn lemma_insert_all_grows<V>(m: Map<Seq<char>, V>, pairs: Seq<(String, V)>)
    ensures
        m.dom().subset_of(insert_all(m, pairs).dom()),
    decreases pairs.len(),
{
    if pairs.len() > 0 {
        lemma_insert_all_grows(m, pairs.drop_last());
    }
}

} // verus!
