use vstd::prelude::*;

verus! {

/// The map that a list of entries describes: a later entry for a key replaces an
/// earlier one.
pub open spec fn map_of<V>(e: Seq<(String, V)>) -> Map<Seq<char>, V>
    decreases e.len(),
{
    if e.len() == 0 {
        Map::empty()
    } else {
        map_of(e.drop_last()).insert(e.last().0@, e.last().1)
    }
}

/// A cache from symbol to value; entries are never removed.
///
/// The entries stand in a `Vec` of pairs rather than a `HashMap<String, V>`: vstd
/// specifies `HashMap` only for keys whose hashing and equality it knows, and with
/// `String` keys Verus proves nothing of what `insert` and `get` do. Here the map is
/// `map_of(entries)`; an `insert` for a key already held replaces its entry, and
/// lookups are proved against the map.
pub struct Cache<V> {
    entries: Vec<(String, V)>,
}

proof fn lemma_map_of_update<V>(e: Seq<(String, V)>, i: int, k: String, v: V)
    requires
        0 <= i < e.len(),
        e[i].0@ == k@,
        forall|j: int| i < j < e.len() ==> e[j].0@ != k@,
    ensures
        map_of(e.update(i, (k, v))) == map_of(e).insert(k@, v),
    decreases e.len(),
{
    let u = e.update(i, (k, v));
    if i == e.len() - 1 {
        assert(u.drop_last() =~= e.drop_last());
        assert(map_of(u) =~= map_of(e).insert(k@, v));
    } else {
        lemma_map_of_update(e.drop_last(), i, k, v);
        assert(u.drop_last() =~= e.drop_last().update(i, (k, v)));
        assert(map_of(u) =~= map_of(e).insert(k@, v));
    }
}

proof fn lemma_map_of_last<V>(e: Seq<(String, V)>, i: int, k: Seq<char>)
    requires
        0 <= i < e.len(),
        e[i].0@ == k,
        forall|j: int| i < j < e.len() ==> e[j].0@ != k,
    ensures
        map_of(e).contains_key(k),
        map_of(e)[k] == e[i].1,
    decreases e.len(),
{
    if i < e.len() - 1 {
        lemma_map_of_last(e.drop_last(), i, k);
    }
}

proof fn lemma_map_of_absent<V>(e: Seq<(String, V)>, k: Seq<char>)
    requires
        forall|j: int| 0 <= j < e.len() ==> e[j].0@ != k,
    ensures
        !map_of(e).contains_key(k),
    decreases e.len(),
{
    if e.len() > 0 {
        lemma_map_of_absent(e.drop_last(), k);
    }
}

impl<V> Cache<V> {
    pub closed spec fn view(&self) -> Map<Seq<char>, V> {
        map_of(self.entries@)
    }

    pub fn new() -> (r: Cache<V>)
        ensures
            r.view() == Map::<Seq<char>, V>::empty(),
    {
        Cache { entries: Vec::new() }
    }

    /// The position of the last entry for `key`.
    fn position(&self, key: &str) -> (r: Option<usize>)
        ensures
            match r {
                Some(i) => i < self.entries@.len() && self.entries@[i as int].0@ == key@
                    && forall|j: int|
                    i < j < self.entries@.len() ==> self.entries@[j].0@ != key@,
                None => forall|j: int|
                    0 <= j < self.entries@.len() ==> self.entries@[j].0@ != key@,
            },
    {
        let mut i: usize = self.entries.len();
        while i > 0
            invariant
                i <= self.entries@.len(),
                forall|j: int| i <= j < self.entries@.len() ==> self.entries@[j].0@ != key@,
            decreases i,
        {
            i = i - 1;
            if str_equal(self.entries[i].0.as_str(), key) {
                return Some(i);
            }
        }
        None
    }

    /// Whether the cache holds a value for `key`.
    pub fn contains(&self, key: &str) -> (r: bool)
        ensures
            r == self.view().contains_key(key@),
    {
        match self.position(key) {
            Some(i) => {
                proof {
                    lemma_map_of_last(self.entries@, i as int, key@);
                }
                true
            },
            None => {
                proof {
                    lemma_map_of_absent(self.entries@, key@);
                }
                false
            },
        }
    }

    /// The value held for `key`.
    pub fn get(&self, key: &str) -> (r: Option<&V>)
        ensures
            match r {
                Some(v) => self.view().contains_key(key@) && *v == self.view()[key@],
                None => !self.view().contains_key(key@),
            },
    {
        match self.position(key) {
            Some(i) => {
                proof {
                    lemma_map_of_last(self.entries@, i as int, key@);
                }
                Some(&self.entries[i].1)
            },
            None => {
                proof {
                    lemma_map_of_absent(self.entries@, key@);
                }
                None
            },
        }
    }

    /// Holds `value` for `key`, in place of any value held before.
    pub fn insert(&mut self, key: String, value: V)
        ensures
            final(self).view() == old(self).view().insert(key@, value),
    {
        match self.position(key.as_str()) {
            Some(i) => {
                proof {
                    lemma_map_of_update(self.entries@, i as int, key, value);
                }
                self.entries.set(i, (key, value));
            },
            None => {
                self.entries.push((key, value));
                proof {
                    assert(self.entries@.drop_last() =~= old(self).entries@);
                }
            },
        }
    }
}

fn str_equal(a: &str, b: &str) -> (r: bool)
    ensures
        r == (a@ == b@),
{
    let x = crate::text::chars_of(a);
    let y = crate::text::chars_of(b);
    if x.len() != y.len() {
        return false;
    }
    let mut i: usize = 0;
    while i < x.len()
        invariant
            i <= x.len() == y.len(),
            x@ == a@,
            y@ == b@,
            forall|j: int| 0 <= j < i ==> x@[j] == y@[j],
        decreases x.len() - i,
    {
        if x[i] != y[i] {
            return false;
        }
        i = i + 1;
    }
    assert(x@ =~= y@);
    true
}

} // verus!
