use vstd::prelude::*;

use crate::headers::{keys_unique, lemma_map_of_entries, lemma_map_of_update, map_of};

verus! {

broadcast use vstd::string::group_string_axioms;

/// Splitting `s` at every `sep`, scanned left to right: the finished pieces and
/// the piece still open.
pub open spec fn split_scan(s: Seq<char>, sep: char) -> (Seq<Seq<char>>, Seq<char>)
    decreases s.len(),
{
    if s.len() == 0 {
        (Seq::empty(), Seq::empty())
    } else {
        let p = split_scan(s.drop_last(), sep);
        if s.last() == sep {
            (p.0.push(p.1), Seq::empty())
        } else {
            (p.0, p.1.push(s.last()))
        }
    }
}

/// The pieces between the separators, as `str::split` yields them.
pub open spec fn split_on(s: Seq<char>, sep: char) -> Seq<Seq<char>> {
    let p = split_scan(s, sep);
    p.0.push(p.1)
}

/// Position of the first `=`, or the length when there is none.
pub open spec fn eq_pos(s: Seq<char>) -> nat
    decreases s.len(),
{
    if s.len() == 0 {
        0
    } else if s[0] == '=' {
        0
    } else {
        1 + eq_pos(s.drop_first())
    }
}

/// A `key=value` piece: the text before the first `=`, and the text after it
/// (empty when there is no `=`).
pub open spec fn key_value(piece: Seq<char>) -> (Seq<char>, Seq<char>) {
    let p = eq_pos(piece);
    if p < piece.len() {
        (piece.take(p as int), piece.skip((p + 1) as int))
    } else {
        (piece, Seq::empty())
    }
}

/// The (key, value) pairs of a query string, in order; none for an empty string.
pub open spec fn query_pairs(q: Seq<char>) -> Seq<(Seq<char>, Seq<char>)> {
    if q.len() == 0 {
        Seq::empty()
    } else {
        split_on(q, '&').map_values(|piece: Seq<char>| key_value(piece))
    }
}

/// One more value under `k`, after those already there.
pub open spec fn add_value(m: Map<Seq<char>, Seq<Seq<char>>>, k: Seq<char>, v: Seq<char>) -> Map<
    Seq<char>,
    Seq<Seq<char>>,
> {
    m.insert(
        k,
        if m.contains_key(k) {
            m[k].push(v)
        } else {
            seq![v]
        },
    )
}

/// The values of each key after adding the pairs in order.
pub open spec fn values_of(pairs: Seq<(Seq<char>, Seq<char>)>) -> Map<Seq<char>, Seq<Seq<char>>>
    decreases pairs.len(),
{
    if pairs.len() == 0 {
        Map::empty()
    } else {
        add_value(values_of(pairs.drop_last()), pairs.last().0, pairs.last().1)
    }
}

proof fn lemma_eq_pos(s: Seq<char>, p: int)
    requires
        0 <= p <= s.len(),
        forall|j: int| 0 <= j < p ==> s[j] != '=',
        p == s.len() || s[p] == '=',
    ensures
        eq_pos(s) == p,
    decreases p,
{
    if p > 0 {
        lemma_eq_pos(s.drop_first(), p - 1);
    }
}

/// Splits a piece at its first `=`.
fn split_pair(piece: &str) -> (r: (String, String))
    ensures
        (r.0@, r.1@) == key_value(piece@),
{
    let n = piece.unicode_len();
    let mut pos: usize = n;
    let mut idx: usize = 0;
    for c in it: piece.chars()
        invariant
            it.seq() == piece@,
            n == piece@.len(),
            idx == it.index(),
            pos == n || (pos < idx && piece@[pos as int] == '='),
            forall|j: int| 0 <= j < idx && j < pos ==> piece@[j] != '=',
    {
        if pos == n && c == '=' {
            pos = idx;
        }
        idx = idx + 1;
    }
    proof {
        lemma_eq_pos(piece@, pos as int);
    }
    if pos < n {
        let key = piece.substring_char(0, pos).to_owned();
        let value = piece.substring_char(pos + 1, n).to_owned();
        (key, value)
    } else {
        assert(piece@.take(n as int) =~= piece@);
        (piece.to_owned(), String::new())
    }
}

/// The value(s) of one query key.
#[derive(Debug, Clone)]
pub enum QueryValue {
    Single(String),
    Multiple(Vec<String>),
}

/// A `Multiple` holds two or more values.
pub open spec fn multiple_ok(v: QueryValue) -> bool {
    v matches QueryValue::Multiple(l) ==> l@.len() >= 2
}

pub open spec fn texts(v: Seq<String>) -> Seq<Seq<char>> {
    v.map_values(|s: String| s@)
}

impl View for QueryValue {
    type V = Seq<Seq<char>>;

    open spec fn view(&self) -> Seq<Seq<char>> {
        match self {
            QueryValue::Single(s) => seq![s@],
            QueryValue::Multiple(v) => texts(v@),
        }
    }
}

/// The values of a query string, grouped by key in order of appearance.
#[derive(Debug, Clone)]
pub struct QueryCache {
    params: Vec<(String, QueryValue)>,
}

impl View for QueryCache {
    type V = Map<Seq<char>, Seq<Seq<char>>>;

    open spec fn view(&self) -> Map<Seq<char>, Seq<Seq<char>>> {
        map_of(self.entries())
    }
}

impl QueryCache {
    pub closed spec fn entries(&self) -> Seq<(Seq<char>, Seq<Seq<char>>)> {
        self.params@.map_values(|p: (String, QueryValue)| (p.0@, p.1@))
    }

    /// Keys are unique, and a key holds `Multiple` exactly when it has two or more values.
    pub closed spec fn wf(&self) -> bool {
        &&& keys_unique(self.entries())
        &&& forall|i: int|
            0 <= i < self.params@.len() ==> multiple_ok((#[trigger] self.params@[i]).1)
    }

    /// An empty cache.
    pub fn new() -> (r: QueryCache)
        ensures
            r.wf(),
            r@ == Map::<Seq<char>, Seq<Seq<char>>>::empty(),
    {
        let r = QueryCache { params: Vec::new() };
        assert(r.entries() =~= Seq::<(Seq<char>, Seq<Seq<char>>)>::empty());
        r
    }

    /// Adds a value under `key`: the first makes it single, later ones make it multiple.
    pub fn insert(&mut self, key: String, value: String)
        requires
            old(self).wf(),
        ensures
            final(self).wf(),
            final(self)@ == add_value(old(self)@, key@, value@),
    {
        let ghost e = self.entries();
        proof {
            lemma_map_of_entries(e);
        }
        let mut i: usize = 0;
        while i < self.params.len()
            invariant
                0 <= i <= self.params.len(),
                e == self.entries(),
                e == old(self).entries(),
                self.params@ == old(self).params@,
                old(self).wf(),
                self.params@.len() == e.len(),
                forall|j: int| 0 <= j < i ==> e[j].0 != key@,
            decreases self.params.len() - i,
        {
            if self.params[i].0 == key {
                let ghost before = self.params@;
                let mut slot = (String::new(), QueryValue::Multiple(Vec::new()));
                self.params.set_and_swap(i, &mut slot);
                let (k, current) = slot;
                assert(k@ == e[i as int].0 && current@ == e[i as int].1);
                let updated = match current {
                    QueryValue::Single(s) => {
                        let mut v: Vec<String> = Vec::new();
                        v.push(s);
                        v.push(value);
                        assert(texts(v@) =~= seq![s@, value@]);
                        QueryValue::Multiple(v)
                    },
                    QueryValue::Multiple(v) => {
                        let mut v = v;
                        let ghost v0 = v@;
                        v.push(value);
                        assert(texts(v@) =~= texts(v0).push(value@));
                        QueryValue::Multiple(v)
                    },
                };
                assert(updated@ == e[i as int].1.push(value@));
                assert(multiple_ok(updated));
                self.params.set(i, (k, updated));
                proof {
                    lemma_map_of_entries(e);
                    assert(map_of(e).contains_key(e[i as int].0));
                    lemma_map_of_update(e, i as int, e[i as int].1.push(value@));
                    let n = self.entries();
                    assert(n =~= e.update(i as int, (e[i as int].0, e[i as int].1.push(value@))));
                    assert forall|a: int, b: int| 0 <= a < n.len() && 0 <= b < n.len() && a != b implies #[trigger] n[a].0 != #[trigger] n[b].0 by {
                        assert(n[a].0 == e[a].0 && n[b].0 == e[b].0);
                    }
                    assert forall|a: int| 0 <= a < self.params@.len() implies multiple_ok((#[trigger] self.params@[a]).1) by {
                        if a != i {
                            assert(self.params@[a] == before[a]);
                        }
                    }
                }
                return;
            }
            i += 1;
        }
        let ghost k = key@;
        self.params.push((key, QueryValue::Single(value)));
        proof {
            let n = self.entries();
            assert(n =~= e.push((k, seq![value@])));
            assert(n.drop_last() =~= e);
            assert(!map_of(e).contains_key(k));
            assert forall|a: int, b: int| 0 <= a < n.len() && 0 <= b < n.len() && a != b implies #[trigger] n[a].0 != #[trigger] n[b].0 by {
                if a < e.len() && b < e.len() {
                    assert(n[a] == e[a] && n[b] == e[b]);
                } else if a < e.len() {
                    assert(n[a] == e[a]);
                } else if b < e.len() {
                    assert(n[b] == e[b]);
                }
            }
        }
    }

    /// Reads `key=value` pairs separated by `&`; an empty string gives an empty cache.
    pub fn parse(query: &str) -> (r: QueryCache)
        ensures
            r.wf(),
            r@ == values_of(query_pairs(query@)),
    {
        let mut cache = QueryCache::new();
        if !query.is_empty() {
            let n = query.unicode_len();
            let mut start: usize = 0;
            let mut idx: usize = 0;
            let ghost mut done: Seq<Seq<char>> = Seq::empty();
            assert(query@.take(0) =~= Seq::<char>::empty());
            assert(done.map_values(|p: Seq<char>| key_value(p)) =~= Seq::<(Seq<char>, Seq<char>)>::empty());
            for c in it: query.chars()
                invariant
                    it.seq() == query@,
                    n == query@.len(),
                    idx == it.index(),
                    start <= idx,
                    split_scan(query@.take(idx as int), '&') == (done, query@.subrange(
                        start as int,
                        idx as int,
                    )),
                    cache.wf(),
                    cache@ == values_of(done.map_values(|p: Seq<char>| key_value(p))),
            {
                assert(query@.take(idx + 1).drop_last() =~= query@.take(idx as int));
                assert(query@.take(idx + 1).last() == c);
                if c == '&' {
                    let piece = query.substring_char(start, idx);
                    let (k, v) = split_pair(piece);
                    cache.insert(k, v);
                    proof {
                        let before = done.map_values(|p: Seq<char>| key_value(p));
                        done = done.push(query@.subrange(start as int, idx as int));
                        let after = done.map_values(|p: Seq<char>| key_value(p));
                        assert(after.drop_last() =~= before);
                        assert(query@.subrange(idx + 1, idx + 1) =~= Seq::<char>::empty());
                    }
                    start = idx + 1;
                } else {
                    assert(query@.subrange(start as int, idx + 1) =~= query@.subrange(
                        start as int,
                        idx as int,
                    ).push(c));
                }
                idx = idx + 1;
            }
            let piece = query.substring_char(start, n);
            let (k, v) = split_pair(piece);
            cache.insert(k, v);
            proof {
                assert(query@.take(n as int) =~= query@);
                let before = done.map_values(|p: Seq<char>| key_value(p));
                done = done.push(query@.subrange(start as int, n as int));
                let after = done.map_values(|p: Seq<char>| key_value(p));
                assert(after.drop_last() =~= before);
                assert(after =~= query_pairs(query@));
            }
        } else {
            assert(query_pairs(query@) =~= Seq::<(Seq<char>, Seq<char>)>::empty());
        }
        cache
    }

    /// Position of `key` among the stored keys.
    fn position(&self, key: &str) -> (r: Option<usize>)
        requires
            self.wf(),
        ensures
            r is None <==> !self@.contains_key(key@),
            r matches Some(i) ==> i < self.params@.len() && self.params@[i as int].0@ == key@
                && self@[key@] == self.params@[i as int].1@,
    {
        proof {
            lemma_map_of_entries(self.entries());
        }
        let k = key.to_owned();
        let mut i: usize = 0;
        while i < self.params.len()
            invariant
                0 <= i <= self.params.len(),
                self.params@.len() == self.entries().len(),
                self.wf(),
                k@ == key@,
                forall|j: int| 0 <= j < i ==> self.entries()[j].0 != key@,
            decreases self.params.len() - i,
        {
            if self.params[i].0 == k {
                proof {
                    lemma_map_of_entries(self.entries());
                    assert(self.entries()[i as int].0 == key@);
                    assert(map_of(self.entries()).contains_key(self.entries()[i as int].0));
                }
                return Some(i);
            }
            i += 1;
        }
        proof {
            lemma_map_of_entries(self.entries());
        }
        None
    }

    /// The first value under `key`.
    pub fn get(&self, key: &str) -> (r: Option<&str>)
        requires
            self.wf(),
        ensures
            r is Some <==> self@.contains_key(key@),
            r matches Some(s) ==> s@ == self@[key@][0],
    {
        match self.position(key) {
            None => None,
            Some(i) => match &self.params[i].1 {
                QueryValue::Single(s) => Some(s.as_str()),
                QueryValue::Multiple(v) => {
                    assert(v@.len() >= 2);
                    Some(v[0].as_str())
                },
            },
        }
    }

    /// All values under `key`, when there are two or more.
    pub fn get_all(&self, key: &str) -> (r: Option<&Vec<String>>)
        requires
            self.wf(),
        ensures
            r is Some <==> self@.contains_key(key@) && self@[key@].len() >= 2,
            r matches Some(v) ==> texts(v@) == self@[key@],
    {
        match self.position(key) {
            None => None,
            Some(i) => match &self.params[i].1 {
                QueryValue::Single(_) => None,
                QueryValue::Multiple(v) => {
                    assert(v@.len() >= 2);
                    Some(v)
                },
            },
        }
    }
}

} // verus!
