use vstd::prelude::*;

verus! {

broadcast use vstd::string::group_string_axioms;

/// Unicode general category Cc (what `char::is_control` tests).
pub open spec fn is_control(c: char) -> bool {
    (c as u32) < 0x20 || (0x7f <= (c as u32) && (c as u32) < 0xa0)
}

/// The Unicode White_Space property (what `char::is_whitespace` tests).
pub open spec fn is_white_space(c: char) -> bool {
    let u = c as u32;
    ||| 0x09 <= u <= 0x0d
    ||| u == 0x20 || u == 0x85 || u == 0xa0 || u == 0x1680
    ||| 0x2000 <= u <= 0x200a
    ||| u == 0x2028 || u == 0x2029 || u == 0x202f || u == 0x205f || u == 0x3000
}

/// A string that trims to nothing: every character is white space.
pub open spec fn trims_to_empty(s: Seq<char>) -> bool {
    forall|i: int| 0 <= i < s.len() ==> is_white_space(#[trigger] s[i])
}

/// Header name rule: not empty after trimming, and no control or white-space character.
pub open spec fn header_name_ok(s: Seq<char>) -> bool {
    &&& !trims_to_empty(s)
    &&& forall|i: int| 0 <= i < s.len() ==> !is_control(#[trigger] s[i]) && !is_white_space(s[i])
}

/// Header value rule: no control character other than horizontal tab.
pub open spec fn header_value_ok(s: Seq<char>) -> bool {
    forall|i: int| 0 <= i < s.len() ==> !is_control(#[trigger] s[i]) || s[i] == '\t'
}

fn char_is_control(c: char) -> (r: bool)
    ensures
        r == is_control(c),
{
    let u = c as u32;
    u < 0x20 || (0x7f <= u && u < 0xa0)
}

fn char_is_white_space(c: char) -> (r: bool)
    ensures
        r == is_white_space(c),
{
    let u = c as u32;
    (0x09 <= u && u <= 0x0d) || u == 0x20 || u == 0x85 || u == 0xa0 || u == 0x1680 || (0x2000
        <= u && u <= 0x200a) || u == 0x2028 || u == 0x2029 || u == 0x202f || u == 0x205f || u
        == 0x3000
}

fn name_ok(s: &str) -> (r: bool)
    ensures
        r == header_name_ok(s@),
{
    let mut visible = false;
    let mut clean = true;
    for c in it: s.chars()
        invariant
            it.seq() == s@,
            visible == (exists|i: int| 0 <= i < it.index() && !is_white_space(#[trigger] s@[i])),
            clean == (forall|i: int|
                0 <= i < it.index() ==> !is_control(#[trigger] s@[i]) && !is_white_space(s@[i])),
    {
        let ws = char_is_white_space(c);
        if !ws {
            visible = true;
        }
        if ws || char_is_control(c) {
            clean = false;
        }
    }
    visible && clean
}

fn value_ok(s: &str) -> (r: bool)
    ensures
        r == header_value_ok(s@),
{
    let mut clean = true;
    for c in it: s.chars()
        invariant
            it.seq() == s@,
            clean == (forall|i: int|
                0 <= i < it.index() ==> !is_control(#[trigger] s@[i]) || s@[i] == '\t'),
    {
        if char_is_control(c) && c != '\t' {
            clean = false;
        }
    }
    clean
}

pub const CONTENT_TYPE: &'static str = "Content-Type";

pub const CONTENT_LENGTH: &'static str = "Content-Length";

pub const HOST: &'static str = "Host";

pub const USER_AGENT: &'static str = "User-Agent";

pub const ACCEPT: &'static str = "Accept";

#[derive(Debug, Clone, PartialEq, Eq)]
pub enum HeaderError {
    InvalidName(String),
    InvalidValue,
}

/// A header name that passed `header_name_ok`; compared by exact characters.
#[derive(Debug, Clone, PartialEq, Eq, Hash)]
pub struct HeaderName(String);

/// A header value that passed `header_value_ok`.
#[derive(Debug, Clone, PartialEq, Eq)]
pub struct HeaderValue(String);

impl View for HeaderName {
    type V = Seq<char>;

    closed spec fn view(&self) -> Seq<char> {
        self.0@
    }
}

impl View for HeaderValue {
    type V = Seq<char>;

    closed spec fn view(&self) -> Seq<char> {
        self.0@
    }
}

impl HeaderName {
    /// Validates `s` as a header name.
    pub fn from_str(s: &str) -> (r: Result<HeaderName, HeaderError>)
        ensures
            r is Ok <==> header_name_ok(s@),
            r matches Ok(n) ==> n@ == s@,
            r matches Err(e) ==> e matches HeaderError::InvalidName(m) && m@ == s@,
    {
        if !name_ok(s) {
            return Err(HeaderError::InvalidName(s.to_owned()));
        }
        Ok(HeaderName(s.to_owned()))
    }

    /// The name as text.
    pub fn as_str(&self) -> (r: &str)
        ensures
            r@ == self@,
    {
        self.0.as_str()
    }
}

impl HeaderValue {
    /// Validates `s` as a header value.
    pub fn from_str(s: &str) -> (r: Result<HeaderValue, HeaderError>)
        ensures
            r is Ok <==> header_value_ok(s@),
            r matches Ok(v) ==> v@ == s@,
            r matches Err(e) ==> e is InvalidValue,
    {
        if !value_ok(s) {
            return Err(HeaderError::InvalidValue);
        }
        Ok(HeaderValue(s.to_owned()))
    }

    /// The value as text.
    pub fn as_str(&self) -> (r: &str)
        ensures
            r@ == self@,
    {
        self.0.as_str()
    }
}

/// The map that a list of (name, value) pairs describes; a later pair wins.
pub open spec fn map_of<K, V>(e: Seq<(K, V)>) -> Map<K, V>
    decreases e.len(),
{
    if e.len() == 0 {
        Map::empty()
    } else {
        map_of(e.drop_last()).insert(e.last().0, e.last().1)
    }
}

/// No key occurs twice.
pub open spec fn keys_unique<K, V>(e: Seq<(K, V)>) -> bool {
    forall|i: int, j: int| 0 <= i < e.len() && 0 <= j < e.len() && i != j ==> #[trigger] e[i].0 != #[trigger] e[j].0
}

/// With unique keys, the map holds exactly the listed pairs.
pub proof fn lemma_map_of_entries<K, V>(e: Seq<(K, V)>)
    requires
        keys_unique(e),
    ensures
        forall|i: int| 0 <= i < e.len() ==> #[trigger] map_of(e).contains_key(e[i].0) && map_of(e)[e[i].0] == e[i].1,
        forall|k: K| #[trigger] map_of(e).contains_key(k) ==> exists|i: int| 0 <= i < e.len() && e[i].0 == k,
    decreases e.len(),
{
    if e.len() > 0 {
        let d = e.drop_last();
        assert(keys_unique(d)) by {
            assert forall|i: int, j: int| 0 <= i < d.len() && 0 <= j < d.len() && i != j implies #[trigger] d[i].0 != #[trigger] d[j].0 by {
                assert(d[i] == e[i] && d[j] == e[j]);
            }
        }
        lemma_map_of_entries(d);
        let last = e.last();
        assert(map_of(e) == map_of(d).insert(last.0, last.1));
        assert forall|i: int| 0 <= i < e.len() implies #[trigger] map_of(e).contains_key(e[i].0) && map_of(e)[e[i].0] == e[i].1 by {
            if i < e.len() - 1 {
                assert(d[i] == e[i]);
                assert(e[i].0 != e[e.len() - 1].0);
                assert(map_of(d).contains_key(d[i].0));
            }
        }
        assert forall|k: K| #[trigger] map_of(e).contains_key(k) implies exists|i: int| 0 <= i < e.len() && e[i].0 == k by {
            if k != last.0 {
                assert(map_of(d).contains_key(k));
                let i = choose|i: int| 0 <= i < d.len() && d[i].0 == k;
                assert(e[i] == d[i]);
            } else {
                assert(e[e.len() - 1].0 == k);
            }
        }
    }
}

/// Replacing the value of a listed key is a map insert.
pub proof fn lemma_map_of_update<K, V>(e: Seq<(K, V)>, j: int, v: V)
    requires
        keys_unique(e),
        0 <= j < e.len(),
    ensures
        map_of(e.update(j, (e[j].0, v))) == map_of(e).insert(e[j].0, v),
    decreases e.len(),
{
    let k = e[j].0;
    let u = e.update(j, (k, v));
    let d = e.drop_last();
    if j == e.len() - 1 {
        assert(u.drop_last() =~= d);
        assert(map_of(u) =~= map_of(e).insert(k, v));
    } else {
        assert(keys_unique(d)) by {
            assert forall|a: int, b: int| 0 <= a < d.len() && 0 <= b < d.len() && a != b implies #[trigger] d[a].0 != #[trigger] d[b].0 by {
                assert(d[a] == e[a] && d[b] == e[b]);
            }
        }
        lemma_map_of_update(d, j, v);
        assert(u.drop_last() =~= d.update(j, (k, v)));
        assert(e.last().0 != k);
        assert(map_of(u) =~= map_of(e).insert(k, v));
    }
}

/// A header collection: unique names, each mapped to a value.
#[derive(Debug, Clone)]
pub struct Headers {
    entries: Vec<(HeaderName, HeaderValue)>,
}

impl View for Headers {
    type V = Map<Seq<char>, Seq<char>>;

    open spec fn view(&self) -> Map<Seq<char>, Seq<char>> {
        map_of(self.entries())
    }
}

impl Headers {
    /// The stored pairs, in the order that `iter` yields them.
    pub closed spec fn entries(&self) -> Seq<(Seq<char>, Seq<char>)> {
        self.entries@.map_values(|p: (HeaderName, HeaderValue)| (p.0@, p.1@))
    }

    /// Names are unique and every pair passed validation.
    pub open spec fn wf(&self) -> bool {
        &&& keys_unique(self.entries())
        &&& forall|i: int|
            0 <= i < self.entries().len() ==> header_name_ok(#[trigger] self.entries()[i].0)
                && header_value_ok(self.entries()[i].1)
    }

    /// An empty collection.
    pub fn new() -> (r: Headers)
        ensures
            r.wf(),
            r@ == Map::<Seq<char>, Seq<char>>::empty(),
            r.entries() == Seq::<(Seq<char>, Seq<char>)>::empty(),
    {
        let r = Headers { entries: Vec::new() };
        assert(r.entries() =~= Seq::<(Seq<char>, Seq<char>)>::empty());
        r
    }

    /// Stores the pair, replacing an entry with the same name.
    fn store(&mut self, name: HeaderName, value: HeaderValue)
        requires
            old(self).wf(),
            header_name_ok(name@),
            header_value_ok(value@),
        ensures
            final(self).wf(),
            final(self)@ == old(self)@.insert(name@, value@),
    {
        let ghost e = self.entries();
        let mut i: usize = 0;
        while i < self.entries.len()
            invariant
                0 <= i <= self.entries.len(),
                e == self.entries(),
                e == old(self).entries(),
                old(self).wf(),
                header_name_ok(name@),
                header_value_ok(value@),
                self.entries@.len() == e.len(),
                forall|j: int| 0 <= j < i ==> e[j].0 != name@,
            decreases self.entries.len() - i,
        {
            if self.entries[i].0.0 == name.0 {
                proof {
                    lemma_map_of_update(e, i as int, value@);
                }
                self.entries.set(i, (name, value));
                assert(self.entries() =~= e.update(i as int, (e[i as int].0, value@)));
                let ghost n = self.entries();
                assert forall|a: int| 0 <= a < n.len() implies #[trigger] n[a].0 == e[a].0
                    && header_name_ok(n[a].0) && header_value_ok(n[a].1) by {
                    if a != i {
                        assert(n[a] == e[a]);
                    }
                }
                assert(keys_unique(n)) by {
                    assert forall|a: int, b: int| 0 <= a < n.len() && 0 <= b < n.len() && a != b implies #[trigger] n[a].0 != #[trigger] n[b].0 by {
                        assert(n[a].0 == e[a].0 && n[b].0 == e[b].0);
                    }
                }
                return;
            }
            i += 1;
        }
        self.entries.push((name, value));
        assert(self.entries() =~= e.push((name@, value@)));
        assert(self.entries().drop_last() =~= e);
    }

    /// Validates and inserts a header; on failure nothing changes.
    pub fn insert(&mut self, name: &str, value: &str) -> (r: Result<(), HeaderError>)
        requires
            old(self).wf(),
        ensures
            final(self).wf(),
            r is Ok <==> header_name_ok(name@) && header_value_ok(value@),
            r is Ok ==> final(self)@ == old(self)@.insert(name@, value@),
            r is Err ==> *final(self) == *old(self),
            !header_name_ok(name@) ==> (r matches Err(HeaderError::InvalidName(m)) && m@ == name@),
            header_name_ok(name@) && !header_value_ok(value@) ==> (r matches Err(
                HeaderError::InvalidValue,
            )),
    {
        let n = match HeaderName::from_str(name) {
            Ok(n) => n,
            Err(e) => return Err(e),
        };
        let v = match HeaderValue::from_str(value) {
            Ok(v) => v,
            Err(e) => return Err(e),
        };
        self.store(n, v);
        Ok(())
    }

    /// The value stored under exactly this name.
    pub fn get(&self, name: &str) -> (r: Option<&HeaderValue>)
        requires
            self.wf(),
        ensures
            r is Some <==> self@.contains_key(name@),
            r matches Some(v) ==> v@ == self@[name@],
    {
        let key = name.to_owned();
        let mut i: usize = 0;
        while i < self.entries.len()
            invariant
                0 <= i <= self.entries.len(),
                self.entries@.len() == self.entries().len(),
                self.wf(),
                key@ == name@,
                forall|j: int| 0 <= j < i ==> self.entries()[j].0 != name@,
            decreases self.entries.len() - i,
        {
            if self.entries[i].0.0 == key {
                proof {
                    lemma_map_of_entries(self.entries());
                }
                assert(self.entries()[i as int].0 == name@);
                assert(self@.contains_key(self.entries()[i as int].0));
                return Some(&self.entries[i].1);
            }
            i += 1;
        }
        proof {
            lemma_map_of_entries(self.entries());
        }
        None
    }

    /// Every stored pair, each once.
    pub fn iter(&self) -> (r: &[(HeaderName, HeaderValue)])
        ensures
            r@.map_values(|p: (HeaderName, HeaderValue)| (p.0@, p.1@)) == self.entries(),
    {
        self.entries.as_slice()
    }
}

impl Default for Headers {
    fn default() -> (r: Headers)
        ensures
            r.wf(),
            r@ == Map::<Seq<char>, Seq<char>>::empty(),
    {
        Headers::new()
    }
}

/// A value holding a control character other than tab is rejected.
pub proof fn lemma_control_char_rejects_value(s: Seq<char>, i: int)
    requires
        0 <= i < s.len(),
        is_control(s[i]),
        s[i] != '\t',
    ensures
        !header_value_ok(s),
{
}

/// An empty or all-white-space name is rejected.
pub proof fn lemma_blank_name_rejected(s: Seq<char>)
    requires
        trims_to_empty(s),
    ensures
        !header_name_ok(s),
{
}

/// After inserting a valid pair, looking the name up gives the inserted value.
pub proof fn lemma_insert_then_get(h: Headers, name: Seq<char>, value: Seq<char>)
    requires
        h.wf(),
        header_name_ok(name),
        header_value_ok(value),
    ensures
        h@.insert(name, value).contains_key(name),
        h@.insert(name, value)[name] == value,
{
}

} // verus!
