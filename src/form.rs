use vstd::prelude::*;

use crate::headers::{keys_unique, lemma_map_of_entries, lemma_map_of_update, map_of};
use crate::query::{add_value, texts};

verus! {

broadcast use vstd::string::group_string_axioms;

/// Metadata of an uploaded file.
#[derive(Debug, Clone)]
pub struct FileEntry {
    filename: String,
    /// Where the upload was stored.
    path: String,
    size: u64,
    mime_type: String,
}

/// The value(s) of one form field.
#[derive(Debug, Clone)]
pub enum FormValue {
    Single(String),
    Multiple(Vec<String>),
}

/// A `Multiple` holds two or more values.
pub open spec fn field_ok(v: FormValue) -> bool {
    v matches FormValue::Multiple(l) ==> l@.len() >= 2
}

impl View for FormValue {
    type V = Seq<Seq<char>>;

    open spec fn view(&self) -> Seq<Seq<char>> {
        match self {
            FormValue::Single(s) => seq![s@],
            FormValue::Multiple(v) => texts(v@),
        }
    }
}

/// Form fields and uploaded files, grouped by key in order of arrival.
#[derive(Debug, Clone)]
pub struct FormCache {
    fields: Vec<(String, FormValue)>,
    files: Vec<(String, Vec<FileEntry>)>,
}

impl View for FormCache {
    type V = Map<Seq<char>, Seq<Seq<char>>>;

    open spec fn view(&self) -> Map<Seq<char>, Seq<Seq<char>>> {
        map_of(self.entries())
    }
}

impl FormCache {
    pub closed spec fn entries(&self) -> Seq<(Seq<char>, Seq<Seq<char>>)> {
        self.fields@.map_values(|p: (String, FormValue)| (p.0@, p.1@))
    }

    pub closed spec fn file_entries(&self) -> Seq<(Seq<char>, Seq<FileEntry>)> {
        self.files@.map_values(|p: (String, Vec<FileEntry>)| (p.0@, p.1@))
    }

    /// The uploaded files under each key.
    pub open spec fn files_view(&self) -> Map<Seq<char>, Seq<FileEntry>> {
        map_of(self.file_entries())
    }

    /// Keys are unique, and a key holds `Multiple` exactly when it has two or more values.
    pub closed spec fn wf(&self) -> bool {
        &&& keys_unique(self.entries())
        &&& keys_unique(self.file_entries())
        &&& forall|i: int|
            0 <= i < self.fields@.len() ==> field_ok((#[trigger] self.fields@[i]).1)
    }

    /// An empty cache, with no fields and no files.
    pub fn new() -> (r: FormCache)
        ensures
            r.wf(),
            r@ == Map::<Seq<char>, Seq<Seq<char>>>::empty(),
            r.files_view() == Map::<Seq<char>, Seq<FileEntry>>::empty(),
    {
        let r = FormCache { fields: Vec::new(), files: Vec::new() };
        assert(r.file_entries() =~= Seq::<(Seq<char>, Seq<FileEntry>)>::empty());
        assert(r.entries() =~= Seq::<(Seq<char>, Seq<Seq<char>>)>::empty());
        r
    }

    /// Adds a field value under `key`: the first makes it single, later ones make it multiple.
    pub fn insert_field(&mut self, key: String, value: String)
        requires
            old(self).wf(),
        ensures
            final(self).wf(),
            final(self)@ == add_value(old(self)@, key@, value@),
            final(self).files_view() == old(self).files_view(),
    {
        let ghost e = self.entries();
        proof {
            lemma_map_of_entries(e);
        }
        let mut i: usize = 0;
        while i < self.fields.len()
            invariant
                0 <= i <= self.fields.len(),
                e == self.entries(),
                e == old(self).entries(),
                self.fields@ == old(self).fields@,
                self.files@ == old(self).files@,
                old(self).wf(),
                self.fields@.len() == e.len(),
                forall|j: int| 0 <= j < i ==> e[j].0 != key@,
            decreases self.fields.len() - i,
        {
            if self.fields[i].0 == key {
                let ghost before = self.fields@;
                let mut slot = (String::new(), FormValue::Multiple(Vec::new()));
                self.fields.set_and_swap(i, &mut slot);
                let (k, current) = slot;
                assert(k@ == e[i as int].0 && current@ == e[i as int].1);
                let updated = match current {
                    FormValue::Single(s) => {
                        let mut v: Vec<String> = Vec::new();
                        v.push(s);
                        v.push(value);
                        assert(texts(v@) =~= seq![s@, value@]);
                        FormValue::Multiple(v)
                    },
                    FormValue::Multiple(v) => {
                        let mut v = v;
                        let ghost v0 = v@;
                        v.push(value);
                        assert(texts(v@) =~= texts(v0).push(value@));
                        FormValue::Multiple(v)
                    },
                };
                assert(updated@ == e[i as int].1.push(value@));
                assert(field_ok(updated));
                self.fields.set(i, (k, updated));
                proof {
                    lemma_map_of_entries(e);
                    assert(map_of(e).contains_key(e[i as int].0));
                    lemma_map_of_update(e, i as int, e[i as int].1.push(value@));
                    let n = self.entries();
                    assert(n =~= e.update(i as int, (e[i as int].0, e[i as int].1.push(value@))));
                    assert forall|a: int, b: int| 0 <= a < n.len() && 0 <= b < n.len() && a != b implies #[trigger] n[a].0 != #[trigger] n[b].0 by {
                        assert(n[a].0 == e[a].0 && n[b].0 == e[b].0);
                    }
                    assert forall|a: int| 0 <= a < self.fields@.len() implies field_ok((#[trigger] self.fields@[a]).1) by {
                        if a != i {
                            assert(self.fields@[a] == before[a]);
                        }
                    }
                }
                return;
            }
            i += 1;
        }
        let ghost k = key@;
        self.fields.push((key, FormValue::Single(value)));
        proof {
            let n = self.entries();
            assert(n =~= e.push((k, seq![value@])));
            assert(n.drop_last() =~= e);
            assert(!map_of(e).contains_key(k));
            assert forall|a: int, b: int| 0 <= a < n.len() && 0 <= b < n.len() && a != b implies #[trigger] n[a].0 != #[trigger] n[b].0 by {
                if a < e.len() && b < e.len() {
                    assert(n[a] == e[a] && n[b] == e[b]);
                } else if a < e.len() {
                    assert(n[a] == e[a]);
                } else if b < e.len() {
                    assert(n[b] == e[b]);
                }
            }
        }
    }

    /// Adds an uploaded file under `key`, after those already there.
    pub fn insert_file(&mut self, key: String, file: FileEntry)
        requires
            old(self).wf(),
        ensures
            final(self).wf(),
            final(self)@ == old(self)@,
            final(self).files_view() == old(self).files_view().insert(
                key@,
                if old(self).files_view().contains_key(key@) {
                    old(self).files_view()[key@].push(file)
                } else {
                    seq![file]
                },
            ),
    {
        let ghost e = self.file_entries();
        proof {
            lemma_map_of_entries(e);
        }
        let mut i: usize = 0;
        while i < self.files.len()
            invariant
                0 <= i <= self.files.len(),
                e == self.file_entries(),
                self.files@ == old(self).files@,
                self.fields@ == old(self).fields@,
                old(self).wf(),
                self.files@.len() == e.len(),
                forall|j: int| 0 <= j < i ==> e[j].0 != key@,
            decreases self.files.len() - i,
        {
            if self.files[i].0 == key {
                let mut slot = (String::new(), Vec::new());
                self.files.set_and_swap(i, &mut slot);
                let (k, list) = slot;
                let mut list = list;
                list.push(file);
                assert(k@ == e[i as int].0 && list@ == e[i as int].1.push(file));
                self.files.set(i, (k, list));
                proof {
                    lemma_map_of_entries(e);
                    assert(map_of(e).contains_key(e[i as int].0));
                    lemma_map_of_update(e, i as int, e[i as int].1.push(file));
                    let n = self.file_entries();
                    assert(n =~= e.update(i as int, (e[i as int].0, e[i as int].1.push(file))));
                    assert forall|a: int, b: int| 0 <= a < n.len() && 0 <= b < n.len() && a != b implies #[trigger] n[a].0 != #[trigger] n[b].0 by {
                        assert(n[a].0 == e[a].0 && n[b].0 == e[b].0);
                    }
                }
                return;
            }
            i += 1;
        }
        let ghost k = key@;
        let mut list: Vec<FileEntry> = Vec::new();
        list.push(file);
        assert(list@ =~= seq![file]);
        self.files.push((key, list));
        proof {
            let n = self.file_entries();
            assert(n =~= e.push((k, seq![file])));
            assert(n.drop_last() =~= e);
            assert(!map_of(e).contains_key(k));
            assert forall|a: int, b: int| 0 <= a < n.len() && 0 <= b < n.len() && a != b implies #[trigger] n[a].0 != #[trigger] n[b].0 by {
                if a < e.len() && b < e.len() {
                    assert(n[a] == e[a] && n[b] == e[b]);
                } else if a < e.len() {
                    assert(n[a] == e[a]);
                } else if b < e.len() {
                    assert(n[b] == e[b]);
                }
            }
        }
    }

    /// The files uploaded under `key`.
    pub fn get_files(&self, key: &str) -> (r: Option<&Vec<FileEntry>>)
        requires
            self.wf(),
        ensures
            r is Some <==> self.files_view().contains_key(key@),
            r matches Some(v) ==> v@ == self.files_view()[key@],
    {
        proof {
            lemma_map_of_entries(self.file_entries());
        }
        let k = key.to_owned();
        let mut i: usize = 0;
        while i < self.files.len()
            invariant
                0 <= i <= self.files.len(),
                self.files@.len() == self.file_entries().len(),
                self.wf(),
                k@ == key@,
                forall|j: int| 0 <= j < i ==> self.file_entries()[j].0 != key@,
            decreases self.files.len() - i,
        {
            if self.files[i].0 == k {
                proof {
                    lemma_map_of_entries(self.file_entries());
                    assert(self.file_entries()[i as int].0 == key@);
                    assert(map_of(self.file_entries()).contains_key(self.file_entries()[i as int].0));
                }
                return Some(&self.files[i].1);
            }
            i += 1;
        }
        proof {
            lemma_map_of_entries(self.file_entries());
        }
        None
    }

    /// Position of `key` among the stored keys.
    fn position(&self, key: &str) -> (r: Option<usize>)
        requires
            self.wf(),
        ensures
            r is None <==> !self@.contains_key(key@),
            r matches Some(i) ==> i < self.fields@.len() && self.fields@[i as int].0@ == key@
                && self@[key@] == self.fields@[i as int].1@,
    {
        proof {
            lemma_map_of_entries(self.entries());
        }
        let k = key.to_owned();
        let mut i: usize = 0;
        while i < self.fields.len()
            invariant
                0 <= i <= self.fields.len(),
                self.fields@.len() == self.entries().len(),
                self.wf(),
                k@ == key@,
                forall|j: int| 0 <= j < i ==> self.entries()[j].0 != key@,
            decreases self.fields.len() - i,
        {
            if self.fields[i].0 == k {
                proof {
                    lemma_map_of_entries(self.entries());
                    assert(self.entries()[i as int].0 == key@);
                    assert(map_of(self.entries()).contains_key(self.entries()[i as int].0));
                }
                return Some(i);
            }
            i += 1;
        }
        proof {
            lemma_map_of_entries(self.entries());
        }
        None
    }

    /// The first value of field `key`.
    pub fn get_field(&self, key: &str) -> (r: Option<&str>)
        requires
            self.wf(),
        ensures
            r is Some <==> self@.contains_key(key@),
            r matches Some(s) ==> s@ == self@[key@][0],
    {
        match self.position(key) {
            None => None,
            Some(i) => match &self.fields[i].1 {
                FormValue::Single(s) => Some(s.as_str()),
                FormValue::Multiple(v) => {
                    assert(v@.len() >= 2);
                    Some(v[0].as_str())
                },
            },
        }
    }

    /// All values of field `key`, when there are two or more.
    pub fn get_field_all(&self, key: &str) -> (r: Option<&Vec<String>>)
        requires
            self.wf(),
        ensures
            r is Some <==> self@.contains_key(key@) && self@[key@].len() >= 2,
            r matches Some(v) ==> texts(v@) == self@[key@],
    {
        match self.position(key) {
            None => None,
            Some(i) => match &self.fields[i].1 {
                FormValue::Single(_) => None,
                FormValue::Multiple(v) => {
                    assert(v@.len() >= 2);
                    Some(v)
                },
            },
        }
    }
}

} // verus!
