//! Storage backends: the `Storage` interface, an in-memory store, and the
//! settings of a file-system store.

use vstd::prelude::*;
use std::path::PathBuf;
use crate::text::{concat2, concat3, is_prefix, owned, starts_with, str_eq, trim_end_char, trim_end_seq};

verus! {

/// A place files are saved to and read from.
pub trait Storage {
    /// Saves `content` under `name` and answers the name used.
    fn save(&mut self, name: &str, content: &[u8]) -> std::io::Result<String>;
    /// The content saved under `name`.
    fn open(&self, name: &str) -> std::io::Result<Vec<u8>>;
    /// Removes the file `name`.
    fn delete(&mut self, name: &str) -> std::io::Result<()>;
    /// A file is saved under `name`.
    fn file_exists(&self, name: &str) -> bool;
    /// The names under `path`.
    fn listdir(&self, path: &str) -> std::io::Result<Vec<String>>;
    /// The size of the file `name` in bytes.
    fn size(&self, name: &str) -> std::io::Result<u64>;
    /// The URL the file `name` is served under.
    fn url(&self, name: &str) -> String;
    /// The file-system path of `name`, for stores that have one.
    fn path(&self, name: &str) -> Option<PathBuf>;
}

/// An I/O error of kind `NotFound` with the message `msg`; nothing more is stated.
#[verifier::external_body]
fn not_found_error(msg: String) -> std::io::Error {
    std::io::Error::new(std::io::ErrorKind::NotFound, msg)
}

/// The saved files: each name with its bytes.
pub type FilesView = Seq<(Seq<char>, Seq<u8>)>;

/// The bytes saved under `name`.
pub open spec fn file_lookup(s: FilesView, name: Seq<char>) -> Option<Seq<u8>>
    decreases s.len(),
{
    if s.len() == 0 {
        None
    } else if s[0].0 == name {
        Some(s[0].1)
    } else {
        file_lookup(s.drop_first(), name)
    }
}

/// The files after saving `content` under `name`: replaced in place, or added at the end.
pub open spec fn file_insert(s: FilesView, name: Seq<char>, content: Seq<u8>) -> FilesView
    decreases s.len(),
{
    if s.len() == 0 {
        seq![(name, content)]
    } else if s[0].0 == name {
        s.update(0, (name, content))
    } else {
        seq![s[0]] + file_insert(s.drop_first(), name, content)
    }
}

/// The files after removing `name`.
pub open spec fn file_remove(s: FilesView, name: Seq<char>) -> FilesView
    decreases s.len(),
{
    if s.len() == 0 {
        s
    } else if s[0].0 == name {
        s.drop_first()
    } else {
        seq![s[0]] + file_remove(s.drop_first(), name)
    }
}

/// The saved names that start with `path`, in saving order.
pub open spec fn names_under(s: FilesView, path: Seq<char>) -> Seq<Seq<char>>
    decreases s.len(),
{
    if s.len() == 0 {
        Seq::empty()
    } else if is_prefix(path, s.last().0) {
        names_under(s.drop_last(), path).push(s.last().0)
    } else {
        names_under(s.drop_last(), path)
    }
}

proof fn lemma_file_at(s: FilesView, name: Seq<char>, content: Seq<u8>, i: int)
    requires
        0 <= i <= s.len(),
        forall|j: int| 0 <= j < i ==> s[j].0 != name,
        i < s.len() ==> s[i].0 == name,
    ensures
        file_lookup(s, name) == (if i < s.len() { Some(s[i].1) } else { None::<Seq<u8>> }),
        file_insert(s, name, content) == (if i < s.len() { s.update(i, (name, content)) } else { s.push((name, content)) }),
        file_remove(s, name) == (if i < s.len() { s.remove(i) } else { s }),
    decreases i,
{
    if i == 0 {
        if s.len() == 0 {
            assert(seq![(name, content)] =~= s.push((name, content)));
        } else {
            assert(s.drop_first() =~= s.remove(0));
        }
    } else {
        let t = s.drop_first();
        assert forall|j: int| 0 <= j < i - 1 implies t[j].0 != name by {
            assert(t[j] == s[j + 1]);
        }
        lemma_file_at(t, name, content, i - 1);
        if i < s.len() {
            assert(seq![s[0]] + t.update(i - 1, (name, content)) =~= s.update(i, (name, content)));
            assert(seq![s[0]] + t.remove(i - 1) =~= s.remove(i));
        } else {
            assert(seq![s[0]] + t.push((name, content)) =~= s.push((name, content)));
            assert(seq![s[0]] + t =~= s);
        }
    }
}

/// What a name reads after a save: the name saved reads the bytes saved,
/// and every other name reads as before.
pub proof fn law_open_after_save(s: FilesView, name: Seq<char>, content: Seq<u8>, other: Seq<char>)
    ensures
        file_lookup(file_insert(s, name, content), other) == (if other == name { Some(content) } else { file_lookup(s, other) }),
    decreases s.len(),
{
    let p = file_insert(s, name, content);
    if s.len() == 0 {
        assert(p.drop_first() =~= Seq::<(Seq<char>, Seq<u8>)>::empty());
        assert(file_lookup(p.drop_first(), other) is None);
    } else if s[0].0 == name {
        assert(p.drop_first() =~= s.drop_first());
    } else {
        law_open_after_save(s.drop_first(), name, content, other);
        assert(p.drop_first() =~= file_insert(s.drop_first(), name, content));
    }
}

/// The files of a store as views.
pub open spec fn file_views(v: Seq<(String, Vec<u8>)>) -> FilesView {
    v.map_values(|e: (String, Vec<u8>)| (e.0@, e.1@))
}

/// Files kept in memory, in the order they were first saved.
#[derive(Debug, Clone, Default)]
pub struct InMemoryStorage {
    files: Vec<(String, Vec<u8>)>,
}

impl View for InMemoryStorage {
    type V = FilesView;

    closed spec fn view(&self) -> FilesView {
        file_views(self.files@)
    }
}

impl InMemoryStorage {
    /// An empty store.
    pub fn new() -> (r: Self)
        ensures
            r@.len() == 0,
    {
        InMemoryStorage { files: Vec::new() }
    }

    fn position(&self, name: &str) -> (r: usize)
        ensures
            r <= self@.len(),
            forall|j: int| 0 <= j < r ==> self@[j].0 != name@,
            r < self@.len() ==> self@[r as int].0 == name@,
    {
        let mut i: usize = 0;
        while i < self.files.len()
            invariant
                i <= self.files@.len(),
                self@.len() == self.files@.len(),
                forall|j: int| 0 <= j < i ==> self@[j].0 != name@,
            decreases self.files.len() - i,
        {
            if str_eq(self.files[i].0.as_str(), name) {
                return i;
            }
            i = i + 1;
        }
        i
    }
}

impl Storage for InMemoryStorage {
    fn save(&mut self, name: &str, content: &[u8]) -> (r: std::io::Result<String>)
        ensures
            final(self)@ == file_insert(old(self)@, name@, content@),
            r matches Ok(n) && n@ == name@,
    {
        let i = self.position(name);
        proof { lemma_file_at(self@, name@, content@, i as int); }
        let e = (owned(name), vstd::slice::slice_to_vec(content));
        let ghost ev = e;
        if i < self.files.len() {
            self.files.set(i, e);
        } else {
            self.files.push(e);
        }
        assert(self@ =~= file_insert(old(self)@, name@, content@));
        Ok(owned(name))
    }

    fn open(&self, name: &str) -> (r: std::io::Result<Vec<u8>>)
        ensures
            match file_lookup(self@, name@) {
                Some(c) => r matches Ok(v) && v@ == c,
                None => r is Err,
            },
    {
        let i = self.position(name);
        proof { lemma_file_at(self@, name@, Seq::empty(), i as int); }
        if i < self.files.len() {
            Ok(self.files[i].1.clone())
        } else {
            Err(not_found_error(concat2("File not found: ", name)))
        }
    }

    fn delete(&mut self, name: &str) -> (r: std::io::Result<()>)
        ensures
            final(self)@ == file_remove(old(self)@, name@),
            r is Ok,
    {
        let i = self.position(name);
        proof { lemma_file_at(self@, name@, Seq::empty(), i as int); }
        if i < self.files.len() {
            self.files.remove(i);
            assert(self@ =~= old(self)@.remove(i as int));
        }
        Ok(())
    }

    fn file_exists(&self, name: &str) -> (r: bool)
        ensures
            r == (file_lookup(self@, name@) is Some),
    {
        let i = self.position(name);
        proof { lemma_file_at(self@, name@, Seq::empty(), i as int); }
        i < self.files.len()
    }

    fn listdir(&self, path: &str) -> (r: std::io::Result<Vec<String>>)
        ensures
            r matches Ok(v) && v@.map_values(|n: String| n@) == names_under(self@, path@),
    {
        let mut results: Vec<String> = Vec::new();
        let mut i: usize = 0;
        while i < self.files.len()
            invariant
                i <= self.files@.len(),
                results@.map_values(|n: String| n@) == names_under(self@.take(i as int), path@),
            decreases self.files.len() - i,
        {
            assert(self@.take(i + 1).drop_last() =~= self@.take(i as int));
            if starts_with(self.files[i].0.as_str(), path) {
                let ghost before = results@;
                let k = self.files[i].0.clone();
                results.push(k);
                assert(results@.map_values(|n: String| n@) =~= before.map_values(|n: String| n@).push(self@[i as int].0));
            }
            i = i + 1;
        }
        assert(self@.take(self.files@.len() as int) =~= self@);
        Ok(results)
    }

    fn size(&self, name: &str) -> (r: std::io::Result<u64>)
        ensures
            match file_lookup(self@, name@) {
                Some(c) => r matches Ok(n) && n == c.len(),
                None => r is Err,
            },
    {
        let i = self.position(name);
        proof { lemma_file_at(self@, name@, Seq::empty(), i as int); }
        if i < self.files.len() {
            Ok(self.files[i].1.len() as u64)
        } else {
            Err(not_found_error(concat2("File not found: ", name)))
        }
    }

    fn url(&self, name: &str) -> (r: String)
        ensures
            r@ == "/media/"@ + name@,
    {
        concat2("/media/", name)
    }

    fn path(&self, name: &str) -> (r: Option<PathBuf>)
        ensures
            r is None,
    {
        None
    }
}

/// The settings of a store on disk: its directory and base URL.
#[derive(Debug, Clone)]
pub struct FileSystemStorage {
    location: PathBuf,
    base_url: String,
}

impl FileSystemStorage {
    /// A store at `location` served under `base_url`.
    pub fn new(location: PathBuf, base_url: &str) -> (r: Self)
        ensures
            r.spec_location() == location,
            r.spec_base_url() == base_url@,
    {
        FileSystemStorage { location, base_url: owned(base_url) }
    }

    /// The store's directory.
    pub closed spec fn spec_location(&self) -> PathBuf {
        self.location
    }

    /// The store's base URL.
    pub closed spec fn spec_base_url(&self) -> Seq<char> {
        self.base_url@
    }

    /// The store's directory.
    pub fn location(&self) -> (r: &PathBuf)
        ensures
            *r == self.spec_location(),
    {
        &self.location
    }

    /// The store's base URL.
    pub fn base_url(&self) -> (r: &str)
        ensures
            r@ == self.spec_base_url(),
    {
        self.base_url.as_str()
    }

    /// The URL of the file `name`: the base URL without trailing `/`, a `/`, and the name.
    pub fn url(&self, name: &str) -> (r: String)
        ensures
            r@ == trim_end_seq(self.spec_base_url(), '/') + "/"@ + name@,
    {
        let base = trim_end_char(self.base_url.as_str(), '/');
        concat3(base.as_str(), "/", name)
    }
}

} // verus!
