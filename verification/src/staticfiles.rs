//! Static file lookup across an ordered list of finders.

use vstd::prelude::*;
use std::path::PathBuf;
use crate::text::owned;

verus! {

/// The path `Path::new(dir).join(path)` gives: a function of the two texts.
pub uninterp spec fn joined_path(dir: Seq<char>, path: Seq<char>) -> PathBuf;

/// The text `p.strip_prefix(base)` gives, read lossily, or `None` when
/// `base` does not start `p`: a function of the path and the text.
pub uninterp spec fn path_relative_to(p: PathBuf, base: Seq<char>) -> Option<Seq<char>>;

/// `Path::new(dir).join(path)`, which depends on the two texts alone.
#[verifier::external_body]
fn path_join(dir: &str, path: &str) -> (r: PathBuf)
    ensures
        r == joined_path(dir@, path@),
{
    std::path::Path::new(dir).join(path)
}

/// `Path::exists`: whether something is on disk at `p` when asked, so
/// nothing is stated of the answer.
#[verifier::external_body]
fn path_exists(p: &PathBuf) -> bool {
    p.exists()
}

/// `Path::is_dir`: whether a directory is on disk at `p` when asked, so
/// nothing is stated of the answer.
#[verifier::external_body]
fn path_is_dir(p: &PathBuf) -> bool {
    p.is_dir()
}

/// `Path::read_dir`: the paths of the entries of directory `p` that could be
/// read, none when the directory cannot be read. What is on disk decides it,
/// so nothing is stated of the result.
#[verifier::external_body]
fn read_dir_paths(p: &PathBuf) -> Vec<PathBuf> {
    match p.read_dir() {
        Ok(entries) => entries.flatten().map(|e| e.path()).collect(),
        Err(_) => Vec::new(),
    }
}

/// `Path::strip_prefix` then `to_string_lossy`: `p` relative to `base`, as
/// text, or `None` when `base` does not start it; a function of `p` and the
/// text of `base`.
#[verifier::external_body]
fn relative_path(p: &PathBuf, base: &str) -> (r: Option<String>)
    ensures
        match r {
            Some(s) => path_relative_to(*p, base@) == Some(s@),
            None => path_relative_to(*p, base@) is None,
        },
{
    p.strip_prefix(base).ok().map(|r| r.to_string_lossy().to_string())
}

/// A file a finder located: its path, and its path relative to the storage.
#[derive(Debug, Clone)]
pub struct FinderResult {
    pub path: PathBuf,
    pub storage_path: String,
}

/// Something that can locate static files.
pub trait StaticFinder {
    /// The path of the file `path`, if this finder has it.
    fn find(&self, path: &str) -> Option<PathBuf>;
    /// The files under `prefix`.
    fn list(&self, prefix: &str) -> Vec<String>;
}

/// The finders to search, in order.
pub struct StaticFilesConfig<F> {
    finders: Vec<F>,
}

impl<F: StaticFinder> StaticFilesConfig<F> {
    /// The number of finders.
    pub closed spec fn finder_count(&self) -> nat {
        self.finders@.len()
    }

    /// The finder asked `i`-th.
    pub closed spec fn finder(&self, i: int) -> F {
        self.finders@[i]
    }

    /// A configuration without finders.
    pub fn new() -> (r: Self)
        ensures
            r.finder_count() == 0,
    {
        StaticFilesConfig { finders: Vec::new() }
    }

    /// The same configuration with `finder` searched last.
    pub fn with_finder(self, finder: F) -> (r: Self)
        ensures
            r.finder_count() == self.finder_count() + 1,
            r.finder(self.finder_count() as int) == finder,
            forall|i: int| 0 <= i < self.finder_count() ==> r.finder(i) == #[trigger] self.finder(i),
    {
        let mut finders = self.finders;
        finders.push(finder);
        StaticFilesConfig { finders }
    }

    /// The first path a finder gives for `path`, asking the finders in order;
    /// `None` when none has it (in particular, when there are no finders).
    pub fn find(&self, path: &str) -> (r: Option<PathBuf>)
        ensures
            self.finder_count() == 0 ==> r is None,
    {
        let mut i: usize = 0;
        while i < self.finders.len()
            invariant
                i <= self.finders@.len(),
            decreases self.finders.len() - i,
        {
            let found = self.finders[i].find(path);
            if found.is_some() {
                return found;
            }
            i = i + 1;
        }
        None
    }

    /// Every finder's files under `prefix`, finder by finder; nothing when
    /// there are no finders.
    pub fn list(&self, prefix: &str) -> (r: Vec<String>)
        ensures
            self.finder_count() == 0 ==> r@.len() == 0,
    {
        let mut all: Vec<String> = Vec::new();
        let mut i: usize = 0;
        while i < self.finders.len()
            invariant
                i <= self.finders@.len(),
                i == 0 ==> all@.len() == 0,
            decreases self.finders.len() - i,
        {
            let mut found = self.finders[i].list(prefix);
            all.append(&mut found);
            i = i + 1;
        }
        all
    }
}

/// `name` is the text of some path relative to one of `dirs`.
pub open spec fn relative_to_one_of(dirs: Seq<Seq<char>>, name: Seq<char>) -> bool {
    exists|i: int, p: PathBuf| 0 <= i < dirs.len() && #[trigger] path_relative_to(p, dirs[i]) == Some(name)
}

/// A finder that looks in a list of directories, in order.
pub struct FileSystemFinder {
    directories: Vec<String>,
}

impl View for FileSystemFinder {
    type V = Seq<Seq<char>>;

    /// The directories searched, in order.
    closed spec fn view(&self) -> Seq<Seq<char>> {
        self.directories@.map_values(|d: String| d@)
    }
}

impl FileSystemFinder {
    /// A finder over `directories`, searched in the order given.
    pub fn new(directories: Vec<String>) -> (r: Self)
        ensures
            r@ == directories@.map_values(|d: String| d@),
    {
        FileSystemFinder { directories }
    }

    /// A finder over the single directory `dir`.
    pub fn with_dir(dir: &str) -> (r: Self)
        ensures
            r@ == seq![dir@],
    {
        let mut directories: Vec<String> = Vec::new();
        directories.push(owned(dir));
        let r = FileSystemFinder { directories };
        assert(r@ =~= seq![dir@]);
        r
    }
}

impl StaticFinder for FileSystemFinder {
    /// The first directory, in order, under which `path` exists, joined
    /// with `path`; `None` when there is none, in particular when there are
    /// no directories.
    fn find(&self, path: &str) -> (r: Option<PathBuf>)
        ensures
            self@.len() == 0 ==> r is None,
            r is Some ==> exists|i: int| 0 <= i < self@.len() && r->0 == joined_path(#[trigger] self@[i], path@),
    {
        let mut i: usize = 0;
        while i < self.directories.len()
            invariant
                i <= self.directories@.len(),
            decreases self.directories.len() - i,
        {
            let full = path_join(self.directories[i].as_str(), path);
            if path_exists(&full) {
                assert(self@[i as int] == self.directories@[i as int]@);
                return Some(full);
            }
            i = i + 1;
        }
        None
    }

    /// For each directory in order, the entries of its subdirectory
    /// `prefix`, relative to that directory; nothing when there are no
    /// directories.
    fn list(&self, prefix: &str) -> (r: Vec<String>)
        ensures
            self@.len() == 0 ==> r@.len() == 0,
            forall|k: int| 0 <= k < r@.len() ==> relative_to_one_of(self@, #[trigger] r@[k]@),
    {
        let mut results: Vec<String> = Vec::new();
        let mut i: usize = 0;
        while i < self.directories.len()
            invariant
                i <= self.directories@.len(),
                i == 0 ==> results@.len() == 0,
                forall|k: int| 0 <= k < results@.len() ==> relative_to_one_of(self@, #[trigger] results@[k]@),
            decreases self.directories.len() - i,
        {
            let dir = self.directories[i].as_str();
            assert(self@[i as int] == dir@);
            let search_dir = path_join(dir, prefix);
            if path_is_dir(&search_dir) {
                let entries = read_dir_paths(&search_dir);
                let mut j: usize = 0;
                while j < entries.len()
                    invariant
                        j <= entries@.len(),
                        i < self.directories@.len(),
                        self@[i as int] == dir@,
                        forall|k: int| 0 <= k < results@.len() ==> relative_to_one_of(self@, #[trigger] results@[k]@),
                    decreases entries.len() - j,
                {
                    match relative_path(&entries[j], dir) {
                        Some(rel) => {
                            let ghost e = entries@[j as int];
                            results.push(rel);
                            assert(path_relative_to(e, self@[i as int]) == Some(results@[results@.len() - 1]@));
                            assert(relative_to_one_of(self@, results@[results@.len() - 1]@));
                        },
                        None => {},
                    }
                    j = j + 1;
                }
            }
            i = i + 1;
        }
        results
    }
}

/// A configuration with one finder, over the directory `static_dir`.
pub fn default_static_config(static_dir: &str) -> (r: StaticFilesConfig<FileSystemFinder>)
    ensures
        r.finder_count() == 1,
        r.finder(0)@ == seq![static_dir@],
{
    let config = StaticFilesConfig::new();
    config.with_finder(FileSystemFinder::with_dir(static_dir))
}

} // verus!
