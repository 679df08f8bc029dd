//! Files held in memory, and a storage location that maps names to URLs.

use vstd::prelude::*;
use std::path::PathBuf;
use crate::text::{concat2, ends_with, owned, str_is_empty};

verus! {

/// `std::path::PathBuf`, carried opaquely.
#[verifier::external_type_specification]
#[verifier::external_body]
pub struct ExPathBuf(PathBuf);

/// `PathBuf::clone`; nothing is stated of the copy.
pub assume_specification[ <PathBuf as Clone>::clone ](p: &PathBuf) -> PathBuf;

/// The path `PathBuf::from` makes of the text `s`: a function of the text.
pub uninterp spec fn path_of(s: Seq<char>) -> PathBuf;

/// `PathBuf::from(s)`, which depends on the text alone.
#[verifier::external_body]
pub(crate) fn path_from(s: &str) -> (r: PathBuf)
    ensures
        r == path_of(s@),
{
    PathBuf::from(s)
}

/// The extension of a path's file name, as `Path::extension` gives it.
pub uninterp spec fn path_extension(name: Seq<char>) -> Option<Seq<char>>;

/// The file name without its extension, as `Path::file_stem` gives it.
pub uninterp spec fn path_stem(name: Seq<char>) -> Option<Seq<char>>;

/// `Path::new(name).extension()` read back as text: determined by `name`.
#[verifier::external_body]
fn extension_of(name: &str) -> (r: Option<&str>)
    ensures
        match r {
            Some(e) => path_extension(name@) == Some(e@),
            None => path_extension(name@) is None,
        },
{
    std::path::Path::new(name).extension().and_then(|e| e.to_str())
}

/// `Path::new(name).file_stem()` read back as text: determined by `name`.
#[verifier::external_body]
fn stem_of(name: &str) -> (r: Option<&str>)
    ensures
        match r {
            Some(e) => path_stem(name@) == Some(e@),
            None => path_stem(name@) is None,
        },
{
    std::path::Path::new(name).file_stem().and_then(|e| e.to_str())
}

/// A named file with its bytes and their count.
#[derive(Debug, Clone, PartialEq, Eq)]
pub struct File {
    pub name: String,
    pub content: Vec<u8>,
    pub size: usize,
}

impl File {
    /// A file named `name` holding `content`; its size is the byte count.
    pub fn new(content: Vec<u8>, name: &str) -> (r: Self)
        ensures
            r.name@ == name@,
            r.content@ == content@,
            r.size == content@.len(),
    {
        let size = content.len();
        File { name: owned(name), content, size }
    }

    /// The extension of the file's name.
    pub fn extension(&self) -> (r: Option<&str>)
        ensures
            match r {
                Some(e) => path_extension(self.name@) == Some(e@),
                None => path_extension(self.name@) is None,
            },
    {
        extension_of(self.name.as_str())
    }

    /// The file's name without its extension.
    pub fn stem(&self) -> (r: Option<&str>)
        ensures
            match r {
                Some(e) => path_stem(self.name@) == Some(e@),
                None => path_stem(self.name@) is None,
            },
    {
        stem_of(self.name.as_str())
    }
}

/// Files made from bytes.
pub struct ContentFile;

impl ContentFile {
    /// A file named `name` holding `content`.
    pub fn new(content: Vec<u8>, name: &str) -> (r: File)
        ensures
            r.name@ == name@,
            r.content@ == content@,
            r.size == content@.len(),
    {
        File::new(content, name)
    }
}

/// The base URL with a `/` at the end, unless it is empty or has one.
pub open spec fn normalized_base_url(base_url: Seq<char>) -> Seq<char> {
    if base_url.len() == 0 || (base_url.len() > 0 && base_url.last() == '/') {
        base_url
    } else {
        base_url + "/"@
    }
}

/// A directory that files are stored in, and the URL they are served under.
#[derive(Debug, Clone)]
pub struct FileSystemStorage {
    pub location: PathBuf,
    pub base_url: String,
}

impl FileSystemStorage {
    /// A storage at `location`, served under `base_url` (given a closing `/`).
    pub fn new(location: &str, base_url: &str) -> (r: Self)
        ensures
            r.base_url@ == normalized_base_url(base_url@),
            r.location == path_of(location@),
    {
        let base = if str_is_empty(base_url) || ends_with(base_url, "/") {
            owned(base_url)
        } else {
            concat2(base_url, "/")
        };
        proof {
            if base_url@.len() > 0 {
                reveal_strlit("/");
                assert("/"@.len() == 1 && "/"@[0] == '/');
                let tail = base_url@.subrange(base_url@.len() - 1, base_url@.len() as int);
                assert(tail[0] == base_url@.last());
                if base_url@.last() == '/' {
                    assert(tail =~= "/"@);
                }
                assert(crate::text::is_suffix("/"@, base_url@) == (base_url@.last() == '/'));
            }
        }
        FileSystemStorage { location: path_from(location), base_url: base }
    }

    /// The URL of the stored file `name`.
    pub fn url(&self, name: &str) -> (r: String)
        ensures
            r@ == self.base_url@ + name@,
    {
        concat2(self.base_url.as_str(), name)
    }
}

} // verus!
