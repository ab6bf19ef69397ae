//! Packages as the descriptor evaluator hands them over, and their dependencies.
use vstd::prelude::*;

use crate::text::{first_index_of, last_index_of};

verus! {

#[derive(Debug)]
pub struct Package {
    /// String used to identify the package.
    /// Must be unique.
    pub id: String,
    /// Name of the package that will be displayed to user.
    /// Defaults to id.
    pub name: String,
    /// Version of the package.
    pub version: String,
    /// Description of the package.
    pub description: String,
    /// Author of the package.
    pub authors: Vec<String>,
    /// Dependencies required to build the package.
    pub build_deps: Vec<Dependency>,
    /// Dependencies required to run the binary built from the package.
    pub runtime_deps: Vec<Dependency>,
    /// Path to the source directory of the package inside the sandbox.
    pub src: Src,
    /// List of files expected in the build output directory.
    pub expected_output: Vec<String>,
    /// The nushell script that will be ran for the build stage.
    pub build: String,
    /// The nushell script that will be ran for the install stage.
    pub install: String,
    /// Path to the package file, when it was read from the local disk.
    pub path: Option<String>,
}

impl Package {
    /// Completes a freshly evaluated package: an empty name becomes the id,
    /// and the path of the document it came from is recorded.
    pub fn complete(self, document: Option<String>) -> (r: Package)
        ensures
            r.name@ == (if self.name@.len() == 0 {
                self.id@
            } else {
                self.name@
            }),
            r.path == document,
            r.id == self.id,
            r.version == self.version,
            r.description == self.description,
            r.authors == self.authors,
            r.build_deps == self.build_deps,
            r.runtime_deps == self.runtime_deps,
            r.src == self.src,
            r.expected_output == self.expected_output,
            r.build == self.build,
            r.install == self.install,
    {
        let mut package = self;
        if package.name.unicode_len() == 0 {
            package.name = package.id.clone();
        }
        package.path = document;
        package
    }
}

#[derive(Debug)]
pub enum Src {
    /// A directory on the local disk, absolute or relative to the package document.
    Path(String),
    /// A remote git repository.
    Git(String),
}

impl Src {
    /// What a source text denotes: a local path where something exists at
    /// it, a git location otherwise. This is a guess: a local path that is
    /// missing for the moment is taken for a git location.
    pub fn from_text(text: String, exists_locally: bool) -> (r: Src)
        ensures
            r == (if exists_locally {
                Src::Path(text)
            } else {
                Src::Git(text)
            }),
    {
        if exists_locally {
            Src::Path(text)
        } else {
            Src::Git(text)
        }
    }

    /// The source's text form: the path or the URL.
    pub fn to_text(&self) -> (r: String)
        ensures
            r@ == match self {
                Src::Path(p) => p@,
                Src::Git(u) => u@,
            },
    {
        match self {
            Src::Path(p) => p.clone(),
            Src::Git(u) => u.clone(),
        }
    }
}

#[derive(Debug)]
pub struct Dependency {
    pub id: String,
    pub version: Option<String>,
}

/// The text form of a dependency: `id@version`, or `id` alone where the
/// version is absent or empty.
pub open spec fn dependency_text(id: Seq<char>, version: Option<Seq<char>>) -> Seq<char> {
    match version {
        Some(v) => if v.len() > 0 {
            id + seq!['@'] + v
        } else {
            id
        },
        None => id,
    }
}

/// The id that a dependency text names: what comes before its first `'@'`.
pub open spec fn dependency_id(s: Seq<char>) -> Seq<char> {
    let k = first_index_of(s, '@');
    if 0 <= k <= s.len() {
        s.subrange(0, k)
    } else {
        s
    }
}

/// The version that a dependency text names: what comes after its last
/// `'@'`, if it has one.
pub open spec fn dependency_version(s: Seq<char>) -> Option<Seq<char>> {
    let k = last_index_of(s, '@');
    if 0 <= k < s.len() {
        Some(s.subrange(k + 1, s.len() as int))
    } else {
        None
    }
}

pub open spec fn opt_view(o: Option<String>) -> Option<Seq<char>> {
    match o {
        Some(s) => Some(s@),
        None => None,
    }
}

impl Dependency {
    /// Writes the dependency as `id@version`, or as `id` alone.
    pub fn to_text(&self) -> (r: String)
        ensures
            r@ == dependency_text(self.id@, opt_view(self.version)),
    {
        proof {
            reveal_strlit("@");
        }
        match &self.version {
            Some(v) => {
                if v.unicode_len() > 0 {
                    let mut s = self.id.clone();
                    s.append("@");
                    s.append(v.as_str());
                    s
                } else {
                    self.id.clone()
                }
            },
            None => self.id.clone(),
        }
    }

    /// Reads a dependency text: the id ends at the first `'@'`, and the
    /// version is what follows the last one.
    pub fn parse(text: &str) -> (r: Dependency)
        ensures
            r.id@ == dependency_id(text@),
            opt_view(r.version) == dependency_version(text@),
    {
        let n = text.unicode_len();
        let mut first: usize = n;
        let mut last: usize = n;
        let mut i: usize = 0;
        while i < n
            invariant
                n == text@.len(),
                i <= n,
                first <= n && last <= n,
                (first == n) == (last == n),
                first == n ==> forall|j: int| 0 <= j < i ==> text@[j] != '@',
                first < n ==> first < i && text@[first as int] == '@' && forall|j: int|
                    0 <= j < first ==> text@[j] != '@',
                last == n ==> forall|j: int| 0 <= j < i ==> text@[j] != '@',
                last < n ==> last < i && text@[last as int] == '@' && forall|j: int|
                    last < j < i ==> text@[j] != '@',
            decreases n - i,
        {
            if text.get_char(i) == '@' {
                if first == n {
                    first = i;
                }
                last = i;
            }
            i = i + 1;
        }
        proof {
            if first < n {
                crate::text::lemma_first_index_at(text@, '@', first as int);
                crate::text::lemma_last_index_at(text@, '@', last as int);
            } else {
                crate::text::lemma_first_index_none(text@, '@');
                crate::text::lemma_last_index_none(text@, '@');
            }
        }
        let id = text.substring_char(0, first).to_owned();
        let version = if last < n {
            Some(text.substring_char(last + 1, n).to_owned())
        } else {
            None
        };
        Dependency { id, version }
    }
}

/// A dependency whose id holds no `'@'`, and whose version, if any, is
/// non-empty and holds no `'@'`, reads back from its text form unchanged.
pub proof fn lemma_dependency_round_trip(id: Seq<char>, version: Option<Seq<char>>)
    requires
        forall|i: int| 0 <= i < id.len() ==> id[i] != '@',
        version matches Some(v) ==> v.len() > 0 && forall|i: int| 0 <= i < v.len() ==> v[i] != '@',
    ensures
        dependency_id(dependency_text(id, version)) == id,
        dependency_version(dependency_text(id, version)) == version,
{
    let s = dependency_text(id, version);
    match version {
        Some(v) => {
            let p = id.len() as int;
            assert(s[p] == '@');
            assert forall|j: int| 0 <= j < p implies s[j] != '@' by {
                assert(s[j] == id[j]);
            }
            assert forall|j: int| p < j < s.len() implies s[j] != '@' by {
                assert(s[j] == v[j - p - 1]);
            }
            crate::text::lemma_first_index_at(s, '@', p);
            crate::text::lemma_last_index_at(s, '@', p);
            assert(s.subrange(0, p) =~= id);
            assert(s.subrange(p + 1, s.len() as int) =~= v);
        },
        None => {
            crate::text::lemma_first_index_none(s, '@');
            crate::text::lemma_last_index_none(s, '@');
        },
    }
}

} // verus!
