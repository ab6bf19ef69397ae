//! A package store for an operating system: the decisions of its store lock,
//! generations, install, removal and garbage collection, over plain values.
//! Whoever drives the library performs the filesystem and process work that
//! these decisions call for and reports back what it found.
use vstd::prelude::*;

pub mod cli;
pub mod error;
pub mod event;
pub mod generations;
pub mod package;
pub mod paths;
pub mod store;
pub mod text;

use crate::paths::{join, joined};

verus! {

/// Where the store lives under a root.
pub open spec fn store_path(root: Seq<char>) -> Seq<char> {
    joined(root, "store"@)
}

/// Where the generations live under a root.
pub open spec fn generations_path(root: Seq<char>) -> Seq<char> {
    joined(root, "system/generations"@)
}

/// Where the active configuration is linked under a root.
pub open spec fn config_path(root: Seq<char>) -> Seq<char> {
    joined(root, "config"@)
}

/// The directories that a complete root holds.
pub open spec fn required_paths_of(root: Seq<char>) -> Seq<Seq<char>> {
    seq![joined(root, "store/src"@), joined(root, "system/generations"@), joined(root, "home/root"@)]
}

/// The package manager of one root filesystem.
#[derive(Debug)]
pub struct PackageManager {
    /// The root filesystem that the store, generations and links live in.
    pub root: String,
}

impl Default for PackageManager {
    fn default() -> (r: Self)
        ensures
            r.root@ == "/"@,
    {
        PackageManager { root: "/".to_owned() }
    }
}

impl PackageManager {
    /// A manager of the root filesystem `/`.
    pub fn new() -> (r: Self)
        ensures
            r.root@ == "/"@,
    {
        PackageManager { root: "/".to_owned() }
    }

    pub fn new_with_root(root: &str) -> (r: Self)
        ensures
            r.root@ == root@,
    {
        PackageManager { root: root.to_owned() }
    }

    /// The same manager, on another root.
    pub fn root(self, root: &str) -> (r: Self)
        ensures
            r.root@ == root@,
    {
        PackageManager { root: root.to_owned() }
    }

    /// The path to the package store.
    pub fn store(&self) -> (r: String)
        ensures
            r@ == store_path(self.root@),
    {
        join(self.root.as_str(), "store")
    }

    /// The path to the system generations.
    pub fn generations(&self) -> (r: String)
        ensures
            r@ == generations_path(self.root@),
    {
        join(self.root.as_str(), "system/generations")
    }

    /// The path to the active configuration.
    pub fn config(&self) -> (r: String)
        ensures
            r@ == config_path(self.root@),
    {
        join(self.root.as_str(), "config")
    }

    /// The store, relative to the root.
    pub fn store_raw() -> (r: &'static str)
        ensures
            r@ == "store"@,
    {
        "store"
    }

    /// The generations, relative to the root.
    pub fn generations_raw() -> (r: &'static str)
        ensures
            r@ == "system/generations"@,
    {
        "system/generations"
    }

    /// The active configuration, relative to the root.
    pub fn config_raw() -> (r: &'static str)
        ensures
            r@ == "config"@,
    {
        "config"
    }

    /// The directories that must exist for the root to be complete.
    pub fn required_paths(&self) -> (r: Vec<String>)
        ensures
            crate::text::views(r@) == required_paths_of(self.root@),
    {
        let root = self.root.as_str();
        let r = vec![join(root, "store/src"), join(root, "system/generations"), join(root, "home/root")];
        assert(crate::text::views(r@) =~= required_paths_of(self.root@));
        r
    }

    /// Whether the root is complete, given for each of `required_paths`
    /// whether it exists.
    pub fn check_root(present: &Vec<bool>) -> (r: bool)
        ensures
            r == forall|i: int| 0 <= i < present@.len() ==> #[trigger] present@[i],
    {
        let mut i: usize = 0;
        while i < present.len()
            invariant
                i <= present@.len(),
                forall|j: int| 0 <= j < i ==> #[trigger] present@[j],
            decreases present@.len() - i,
        {
            if !present[i] {
                return false;
            }
            i = i + 1;
        }
        true
    }
}

} // verus!
