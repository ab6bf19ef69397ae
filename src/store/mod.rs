//! The package store: its entries, its lock, and the protocol by which an
//! install or a removal asks its driver for filesystem work.
use vstd::prelude::*;

use crate::error::PackageManagerError;
use crate::event::Event;
use crate::paths::{join, joined};
use crate::text::{list_entries, listed_entries, views};
use crate::{store_path, PackageManager};

pub mod gc;
pub mod install;
pub mod remove;

verus! {

/// Seconds to wait between two looks at a busy store's lock.
pub const LOCK_POLL_INTERVAL_SECS: u64 = 1;

/// The user id that package scripts run as in the sandbox.
pub const SANDBOX_UID: u32 = 1000;

/// The name of the store entry of a package: `id-version`.
pub open spec fn entry_name(id: Seq<char>, version: Seq<char>) -> Seq<char> {
    id + seq!['-'] + version
}

/// The directory of a package's store entry.
pub open spec fn entry_path(root: Seq<char>, id: Seq<char>, version: Seq<char>) -> Seq<char> {
    joined(store_path(root), entry_name(id, version))
}

/// The links file of a package's store entry.
pub open spec fn links_path(root: Seq<char>, id: Seq<char>, version: Seq<char>) -> Seq<char> {
    joined(entry_path(root, id, version), "links"@)
}

/// The garbage list of the store.
pub open spec fn garbage_path(root: Seq<char>) -> Seq<char> {
    joined(store_path(root), "garbage"@)
}

/// An installed package, as its store entry shows it.
#[derive(Debug)]
pub struct StoreItem {
    pub id: String,
    pub version: String,
    /// The paths, relative to the root, that were linked when it was activated.
    pub links: Vec<String>,
}

impl PackageManager {
    /// The name of the store entry of a package.
    pub fn store_entry_name(id: &str, version: &str) -> (r: String)
        ensures
            r@ == entry_name(id@, version@),
    {
        proof {
            reveal_strlit("-");
        }
        let mut name = id.to_owned();
        name.append("-");
        name.append(version);
        name
    }

    /// The directory of a package's store entry.
    pub fn store_entry(&self, id: &str, version: &str) -> (r: String)
        ensures
            r@ == entry_path(self.root@, id@, version@),
    {
        let name = Self::store_entry_name(id, version);
        join(self.store().as_str(), name.as_str())
    }

    /// The links file of a package's store entry.
    pub fn links_file(&self, id: &str, version: &str) -> (r: String)
        ensures
            r@ == links_path(self.root@, id@, version@),
    {
        join(self.store_entry(id, version).as_str(), "links")
    }

    /// The garbage list of the store.
    pub fn garbage_file(&self) -> (r: String)
        ensures
            r@ == garbage_path(self.root@),
    {
        join(self.store().as_str(), "garbage")
    }

    /// The store item of `id` and `version`, given the text of its links
    /// file, or `None` where the entry or its links file could not be read.
    pub fn get_store_item(id: &str, version: &str, links: Option<&str>) -> (r: Option<StoreItem>)
        ensures
            match links {
                None => r is None,
                Some(text) => r matches Some(item) && item.id@ == id@ && item.version@ == version@
                    && views(item.links@) == listed_entries(text@),
            },
    {
        match links {
            None => None,
            Some(text) => Some(
                StoreItem { id: id.to_owned(), version: version.to_owned(), links: list_entries(text) },
            ),
        }
    }
}

/// What the store lock asks for after a look at the store's immutable flag.
#[derive(Debug, Clone, Copy, PartialEq, Eq, Structural)]
pub enum LockStep {
    /// The store is free and nobody waited: take it.
    Take,
    /// The store became free after a wait: report `Unlocked`, then take it.
    AnnounceUnlocked,
    /// The store is busy: report `AwaitingUnlock`, then look again.
    AnnounceWait,
    /// The store is still busy: sleep a poll interval, then look again.
    Sleep,
}

/// The store is at rest while it is immutable; a mutable store is being
/// changed by someone. Watching it tells a would-be holder when to take it.
/// Looking and taking are two separate steps, so two processes can both find
/// the store at rest and both take it: this race is accepted. Nothing bounds
/// the wait either; a holder that never lets go keeps the others waiting.
#[derive(Debug, Clone, Copy, PartialEq, Eq, Structural)]
pub struct LockWatch {
    /// Whether the store was found busy at some look.
    pub waited: bool,
}

pub open spec fn lock_step(waited: bool, immutable: bool) -> LockStep {
    if immutable {
        if waited {
            LockStep::AnnounceUnlocked
        } else {
            LockStep::Take
        }
    } else if waited {
        LockStep::Sleep
    } else {
        LockStep::AnnounceWait
    }
}

impl LockWatch {
    pub fn new() -> (r: Self)
        ensures
            !r.waited,
    {
        LockWatch { waited: false }
    }

    /// Takes a look at the store's immutable flag.
    pub fn observe(&mut self, immutable: bool) -> (r: LockStep)
        ensures
            r == lock_step(old(self).waited, immutable),
            final(self).waited == (old(self).waited || !immutable),
    {
        let r = if immutable {
            if self.waited {
                LockStep::AnnounceUnlocked
            } else {
                LockStep::Take
            }
        } else if self.waited {
            LockStep::Sleep
        } else {
            LockStep::AnnounceWait
        };
        if !immutable {
            self.waited = true;
        }
        r
    }
}

/// A piece of work that an install or a removal asks its driver to do,
/// with what the driver reports back when it is done.
#[derive(Debug)]
pub enum Action {
    /// Read the store's immutable flag, after a poll interval's sleep if
    /// `sleep_first`; report `Flag`.
    ReadLock { sleep_first: bool },
    /// Send the event to the consumer; report `Done`.
    Send(Event),
    /// Set or clear the store's immutable flag; report `Done` or `Failed`.
    SetStoreImmutable(bool),
    /// Report as `Flag` whether something exists at the path.
    CheckExists(String),
    /// Create the directory and its parents; report `Done` or `Failed`.
    CreateDirAll(String),
    /// Create an empty file; report `Done` or `Failed`.
    CreateEmptyFile(String),
    /// Report as `Path` the canonical form of the path, or the path itself
    /// where it has none.
    Canonicalize(String),
    /// Copy the directory `from` to `to`, replacing what is there, and send
    /// `CopySrcProgress` events on the way; report `Done` or `Failed`.
    CopySource { from: String, to: String },
    /// Run the build script, then the install script, as user `uid` in a
    /// process whose root is the directory `root`; report `Done` once it
    /// has exited, or `Failed`.
    RunSandbox { root: String, uid: u32, build: String, install: String },
    /// Report as `Entries` the names in the store that match each pattern.
    MatchEntries { any_version: String, exact: String },
    /// Report as `Text` what the file at the path holds, or `None` where it
    /// does not exist.
    ReadFile(String),
    /// Remove the file; report `Done` or `Failed`.
    RemoveFile(String),
    /// Append the text and a newline to the file, creating it if need be;
    /// report `Done` or `Failed`.
    AppendLine { file: String, text: String },
    /// Nothing is left to do.
    Finish,
}

/// What the driver found doing the last action.
#[derive(Debug)]
pub enum Outcome {
    Done,
    Flag(bool),
    Path(String),
    Text(Option<String>),
    Entries { any_version: Vec<String>, exact: Vec<String> },
    Failed(PackageManagerError),
}

/// The end of every store operation: after the store is released, a failure
/// to release is reported first, then the failure of the operation itself.
#[derive(Debug)]
pub struct Ending {
    pub failure: Option<PackageManagerError>,
    pub release_failure: Option<PackageManagerError>,
}

impl Ending {
    pub fn new() -> (r: Self)
        ensures
            r.failure is None,
            r.release_failure is None,
    {
        Ending { failure: None, release_failure: None }
    }

    /// The next report: an error event while one is left, else `Finish`.
    pub fn report(&mut self) -> (r: Action)
        ensures
            match old(self).release_failure {
                Some(e) => r == Action::Send(Event::Error(e)) && final(self).release_failure is None
                    && final(self).failure == old(self).failure,
                None => match old(self).failure {
                    Some(e) => r == Action::Send(Event::Error(e)) && final(self).failure is None
                        && final(self).release_failure is None,
                    None => r is Finish && final(self).failure is None
                        && final(self).release_failure is None,
                },
            },
    {
        match self.release_failure.take() {
            Some(e) => Action::Send(Event::Error(e)),
            None => match self.failure.take() {
                Some(e) => Action::Send(Event::Error(e)),
                None => Action::Finish,
            },
        }
    }
}

} // verus!
