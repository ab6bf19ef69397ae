//! Installing a package into the store, one driver action at a time.
use vstd::prelude::*;

use crate::error::PackageManagerError;
use crate::event::Event;
use crate::package::{Package, Src};
use crate::paths::{absolute, directory, directory_of, is_absolute, is_strictly_inside, join, joined, strictly_inside};
use crate::store::{entry_name, entry_path, links_path, lock_step, Action, Ending, LockStep, LockWatch, Outcome, SANDBOX_UID};
use crate::text::listed_entries;
use crate::{store_path, PackageManager};

verus! {

/// Where an install stands: the action it asked for last is the one whose
/// outcome it waits for.
#[derive(Debug, Clone, Copy, PartialEq, Eq, Structural)]
pub enum InstallStage {
    Start,
    Lock,
    Recheck,
    Allocate,
    TakeStore,
    Taken,
    CheckSlot,
    MadeSlot,
    MadeBin,
    MadeLib,
    MadeLinks,
    Canonical,
    Copied,
    Sandboxed,
    Release,
    Report,
}

/// The staged-source area of the store.
pub open spec fn staging_area_path(root: Seq<char>) -> Seq<char> {
    joined(store_path(root), "src"@)
}

/// One install of one package. A failed install leaves its store entry as far
/// as it got; nothing is rolled back. The exit status of the scripts is not
/// looked at.
#[derive(Debug)]
pub struct Install {
    pub package: Package,
    /// The package's store entry.
    pub slot: String,
    /// The store's staged-source area.
    pub staging_area: String,
    /// Where the package's source is staged.
    pub staged: String,
    pub stage: InstallStage,
    pub lock: LockWatch,
    pub ending: Ending,
}

/// The outcomes that an install accepts in each stage.
pub open spec fn install_accepts(stage: InstallStage, outcome: Outcome) -> bool {
    match stage {
        InstallStage::Start => true,
        InstallStage::Lock | InstallStage::CheckSlot => outcome is Flag || outcome is Failed,
        InstallStage::Canonical => outcome is Path || outcome is Failed,
        _ => outcome is Done || outcome is Failed,
    }
}

/// The stages in which the store may still be held.
pub open spec fn before_release(stage: InstallStage) -> bool {
    !(stage is Release || stage is Report)
}

/// Everything but the stage, the lock watch and the ending stays.
pub open spec fn install_keeps(a: Install, b: Install) -> bool {
    &&& b.package == a.package
    &&& b.slot == a.slot
    &&& b.staging_area == a.staging_area
    &&& b.staged == a.staged
}

/// The install fails with `e`: the store is released, then `e` is reported.
pub open spec fn install_fails(a: Install, b: Install, r: Action, e: PackageManagerError) -> bool {
    &&& r == Action::SetStoreImmutable(true)
    &&& b.stage is Release
    &&& b.ending.failure == Some(e)
    &&& b.ending.release_failure == a.ending.release_failure
    &&& b.lock == a.lock
}

/// The install moves to stage `s` with action `r`, nothing else changing.
pub open spec fn install_moves(a: Install, b: Install, s: InstallStage) -> bool {
    &&& b.stage == s
    &&& b.ending == a.ending
    &&& b.lock == a.lock
}

/// The build and install scripts are run inside the store entry.
pub open spec fn install_sandboxes(a: Install, b: Install, r: Action) -> bool {
    &&& r matches Action::RunSandbox { root, uid, build, install } && root@ == a.slot@ && uid
        == SANDBOX_UID && build@ == a.package.build@ && install@ == a.package.install@
    &&& install_moves(a, b, InstallStage::Sandboxed)
}

/// With the source at `src`: copied to the staged location unless it is
/// already inside the staged-source area, then sandboxed.
pub open spec fn install_stages_source(a: Install, b: Install, r: Action, src: Seq<char>) -> bool {
    if strictly_inside(src, a.staging_area@) {
        install_sandboxes(a, b, r)
    } else {
        &&& r matches Action::CopySource { from, to } && from@ == src && to@ == a.staged@
        &&& install_moves(a, b, InstallStage::Copied)
    }
}

/// The ending reports its next error, or finishes.
pub open spec fn install_reports(a: Ending, b: Ending, r: Action) -> bool {
    match a.release_failure {
        Some(e) => r == Action::Send(Event::Error(e)) && b.release_failure is None && b.failure
            == a.failure,
        None => match a.failure {
            Some(e) => r == Action::Send(Event::Error(e)) && b.failure is None
                && b.release_failure is None,
            None => r is Finish && b.failure is None && b.release_failure is None,
        },
    }
}

/// One step of an install: given the outcome of the last action, the next
/// action and the install's new state.
pub open spec fn install_step(a: Install, outcome: Outcome, b: Install, r: Action) -> bool {
    &&& install_keeps(a, b)
    &&& match outcome {
        Outcome::Failed(e) => if before_release(a.stage) {
            install_fails(a, b, r, e)
        } else if a.stage is Release {
            b.stage is Report && b.lock == a.lock && install_reports(
                Ending { failure: a.ending.failure, release_failure: Some(e) },
                b.ending,
                r,
            )
        } else {
            b.stage is Report && b.lock == a.lock && install_reports(a.ending, b.ending, r)
        },
        _ => match a.stage {
            InstallStage::Start => r == Action::ReadLock { sleep_first: false } && install_moves(
                a,
                b,
                InstallStage::Lock,
            ),
            InstallStage::Lock => {
                let flag = outcome matches Outcome::Flag(f) && f;
                &&& b.lock.waited == (a.lock.waited || !flag)
                &&& b.ending == a.ending
                &&& match lock_step(a.lock.waited, flag) {
                    LockStep::Take => r == Action::Send(Event::AllocatingInStore)
                        && b.stage is TakeStore,
                    LockStep::AnnounceUnlocked => r == Action::Send(Event::Unlocked)
                        && b.stage is Allocate,
                    LockStep::AnnounceWait => r == Action::Send(Event::AwaitingUnlock)
                        && b.stage is Recheck,
                    LockStep::Sleep => r == Action::ReadLock { sleep_first: true } && b.stage is Lock,
                }
            },
            InstallStage::Recheck => r == Action::ReadLock { sleep_first: false } && install_moves(
                a,
                b,
                InstallStage::Lock,
            ),
            InstallStage::Allocate => r == Action::Send(Event::AllocatingInStore) && install_moves(
                a,
                b,
                InstallStage::TakeStore,
            ),
            InstallStage::TakeStore => r == Action::SetStoreImmutable(false) && install_moves(
                a,
                b,
                InstallStage::Taken,
            ),
            InstallStage::Taken => (r matches Action::CheckExists(p) && p@ == a.slot@)
                && install_moves(a, b, InstallStage::CheckSlot),
            InstallStage::CheckSlot => if outcome matches Outcome::Flag(f) && f {
                install_fails(a, b, r, PackageManagerError::PackageAlreadyInstalled)
            } else {
                (r matches Action::CreateDirAll(p) && p@ == a.slot@) && install_moves(
                    a,
                    b,
                    InstallStage::MadeSlot,
                )
            },
            InstallStage::MadeSlot => (r matches Action::CreateDirAll(p) && p@ == joined(
                a.slot@,
                "bin"@,
            )) && install_moves(a, b, InstallStage::MadeBin),
            InstallStage::MadeBin => (r matches Action::CreateDirAll(p) && p@ == joined(
                a.slot@,
                "lib"@,
            )) && install_moves(a, b, InstallStage::MadeLib),
            InstallStage::MadeLib => (r matches Action::CreateEmptyFile(p) && p@ == joined(
                a.slot@,
                "links"@,
            )) && install_moves(a, b, InstallStage::MadeLinks),
            InstallStage::MadeLinks => match a.package.src {
                Src::Git(_) => install_fails(a, b, r, PackageManagerError::GitSourceUnsupported),
                Src::Path(p) => if absolute(p@) {
                    install_stages_source(a, b, r, p@)
                } else {
                    match a.package.path {
                        Some(doc) => (r matches Action::Canonicalize(q) && q@ == joined(
                            directory_of(doc@),
                            p@,
                        )) && install_moves(a, b, InstallStage::Canonical),
                        None => install_fails(
                            a,
                            b,
                            r,
                            PackageManagerError::LocalPathOnRemotePackage,
                        ),
                    }
                },
            },
            InstallStage::Canonical => match outcome {
                Outcome::Path(p) => install_stages_source(a, b, r, p@),
                _ => true,
            },
            InstallStage::Copied => install_sandboxes(a, b, r),
            InstallStage::Sandboxed => r == Action::SetStoreImmutable(true) && install_moves(
                a,
                b,
                InstallStage::Release,
            ),
            InstallStage::Release => b.stage is Report && b.lock == a.lock && install_reports(
                a.ending,
                b.ending,
                r,
            ),
            InstallStage::Report => b.stage is Report && b.lock == a.lock && install_reports(
                a.ending,
                b.ending,
                r,
            ),
        },
    }
}

impl PackageManager {
    /// Starts installing `package`. Drive the install with `Install::next`,
    /// starting from `Outcome::Done`.
    pub fn install(&self, package: Package) -> (r: Install)
        ensures
            r.package == package,
            r.slot@ == entry_path(self.root@, package.id@, package.version@),
            r.staging_area@ == staging_area_path(self.root@),
            r.staged@ == joined(staging_area_path(self.root@), entry_name(package.id@, package.version@)),
            r.stage is Start,
            !r.lock.waited,
            r.ending.failure is None,
            r.ending.release_failure is None,
    {
        let slot = self.store_entry(package.id.as_str(), package.version.as_str());
        let staging_area = join(self.store().as_str(), "src");
        let name = Self::store_entry_name(package.id.as_str(), package.version.as_str());
        let staged = join(staging_area.as_str(), name.as_str());
        Install {
            package,
            slot,
            staging_area,
            staged,
            stage: InstallStage::Start,
            lock: LockWatch::new(),
            ending: Ending::new(),
        }
    }
}

impl Install {
    /// Whether the install accepts `outcome` as the report of its last action.
    pub fn accepts(&self, outcome: &Outcome) -> (r: bool)
        ensures
            r == install_accepts(self.stage, *outcome),
    {
        match self.stage {
            InstallStage::Start => true,
            InstallStage::Lock | InstallStage::CheckSlot => match outcome {
                Outcome::Flag(_) | Outcome::Failed(_) => true,
                _ => false,
            },
            InstallStage::Canonical => match outcome {
                Outcome::Path(_) | Outcome::Failed(_) => true,
                _ => false,
            },
            _ => match outcome {
                Outcome::Done | Outcome::Failed(_) => true,
                _ => false,
            },
        }
    }

    fn fail(&mut self, e: PackageManagerError) -> (r: Action)
        ensures
            install_keeps(*old(self), *final(self)),
            install_fails(*old(self), *final(self), r, e),
    {
        self.ending.failure = Some(e);
        self.stage = InstallStage::Release;
        Action::SetStoreImmutable(true)
    }

    fn sandbox(&mut self) -> (r: Action)
        ensures
            install_keeps(*old(self), *final(self)),
            install_sandboxes(*old(self), *final(self), r),
    {
        self.stage = InstallStage::Sandboxed;
        Action::RunSandbox {
            root: self.slot.clone(),
            uid: SANDBOX_UID,
            build: self.package.build.clone(),
            install: self.package.install.clone(),
        }
    }

    fn stage_source(&mut self, src: String) -> (r: Action)
        ensures
            install_keeps(*old(self), *final(self)),
            install_stages_source(*old(self), *final(self), r, src@),
    {
        if is_strictly_inside(src.as_str(), self.staging_area.as_str()) {
            self.sandbox()
        } else {
            self.stage = InstallStage::Copied;
            Action::CopySource { from: src, to: self.staged.clone() }
        }
    }

    /// Takes the outcome of the last action and gives the next action. The
    /// store is released after every failure, and the errors are reported
    /// after the release.
    pub fn next(&mut self, outcome: Outcome) -> (r: Action)
        requires
            install_accepts(old(self).stage, outcome),
        ensures
            install_step(*old(self), outcome, *final(self), r),
    {
        let outcome = match outcome {
            Outcome::Failed(e) => {
                match self.stage {
                    InstallStage::Release => {
                        self.ending.release_failure = Some(e);
                        self.stage = InstallStage::Report;
                        return self.ending.report();
                    },
                    InstallStage::Report => {
                        return self.ending.report();
                    },
                    _ => {
                        return self.fail(e);
                    },
                }
            },
            other => other,
        };
        match self.stage {
            InstallStage::Start => {
                self.stage = InstallStage::Lock;
                Action::ReadLock { sleep_first: false }
            },
            InstallStage::Lock => {
                let flag = match outcome {
                    Outcome::Flag(f) => f,
                    _ => false,
                };
                match self.lock.observe(flag) {
                    LockStep::Take => {
                        self.stage = InstallStage::TakeStore;
                        Action::Send(Event::AllocatingInStore)
                    },
                    LockStep::AnnounceUnlocked => {
                        self.stage = InstallStage::Allocate;
                        Action::Send(Event::Unlocked)
                    },
                    LockStep::AnnounceWait => {
                        self.stage = InstallStage::Recheck;
                        Action::Send(Event::AwaitingUnlock)
                    },
                    LockStep::Sleep => {
                        self.stage = InstallStage::Lock;
                        Action::ReadLock { sleep_first: true }
                    },
                }
            },
            InstallStage::Recheck => {
                self.stage = InstallStage::Lock;
                Action::ReadLock { sleep_first: false }
            },
            InstallStage::Allocate => {
                self.stage = InstallStage::TakeStore;
                Action::Send(Event::AllocatingInStore)
            },
            InstallStage::TakeStore => {
                self.stage = InstallStage::Taken;
                Action::SetStoreImmutable(false)
            },
            InstallStage::Taken => {
                self.stage = InstallStage::CheckSlot;
                Action::CheckExists(self.slot.clone())
            },
            InstallStage::CheckSlot => {
                let exists = match outcome {
                    Outcome::Flag(f) => f,
                    _ => false,
                };
                if exists {
                    self.fail(PackageManagerError::PackageAlreadyInstalled)
                } else {
                    self.stage = InstallStage::MadeSlot;
                    Action::CreateDirAll(self.slot.clone())
                }
            },
            InstallStage::MadeSlot => {
                self.stage = InstallStage::MadeBin;
                Action::CreateDirAll(join(self.slot.as_str(), "bin"))
            },
            InstallStage::MadeBin => {
                self.stage = InstallStage::MadeLib;
                Action::CreateDirAll(join(self.slot.as_str(), "lib"))
            },
            InstallStage::MadeLib => {
                self.stage = InstallStage::MadeLinks;
                Action::CreateEmptyFile(join(self.slot.as_str(), "links"))
            },
            InstallStage::MadeLinks => {
                let resolved: Option<String> = match &self.package.src {
                    Src::Git(_) => None,
                    Src::Path(p) => Some(p.clone()),
                };
                match resolved {
                    None => self.fail(PackageManagerError::GitSourceUnsupported),
                    Some(p) => {
                        if is_absolute(p.as_str()) {
                            self.stage_source(p)
                        } else {
                            let doc: Option<String> = match &self.package.path {
                                Some(d) => Some(d.clone()),
                                None => None,
                            };
                            match doc {
                                Some(d) => {
                                    let dir = directory(d.as_str());
                                    self.stage = InstallStage::Canonical;
                                    Action::Canonicalize(join(dir.as_str(), p.as_str()))
                                },
                                None => self.fail(PackageManagerError::LocalPathOnRemotePackage),
                            }
                        }
                    },
                }
            },
            InstallStage::Canonical => match outcome {
                Outcome::Path(p) => self.stage_source(p),
                _ => self.fail(PackageManagerError::LocalPathOnRemotePackage),
            },
            InstallStage::Copied => self.sandbox(),
            InstallStage::Sandboxed => {
                self.stage = InstallStage::Release;
                Action::SetStoreImmutable(true)
            },
            InstallStage::Release => {
                self.stage = InstallStage::Report;
                self.ending.report()
            },
            InstallStage::Report => self.ending.report(),
        }
    }
}

/// An install that finds no entry for its package creates the entry, its
/// `bin` and `lib` directories and an empty links file at the place where a
/// lookup of the package reads it; an empty links file lists no links.
pub proof fn lemma_install_then_lookup(
    root: Seq<char>,
    a0: Install,
    a1: Install,
    a2: Install,
    a3: Install,
    a4: Install,
    r1: Action,
    r2: Action,
    r3: Action,
    r4: Action,
)
    requires
        a0.slot@ == entry_path(root, a0.package.id@, a0.package.version@),
        a0.stage is CheckSlot,
        install_step(a0, Outcome::Flag(false), a1, r1),
        install_step(a1, Outcome::Done, a2, r2),
        install_step(a2, Outcome::Done, a3, r3),
        install_step(a3, Outcome::Done, a4, r4),
    ensures
        r1 matches Action::CreateDirAll(p) && p@ == entry_path(root, a0.package.id@, a0.package.version@),
        r2 matches Action::CreateDirAll(p) && p@ == joined(a0.slot@, "bin"@),
        r3 matches Action::CreateDirAll(p) && p@ == joined(a0.slot@, "lib"@),
        r4 matches Action::CreateEmptyFile(p) && p@ == links_path(root, a0.package.id@, a0.package.version@),
        a4.stage is MadeLinks,
        a4.ending == a0.ending,
        listed_entries(Seq::<char>::empty()).len() == 0,
{
    assert(crate::text::last_index_of(Seq::<char>::empty(), '\n') == -1);
}

/// An install that finds its package's entry already there fails with
/// `PackageAlreadyInstalled`, and does nothing to the store afterwards but
/// release it.
pub proof fn lemma_install_twice_refused(
    a0: Install,
    a1: Install,
    a2: Install,
    a3: Install,
    r1: Action,
    r2: Action,
    r3: Action,
)
    requires
        a0.stage is CheckSlot,
        a0.ending.failure is None,
        a0.ending.release_failure is None,
        install_step(a0, Outcome::Flag(true), a1, r1),
        install_step(a1, Outcome::Done, a2, r2),
        install_step(a2, Outcome::Done, a3, r3),
    ensures
        r1 == Action::SetStoreImmutable(true),
        r2 == Action::Send(Event::Error(PackageManagerError::PackageAlreadyInstalled)),
        r3 is Finish,
{
}

/// Consecutive steps of an install, each fed an outcome it accepts.
pub open spec fn install_run(states: Seq<Install>, outcomes: Seq<Outcome>, actions: Seq<Action>) -> bool {
    &&& states.len() == actions.len() + 1
    &&& outcomes.len() == actions.len()
    &&& forall|i: int|
        0 <= i < actions.len() ==> install_accepts(#[trigger] states[i].stage, outcomes[i])
            && install_step(states[i], outcomes[i], states[i + 1], actions[i])
}

/// An install that has finished released the store on its way: whatever
/// failed, the store's immutable flag was set again before the end.
pub proof fn lemma_install_releases_before_finish(
    states: Seq<Install>,
    outcomes: Seq<Outcome>,
    actions: Seq<Action>,
)
    requires
        install_run(states, outcomes, actions),
        actions.len() > 0,
        before_release(states[0].stage),
        actions.last() is Finish,
    ensures
        exists|k: int|
            0 <= k < actions.len() - 1 && actions[k] == Action::SetStoreImmutable(true)
                && states[k + 1].stage is Release,
{
    let n = actions.len() as int;
    assert(install_accepts(states[n - 1].stage, outcomes[n - 1]));
    assert(!before_release(states[n - 1].stage));
    lemma_install_leaves_hold(states, outcomes, actions, 0);
}

proof fn lemma_install_leaves_hold(
    states: Seq<Install>,
    outcomes: Seq<Outcome>,
    actions: Seq<Action>,
    i: int,
)
    requires
        install_run(states, outcomes, actions),
        0 <= i < actions.len(),
        before_release(states[i].stage),
        !before_release(states[actions.len() - 1].stage),
    ensures
        exists|k: int|
            i <= k < actions.len() - 1 && actions[k] == Action::SetStoreImmutable(true)
                && states[k + 1].stage is Release,
    decreases actions.len() - i,
{
    assert(install_accepts(states[i].stage, outcomes[i]));
    if before_release(states[i + 1].stage) {
        lemma_install_leaves_hold(states, outcomes, actions, i + 1);
    } else {
        assert(actions[i] == Action::SetStoreImmutable(true) && states[i + 1].stage is Release);
    }
}

/// An install announces `AwaitingUnlock` at most once.
pub proof fn lemma_install_waits_announced_once(
    states: Seq<Install>,
    outcomes: Seq<Outcome>,
    actions: Seq<Action>,
    i: int,
    j: int,
)
    requires
        install_run(states, outcomes, actions),
        0 <= i <= j < actions.len(),
        actions[i] == Action::Send(Event::AwaitingUnlock),
        actions[j] == Action::Send(Event::AwaitingUnlock),
    ensures
        i == j,
{
    assert(install_accepts(states[i].stage, outcomes[i]));
    assert(install_accepts(states[j].stage, outcomes[j]));
    if i < j {
        lemma_install_waited_stays(states, outcomes, actions, i + 1, j);
    }
}

proof fn lemma_install_waited_stays(
    states: Seq<Install>,
    outcomes: Seq<Outcome>,
    actions: Seq<Action>,
    i: int,
    j: int,
)
    requires
        install_run(states, outcomes, actions),
        0 < i <= j < actions.len(),
        states[i].lock.waited,
    ensures
        states[j].lock.waited,
    decreases j - i,
{
    if i < j {
        assert(install_accepts(states[i].stage, outcomes[i]));
        lemma_install_waited_stays(states, outcomes, actions, i + 1, j);
    }
}

} // verus!
