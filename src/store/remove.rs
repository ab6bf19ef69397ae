//! Removing a package: its links go now, its store entry is left to the
//! garbage collector.
use vstd::prelude::*;

use crate::error::PackageManagerError;
use crate::event::Event;
use crate::paths::{join, joined};
use crate::store::{garbage_path, lock_step, Action, Ending, LockStep, LockWatch, Outcome};
use crate::text::{
    is_blank, keep, lemma_last_index_at, lemma_last_index_none, list_entries, listed_entries,
    strip_cr, terminated_entries, views,
};
use crate::{store_path, PackageManager};

verus! {

/// Where a removal stands.
#[derive(Debug, Clone, Copy, PartialEq, Eq, Structural)]
pub enum RemoveStage {
    Start,
    Lock,
    Recheck,
    TakeStore,
    Taken,
    Matching,
    ReadLinks,
    DroppedLinks,
    Appended,
    Unlinking,
    Release,
    Report,
}

/// One removal of the entries of one package id.
#[derive(Debug)]
pub struct Remove {
    pub root: String,
    pub store: String,
    pub id: String,
    /// The version to remove; every version where absent.
    pub version: Option<String>,
    pub stage: RemoveStage,
    pub lock: LockWatch,
    /// The store entries being removed.
    pub entries: Vec<String>,
    /// The entry whose links file is being read or dropped.
    pub next_entry: usize,
    /// The links of those entries, as paths on the live filesystem.
    pub links: Vec<String>,
    /// The link being removed.
    pub next_link: usize,
    pub ending: Ending,
}

/// The glob pattern of the store entries of `id` at `version`, or at any
/// version.
pub open spec fn entry_pattern(store: Seq<char>, id: Seq<char>, version: Option<Seq<char>>) -> Seq<char> {
    joined(
        store,
        id + seq!['-'] + match version {
            Some(v) => v,
            None => seq!['*'],
        },
    )
}

/// The lines of a record, joined by `'\n'`.
pub open spec fn lines_joined(ps: Seq<Seq<char>>) -> Seq<char>
    decreases ps.len(),
{
    if ps.len() == 0 {
        Seq::empty()
    } else if ps.len() == 1 {
        ps[0]
    } else {
        lines_joined(ps.drop_last()) + seq!['\n'] + ps.last()
    }
}

/// Root-relative paths placed on the live filesystem.
pub open spec fn rooted(root: Seq<char>, ls: Seq<Seq<char>>) -> Seq<Seq<char>> {
    ls.map_values(|l: Seq<char>| joined(root, l))
}

pub open spec fn remove_accepts(stage: RemoveStage, outcome: Outcome) -> bool {
    match stage {
        RemoveStage::Start => true,
        RemoveStage::Lock => outcome is Flag || outcome is Failed,
        RemoveStage::Matching => outcome is Entries || outcome is Failed,
        RemoveStage::ReadLinks => outcome is Text || outcome is Failed,
        _ => outcome is Done || outcome is Failed,
    }
}

pub open spec fn remove_before_release(stage: RemoveStage) -> bool {
    !(stage is Release || stage is Report)
}

pub open spec fn remove_keeps(a: Remove, b: Remove) -> bool {
    &&& b.root == a.root
    &&& b.store == a.store
    &&& b.id == a.id
    &&& b.version == a.version
}

pub open spec fn remove_fails(a: Remove, b: Remove, r: Action, e: PackageManagerError) -> bool {
    &&& r == Action::SetStoreImmutable(true)
    &&& b.stage is Release
    &&& b.ending.failure == Some(e)
    &&& b.ending.release_failure == a.ending.release_failure
    &&& b.lock == a.lock
}

/// Moves to stage `s`, the work lists staying as they are.
pub open spec fn remove_moves(a: Remove, b: Remove, s: RemoveStage) -> bool {
    &&& b.stage == s
    &&& b.ending == a.ending
    &&& b.lock == a.lock
    &&& b.entries == a.entries
    &&& b.next_entry == a.next_entry
    &&& b.links == a.links
    &&& b.next_link == a.next_link
}

/// Goes on with entry `k`: reads its links file, or, past the last entry,
/// records all entries in the garbage list.
pub open spec fn remove_advances(a: Remove, b: Remove, r: Action, k: int) -> bool {
    &&& b.ending == a.ending
    &&& b.lock == a.lock
    &&& b.entries == a.entries
    &&& b.links == a.links
    &&& b.next_link == a.next_link
    &&& if k < a.entries@.len() {
        &&& b.next_entry == k
        &&& b.stage is ReadLinks
        &&& r matches Action::ReadFile(p) && p@ == joined(a.entries@[k]@, "links"@)
    } else {
        &&& b.next_entry == a.entries@.len()
        &&& b.stage is Appended
        &&& r matches Action::AppendLine { file, text } && file@ == garbage_path(a.root@) && text@
            == lines_joined(views(a.entries@))
    }
}

/// Goes on with link `j`: removes it, or, past the last link, releases the
/// store.
pub open spec fn remove_unlinks(a: Remove, b: Remove, r: Action, j: int) -> bool {
    &&& b.lock == a.lock
    &&& b.entries == a.entries
    &&& b.next_entry == a.next_entry
    &&& b.links == a.links
    &&& b.ending == a.ending
    &&& if j < a.links@.len() {
        &&& b.next_link == j
        &&& b.stage is Unlinking
        &&& r matches Action::RemoveFile(p) && p@ == a.links@[j]@
    } else {
        &&& b.next_link == a.links@.len()
        &&& b.stage is Release
        &&& r == Action::SetStoreImmutable(true)
    }
}

pub open spec fn remove_reports(a: Ending, b: Ending, r: Action) -> bool {
    match a.release_failure {
        Some(e) => r == Action::Send(Event::Error(e)) && b.release_failure is None && b.failure
            == a.failure,
        None => match a.failure {
            Some(e) => r == Action::Send(Event::Error(e)) && b.failure is None
                && b.release_failure is None,
            None => r is Finish && b.failure is None && b.release_failure is None,
        },
    }
}

/// One step of a removal.
pub open spec fn remove_step(a: Remove, outcome: Outcome, b: Remove, r: Action) -> bool {
    &&& remove_keeps(a, b)
    &&& match outcome {
        Outcome::Failed(e) => if remove_before_release(a.stage) {
            remove_fails(a, b, r, e)
        } else if a.stage is Release {
            b.stage is Report && remove_reports(
                Ending { failure: a.ending.failure, release_failure: Some(e) },
                b.ending,
                r,
            )
        } else {
            b.stage is Report && remove_reports(a.ending, b.ending, r)
        },
        _ => match a.stage {
            RemoveStage::Start => r == Action::ReadLock { sleep_first: false } && remove_moves(
                a,
                b,
                RemoveStage::Lock,
            ),
            RemoveStage::Lock => {
                let flag = outcome matches Outcome::Flag(f) && f;
                &&& b.lock.waited == (a.lock.waited || !flag)
                &&& b.ending == a.ending
                &&& b.entries == a.entries
                &&& b.links == a.links
                &&& match lock_step(a.lock.waited, flag) {
                    LockStep::Take => r == Action::SetStoreImmutable(false) && b.stage is Taken,
                    LockStep::AnnounceUnlocked => r == Action::Send(Event::Unlocked)
                        && b.stage is TakeStore,
                    LockStep::AnnounceWait => r == Action::Send(Event::AwaitingUnlock)
                        && b.stage is Recheck,
                    LockStep::Sleep => r == Action::ReadLock { sleep_first: true } && b.stage is Lock,
                }
            },
            RemoveStage::Recheck => r == Action::ReadLock { sleep_first: false } && remove_moves(
                a,
                b,
                RemoveStage::Lock,
            ),
            RemoveStage::TakeStore => r == Action::SetStoreImmutable(false) && remove_moves(
                a,
                b,
                RemoveStage::Taken,
            ),
            RemoveStage::Taken => (r matches Action::MatchEntries { any_version, exact }
                && any_version@ == entry_pattern(a.store@, a.id@, None) && exact@ == entry_pattern(
                a.store@,
                a.id@,
                match a.version {
                    Some(v) => Some(v@),
                    None => None,
                },
            )) && remove_moves(a, b, RemoveStage::Matching),
            RemoveStage::Matching => match outcome {
                Outcome::Entries { any_version, exact } => if any_version@.len() == 0 {
                    remove_fails(a, b, r, PackageManagerError::PackageNotInstalled)
                } else if a.version is Some && exact@.len() == 0 {
                    remove_fails(a, b, r, PackageManagerError::PackageVersionNotInstalled)
                } else {
                    let chosen = if a.version is Some {
                        exact
                    } else {
                        any_version
                    };
                    &&& b.entries == chosen
                    &&& b.links@.len() == 0
                    &&& b.next_link == 0
                    &&& b.next_entry == 0
                    &&& b.ending == a.ending
                    &&& b.lock == a.lock
                    &&& b.stage is ReadLinks
                    &&& r matches Action::ReadFile(p) && p@ == joined(chosen@[0]@, "links"@)
                },
                _ => true,
            },
            RemoveStage::ReadLinks => match outcome {
                Outcome::Text(None) => remove_advances(a, b, r, a.next_entry + 1),
                Outcome::Text(Some(t)) => {
                    &&& views(b.links@) == views(a.links@) + rooted(a.root@, listed_entries(t@))
                    &&& b.entries == a.entries
                    &&& b.next_entry == a.next_entry
                    &&& b.next_link == a.next_link
                    &&& b.ending == a.ending
                    &&& b.lock == a.lock
                    &&& b.stage is DroppedLinks
                    &&& r matches Action::RemoveFile(p) && p@ == joined(
                        a.entries@[a.next_entry as int]@,
                        "links"@,
                    )
                },
                _ => true,
            },
            RemoveStage::DroppedLinks => remove_advances(a, b, r, a.next_entry + 1),
            RemoveStage::Appended => remove_unlinks(a, b, r, 0),
            RemoveStage::Unlinking => remove_unlinks(a, b, r, a.next_link + 1),
            RemoveStage::Release => b.stage is Report && remove_reports(a.ending, b.ending, r),
            RemoveStage::Report => b.stage is Report && remove_reports(a.ending, b.ending, r),
        },
    }
}

/// The invariant of a removal: the entry and link being worked on exist.
pub open spec fn remove_wf(m: Remove) -> bool {
    &&& (m.stage is ReadLinks || m.stage is DroppedLinks) ==> m.next_entry < m.entries@.len()
    &&& (m.stage is Appended) ==> m.next_entry == m.entries@.len()
    &&& (m.stage is Unlinking) ==> m.next_link < m.links@.len()
    &&& m.next_entry <= m.entries@.len()
    &&& m.next_link <= m.links@.len()
}

/// Joins the lines by `'\n'`.
pub fn join_lines(ps: &Vec<String>) -> (r: String)
    ensures
        r@ == lines_joined(views(ps@)),
{
    let newline = "
";
    proof {
        reveal_strlit("
");
    }
    assert(newline@ == seq!['\n']);
    let mut s = String::new();
    let mut i: usize = 0;
    while i < ps.len()
        invariant
            i <= ps@.len(),
            newline@ == seq!['\n'],
            s@ == lines_joined(views(ps@).subrange(0, i as int)),
        decreases ps@.len() - i,
    {
        let ghost before = views(ps@).subrange(0, i as int);
        let ghost after = views(ps@).subrange(0, i + 1);
        assert(after.drop_last() == before);
        assert(after.last() == ps@[i as int]@);
        assert(after[0] == ps@[0]@);
        if i > 0 {
            s.append(newline);
            assert(lines_joined(after) == lines_joined(after.drop_last()) + seq!['\n'] + after.last());
        } else {
            assert(before.len() == 0);
            assert(s@ == Seq::<char>::empty());
        }
        s.append(ps[i].as_str());
        assert(s@ =~= lines_joined(after));
        i = i + 1;
    }
    assert(views(ps@).subrange(0, ps@.len() as int) == views(ps@));
    s
}

/// Adds the links listed in `text`, placed under `root`, to `links`.
pub fn extend_rooted(links: &mut Vec<String>, root: &str, text: &str)
    ensures
        views(final(links)@) == views(old(links)@) + rooted(root@, listed_entries(text@)),
        final(links)@.len() >= old(links)@.len(),
{
    let listed = list_entries(text);
    let ghost start = views(links@);
    let mut i: usize = 0;
    while i < listed.len()
        invariant
            i <= listed@.len(),
            views(listed@) == listed_entries(text@),
            views(links@) == start + rooted(root@, views(listed@).subrange(0, i as int)),
            links@.len() >= old(links)@.len(),
        decreases listed@.len() - i,
    {
        let link = join(root, listed[i].as_str());
        assert(views(listed@)[i as int] == listed@[i as int]@);
        assert(views(listed@).subrange(0, i + 1) == views(listed@).subrange(0, i as int).push(
            listed@[i as int]@,
        ));
        let ghost prior = views(links@);
        links.push(link);
        assert(views(links@) =~= prior.push(joined(root@, listed@[i as int]@)));
        assert(rooted(root@, views(listed@).subrange(0, i + 1)) =~= rooted(
            root@,
            views(listed@).subrange(0, i as int),
        ).push(joined(root@, listed@[i as int]@)));
        i = i + 1;
        assert(views(links@) =~= start + rooted(root@, views(listed@).subrange(0, i as int)));
    }
    assert(views(listed@).subrange(0, listed@.len() as int) == views(listed@));
}

impl PackageManager {
    /// Starts removing the entries of `id`, at `version` or at every version.
    /// Drive the removal with `Remove::next`, starting from `Outcome::Done`.
    pub fn remove(&self, id: String, version: Option<String>) -> (r: Remove)
        ensures
            r.root == self.root,
            r.store@ == store_path(self.root@),
            r.id == id,
            r.version == version,
            r.stage is Start,
            !r.lock.waited,
            r.entries@.len() == 0,
            r.links@.len() == 0,
            r.next_entry == 0,
            r.next_link == 0,
            r.ending.failure is None,
            r.ending.release_failure is None,
            remove_wf(r),
    {
        Remove {
            root: self.root.clone(),
            store: self.store(),
            id,
            version,
            stage: RemoveStage::Start,
            lock: LockWatch::new(),
            entries: Vec::new(),
            next_entry: 0,
            links: Vec::new(),
            next_link: 0,
            ending: Ending::new(),
        }
    }
}

impl Remove {
    pub fn accepts(&self, outcome: &Outcome) -> (r: bool)
        ensures
            r == remove_accepts(self.stage, *outcome),
    {
        match self.stage {
            RemoveStage::Start => true,
            RemoveStage::Lock => match outcome {
                Outcome::Flag(_) | Outcome::Failed(_) => true,
                _ => false,
            },
            RemoveStage::Matching => match outcome {
                Outcome::Entries { .. } | Outcome::Failed(_) => true,
                _ => false,
            },
            RemoveStage::ReadLinks => match outcome {
                Outcome::Text(_) | Outcome::Failed(_) => true,
                _ => false,
            },
            _ => match outcome {
                Outcome::Done | Outcome::Failed(_) => true,
                _ => false,
            },
        }
    }

    fn fail(&mut self, e: PackageManagerError) -> (r: Action)
        requires
            remove_wf(*old(self)),
        ensures
            remove_keeps(*old(self), *final(self)),
            remove_fails(*old(self), *final(self), r, e),
            remove_wf(*final(self)),
    {
        self.ending.failure = Some(e);
        self.stage = RemoveStage::Release;
        Action::SetStoreImmutable(true)
    }

    fn advance(&mut self, k: usize) -> (r: Action)
        requires
            k <= old(self).entries@.len(),
            old(self).store@ == store_path(old(self).root@),
            old(self).next_link <= old(self).links@.len(),
        ensures
            remove_keeps(*old(self), *final(self)),
            remove_advances(*old(self), *final(self), r, k as int),
            remove_wf(*final(self)),
    {
        if k < self.entries.len() {
            self.next_entry = k;
            self.stage = RemoveStage::ReadLinks;
            Action::ReadFile(join(self.entries[k].as_str(), "links"))
        } else {
            self.next_entry = self.entries.len();
            self.stage = RemoveStage::Appended;
            let garbage = join(self.store.as_str(), "garbage");
            Action::AppendLine { file: garbage, text: join_lines(&self.entries) }
        }
    }

    fn unlink(&mut self, j: usize) -> (r: Action)
        requires
            j <= old(self).links@.len(),
            old(self).next_entry <= old(self).entries@.len(),
        ensures
            remove_keeps(*old(self), *final(self)),
            remove_unlinks(*old(self), *final(self), r, j as int),
            remove_wf(*final(self)),
    {
        if j < self.links.len() {
            self.next_link = j;
            self.stage = RemoveStage::Unlinking;
            Action::RemoveFile(self.links[j].clone())
        } else {
            self.next_link = self.links.len();
            self.stage = RemoveStage::Release;
            Action::SetStoreImmutable(true)
        }
    }

    /// Takes the outcome of the last action and gives the next action. The
    /// store is released after every failure, and the errors are reported
    /// after the release.
    pub fn next(&mut self, outcome: Outcome) -> (r: Action)
        requires
            remove_accepts(old(self).stage, outcome),
            remove_wf(*old(self)),
            old(self).store@ == store_path(old(self).root@),
        ensures
            remove_step(*old(self), outcome, *final(self), r),
            remove_wf(*final(self)),
            final(self).store@ == store_path(final(self).root@),
    {
        let outcome = match outcome {
            Outcome::Failed(e) => {
                match self.stage {
                    RemoveStage::Release => {
                        self.ending.release_failure = Some(e);
                        self.stage = RemoveStage::Report;
                        return self.ending.report();
                    },
                    RemoveStage::Report => {
                        return self.ending.report();
                    },
                    _ => {
                        return self.fail(e);
                    },
                }
            },
            other => other,
        };
        match self.stage {
            RemoveStage::Start => {
                self.stage = RemoveStage::Lock;
                Action::ReadLock { sleep_first: false }
            },
            RemoveStage::Lock => {
                let flag = match outcome {
                    Outcome::Flag(f) => f,
                    _ => false,
                };
                match self.lock.observe(flag) {
                    LockStep::Take => {
                        self.stage = RemoveStage::Taken;
                        Action::SetStoreImmutable(false)
                    },
                    LockStep::AnnounceUnlocked => {
                        self.stage = RemoveStage::TakeStore;
                        Action::Send(Event::Unlocked)
                    },
                    LockStep::AnnounceWait => {
                        self.stage = RemoveStage::Recheck;
                        Action::Send(Event::AwaitingUnlock)
                    },
                    LockStep::Sleep => {
                        self.stage = RemoveStage::Lock;
                        Action::ReadLock { sleep_first: true }
                    },
                }
            },
            RemoveStage::Recheck => {
                self.stage = RemoveStage::Lock;
                Action::ReadLock { sleep_first: false }
            },
            RemoveStage::TakeStore => {
                self.stage = RemoveStage::Taken;
                Action::SetStoreImmutable(false)
            },
            RemoveStage::Taken => {
                proof {
                    reveal_strlit("-");
                    reveal_strlit("*");
                    reveal_strlit("-*");
                }
                let mut any = self.id.clone();
                any.append("-*");
                assert(any@ =~= self.id@ + seq!['-'] + seq!['*']);
                let mut exact = self.id.clone();
                exact.append("-");
                match &self.version {
                    Some(v) => {
                        exact.append(v.as_str());
                        assert(exact@ =~= self.id@ + seq!['-'] + v@);
                    },
                    None => {
                        exact.append("*");
                        assert(exact@ =~= self.id@ + seq!['-'] + seq!['*']);
                    },
                }
                let any_version = join(self.store.as_str(), any.as_str());
                let exact = join(self.store.as_str(), exact.as_str());
                self.stage = RemoveStage::Matching;
                Action::MatchEntries { any_version, exact }
            },
            RemoveStage::Matching => match outcome {
                Outcome::Entries { any_version, exact } => {
                    if any_version.len() == 0 {
                        self.fail(PackageManagerError::PackageNotInstalled)
                    } else if self.version.is_some() && exact.len() == 0 {
                        self.fail(PackageManagerError::PackageVersionNotInstalled)
                    } else {
                        self.entries = if self.version.is_some() {
                            exact
                        } else {
                            any_version
                        };
                        self.links = Vec::new();
                        self.next_link = 0;
                        self.advance(0)
                    }
                },
                _ => self.fail(PackageManagerError::PackageNotInstalled),
            },
            RemoveStage::ReadLinks => match outcome {
                Outcome::Text(Some(t)) => {
                    extend_rooted(&mut self.links, self.root.as_str(), t.as_str());
                    self.stage = RemoveStage::DroppedLinks;
                    Action::RemoveFile(join(self.entries[self.next_entry].as_str(), "links"))
                },
                _ => {
                    let _n = self.entries.len();
                    self.advance(self.next_entry + 1)
                },
            },
            RemoveStage::DroppedLinks => {
                let _n = self.entries.len();
                self.advance(self.next_entry + 1)
            },
            RemoveStage::Appended => self.unlink(0),
            RemoveStage::Unlinking => {
                let _n = self.links.len();
                self.unlink(self.next_link + 1)
            },
            RemoveStage::Release => {
                self.stage = RemoveStage::Report;
                self.ending.report()
            },
            RemoveStage::Report => self.ending.report(),
        }
    }
}

/// Removing an id that no store entry has fails with `PackageNotInstalled`;
/// removing a version that none of the id's entries has fails with
/// `PackageVersionNotInstalled`. Either way the store is released next.
pub proof fn lemma_remove_missing(a: Remove, b: Remove, r: Action, any_version: Vec<String>, exact: Vec<String>)
    requires
        a.stage is Matching,
        remove_step(a, Outcome::Entries { any_version, exact }, b, r),
    ensures
        any_version@.len() == 0 ==> r == Action::SetStoreImmutable(true) && b.ending.failure == Some(
            PackageManagerError::PackageNotInstalled,
        ),
        any_version@.len() > 0 && a.version is Some && exact@.len() == 0 ==> r
            == Action::SetStoreImmutable(true) && b.ending.failure == Some(
            PackageManagerError::PackageVersionNotInstalled,
        ),
{
}

/// Every link that an entry's links file lists is queued for removal, as a
/// path on the live filesystem.
pub proof fn lemma_listed_links_queued(a: Remove, b: Remove, r: Action, t: String, l: int)
    requires
        a.stage is ReadLinks,
        remove_step(a, Outcome::Text(Some(t)), b, r),
        0 <= l < listed_entries(t@).len(),
    ensures
        exists|j: int| 0 <= j < b.links@.len() && b.links@[j]@ == joined(a.root@, listed_entries(t@)[l]),
{
    let j = a.links@.len() + l;
    let listed = listed_entries(t@);
    assert(views(b.links@).len() == b.links@.len());
    assert(views(a.links@).len() == a.links@.len());
    assert(views(b.links@)[j] == rooted(a.root@, listed)[l]);
    assert(views(b.links@)[j] == b.links@[j]@);
}

/// Once the garbage list is written, every queued link is removed, one after
/// the other, before the store is released.
pub proof fn lemma_remove_unlinks_all(states: Seq<Remove>, actions: Seq<Action>)
    requires
        states.len() == actions.len() + 1,
        actions.len() == states[0].links@.len() + 1,
        states[0].stage is Appended,
        forall|i: int|
            0 <= i < actions.len() ==> remove_step(
                #[trigger] states[i],
                Outcome::Done,
                states[i + 1],
                actions[i],
            ),
    ensures
        forall|j: int|
            0 <= j < states[0].links@.len() ==> ((#[trigger] actions[j]) matches Action::RemoveFile(p) && p@
                == states[0].links@[j]@),
        actions.last() == Action::SetStoreImmutable(true),
        states.last().stage is Release,
{
    let n = states[0].links@.len() as int;
    lemma_unlink_prefix(states, actions, n);
    assert(remove_step(states[n], Outcome::Done, states[n + 1], actions[n]));
}

proof fn lemma_unlink_prefix(states: Seq<Remove>, actions: Seq<Action>, k: int)
    requires
        states.len() == actions.len() + 1,
        actions.len() == states[0].links@.len() + 1,
        states[0].stage is Appended,
        forall|i: int|
            0 <= i < actions.len() ==> remove_step(
                #[trigger] states[i],
                Outcome::Done,
                states[i + 1],
                actions[i],
            ),
        0 <= k <= states[0].links@.len(),
    ensures
        forall|j: int|
            0 <= j < k ==> ((#[trigger] actions[j]) matches Action::RemoveFile(p) && p@
                == states[0].links@[j]@),
        states[k].links == states[0].links,
        k > 0 ==> states[k].stage is Unlinking && states[k].next_link == k - 1,
        k == 0 ==> states[k].stage is Appended,
    decreases k,
{
    if k > 0 {
        lemma_unlink_prefix(states, actions, k - 1);
        assert(remove_step(states[k - 1], Outcome::Done, states[k], actions[k - 1]));
    }
}

/// The record appended to the garbage list, with its final newline, lists
/// exactly the removed entries, given paths that are not blank and hold no
/// line break.
pub proof fn lemma_garbage_record_lists(ps: Seq<Seq<char>>)
    requires
        forall|i: int|
            0 <= i < ps.len() ==> !is_blank(#[trigger] ps[i]) && ps[i].last() != '\r' && forall|
                j: int,
            |
                0 <= j < ps[i].len() ==> ps[i][j] != '\n',
    ensures
        listed_entries(lines_joined(ps) + seq!['\n']) == ps,
{
    let s = lines_joined(ps) + seq!['\n'];
    lemma_last_index_at(s, '\n', s.len() - 1);
    assert(s.subrange(0, s.len() - 1) == lines_joined(ps));
    assert(s.subrange(s.len() as int, s.len() as int) =~= Seq::<char>::empty());
    lemma_terminated_joined(ps);
    assert(keep(Seq::<char>::empty()) =~= Seq::<Seq<char>>::empty());
    assert(ps + Seq::<Seq<char>>::empty() =~= ps);
}

proof fn lemma_terminated_joined(ps: Seq<Seq<char>>)
    requires
        forall|i: int|
            0 <= i < ps.len() ==> !is_blank(#[trigger] ps[i]) && ps[i].last() != '\r' && forall|
                j: int,
            |
                0 <= j < ps[i].len() ==> ps[i][j] != '\n',
    ensures
        terminated_entries(lines_joined(ps)) == ps,
    decreases ps.len(),
{
    if ps.len() == 0 {
        lemma_last_index_none(Seq::<char>::empty(), '\n');
        assert(is_blank(strip_cr(Seq::<char>::empty())));
        assert(terminated_entries(lines_joined(ps)) =~= ps);
    } else if ps.len() == 1 {
        let p = ps[0];
        assert(!is_blank(p));
        lemma_last_index_none(p, '\n');
        assert(strip_cr(p) == p);
        assert(keep(p) =~= seq![p]);
        assert(terminated_entries(lines_joined(ps)) =~= ps);
    } else {
        let front = ps.drop_last();
        let p = ps.last();
        assert forall|i: int| 0 <= i < front.len() implies !is_blank(#[trigger] front[i])
            && front[i].last() != '\r' && forall|j: int| 0 <= j < front[i].len() ==> front[i][j]
            != '\n' by {
            assert(front[i] == ps[i]);
        }
        lemma_terminated_joined(front);
        let head = lines_joined(front);
        let s = lines_joined(ps);
        assert(s == head + seq!['\n'] + p);
        let k = head.len() as int;
        assert(s[k] == '\n');
        assert forall|j: int| k < j < s.len() implies s[j] != '\n' by {
            assert(s[j] == p[j - k - 1]);
        }
        lemma_last_index_at(s, '\n', k);
        assert(s.subrange(0, k) =~= head);
        assert(s.subrange(k + 1, s.len() as int) =~= p);
        assert(!is_blank(ps[ps.len() - 1]));
        assert(strip_cr(p) == p);
        assert(keep(p) =~= seq![p]);
        assert(front.push(p) =~= ps);
        assert(terminated_entries(s) =~= front + seq![p]);
    }
}

/// Consecutive steps of a removal, each fed an outcome it accepts.
pub open spec fn remove_run(states: Seq<Remove>, outcomes: Seq<Outcome>, actions: Seq<Action>) -> bool {
    &&& states.len() == actions.len() + 1
    &&& outcomes.len() == actions.len()
    &&& forall|i: int|
        0 <= i < actions.len() ==> remove_accepts(#[trigger] states[i].stage, outcomes[i])
            && remove_step(states[i], outcomes[i], states[i + 1], actions[i])
}

/// A removal that has finished released the store on its way: whatever
/// failed, the store's immutable flag was set again before the end.
pub proof fn lemma_remove_releases_before_finish(
    states: Seq<Remove>,
    outcomes: Seq<Outcome>,
    actions: Seq<Action>,
)
    requires
        remove_run(states, outcomes, actions),
        actions.len() > 0,
        remove_before_release(states[0].stage),
        actions.last() is Finish,
    ensures
        exists|k: int|
            0 <= k < actions.len() - 1 && actions[k] == Action::SetStoreImmutable(true)
                && states[k + 1].stage is Release,
{
    let n = actions.len() as int;
    assert(remove_accepts(states[n - 1].stage, outcomes[n - 1]));
    assert(!remove_before_release(states[n - 1].stage));
    lemma_remove_leaves_hold(states, outcomes, actions, 0);
}

proof fn lemma_remove_leaves_hold(
    states: Seq<Remove>,
    outcomes: Seq<Outcome>,
    actions: Seq<Action>,
    i: int,
)
    requires
        remove_run(states, outcomes, actions),
        0 <= i < actions.len(),
        remove_before_release(states[i].stage),
        !remove_before_release(states[actions.len() - 1].stage),
    ensures
        exists|k: int|
            i <= k < actions.len() - 1 && actions[k] == Action::SetStoreImmutable(true)
                && states[k + 1].stage is Release,
    decreases actions.len() - i,
{
    assert(remove_accepts(states[i].stage, outcomes[i]));
    if remove_before_release(states[i + 1].stage) {
        lemma_remove_leaves_hold(states, outcomes, actions, i + 1);
    } else {
        assert(actions[i] == Action::SetStoreImmutable(true) && states[i + 1].stage is Release);
    }
}

} // verus!
