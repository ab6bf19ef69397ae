//! Garbage collection: reclaiming store entries that a removal detached, and
//! sweeping links whose targets are gone.
use vstd::prelude::*;

use crate::paths::join;
use crate::store::remove::{extend_rooted, rooted};
use crate::text::{listed_entries, views};
use crate::PackageManager;

verus! {

/// An entry is active while its links file exists and is not empty.
pub open spec fn active(links: Option<Seq<char>>) -> bool {
    links matches Some(t) && t.len() > 0
}

/// Whether a collection deletes an entry of the garbage list, given whether
/// its directory exists and what its links file holds, if it exists.
pub open spec fn collects(exists: bool, links: Option<Seq<char>>) -> bool {
    exists && !active(links)
}

/// The store's entries, each with the text of its links file if it has
/// one, after a collection over the garbage list `garbage`.
pub open spec fn after_collection(
    store: Map<Seq<char>, Option<Seq<char>>>,
    garbage: Seq<Seq<char>>,
) -> Map<Seq<char>, Option<Seq<char>>> {
    store.restrict(
        store.dom().filter(|p: Seq<char>| !(garbage.contains(p) && collects(true, store[p]))),
    )
}

impl PackageManager {
    /// The store entries recorded in the garbage list, whose text is `text`.
    pub fn garbage_entries(&self, text: &str) -> (r: Vec<String>)
        ensures
            views(r@) == rooted(self.root@, listed_entries(text@)),
    {
        let mut r: Vec<String> = Vec::new();
        extend_rooted(&mut r, self.root.as_str(), text);
        assert(views(r@) =~= rooted(self.root@, listed_entries(text@)));
        r
    }

    /// The links file of a store entry given by its path.
    pub fn entry_links_file(entry: &str) -> (r: String)
        ensures
            r@ == crate::paths::joined(entry@, "links"@),
    {
        join(entry, "links")
    }

    /// Whether to delete a store entry recorded in the garbage list: only
    /// where it still exists and no non-empty links file keeps it active.
    pub fn should_collect(exists: bool, links: Option<&str>) -> (r: bool)
        ensures
            r == collects(
                exists,
                match links {
                    Some(t) => Some(t@),
                    None => None,
                },
            ),
    {
        exists && match links {
            Some(t) => t.unicode_len() == 0,
            None => true,
        }
    }

    /// The directories swept for dead links.
    pub fn link_dirs(&self) -> (r: Vec<String>)
        ensures
            views(r@) == seq![
                crate::paths::joined(self.root@, "bin"@),
                crate::paths::joined(self.root@, "lib"@),
            ],
    {
        let r = vec![join(self.root.as_str(), "bin"), join(self.root.as_str(), "lib")];
        assert(views(r@) =~= seq![
            crate::paths::joined(self.root@, "bin"@),
            crate::paths::joined(self.root@, "lib"@),
        ]);
        r
    }

    /// A directory entry is swept when it is a symbolic link whose target
    /// does not resolve.
    pub fn is_dead_link(is_symlink: bool, target_resolves: bool) -> (r: bool)
        ensures
            r == (is_symlink && !target_resolves),
    {
        is_symlink && !target_resolves
    }
}

/// A collection never deletes an active entry, and a second collection over
/// the same garbage list deletes nothing that the first left.
pub proof fn lemma_collection_safe_and_idempotent(
    store: Map<Seq<char>, Option<Seq<char>>>,
    garbage: Seq<Seq<char>>,
)
    ensures
        forall|p: Seq<char>|
            store.contains_key(p) && active(store[p]) ==> after_collection(store, garbage).contains_key(p)
                && after_collection(store, garbage)[p] == store[p],
        after_collection(after_collection(store, garbage), garbage) == after_collection(store, garbage),
{
    let once = after_collection(store, garbage);
    let twice = after_collection(once, garbage);
    assert(twice =~= once);
}

} // verus!
