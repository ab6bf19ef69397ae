//! Generations: numbered snapshots of the active package set.
use vstd::prelude::*;

use crate::error::PackageManagerError;
use crate::paths::{join, joined};
use crate::text::{decimal, decimal_text, parse_unsigned, parsed_unsigned, trim, trimmed};
use crate::{generations_path, PackageManager};

verus! {

pub type GenerationId = u32;

#[derive(Debug, Clone, Copy, PartialEq, Eq, Structural)]
pub struct Generation {
    /// ID of the generation.
    pub id: GenerationId,
    /// Unix timestamp of the generation's creation date.
    pub created: u64,
}

/// What reading a generation from its directory name and the text of its
/// `created` file gives.
pub open spec fn generation_read(name: Seq<char>, created: Seq<char>) -> Result<Generation, PackageManagerError> {
    match parsed_unsigned(name, u32::MAX as nat) {
        Err(e) => Err(PackageManagerError::ParseInt(e)),
        Ok(id) => match parsed_unsigned(trimmed(created), u64::MAX as nat) {
            Err(e) => Err(PackageManagerError::ParseInt(e)),
            Ok(c) => Ok(Generation { id: id as u32, created: c as u64 }),
        },
    }
}

/// The directory of generation `id` under a root.
pub open spec fn generation_path(root: Seq<char>, id: nat) -> Seq<char> {
    joined(generations_path(root), decimal(id))
}

/// The generation that follows `current`, if an id is left for it.
pub open spec fn next_id(current: GenerationId) -> Result<GenerationId, PackageManagerError> {
    if current < u32::MAX {
        Ok((current + 1) as u32)
    } else {
        Err(PackageManagerError::GenerationLimitReached)
    }
}

impl PackageManager {
    /// Reads a generation from the name of its directory and the text of
    /// its `created` file.
    pub fn read_generation(name: &str, created: &str) -> (r: Result<Generation, PackageManagerError>)
        ensures
            r == generation_read(name@, created@),
    {
        let id = match parse_unsigned(name, 0xFFFF_FFFF) {
            Ok(v) => v as u32,
            Err(e) => return Err(PackageManagerError::ParseInt(e)),
        };
        let text = trim(created);
        match parse_unsigned(text.as_str(), 0xFFFF_FFFF_FFFF_FFFF) {
            Ok(c) => Ok(Generation { id, created: c }),
            Err(e) => Err(PackageManagerError::ParseInt(e)),
        }
    }

    /// Reads every generation from the name of its directory and the text
    /// of its `created` file; the first that cannot be read fails the list.
    pub fn list_generations(entries: &Vec<(String, String)>) -> (r: Result<Vec<Generation>, PackageManagerError>)
        ensures
            match r {
                Ok(list) => list@.len() == entries@.len() && forall|i: int|
                    0 <= i < entries@.len() ==> Ok::<Generation, PackageManagerError>(#[trigger] list@[i])
                        == generation_read(entries@[i].0@, entries@[i].1@),
                Err(e) => exists|k: int|
                    0 <= k < entries@.len() && generation_read(entries@[k].0@, entries@[k].1@) == Err::<
                        Generation,
                        PackageManagerError,
                    >(e) && forall|j: int|
                        0 <= j < k ==> (#[trigger] generation_read(entries@[j].0@, entries@[j].1@)) is Ok,
            },
    {
        let mut list: Vec<Generation> = Vec::new();
        let mut i: usize = 0;
        while i < entries.len()
            invariant
                i <= entries@.len(),
                list@.len() == i,
                forall|j: int|
                    0 <= j < i ==> Ok::<Generation, PackageManagerError>(#[trigger] list@[j])
                        == generation_read(entries@[j].0@, entries@[j].1@),
            decreases entries@.len() - i,
        {
            let entry = &entries[i];
            match Self::read_generation(entry.0.as_str(), entry.1.as_str()) {
                Ok(g) => list.push(g),
                Err(e) => {
                    assert forall|j: int| 0 <= j < i implies (#[trigger] generation_read(
                        entries@[j].0@,
                        entries@[j].1@,
                    )) is Ok by {
                        assert(Ok::<Generation, PackageManagerError>(list@[j]) == generation_read(
                            entries@[j].0@,
                            entries@[j].1@,
                        ));
                    }
                    return Err(e);
                },
            }
            i = i + 1;
        }
        Ok(list)
    }

    /// The directory of generation `id`.
    pub fn generation_dir(&self, id: GenerationId) -> (r: String)
        ensures
            r@ == generation_path(self.root@, id as nat),
    {
        let name = decimal_text(id as u64);
        join(self.generations().as_str(), name.as_str())
    }

    /// What the `current` link in the generations directory points to for
    /// generation `id`: the bare name of its directory, so that the root
    /// can move.
    pub fn current_link_target(id: GenerationId) -> (r: String)
        ensures
            r@ == decimal(id as nat),
    {
        decimal_text(id as u64)
    }

    /// The directory to create for the generation after `current`.
    pub fn make_generation(&self, current: &Generation) -> (r: Result<String, PackageManagerError>)
        ensures
            match next_id(current.id) {
                Ok(n) => r matches Ok(p) && p@ == generation_path(self.root@, n as nat),
                Err(e) => r matches Err(f) && f == e,
            },
    {
        if current.id == 0xFFFF_FFFF {
            return Err(PackageManagerError::GenerationLimitReached);
        }
        Ok(self.generation_dir(current.id + 1))
    }
}

/// The generation made after generation `n` has the next id, and its
/// directory is named by that id; a `current` link set to generation `k`
/// reads back as `k`.
pub proof fn lemma_generation_ids(n: GenerationId, k: GenerationId, created: Seq<char>, root: Seq<char>)
    requires
        n < u32::MAX,
        parsed_unsigned(trimmed(created), u64::MAX as nat) is Ok,
    ensures
        next_id(n) matches Ok(m) && m > n && m == n + 1,
        generation_read(decimal(k as nat), created) matches Ok(g) && g.id == k,
        generation_read(decimal((n + 1) as nat), created) matches Ok(g) && g.id == n + 1,
{
    crate::text::lemma_decimal_round_trip(k as nat, u32::MAX as nat);
    crate::text::lemma_decimal_round_trip((n + 1) as nat, u32::MAX as nat);
}

} // verus!
