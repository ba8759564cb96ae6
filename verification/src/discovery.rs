//! Where to look for the lock file of an unpacked project. The library
//! decides what to try next; the caller touches the disk and comes back when
//! an attempt has failed.

use crate::seqs::{first_at_or_after, lemma_first_at_or_after};
use crate::text::same_text;
use vstd::prelude::*;

verus! {

/// Which attempts are still open: lock files from `from` on, or, once these
/// are used up, manifests from `from` on.
#[derive(Debug, Clone, Copy, PartialEq, Eq, Structural)]
pub enum Search {
    Locks { from: usize },
    Manifests { from: usize },
}

/// What the caller is to try next.
#[derive(Debug, Clone, Copy, PartialEq, Eq, Structural)]
pub enum Attempt {
    /// Load the file at this place of the listing as a lock file.
    LoadLock(usize),
    /// See whether the directory of the manifest at this place holds a
    /// source directory, and if so have the lock file generated there.
    ProbeManifest(usize),
    /// Nothing is left to try: the listing holds no usable project.
    GiveUp,
}

/// What to try next in a listing with these file names, and what is left
/// after that: the next lock file while there is one, then the next
/// manifest, then nothing.
pub open spec fn plan(names: Seq<Seq<char>>, search: Search) -> (Search, Attempt) {
    match search {
        Search::Locks { from } => match first_at_or_after(names, "Cargo.lock"@, from as int) {
            Some(at) => (Search::Locks { from: (at + 1) as usize }, Attempt::LoadLock(at as usize)),
            None => plan_manifests(names, 0),
        },
        Search::Manifests { from } => plan_manifests(names, from as int),
    }
}

/// What to try next once the lock files are used up.
pub open spec fn plan_manifests(names: Seq<Seq<char>>, from: int) -> (Search, Attempt) {
    match first_at_or_after(names, "Cargo.toml"@, from) {
        Some(at) => (Search::Manifests { from: (at + 1) as usize }, Attempt::ProbeManifest(at as usize)),
        None => (Search::Manifests { from: names.len() as usize }, Attempt::GiveUp),
    }
}

/// The first place at or after `from` whose file name is `wanted`.
pub fn find_named(file_names: &Vec<String>, wanted: &str, from: usize) -> (found: Option<usize>)
    ensures
        found.is_some() == first_at_or_after(file_names.deep_view(), wanted@, from as int).is_some(),
        found matches Some(at) ==> first_at_or_after(file_names.deep_view(), wanted@, from as int) == Some(
            at as int,
        ),
{
    let ghost names = file_names.deep_view();
    let mut at: usize = from;
    while at < file_names.len()
        invariant
            from <= at,
            names == file_names.deep_view(),
            first_at_or_after(names, wanted@, from as int) == first_at_or_after(names, wanted@, at as int),
        decreases file_names.len() - at,
    {
        if same_text(file_names[at].as_str(), wanted) {
            return Some(at);
        }
        at += 1;
    }
    None
}

impl Search {
    /// The search before anything was tried.
    pub fn start() -> (search: Search)
        ensures
            search == (Search::Locks { from: 0 }),
    {
        Search::Locks { from: 0 }
    }

    /// What to try next, and the search that is left should it fail.
    pub fn advance(self, file_names: &Vec<String>) -> (step: (Search, Attempt))
        ensures
            step == plan(file_names.deep_view(), self),
    {
        match self {
            Search::Locks { from } => match find_named(file_names, "Cargo.lock", from) {
                Some(at) => {
                    proof {
                        lemma_first_at_or_after(file_names.deep_view(), "Cargo.lock"@, from as int);
                        assert(file_names.deep_view().len() == file_names.len());
                    }
                    (Search::Locks { from: at + 1 }, Attempt::LoadLock(at))
                },
                None => Self::advance_manifests(file_names, 0),
            },
            Search::Manifests { from } => Self::advance_manifests(file_names, from),
        }
    }

    /// What to try next once the lock files are used up.
    fn advance_manifests(file_names: &Vec<String>, from: usize) -> (step: (Search, Attempt))
        ensures
            step == plan_manifests(file_names.deep_view(), from as int),
    {
        match find_named(file_names, "Cargo.toml", from) {
            Some(at) => {
                proof {
                    lemma_first_at_or_after(file_names.deep_view(), "Cargo.toml"@, from as int);
                    assert(file_names.deep_view().len() == file_names.len());
                }
                (Search::Manifests { from: at + 1 }, Attempt::ProbeManifest(at))
            },
            None => (Search::Manifests { from: file_names.len() }, Attempt::GiveUp),
        }
    }
}

} // verus!
