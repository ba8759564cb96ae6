//! The resolved dependency snapshot: every package with its exact version and
//! the names of its direct dependencies.

use crate::seqs::first_at_or_after;
use crate::text::same_text;
use vstd::prelude::*;

verus! {

/// One resolved package. Within a snapshot a name may occur with more than
/// one version, so only name and version together identify a package.
#[derive(Debug, Clone, PartialEq, Eq)]
pub struct Package {
    pub name: String,
    pub version: String,
    pub source: Option<String>,
    pub checksum: Option<String>,
    pub dependencies: Vec<String>,
}

/// What a `Package` holds, as mathematical values.
#[verifier::ext_equal]
pub struct PackageModel {
    pub name: Seq<char>,
    pub version: Seq<char>,
    pub source: Option<Seq<char>>,
    pub checksum: Option<Seq<char>>,
    pub dependencies: Seq<Seq<char>>,
}

impl View for Package {
    type V = PackageModel;

    open spec fn view(&self) -> PackageModel {
        PackageModel {
            name: self.name@,
            version: self.version@,
            source: self.source.deep_view(),
            checksum: self.checksum.deep_view(),
            dependencies: self.dependencies.deep_view(),
        }
    }
}

impl DeepView for Package {
    type V = PackageModel;

    open spec fn deep_view(&self) -> PackageModel {
        self@
    }
}

/// The packages of one build in the order of the lock file, and the root
/// package where the lock file names one.
#[derive(Debug, Clone, PartialEq, Eq)]
pub struct LockSnapshot {
    pub packages: Vec<Package>,
    pub root: Option<Package>,
}

/// What a `LockSnapshot` holds, as mathematical values.
#[verifier::ext_equal]
pub struct LockSnapshotModel {
    pub packages: Seq<PackageModel>,
    pub root: Option<PackageModel>,
}

impl View for LockSnapshot {
    type V = LockSnapshotModel;

    open spec fn view(&self) -> LockSnapshotModel {
        LockSnapshotModel { packages: self.packages.deep_view(), root: self.root.deep_view() }
    }
}

impl DeepView for LockSnapshot {
    type V = LockSnapshotModel;

    open spec fn deep_view(&self) -> LockSnapshotModel {
        self@
    }
}

/// The names of the packages, in their order.
pub open spec fn names_of(packages: Seq<PackageModel>) -> Seq<Seq<char>> {
    packages.map_values(|package: PackageModel| package.name)
}

/// The position of the first package that bears `name`.
pub open spec fn first_named(packages: Seq<PackageModel>, name: Seq<char>) -> Option<int> {
    first_at_or_after(names_of(packages), name, 0)
}

impl Package {
    /// A package with no source and no checksum.
    pub fn new(name: String, version: String, dependencies: Vec<String>) -> (package: Package)
        ensures
            package@ == (PackageModel {
                name: name@,
                version: version@,
                source: None,
                checksum: None,
                dependencies: dependencies.deep_view(),
            }),
    {
        Package { name, version, source: None, checksum: None, dependencies }
    }
}

impl LockSnapshot {
    /// A snapshot of the given packages without a root.
    pub fn new(packages: Vec<Package>) -> (snapshot: LockSnapshot)
        ensures
            snapshot@ == (LockSnapshotModel { packages: packages.deep_view(), root: None }),
    {
        LockSnapshot { packages, root: None }
    }

    /// How many packages the snapshot holds.
    pub fn package_count(&self) -> (count: usize)
        ensures
            count == self@.packages.len(),
    {
        self.packages.len()
    }

    /// The position of the first package that bears `name`. A name that
    /// occurs with several versions resolves to the one that comes first.
    pub fn find_by_name(&self, name: &str) -> (found: Option<usize>)
        ensures
            found.is_some() == first_named(self@.packages, name@).is_some(),
            found matches Some(at) ==> first_named(self@.packages, name@) == Some(at as int),
    {
        let ghost packages = self@.packages;
        let mut at: usize = 0;
        while at < self.packages.len()
            invariant
                at <= self.packages.len(),
                packages == self@.packages,
                first_named(packages, name@) == first_at_or_after(names_of(packages), name@, at as int),
            decreases self.packages.len() - at,
        {
            if same_text(self.packages[at].name.as_str(), name) {
                return Some(at);
            }
            at += 1;
        }
        None
    }
}

} // verus!
