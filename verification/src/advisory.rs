//! Advisory records, the rule that decides whether a version is affected by
//! one, and the index that groups the records by package name.

use crate::ranges::{decide_affected, in_any, in_any_range, is_version_text, rule_affected, version_parses};
use crate::seqs::lemma_filter_push;
use crate::text::same_text;
use vstd::prelude::*;

verus! {

/// One advisory of the database. `unaffected` and `patched` hold version
/// ranges as text; every version outside both is presumed affected.
#[derive(Debug, Clone, PartialEq, Eq)]
pub struct AdvisoryRecord {
    pub id: String,
    pub package: String,
    pub description: String,
    pub severity: Option<String>,
    pub unaffected: Vec<String>,
    pub patched: Vec<String>,
    pub references: Vec<String>,
    pub withdrawn: bool,
    pub informational: bool,
}

/// What an `AdvisoryRecord` holds, as mathematical values.
#[verifier::ext_equal]
pub struct AdvisoryModel {
    pub id: Seq<char>,
    pub package: Seq<char>,
    pub description: Seq<char>,
    pub severity: Option<Seq<char>>,
    pub unaffected: Seq<Seq<char>>,
    pub patched: Seq<Seq<char>>,
    pub references: Seq<Seq<char>>,
    pub withdrawn: bool,
    pub informational: bool,
}

impl View for AdvisoryRecord {
    type V = AdvisoryModel;

    open spec fn view(&self) -> AdvisoryModel {
        AdvisoryModel {
            id: self.id@,
            package: self.package@,
            description: self.description@,
            severity: self.severity.deep_view(),
            unaffected: self.unaffected.deep_view(),
            patched: self.patched.deep_view(),
            references: self.references.deep_view(),
            withdrawn: self.withdrawn,
            informational: self.informational,
        }
    }
}

impl DeepView for AdvisoryRecord {
    type V = AdvisoryModel;

    open spec fn deep_view(&self) -> AdvisoryModel {
        self@
    }
}

/// An advisory that can produce a finding: neither withdrawn nor purely
/// informational.
pub open spec fn is_actionable(advisory: AdvisoryModel) -> bool {
    !advisory.withdrawn && !advisory.informational
}

/// An actionable advisory that declares exactly this package name. Names are
/// compared character by character. Known limit: an advisory filed under an
/// alias or a former name of a package is not found for it.
pub open spec fn concerns(advisory: AdvisoryModel, name: Seq<char>) -> bool {
    is_actionable(advisory) && advisory.package == name
}

/// Whether the advisory affects the version: the version is a semantic
/// version, lies in no patched range and in no unaffected range.
pub open spec fn affected(version: Seq<char>, advisory: AdvisoryModel) -> bool {
    rule_affected(
        is_version_text(version),
        in_any_range(advisory.patched, version),
        in_any_range(advisory.unaffected, version),
    )
}

/// The places of a database of `n` advisories, in rising order.
pub open spec fn places(n: int) -> Seq<usize> {
    Seq::new(n as nat, |at: int| at as usize)
}

/// The positions, in rising order, of the advisories among the first `n` of
/// `db` that concern `name`.
pub open spec fn positions_upto(db: Seq<AdvisoryModel>, name: Seq<char>, n: int) -> Seq<usize> {
    places(n).filter(|at: usize| concerns(db[at as int], name))
}

/// The positions, in rising order, of the advisories of `db` that concern
/// `name`.
pub open spec fn positions_of(db: Seq<AdvisoryModel>, name: Seq<char>) -> Seq<usize> {
    positions_upto(db, name, db.len() as int)
}

/// One more advisory adds its position where it concerns the name, and
/// nothing otherwise.
pub proof fn lemma_positions_step(db: Seq<AdvisoryModel>, name: Seq<char>, n: int)
    requires
        0 <= n < db.len() <= usize::MAX,
    ensures
        positions_upto(db, name, n + 1) == if concerns(db[n], name) {
            positions_upto(db, name, n).push(n as usize)
        } else {
            positions_upto(db, name, n)
        },
{
    assert(places(n + 1) =~= places(n).push(n as usize));
    lemma_filter_push(places(n), n as usize, |at: usize| concerns(db[at as int], name));
}

/// Every position that `positions_upto` lists lies below `n` and holds an
/// advisory that concerns the name, and there are at most `n` of them.
pub proof fn lemma_positions_sound(db: Seq<AdvisoryModel>, name: Seq<char>, n: int)
    requires
        0 <= n <= db.len() <= usize::MAX,
    ensures
        positions_upto(db, name, n).len() <= n,
        forall|k: int|
            0 <= k < positions_upto(db, name, n).len() ==> {
                &&& 0 <= #[trigger] positions_upto(db, name, n)[k] < n
                &&& concerns(db[positions_upto(db, name, n)[k] as int], name)
            },
    decreases n,
{
    if n > 0 {
        lemma_positions_sound(db, name, n - 1);
        lemma_positions_step(db, name, n - 1);
    }
}

/// Patched takes precedence: a version that lies in a patched range of an
/// advisory is not affected by it, whatever its unaffected ranges hold.
pub proof fn lemma_patched_takes_precedence(version: Seq<char>, advisory: AdvisoryModel)
    requires
        in_any_range(advisory.patched, version),
    ensures
        !affected(version, advisory),
        forall|unaffected: Seq<Seq<char>>|
            !#[trigger] affected(version, AdvisoryModel { unaffected, ..advisory }),
{
}

/// A version that lies in an unaffected range of an advisory is not affected
/// by it, and a text that is no semantic version is affected by none.
pub proof fn lemma_unaffected_and_unparsable(version: Seq<char>, advisory: AdvisoryModel)
    ensures
        in_any_range(advisory.unaffected, version) ==> !affected(version, advisory),
        !is_version_text(version) ==> !affected(version, advisory),
{
}

/// A semantic version that lies in no range of an advisory is affected by
/// it.
pub proof fn lemma_outside_all_ranges(version: Seq<char>, advisory: AdvisoryModel)
    requires
        is_version_text(version),
        !in_any_range(advisory.patched, version),
        !in_any_range(advisory.unaffected, version),
    ensures
        affected(version, advisory),
{
}

/// Whether the advisory affects the version. Patched ranges are asked first
/// and take precedence over unaffected ranges.
pub fn is_version_affected(version: &str, advisory: &AdvisoryRecord) -> (hit: bool)
    ensures
        hit == affected(version@, advisory@),
{
    let parses = version_parses(version);
    let patched = in_any(&advisory.patched, version);
    let unaffected = in_any(&advisory.unaffected, version);
    decide_affected(parses, patched, unaffected)
}

/// No name occurs twice among `names`, and every name has its group.
spec fn slots_wf(names: Seq<String>, groups: Seq<Vec<usize>>) -> bool {
    &&& names.len() == groups.len()
    &&& forall|a: int, b: int| 0 <= a < b < names.len() ==> (#[trigger] names[a])@ != (#[trigger] names[b])@
}

/// Whether `name` is among `names`.
spec fn listed(names: Seq<String>, name: Seq<char>) -> bool {
    exists|e: int| 0 <= e < names.len() && (#[trigger] names[e])@ == name
}

/// The group that goes with `name`; empty where the name is not listed.
spec fn group_of(names: Seq<String>, groups: Seq<Vec<usize>>, name: Seq<char>) -> Seq<usize> {
    if listed(names, name) {
        groups[choose|e: int| 0 <= e < names.len() && (#[trigger] names[e])@ == name]@
    } else {
        Seq::empty()
    }
}

/// Where no name occurs twice, the group of a listed name is the one in its
/// slot.
proof fn lemma_group_at(names: Seq<String>, groups: Seq<Vec<usize>>, e: int)
    requires
        slots_wf(names, groups),
        0 <= e < names.len(),
    ensures
        listed(names, names[e]@),
        group_of(names, groups, names[e]@) == groups[e]@,
{
}

/// The slot of `name` among `names`.
fn slot_of(names: &Vec<String>, name: &str) -> (slot: Option<usize>)
    ensures
        match slot {
            Some(e) => e < names.len() && names[e as int]@ == name@,
            None => !listed(names@, name@),
        },
{
    let mut e: usize = 0;
    while e < names.len()
        invariant
            e <= names.len(),
            forall|j: int| 0 <= j < e ==> (#[trigger] names[j])@ != name@,
        decreases names.len() - e,
    {
        if same_text(names[e].as_str(), name) {
            return Some(e);
        }
        e += 1;
    }
    None
}

/// The advisories of a database grouped by the package name they declare.
/// Withdrawn and informational advisories are left out. A group lists its
/// advisories by their positions in the database, in the order of the
/// database.
pub struct AdvisoryIndex {
    names: Vec<String>,
    groups: Vec<Vec<usize>>,
}

impl AdvisoryIndex {
    #[verifier::type_invariant]
    spec fn wf(self) -> bool {
        slots_wf(self.names@, self.groups@)
    }

    /// Whether the index has a group for `name`.
    pub closed spec fn has(&self, name: Seq<char>) -> bool {
        listed(self.names@, name)
    }

    /// The positions grouped under `name`; empty where the index has no such
    /// group.
    pub closed spec fn positions(&self, name: Seq<char>) -> Seq<usize> {
        group_of(self.names@, self.groups@, name)
    }

    /// The index of `db`: it has a group for each name that an actionable
    /// advisory of `db` declares, and the group holds exactly the positions
    /// of the advisories that concern the name.
    pub open spec fn indexes(&self, db: Seq<AdvisoryModel>) -> bool {
        &&& forall|name: Seq<char>| #[trigger] self.positions(name) == positions_of(db, name)
        &&& forall|name: Seq<char>| #[trigger] self.has(name) == (positions_of(db, name).len() > 0)
    }

    /// Groups the advisories of `db` by package name, leaving out those that
    /// are withdrawn or informational.
    pub fn build(db: &Vec<AdvisoryRecord>) -> (index: AdvisoryIndex)
        ensures
            index.indexes(db.deep_view()),
    {
        let ghost records = db.deep_view();
        let mut names: Vec<String> = Vec::new();
        let mut groups: Vec<Vec<usize>> = Vec::new();
        let mut i: usize = 0;
        while i < db.len()
            invariant
                i <= db.len(),
                records == db.deep_view(),
                slots_wf(names@, groups@),
                forall|e: int|
                    0 <= e < names.len() ==> (#[trigger] groups[e])@ == positions_upto(
                        records,
                        names[e]@,
                        i as int,
                    ),
                forall|e: int| 0 <= e < names.len() ==> (#[trigger] groups[e])@.len() > 0,
                forall|name: Seq<char>|
                    !listed(names@, name) ==> #[trigger] positions_upto(records, name, i as int)
                        == Seq::<usize>::empty(),
            decreases db.len() - i,
        {
            let advisory = &db[i];
            let ghost names_before = names@;
            let ghost declared = advisory.package@;
            proof {
                assert forall|name: Seq<char>| #[trigger]
                    positions_upto(records, name, i + 1) == if concerns(advisory@, name) {
                        positions_upto(records, name, i as int).push(i)
                    } else {
                        positions_upto(records, name, i as int)
                    } by {
                    lemma_positions_step(records, name, i as int);
                }
            }
            if !advisory.withdrawn && !advisory.informational {
                match slot_of(&names, advisory.package.as_str()) {
                    Some(e) => {
                        groups[e].push(i);
                    },
                    None => {
                        let mut group: Vec<usize> = Vec::new();
                        group.push(i);
                        names.push(advisory.package.clone());
                        groups.push(group);
                        proof {
                            let last = names_before.len() as int;
                            assert(names[last]@ == declared);
                            assert forall|name: Seq<char>| !listed(names@, name) implies #[trigger]
                                positions_upto(records, name, i + 1) == Seq::<usize>::empty() by {
                                if listed(names_before, name) {
                                    let w = choose|w: int|
                                        0 <= w < names_before.len() && (#[trigger] names_before[w])@
                                            == name;
                                    assert(names[w]@ == name);
                                }
                            }
                        }
                    },
                }
            }
            i += 1;
        }
        let index = AdvisoryIndex { names, groups };
        proof {
            assert forall|name: Seq<char>| #[trigger]
                index.has(name) == (positions_of(records, name).len() > 0) by {
                if listed(index.names@, name) {
                    let e = choose|e: int|
                        0 <= e < index.names.len() && (#[trigger] index.names[e])@ == name;
                    lemma_group_at(index.names@, index.groups@, e);
                }
            }
        }
        index
    }

    /// The group of `name`: the positions in the database of the advisories
    /// that concern it, or `None` where the index has no group for it.
    pub fn candidates(&self, name: &str) -> (group: Option<&Vec<usize>>)
        ensures
            group.is_some() == self.has(name@),
            group matches Some(found) ==> found@ == self.positions(name@),
    {
        proof {
            use_type_invariant(self);
        }
        match slot_of(&self.names, name) {
            Some(e) => {
                Some(&self.groups[e])
            },
            None => None,
        }
    }
}

} // verus!
