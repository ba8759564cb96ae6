//! The license table: license texts looked up by package name and version.

use crate::text::same_text;
use vstd::prelude::*;

verus! {

/// One line of the table.
#[derive(Debug, Clone, PartialEq, Eq)]
pub struct LicenseEntry {
    pub name: String,
    pub version: String,
    pub license: String,
}

/// What a `LicenseEntry` holds, as mathematical values.
#[verifier::ext_equal]
pub struct LicenseEntryModel {
    pub name: Seq<char>,
    pub version: Seq<char>,
    pub license: Seq<char>,
}

impl View for LicenseEntry {
    type V = LicenseEntryModel;

    open spec fn view(&self) -> LicenseEntryModel {
        LicenseEntryModel { name: self.name@, version: self.version@, license: self.license@ }
    }
}

impl DeepView for LicenseEntry {
    type V = LicenseEntryModel;

    open spec fn deep_view(&self) -> LicenseEntryModel {
        self@
    }
}

/// What package metadata says of one package. Any of the three may be
/// missing.
#[derive(Debug, Clone, PartialEq, Eq)]
pub struct MetadataRow {
    pub name: Option<String>,
    pub version: Option<String>,
    pub license: Option<String>,
}

/// What a `MetadataRow` holds, as mathematical values.
#[verifier::ext_equal]
pub struct MetadataRowModel {
    pub name: Option<Seq<char>>,
    pub version: Option<Seq<char>>,
    pub license: Option<Seq<char>>,
}

impl View for MetadataRow {
    type V = MetadataRowModel;

    open spec fn view(&self) -> MetadataRowModel {
        MetadataRowModel {
            name: self.name.deep_view(),
            version: self.version.deep_view(),
            license: self.license.deep_view(),
        }
    }
}

impl DeepView for MetadataRow {
    type V = MetadataRowModel;

    open spec fn deep_view(&self) -> MetadataRowModel {
        self@
    }
}

/// A package identity and the license text found for it.
pub type LicenseMap = Map<(Seq<char>, Seq<char>), Seq<char>>;

/// The map that the entries make when they are entered one after another: a
/// later entry for the same name and version replaces an earlier one.
pub open spec fn entered(entries: Seq<LicenseEntryModel>) -> LicenseMap
    decreases entries.len(),
{
    if entries.len() == 0 {
        Map::empty()
    } else {
        entered(entries.drop_last()).insert(
            (entries.last().name, entries.last().version),
            entries.last().license,
        )
    }
}

/// The entry that a metadata row gives: none where the row lacks the name,
/// the version or the license.
pub open spec fn entry_of(row: MetadataRowModel) -> Option<LicenseEntryModel> {
    if row.name is Some && row.version is Some && row.license is Some {
        Some(LicenseEntryModel { name: row.name->0, version: row.version->0, license: row.license->0 })
    } else {
        None
    }
}

/// The map that the metadata rows give: the entries of the rows that give
/// one, entered in the order of the rows.
pub open spec fn collected(rows: Seq<MetadataRowModel>) -> LicenseMap {
    entered(rows.filter_map(|row: MetadataRowModel| entry_of(row)))
}

/// License texts by package name and version.
#[derive(Debug, Clone)]
pub struct LicenseTable {
    entries: Vec<LicenseEntry>,
}

impl View for LicenseTable {
    type V = LicenseMap;

    closed spec fn view(&self) -> LicenseMap {
        entered(self.entries.deep_view())
    }
}

impl LicenseTable {
    /// The empty table.
    pub fn new() -> (table: LicenseTable)
        ensures
            table@ == Map::<(Seq<char>, Seq<char>), Seq<char>>::empty(),
    {
        LicenseTable { entries: Vec::new() }
    }

    /// Enters a license for a package, in place of any earlier one.
    pub fn insert(&mut self, name: String, version: String, license: String)
        ensures
            final(self)@ == old(self)@.insert((name@, version@), license@),
    {
        let ghost before = self.entries.deep_view();
        self.entries.push(LicenseEntry { name, version, license });
        assert(self.entries.deep_view().drop_last() =~= before);
    }

    /// The license entered for the package, if any.
    pub fn get(&self, name: &str, version: &str) -> (found: Option<&String>)
        ensures
            found.is_some() == self@.contains_key((name@, version@)),
            found matches Some(license) ==> license@ == self@[(name@, version@)],
    {
        let ghost all = self.entries.deep_view();
        let ghost key = (name@, version@);
        let mut k: usize = self.entries.len();
        assert(all.take(k as int) =~= all);
        while k > 0
            invariant
                k <= self.entries.len(),
                all == self.entries.deep_view(),
                key == (name@, version@),
                entered(all).contains_key(key) == entered(all.take(k as int)).contains_key(key),
                entered(all).contains_key(key) ==> entered(all)[key] == entered(all.take(k as int))[key],
            decreases k,
        {
            k -= 1;
            let entry = &self.entries[k];
            assert(all.take(k + 1).drop_last() =~= all.take(k as int));
            if same_text(entry.name.as_str(), name) && same_text(entry.version.as_str(), version) {
                return Some(&entry.license);
            }
        }
        None
    }
}

/// The license table that package metadata gives. A row that lacks the name,
/// the version or the license is passed over.
pub fn collect_licenses(rows: &Vec<MetadataRow>) -> (table: LicenseTable)
    ensures
        table@ == collected(rows.deep_view()),
{
    let ghost all = rows.deep_view();
    let ghost entry = |row: MetadataRowModel| entry_of(row);
    let mut table = LicenseTable::new();
    let mut i: usize = 0;
    while i < rows.len()
        invariant
            i <= rows.len(),
            all == rows.deep_view(),
            entry == |row: MetadataRowModel| entry_of(row),
            table@ == entered(all.take(i as int).filter_map(entry)),
        decreases rows.len() - i,
    {
        let row = &rows[i];
        let ghost earlier = all.take(i as int).filter_map(entry);
        proof {
            all.lemma_filter_map_take_succ(entry, i as int);
        }
        match (&row.name, &row.version, &row.license) {
            (Some(name), Some(version), Some(license)) => {
                table.insert(name.clone(), version.clone(), license.clone());
                assert((earlier + seq![entry_of(row@)->0]).drop_last() =~= earlier);
            },
            _ => {},
        }
        i += 1;
    }
    assert(all.take(rows.len() as int) =~= all);
    table
}

} // verus!
